use talos::certs::{generate_self_signed, self_signed_outcome};
use talos::error::Error;

#[test]
fn self_signed_certificate_is_generated() {
    let (chain, key) = generate_self_signed().expect("certificate");
    assert_eq!(chain.len(), 1);
    assert!(!chain[0].is_empty());
    assert!(!key.is_empty());
    // DER sequences start with the SEQUENCE tag.
    assert_eq!(chain[0][0], 0x30);
    assert_eq!(key[0], 0x30);
}

#[test]
fn certificate_outcomes() {
    assert_eq!(
        self_signed_outcome(Ok((vec![1, 2], vec![3]))).unwrap(),
        (vec![vec![1, 2]], vec![3])
    );
    match self_signed_outcome(Err("no entropy".into())) {
        Err(Error::Config(m)) => assert_eq!(m, "rcgen: no entropy"),
        other => panic!("unexpected: {other:?}"),
    }
}

#[test]
fn certificate_is_made_for_localhost() {
    assert_eq!(talos::certs::certificate_names(), vec!["localhost".to_string()]);
}
