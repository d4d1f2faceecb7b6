//! The QUIC server's self-signed certificate.
use vstd::prelude::*;

use crate::error::Error;
use crate::text::{concat2, owned};

verus! {

/// `rcgen::generate_simple_self_signed`: a new key pair and a certificate for
/// `names` signed with it, as DER bytes (certificate, PKCS#8 key), or the
/// error's message. The key is random, so nothing is stated of the bytes.
#[verifier::external_body]
fn self_signed_der(names: Vec<String>) -> (r: Result<(Vec<u8>, Vec<u8>), String>) {
    let rcgen::CertifiedKey { cert, key_pair } =
        rcgen::generate_simple_self_signed(names).map_err(|e| e.to_string())?;
    Ok((cert.der().to_vec(), key_pair.serialize_der()))
}

/// What certificate generation gives: the certificate as a chain of one,
/// with its key; or the generator's message as a configuration error.
pub fn self_signed_outcome(outcome: Result<(Vec<u8>, Vec<u8>), String>) -> (r: Result<(Vec<Vec<u8>>, Vec<u8>), Error>)
    ensures
        match outcome {
            Ok((cert, key)) => r matches Ok((chain, k)) && chain@ == seq![cert] && k == key,
            Err(e) => r matches Err(Error::Config(m)) && m@ == "rcgen: "@ + e@,
        },
{
    match outcome {
        Ok((cert, key)) => {
            let mut chain: Vec<Vec<u8>> = Vec::new();
            chain.push(cert);
            Ok((chain, key))
        },
        Err(e) => Err(Error::Config(concat2("rcgen: ", e.as_str()))),
    }
}

/// The names the server's self-signed certificate is made for: `localhost`
/// alone.
pub fn certificate_names() -> (v: Vec<String>)
    ensures
        v@.len() == 1,
        v@[0]@ == "localhost"@,
{
    let mut names: Vec<String> = Vec::new();
    names.push(owned("localhost"));
    names
}

/// A self-signed certificate for `certificate_names`, for the QUIC server
/// endpoint: a chain of one certificate and its key, or `Error::Config` with
/// the generator's message.
pub fn generate_self_signed() -> (r: Result<(Vec<Vec<u8>>, Vec<u8>), Error>)
    ensures
        r matches Ok((chain, _)) ==> chain@.len() == 1,
        r matches Err(e) ==> (e matches Error::Config(m) && m@.len() >= 7 && m@.take(7) == "rcgen: "@),
{
    let r = self_signed_outcome(self_signed_der(certificate_names()));
    proof {
        reveal_strlit("rcgen: ");
        if r is Err {
            let m = r->Err_0->Config_0;
            assert(m@.take(7) =~= "rcgen: "@);
        }
    }
    r
}

} // verus!
