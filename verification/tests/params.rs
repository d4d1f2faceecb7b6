use talos::protocol::params::{
    double_candidates, parse_array_elements, parse_bool, parse_typed_array, strip_quotes,
    write_seq, ParamValue,
};

fn readings(input: &str) -> Vec<Option<u64>> {
    double_candidates(input)
        .iter()
        .map(|t| t.parse::<f64>().ok().map(f64::to_bits))
        .collect()
}

fn parse(input: &str) -> ParamValue {
    ParamValue::parse(input, &readings(input))
}

fn write_f64(v: f64) -> String {
    if v.is_finite() && v == v.trunc() {
        format!("{v:.1}")
    } else {
        format!("{v}")
    }
}

fn doubles(v: &ParamValue) -> Vec<String> {
    match v {
        ParamValue::Double(d) => vec![write_f64(f64::from_bits(*d))],
        ParamValue::DoubleArray(a) => a.iter().map(|d| write_f64(f64::from_bits(*d))).collect(),
        _ => vec![],
    }
}

fn show(v: &ParamValue) -> String {
    v.display(&doubles(v))
}

fn parse_preserving(input: &str, current: &ParamValue) -> ParamValue {
    ParamValue::parse_preserving_type(input, current, &doubles(current), &readings(input))
}

fn double(v: f64) -> ParamValue {
    ParamValue::Double(v.to_bits())
}

fn doubles_of(v: &[f64]) -> ParamValue {
    ParamValue::DoubleArray(v.iter().map(|d| d.to_bits()).collect())
}

#[test]
fn params_param_value_parse_infers_scalar_types() {
    assert_eq!(parse("true"), ParamValue::Bool(true));
    assert_eq!(parse("False"), ParamValue::Bool(false));
    assert_eq!(parse("42"), ParamValue::Integer(42));
    assert_eq!(parse("-7"), ParamValue::Integer(-7));
    assert_eq!(parse("3.14"), double(3.14));
    assert_eq!(parse("1.0"), double(1.0));
    assert_eq!(parse("hello"), ParamValue::String("hello".into()));
    // Quoted digits stay a string rather than becoming a number.
    assert_eq!(parse("\"123\""), ParamValue::String("123".into()));
}

#[test]
fn params_param_value_parse_infers_arrays() {
    assert_eq!(parse("[1, 2, 3]"), ParamValue::IntegerArray(vec![1, 2, 3]));
    assert_eq!(parse("[1.5, 2.0]"), doubles_of(&[1.5, 2.0]));
    assert_eq!(parse("[true, false]"), ParamValue::BoolArray(vec![true, false]));
    assert_eq!(parse("[a, b]"), ParamValue::StringArray(vec!["a".into(), "b".into()]));
    assert_eq!(parse("[]"), ParamValue::StringArray(vec![]));
}

#[test]
fn params_param_value_parse_preserving_type_keeps_existing_string_scalars() {
    assert_eq!(
        parse_preserving("42", &ParamValue::String("old".into())),
        ParamValue::String("42".into())
    );
    assert_eq!(
        parse_preserving("false", &ParamValue::String("old".into())),
        ParamValue::String("false".into())
    );
    assert_eq!(
        parse_preserving("[1, 2]", &ParamValue::String("old".into())),
        ParamValue::String("[1, 2]".into())
    );
}

#[test]
fn params_param_value_parse_preserving_type_keeps_unchanged_display_only_values() {
    let bytes = ParamValue::ByteArray(vec![1, 2, 3]);
    assert_eq!(parse_preserving(&show(&bytes), &bytes), bytes);

    let strings = ParamValue::StringArray(vec!["a,b".into()]);
    assert_eq!(parse_preserving(&show(&strings), &strings), strings);
}

#[test]
fn params_param_value_display_round_trips_through_parse() {
    for value in [
        ParamValue::Bool(true),
        ParamValue::Integer(42),
        double(1.0),
        double(3.14),
        ParamValue::String("hello".into()),
        ParamValue::IntegerArray(vec![1, 2, 3]),
        doubles_of(&[1.0, 2.5]),
        ParamValue::BoolArray(vec![true, false]),
    ] {
        let shown = show(&value);
        assert_eq!(parse(&shown), value, "round trip via '{shown}'");
    }
}

#[test]
fn tests_param_value_parse_infers_scalar_types() {
    assert_eq!(parse("true"), ParamValue::Bool(true));
    assert_eq!(parse("False"), ParamValue::Bool(false));
    assert_eq!(parse("42"), ParamValue::Integer(42));
    assert_eq!(parse("-7"), ParamValue::Integer(-7));
    assert_eq!(parse("3.14"), double(3.14));
    assert_eq!(parse("1.0"), double(1.0));
    assert_eq!(parse("hello"), ParamValue::String("hello".into()));
    // Quoted digits stay a string rather than becoming a number.
    assert_eq!(parse("\"123\""), ParamValue::String("123".into()));
}

#[test]
fn tests_param_value_parse_infers_arrays() {
    assert_eq!(parse("[1, 2, 3]"), ParamValue::IntegerArray(vec![1, 2, 3]));
    assert_eq!(parse("[1.5, 2.0]"), doubles_of(&[1.5, 2.0]));
    assert_eq!(parse("[true, false]"), ParamValue::BoolArray(vec![true, false]));
    assert_eq!(parse("[a, b]"), ParamValue::StringArray(vec!["a".into(), "b".into()]));
    assert_eq!(parse("[]"), ParamValue::StringArray(vec![]));
}

#[test]
fn tests_param_value_parse_preserving_type_keeps_existing_string_scalars() {
    assert_eq!(
        parse_preserving("42", &ParamValue::String("old".into())),
        ParamValue::String("42".into())
    );
    assert_eq!(
        parse_preserving("false", &ParamValue::String("old".into())),
        ParamValue::String("false".into())
    );
    assert_eq!(
        parse_preserving("[1, 2]", &ParamValue::String("old".into())),
        ParamValue::String("[1, 2]".into())
    );
}

#[test]
fn tests_param_value_parse_preserving_type_keeps_unchanged_display_only_values() {
    let bytes = ParamValue::ByteArray(vec![1, 2, 3]);
    assert_eq!(parse_preserving(&show(&bytes), &bytes), bytes);

    let strings = ParamValue::StringArray(vec!["a,b".into()]);
    assert_eq!(parse_preserving(&show(&strings), &strings), strings);
}

#[test]
fn tests_param_value_display_round_trips_through_parse() {
    for value in [
        ParamValue::Bool(true),
        ParamValue::Integer(42),
        double(1.0),
        double(3.14),
        ParamValue::String("hello".into()),
        ParamValue::IntegerArray(vec![1, 2, 3]),
        doubles_of(&[1.0, 2.5]),
        ParamValue::BoolArray(vec![true, false]),
    ] {
        let shown = show(&value);
        assert_eq!(parse(&shown), value, "round trip via '{shown}'");
    }
}

#[test]
fn parse_bool_accepts_three_spellings() {
    for (s, v) in [("true", true), ("True", true), ("TRUE", true), ("false", false), ("False", false), ("FALSE", false)] {
        assert_eq!(parse_bool(s), Some(v));
    }
    assert_eq!(parse_bool("tRUE"), None);
    assert_eq!(parse_bool("yes"), None);
}

#[test]
fn strip_quotes_removes_one_enclosing_pair() {
    assert_eq!(strip_quotes("\"a\""), "a");
    assert_eq!(strip_quotes("'a'"), "a");
    assert_eq!(strip_quotes("\"a'"), "\"a'");
    assert_eq!(strip_quotes("\""), "\"");
    assert_eq!(strip_quotes("\"\"x\"\""), "\"x\"");
    assert_eq!(strip_quotes("plain"), "plain");
}

#[test]
fn array_elements_are_trimmed_pieces() {
    assert_eq!(parse_array_elements(" [x] "), None);
    assert_eq!(parse_array_elements("[ a ,b, , c ]"), Some(vec!["a", "b", "", "c"]));
    assert_eq!(parse_array_elements("[  ]"), Some(vec![]));
    assert_eq!(parse_array_elements("["), None);
    assert_eq!(parse_array_elements("1, 2"), None);
}

#[test]
fn typed_arrays_need_every_element() {
    assert_eq!(parse_typed_array("[true, FALSE]", parse_bool), Some(vec![true, false]));
    assert_eq!(parse_typed_array("[true, 1]", parse_bool), None);
    assert_eq!(parse_typed_array("true", parse_bool), None);
}

#[test]
fn write_seq_brackets_and_commas() {
    assert_eq!(write_seq(&vec![]), "[]");
    assert_eq!(write_seq(&vec!["1".into(), "2".into()]), "[1, 2]");
}

#[test]
fn display_texts() {
    assert_eq!(show(&ParamValue::NotSet), "<not set>");
    assert_eq!(show(&ParamValue::Integer(i64::MIN)), "-9223372036854775808");
    assert_eq!(show(&ParamValue::ByteArray(vec![1, 2, 3])), "[3 bytes]");
    assert_eq!(show(&doubles_of(&[1.0, 2.5])), "[1.0, 2.5]");
    assert_eq!(show(&ParamValue::StringArray(vec!["a".into(), "b".into()])), "[\"a\", \"b\"]");
    assert_eq!(show(&ParamValue::BoolArray(vec![true, false])), "[true, false]");
    assert_eq!(ParamValue::ByteArray(vec![]).type_tag(), "byte_array");
    assert_eq!(ParamValue::NotSet.type_tag(), "not set");
}

#[test]
fn parse_integers_at_the_edges() {
    assert_eq!(parse("9223372036854775807"), ParamValue::Integer(i64::MAX));
    assert_eq!(parse("-9223372036854775808"), ParamValue::Integer(i64::MIN));
    assert_eq!(parse("+5"), ParamValue::Integer(5));
    // One past the range is read as a double.
    assert_eq!(parse("9223372036854775808"), double(9223372036854775808.0));
    assert_eq!(parse("  [ 1 , x ] "), ParamValue::StringArray(vec!["1".into(), "x".into()]));
}

#[test]
fn parse_preserving_keeps_types_where_input_allows() {
    assert_eq!(parse_preserving("7", &ParamValue::Integer(1)), ParamValue::Integer(7));
    assert_eq!(parse_preserving("x", &ParamValue::Integer(1)), ParamValue::String("x".into()));
    assert_eq!(parse_preserving("2", &double(1.5)), double(2.0));
    assert_eq!(parse_preserving("[1, 300]", &ParamValue::ByteArray(vec![])), ParamValue::IntegerArray(vec![1, 300]));
    assert_eq!(parse_preserving("[1, 255]", &ParamValue::ByteArray(vec![])), ParamValue::ByteArray(vec![1, 255]));
    assert_eq!(parse_preserving("[1, 2]", &doubles_of(&[0.5])), doubles_of(&[1.0, 2.0]));
    assert_eq!(parse_preserving("[1, 2]", &ParamValue::StringArray(vec![])), ParamValue::StringArray(vec!["1".into(), "2".into()]));
    assert_eq!(parse_preserving("[]", &ParamValue::BoolArray(vec![true])), ParamValue::BoolArray(vec![]));
    assert_eq!(parse_preserving(" true ", &ParamValue::NotSet), ParamValue::Bool(true));
}
