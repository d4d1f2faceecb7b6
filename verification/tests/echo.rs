use talos::echo::{echo_pieces, Piece};
use talos::protocol::types::DynValue;

/// The shown text, with floats written as the terminal writes them.
fn shown(v: &DynValue) -> String {
    let mut s = String::new();
    for piece in echo_pieces(v) {
        match piece {
            Piece::Text(t) => s.push_str(&t),
            Piece::F32(bits) => s.push_str(&f32::from_bits(bits).to_string()),
            Piece::F64(bits) => s.push_str(&f64::from_bits(bits).to_string()),
        }
    }
    s
}

#[test]
fn scalars_show_on_one_line() {
    assert_eq!(shown(&DynValue::Bool(true)), "true\n");
    assert_eq!(shown(&DynValue::I8(-7)), "-7\n");
    assert_eq!(shown(&DynValue::U64(18446744073709551615)), "18446744073709551615\n");
    assert_eq!(shown(&DynValue::I64(i64::MIN)), "-9223372036854775808\n");
    assert_eq!(shown(&DynValue::String("hi".to_string())), "\"hi\"\n");
    assert_eq!(shown(&DynValue::Bytes(vec![1, 2, 3])), "[3 bytes]\n");
    assert_eq!(shown(&DynValue::F64(0.25f64.to_bits())), "0.25\n");
}

#[test]
fn float_pieces_keep_their_bits() {
    assert_eq!(
        echo_pieces(&DynValue::F32(1.5f32.to_bits())),
        vec![Piece::Text(String::new()), Piece::F32(1.5f32.to_bits()), Piece::Text("\n".to_string())]
    );
}

#[test]
fn arrays_indent_their_items() {
    let v = DynValue::Array(vec![DynValue::I32(1), DynValue::Array(vec![DynValue::Bool(false)])]);
    assert_eq!(shown(&v), "[\n  1\n  [\n    false\n  ]\n]\n");
    assert_eq!(shown(&DynValue::Array(vec![])), "[\n]\n");
}

#[test]
fn struct_fields_show_name_then_value() {
    let v = DynValue::Struct {
        struct_type: "geometry_msgs/Vector3".to_string(),
        fields: vec![
            ("x".to_string(), DynValue::F64(1.0f64.to_bits())),
            ("label".to_string(), DynValue::String("a".to_string())),
        ],
    };
    assert_eq!(shown(&v), "geometry_msgs/Vector3 {\n  x: 1\n  label: \"a\"\n}\n");
}

#[test]
fn nested_fields_go_two_levels_deeper() {
    let inner = DynValue::Struct {
        struct_type: "builtin_interfaces/Time".to_string(),
        fields: vec![("sec".to_string(), DynValue::I32(5))],
    };
    let v = DynValue::Struct {
        struct_type: "std_msgs/Header".to_string(),
        fields: vec![
            ("stamp".to_string(), inner),
            ("ids".to_string(), DynValue::Array(vec![DynValue::U8(9)])),
        ],
    };
    assert_eq!(
        shown(&v),
        "std_msgs/Header {\n  stamp: \n    builtin_interfaces/Time {\n      sec: 5\n    }\n  ids: \n    [\n      9\n    ]\n}\n"
    );
}
