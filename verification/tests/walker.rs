use talos::agent::dynamic::extract_stamp;
use talos::agent::walker::{
    field_to_dynvalue, list_to_dynvalue, message_to_dynvalue, scalar_to_dynvalue, FieldValue,
    ListField, MessageFields, ScalarField,
};
use talos::protocol::types::{DynValue, Timestamp};

fn time(sec: i32, nanosec: u32) -> MessageFields {
    MessageFields {
        message_type: "builtin_interfaces/msg/Time".to_string(),
        fields: vec![
            ("sec".to_string(), Some(FieldValue::Simple(ScalarField::Int32(sec)))),
            ("nanosec".to_string(), Some(FieldValue::Simple(ScalarField::Uint32(nanosec)))),
        ],
    }
}

#[test]
fn scalars_keep_their_kind() {
    assert_eq!(scalar_to_dynvalue(&ScalarField::Double(1.5f64.to_bits())), DynValue::F64(1.5f64.to_bits()));
    assert_eq!(scalar_to_dynvalue(&ScalarField::Float(2.5f32.to_bits())), DynValue::F32(2.5f32.to_bits()));
    assert_eq!(scalar_to_dynvalue(&ScalarField::Boolean(true)), DynValue::Bool(true));
    assert_eq!(scalar_to_dynvalue(&ScalarField::Char(65)), DynValue::U8(65));
    assert_eq!(scalar_to_dynvalue(&ScalarField::Octet(7)), DynValue::U8(7));
    assert_eq!(scalar_to_dynvalue(&ScalarField::Int8(-3)), DynValue::I8(-3));
    assert_eq!(scalar_to_dynvalue(&ScalarField::Uint16(600)), DynValue::U16(600));
    assert_eq!(scalar_to_dynvalue(&ScalarField::Int64(-9)), DynValue::I64(-9));
    assert_eq!(
        scalar_to_dynvalue(&ScalarField::String("hi".to_string())),
        DynValue::String("hi".to_string())
    );
}

#[test]
fn unrendered_kinds_keep_their_debug_text() {
    assert_eq!(
        scalar_to_dynvalue(&ScalarField::Other("WChar(65)".to_string())),
        DynValue::String("WChar(65)".to_string())
    );
    assert_eq!(
        list_to_dynvalue(&ListField::Other("LongDoubleSequence".to_string())),
        DynValue::String("LongDoubleSequence".to_string())
    );
}

#[test]
fn byte_like_lists_become_bytes() {
    assert_eq!(list_to_dynvalue(&ListField::Uint8(vec![1, 2, 3])), DynValue::Bytes(vec![1, 2, 3]));
    assert_eq!(list_to_dynvalue(&ListField::Octet(vec![9])), DynValue::Bytes(vec![9]));
    assert_eq!(list_to_dynvalue(&ListField::Char(vec![])), DynValue::Bytes(vec![]));
}

#[test]
fn other_lists_become_arrays() {
    assert_eq!(
        list_to_dynvalue(&ListField::Double(vec![0.5f64.to_bits(), 1.0f64.to_bits()])),
        DynValue::Array(vec![DynValue::F64(0.5f64.to_bits()), DynValue::F64(1.0f64.to_bits())])
    );
    assert_eq!(
        list_to_dynvalue(&ListField::Int32(vec![-1, 4])),
        DynValue::Array(vec![DynValue::I32(-1), DynValue::I32(4)])
    );
    assert_eq!(
        list_to_dynvalue(&ListField::String(vec!["a".to_string(), "b".to_string()])),
        DynValue::Array(vec![DynValue::String("a".to_string()), DynValue::String("b".to_string())])
    );
    assert_eq!(list_to_dynvalue(&ListField::Boolean(vec![])), DynValue::Array(vec![]));
}

#[test]
fn sequences_and_arrays_convert_alike() {
    let a = field_to_dynvalue(&Some(FieldValue::Array(ListField::Uint32(vec![5, 6]))));
    let s = field_to_dynvalue(&Some(FieldValue::Sequence(ListField::Uint32(vec![5, 6]))));
    let b = field_to_dynvalue(&Some(FieldValue::BoundedSequence(ListField::Uint32(vec![5, 6]))));
    let expected = DynValue::Array(vec![DynValue::U32(5), DynValue::U32(6)]);
    assert_eq!(a, expected);
    assert_eq!(s, expected);
    assert_eq!(b, expected);
}

#[test]
fn unread_field_is_an_empty_string() {
    assert_eq!(field_to_dynvalue(&None), DynValue::String(String::new()));
}

#[test]
fn nested_messages_become_structs_in_field_order() {
    let header = MessageFields {
        message_type: "std_msgs/msg/Header".to_string(),
        fields: vec![
            ("stamp".to_string(), Some(FieldValue::Simple(ScalarField::Message(time(3, 4))))),
            ("frame_id".to_string(), Some(FieldValue::Simple(ScalarField::String("map".to_string())))),
        ],
    };
    let msg = MessageFields {
        message_type: "geometry_msgs/msg/PoseArray".to_string(),
        fields: vec![
            ("header".to_string(), Some(FieldValue::Simple(ScalarField::Message(header)))),
            ("poses".to_string(), Some(FieldValue::Sequence(ListField::Message(vec![time(1, 2)])))),
            ("missing".to_string(), None),
        ],
    };
    let tree = message_to_dynvalue(&msg);
    let time_tree = |sec: i32, nanosec: u32| DynValue::Struct {
        struct_type: "builtin_interfaces/msg/Time".to_string(),
        fields: vec![
            ("sec".to_string(), DynValue::I32(sec)),
            ("nanosec".to_string(), DynValue::U32(nanosec)),
        ],
    };
    let expected = DynValue::Struct {
        struct_type: "geometry_msgs/msg/PoseArray".to_string(),
        fields: vec![
            (
                "header".to_string(),
                DynValue::Struct {
                    struct_type: "std_msgs/msg/Header".to_string(),
                    fields: vec![
                        ("stamp".to_string(), time_tree(3, 4)),
                        ("frame_id".to_string(), DynValue::String("map".to_string())),
                    ],
                },
            ),
            ("poses".to_string(), DynValue::Array(vec![time_tree(1, 2)])),
            ("missing".to_string(), DynValue::String(String::new())),
        ],
    };
    assert_eq!(tree, expected);
    assert_eq!(extract_stamp(&tree), Some(Timestamp { sec: 3, nanosec: 4 }));
}

#[test]
fn empty_message_is_an_empty_struct() {
    let msg = MessageFields { message_type: "std_msgs/msg/Empty".to_string(), fields: vec![] };
    assert_eq!(
        message_to_dynvalue(&msg),
        DynValue::Struct { struct_type: "std_msgs/msg/Empty".to_string(), fields: vec![] }
    );
}
