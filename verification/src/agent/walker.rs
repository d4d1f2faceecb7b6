//! Messages whose type is known only at run time. Such a message is read
//! field by field into a `MessageFields` (floats as their bit patterns, a
//! field of a kind with no rendering as its debug text), and the walk here
//! turns it into the same `DynValue` tree that the static converters give.
use vstd::prelude::*;

use crate::protocol::types::{lemma_array_view, lemma_struct_view, DynValue, DynView};

verus! {

/// A scalar field.
pub enum ScalarField {
    /// A `float32`, as its bit pattern.
    Float(u32),
    /// A `float64`, as its bit pattern.
    Double(u64),
    Boolean(bool),
    Char(u8),
    Octet(u8),
    Uint8(u8),
    Int8(i8),
    Uint16(u16),
    Int16(i16),
    Uint32(u32),
    Int32(i32),
    Uint64(u64),
    Int64(i64),
    String(String),
    /// A nested message.
    Message(MessageFields),
    /// A scalar of a kind with no rendering (long double, wide characters,
    /// bounded strings), as its debug text.
    Other(String),
}

/// The elements of a fixed array or of a (bounded) sequence field.
pub enum ListField {
    /// `float64` elements, as bit patterns.
    Double(Vec<u64>),
    /// `float32` elements, as bit patterns.
    Float(Vec<u32>),
    Boolean(Vec<bool>),
    Uint8(Vec<u8>),
    Octet(Vec<u8>),
    Char(Vec<u8>),
    Int8(Vec<i8>),
    Uint16(Vec<u16>),
    Int16(Vec<i16>),
    Uint32(Vec<u32>),
    Int32(Vec<i32>),
    Uint64(Vec<u64>),
    Int64(Vec<i64>),
    String(Vec<String>),
    Message(Vec<MessageFields>),
    /// Elements of a kind with no rendering, as the list's debug text.
    Other(String),
}

/// The value of one field.
pub enum FieldValue {
    Simple(ScalarField),
    Array(ListField),
    Sequence(ListField),
    BoundedSequence(ListField),
}

/// A message: its type name and its fields in declaration order. A field
/// that the message's structure names but whose value could not be read is
/// `None`.
pub struct MessageFields {
    pub message_type: String,
    pub fields: Vec<(String, Option<FieldValue>)>,
}

/// The tree of a scalar field.
pub open spec fn scalar_tree(s: ScalarField) -> DynView
    decreases s,
{
    match s {
        ScalarField::Float(b) => DynView::F32(b),
        ScalarField::Double(b) => DynView::F64(b),
        ScalarField::Boolean(b) => DynView::Bool(b),
        ScalarField::Char(b) => DynView::U8(b),
        ScalarField::Octet(b) => DynView::U8(b),
        ScalarField::Uint8(b) => DynView::U8(b),
        ScalarField::Int8(x) => DynView::I8(x),
        ScalarField::Uint16(x) => DynView::U16(x),
        ScalarField::Int16(x) => DynView::I16(x),
        ScalarField::Uint32(x) => DynView::U32(x),
        ScalarField::Int32(x) => DynView::I32(x),
        ScalarField::Uint64(x) => DynView::U64(x),
        ScalarField::Int64(x) => DynView::I64(x),
        ScalarField::String(t) => DynView::String(t@),
        ScalarField::Message(m) => message_tree(m),
        ScalarField::Other(t) => DynView::String(t@),
    }
}

/// The tree of a list field: byte-like elements as one byte string, the
/// others as an array of their trees.
pub open spec fn list_tree(l: ListField) -> DynView
    decreases l,
{
    match l {
        ListField::Double(v) => DynView::Array(v@.map_values(|x: u64| DynView::F64(x))),
        ListField::Float(v) => DynView::Array(v@.map_values(|x: u32| DynView::F32(x))),
        ListField::Boolean(v) => DynView::Array(v@.map_values(|x: bool| DynView::Bool(x))),
        ListField::Uint8(v) => DynView::Bytes(v@),
        ListField::Octet(v) => DynView::Bytes(v@),
        ListField::Char(v) => DynView::Bytes(v@),
        ListField::Int8(v) => DynView::Array(v@.map_values(|x: i8| DynView::I8(x))),
        ListField::Uint16(v) => DynView::Array(v@.map_values(|x: u16| DynView::U16(x))),
        ListField::Int16(v) => DynView::Array(v@.map_values(|x: i16| DynView::I16(x))),
        ListField::Uint32(v) => DynView::Array(v@.map_values(|x: u32| DynView::U32(x))),
        ListField::Int32(v) => DynView::Array(v@.map_values(|x: i32| DynView::I32(x))),
        ListField::Uint64(v) => DynView::Array(v@.map_values(|x: u64| DynView::U64(x))),
        ListField::Int64(v) => DynView::Array(v@.map_values(|x: i64| DynView::I64(x))),
        ListField::String(v) => DynView::Array(v@.map_values(|t: String| DynView::String(t@))),
        ListField::Message(v) => DynView::Array(
            Seq::new(
                v@.len(),
                |i: int|
                    if 0 <= i < v@.len() {
                        message_tree(v@[i])
                    } else {
                        DynView::Bool(false)
                    },
            ),
        ),
        ListField::Other(t) => DynView::String(t@),
    }
}

/// The tree of a field: an unread field is an empty string.
pub open spec fn field_tree(f: Option<FieldValue>) -> DynView
    decreases f,
{
    match f {
        None => DynView::String(Seq::empty()),
        Some(FieldValue::Simple(s)) => scalar_tree(s),
        Some(FieldValue::Array(l)) => list_tree(l),
        Some(FieldValue::Sequence(l)) => list_tree(l),
        Some(FieldValue::BoundedSequence(l)) => list_tree(l),
    }
}

/// The tree of a message: a struct of its type name and its fields' trees.
pub open spec fn message_tree(m: MessageFields) -> DynView
    decreases m,
{
    DynView::Struct {
        struct_type: m.message_type@,
        fields: Seq::new(
            m.fields@.len(),
            |i: int|
                if 0 <= i < m.fields@.len() {
                    (m.fields@[i].0@, field_tree(m.fields@[i].1))
                } else {
                    (Seq::empty(), DynView::Bool(false))
                },
        ),
    }
}

/// No field is dropped: the tree of a message has one field per field of the
/// message, in the same order and under the same names, and a field whose
/// value could not be read shows as an empty string.
pub proof fn lemma_every_field_kept(m: MessageFields)
    ensures
        message_tree(m) is Struct,
        message_tree(m)->fields.len() == m.fields@.len(),
        forall|i: int|
            0 <= i < m.fields@.len() ==> #[trigger] message_tree(m)->fields[i].0
                == m.fields@[i].0@,
        forall|i: int|
            0 <= i < m.fields@.len() && m.fields@[i].1 is None ==> #[trigger] message_tree(
                m,
            )->fields[i].1 == DynView::String(Seq::empty()),
{
}

/// The elements of `v`, each made a tree by `leaf`, whose tree is `tree` of
/// the element.
fn leaves<T, F: Fn(&T) -> DynValue>(v: &Vec<T>, leaf: F, Ghost(tree): Ghost<spec_fn(T) -> DynView>) -> (r: DynValue)
    requires
        forall|x: &T| #[trigger] leaf.requires((x,)),
        forall|x: &T, d: DynValue| #[trigger] leaf.ensures((x,), d) ==> d@ == tree(*x),
    ensures
        r@ == DynView::Array(v@.map_values(tree)),
{
    let mut out: Vec<DynValue> = Vec::new();
    let mut i: usize = 0;
    while i < v.len()
        invariant
            forall|x: &T| #[trigger] leaf.requires((x,)),
            forall|x: &T, d: DynValue| #[trigger] leaf.ensures((x,), d) ==> d@ == tree(*x),
            i <= v@.len(),
            out@.len() == i,
            forall|k: int| 0 <= k < i ==> #[trigger] out@[k]@ == tree(v@[k]),
        decreases v@.len() - i,
    {
        let d = leaf(&v[i]);
        out.push(d);
        i = i + 1;
    }
    proof {
        lemma_array_view(out);
        assert(out@.map_values(|d: DynValue| d@) =~= v@.map_values(tree));
    }
    DynValue::Array(out)
}

/// The tree of a scalar field.
pub fn scalar_to_dynvalue(s: &ScalarField) -> (r: DynValue)
    ensures
        r@ == scalar_tree(*s),
    decreases s,
{
    match s {
        ScalarField::Float(b) => DynValue::F32(*b),
        ScalarField::Double(b) => DynValue::F64(*b),
        ScalarField::Boolean(b) => DynValue::Bool(*b),
        ScalarField::Char(b) => DynValue::U8(*b),
        ScalarField::Octet(b) => DynValue::U8(*b),
        ScalarField::Uint8(b) => DynValue::U8(*b),
        ScalarField::Int8(x) => DynValue::I8(*x),
        ScalarField::Uint16(x) => DynValue::U16(*x),
        ScalarField::Int16(x) => DynValue::I16(*x),
        ScalarField::Uint32(x) => DynValue::U32(*x),
        ScalarField::Int32(x) => DynValue::I32(*x),
        ScalarField::Uint64(x) => DynValue::U64(*x),
        ScalarField::Int64(x) => DynValue::I64(*x),
        ScalarField::String(t) => DynValue::String(t.clone()),
        ScalarField::Message(m) => message_to_dynvalue(m),
        ScalarField::Other(t) => DynValue::String(t.clone()),
    }
}

/// The tree of a list field: byte-like elements as one byte string, the
/// others as an array of their trees.
pub fn list_to_dynvalue(l: &ListField) -> (r: DynValue)
    ensures
        r@ == list_tree(*l),
    decreases l,
{
    match l {
        ListField::Double(v) => {
            let leaf = |x: &u64| -> (d: DynValue)
                ensures
                    d@ == DynView::F64(*x),
                { DynValue::F64(*x) };
            let ghost tree = |x: u64| DynView::F64(x);
            let r = leaves(v, leaf, Ghost(tree));
            proof {
                assert(v@.map_values(|x: u64| DynView::F64(x)) =~= list_tree(*l)->Array_0);
            }
            r
        },
        ListField::Float(v) => {
            let leaf = |x: &u32| -> (d: DynValue)
                ensures
                    d@ == DynView::F32(*x),
                { DynValue::F32(*x) };
            let ghost tree = |x: u32| DynView::F32(x);
            let r = leaves(v, leaf, Ghost(tree));
            proof {
                assert(v@.map_values(|x: u32| DynView::F32(x)) =~= list_tree(*l)->Array_0);
            }
            r
        },
        ListField::Boolean(v) => {
            let leaf = |x: &bool| -> (d: DynValue)
                ensures
                    d@ == DynView::Bool(*x),
                { DynValue::Bool(*x) };
            let ghost tree = |x: bool| DynView::Bool(x);
            let r = leaves(v, leaf, Ghost(tree));
            proof {
                assert(v@.map_values(|x: bool| DynView::Bool(x)) =~= list_tree(*l)->Array_0);
            }
            r
        },
        ListField::Int8(v) => {
            let leaf = |x: &i8| -> (d: DynValue)
                ensures
                    d@ == DynView::I8(*x),
                { DynValue::I8(*x) };
            let ghost tree = |x: i8| DynView::I8(x);
            let r = leaves(v, leaf, Ghost(tree));
            proof {
                assert(v@.map_values(|x: i8| DynView::I8(x)) =~= list_tree(*l)->Array_0);
            }
            r
        },
        ListField::Uint16(v) => {
            let leaf = |x: &u16| -> (d: DynValue)
                ensures
                    d@ == DynView::U16(*x),
                { DynValue::U16(*x) };
            let ghost tree = |x: u16| DynView::U16(x);
            let r = leaves(v, leaf, Ghost(tree));
            proof {
                assert(v@.map_values(|x: u16| DynView::U16(x)) =~= list_tree(*l)->Array_0);
            }
            r
        },
        ListField::Int16(v) => {
            let leaf = |x: &i16| -> (d: DynValue)
                ensures
                    d@ == DynView::I16(*x),
                { DynValue::I16(*x) };
            let ghost tree = |x: i16| DynView::I16(x);
            let r = leaves(v, leaf, Ghost(tree));
            proof {
                assert(v@.map_values(|x: i16| DynView::I16(x)) =~= list_tree(*l)->Array_0);
            }
            r
        },
        ListField::Uint32(v) => {
            let leaf = |x: &u32| -> (d: DynValue)
                ensures
                    d@ == DynView::U32(*x),
                { DynValue::U32(*x) };
            let ghost tree = |x: u32| DynView::U32(x);
            let r = leaves(v, leaf, Ghost(tree));
            proof {
                assert(v@.map_values(|x: u32| DynView::U32(x)) =~= list_tree(*l)->Array_0);
            }
            r
        },
        ListField::Int32(v) => {
            let leaf = |x: &i32| -> (d: DynValue)
                ensures
                    d@ == DynView::I32(*x),
                { DynValue::I32(*x) };
            let ghost tree = |x: i32| DynView::I32(x);
            let r = leaves(v, leaf, Ghost(tree));
            proof {
                assert(v@.map_values(|x: i32| DynView::I32(x)) =~= list_tree(*l)->Array_0);
            }
            r
        },
        ListField::Uint64(v) => {
            let leaf = |x: &u64| -> (d: DynValue)
                ensures
                    d@ == DynView::U64(*x),
                { DynValue::U64(*x) };
            let ghost tree = |x: u64| DynView::U64(x);
            let r = leaves(v, leaf, Ghost(tree));
            proof {
                assert(v@.map_values(|x: u64| DynView::U64(x)) =~= list_tree(*l)->Array_0);
            }
            r
        },
        ListField::Int64(v) => {
            let leaf = |x: &i64| -> (d: DynValue)
                ensures
                    d@ == DynView::I64(*x),
                { DynValue::I64(*x) };
            let ghost tree = |x: i64| DynView::I64(x);
            let r = leaves(v, leaf, Ghost(tree));
            proof {
                assert(v@.map_values(|x: i64| DynView::I64(x)) =~= list_tree(*l)->Array_0);
            }
            r
        },
        ListField::Uint8(v) => DynValue::Bytes(v.clone()),
        ListField::Octet(v) => DynValue::Bytes(v.clone()),
        ListField::Char(v) => DynValue::Bytes(v.clone()),
        ListField::String(v) => {
            let leaf = |x: &String| -> (d: DynValue)
                ensures
                    d@ == DynView::String(x@),
                { DynValue::String(x.clone()) };
            let ghost tree = |x: String| DynView::String(x@);
            let r = leaves(v, leaf, Ghost(tree));
            proof {
                assert(v@.map_values(|x: String| DynView::String(x@)) =~= list_tree(*l)->Array_0);
            }
            r
        },
        ListField::Message(v) => {
            let mut out: Vec<DynValue> = Vec::new();
            let mut i: usize = 0;
            while i < v.len()
                invariant
                    i <= v@.len(),
                    out@.len() == i,
                    forall|k: int| 0 <= k < i ==> #[trigger] out@[k]@ == message_tree(v@[k]),
                    *l == ListField::Message(*v),
                decreases v@.len() - i,
            {
                proof {
                    assert(decreases_to!(*l => (*l)->Message_0));
                    assert(decreases_to!((*l)->Message_0 => (*l)->Message_0@));
                    assert(decreases_to!(*l => v@[i as int]));
                }
                let d = message_to_dynvalue(&v[i]);
                out.push(d);
                i = i + 1;
            }
            proof {
                lemma_array_view(out);
                assert(out@.map_values(|d: DynValue| d@) =~= list_tree(*l)->Array_0);
            }
            DynValue::Array(out)
        },
        ListField::Other(t) => DynValue::String(t.clone()),
    }
}

/// The tree of a field: an unread field is an empty string.
pub fn field_to_dynvalue(f: &Option<FieldValue>) -> (r: DynValue)
    ensures
        r@ == field_tree(*f),
    decreases f,
{
    match f {
        None => DynValue::String(String::new()),
        Some(FieldValue::Simple(s)) => scalar_to_dynvalue(s),
        Some(FieldValue::Array(l)) => list_to_dynvalue(l),
        Some(FieldValue::Sequence(l)) => list_to_dynvalue(l),
        Some(FieldValue::BoundedSequence(l)) => list_to_dynvalue(l),
    }
}

/// The tree of a message: a struct of its type name and its fields' trees,
/// in order.
pub fn message_to_dynvalue(m: &MessageFields) -> (r: DynValue)
    ensures
        r@ == message_tree(*m),
    decreases m,
{
    let mut fields: Vec<(String, DynValue)> = Vec::new();
    let mut i: usize = 0;
    while i < m.fields.len()
        invariant
            i <= m.fields@.len(),
            fields@.len() == i,
            forall|k: int| 0 <= k < i ==> #[trigger] fields@[k].0@ == m.fields@[k].0@ && fields@[k].1@ == field_tree(m.fields@[k].1),
        decreases m.fields@.len() - i,
    {
        let name = m.fields[i].0.clone();
        let value = field_to_dynvalue(&m.fields[i].1);
        fields.push((name, value));
        i = i + 1;
    }
    let struct_type = m.message_type.clone();
    proof {
        lemma_struct_view(struct_type, fields);
        assert(fields@.map_values(|f: (String, DynValue)| (f.0@, f.1@)) =~= message_tree(*m)->fields);
    }
    DynValue::Struct { struct_type, fields }
}

/// `t` is an array of `n` items, the `i`-th being `item(i)`.
pub open spec fn items_are(t: DynView, n: nat, item: spec_fn(int) -> DynView) -> bool {
    &&& t is Array
    &&& t->Array_0.len() == n
    &&& forall|i: int| 0 <= i < n ==> t->Array_0[i] == item(i)
}

/// A scalar field becomes the leaf of its own type holding its value: floats
/// as `F32`/`F64`, characters, octets and `uint8` as `U8`, each integer type
/// as the same integer type, strings (and the debug text of kinds with no
/// rendering) as strings.
pub proof fn lemma_scalar_keeps_kind(s: ScalarField)
    ensures
        s matches ScalarField::Float(x) ==> scalar_tree(s) == DynView::F32(x),
        s matches ScalarField::Double(x) ==> scalar_tree(s) == DynView::F64(x),
        s matches ScalarField::Boolean(x) ==> scalar_tree(s) == DynView::Bool(x),
        s matches ScalarField::Char(x) ==> scalar_tree(s) == DynView::U8(x),
        s matches ScalarField::Octet(x) ==> scalar_tree(s) == DynView::U8(x),
        s matches ScalarField::Uint8(x) ==> scalar_tree(s) == DynView::U8(x),
        s matches ScalarField::Int8(x) ==> scalar_tree(s) == DynView::I8(x),
        s matches ScalarField::Uint16(x) ==> scalar_tree(s) == DynView::U16(x),
        s matches ScalarField::Int16(x) ==> scalar_tree(s) == DynView::I16(x),
        s matches ScalarField::Uint32(x) ==> scalar_tree(s) == DynView::U32(x),
        s matches ScalarField::Int32(x) ==> scalar_tree(s) == DynView::I32(x),
        s matches ScalarField::Uint64(x) ==> scalar_tree(s) == DynView::U64(x),
        s matches ScalarField::Int64(x) ==> scalar_tree(s) == DynView::I64(x),
        s matches ScalarField::String(t) ==> scalar_tree(s) == DynView::String(t@),
        s matches ScalarField::Other(t) ==> scalar_tree(s) == DynView::String(t@),
{
}

/// A list field becomes, item by item, an array of leaves of the element
/// type holding the elements; byte-like lists become one byte string, nested
/// messages their trees.
pub proof fn lemma_list_items_keep_kind(l: ListField)
    ensures
        l matches ListField::Double(v) ==> items_are(list_tree(l), v@.len(), |i: int| DynView::F64(v@[i])),
        l matches ListField::Float(v) ==> items_are(list_tree(l), v@.len(), |i: int| DynView::F32(v@[i])),
        l matches ListField::Boolean(v) ==> items_are(list_tree(l), v@.len(), |i: int| DynView::Bool(v@[i])),
        l matches ListField::Int8(v) ==> items_are(list_tree(l), v@.len(), |i: int| DynView::I8(v@[i])),
        l matches ListField::Uint16(v) ==> items_are(list_tree(l), v@.len(), |i: int| DynView::U16(v@[i])),
        l matches ListField::Int16(v) ==> items_are(list_tree(l), v@.len(), |i: int| DynView::I16(v@[i])),
        l matches ListField::Uint32(v) ==> items_are(list_tree(l), v@.len(), |i: int| DynView::U32(v@[i])),
        l matches ListField::Int32(v) ==> items_are(list_tree(l), v@.len(), |i: int| DynView::I32(v@[i])),
        l matches ListField::Uint64(v) ==> items_are(list_tree(l), v@.len(), |i: int| DynView::U64(v@[i])),
        l matches ListField::Int64(v) ==> items_are(list_tree(l), v@.len(), |i: int| DynView::I64(v@[i])),
        l matches ListField::String(v) ==> items_are(list_tree(l), v@.len(), |i: int| DynView::String(v@[i]@)),
        l matches ListField::Message(v) ==> items_are(list_tree(l), v@.len(), |i: int| message_tree(v@[i])),
        l matches ListField::Uint8(v) ==> list_tree(l) == DynView::Bytes(v@),
        l matches ListField::Octet(v) ==> list_tree(l) == DynView::Bytes(v@),
        l matches ListField::Char(v) ==> list_tree(l) == DynView::Bytes(v@),
        l matches ListField::Other(t) ==> list_tree(l) == DynView::String(t@),
{
}

} // verus!
