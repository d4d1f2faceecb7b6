//! The text that `echo` shows of a message: one value per line, nested
//! values indented two spaces per level. Floats stay as bit patterns in the
//! pieces; the terminal writes each in its shortest decimal form.
use vstd::prelude::*;

use crate::number::{
    i64_decimal, int_text_value, is_digit, lemma_decimal_digits, lemma_i64_text_round_trip,
    signed_decimal_spec,
};
use crate::protocol::types::{lemma_array_view, lemma_leaf_view, lemma_struct_view, DynValue, DynView};
use crate::text::{concat2, concat3, decimal, decimal_spec, owned};

verus! {

broadcast use vstd::seq_lib::group_seq_properties;

/// A piece of the shown text.
#[derive(Debug, PartialEq)]
pub enum Piece {
    Text(String),
    /// An `f32`, as its bit pattern.
    F32(u32),
    /// An `f64`, as its bit pattern.
    F64(u64),
}

pub enum PieceView {
    Text(Seq<char>),
    F32(u32),
    F64(u64),
}

impl View for Piece {
    type V = PieceView;

    open spec fn view(&self) -> PieceView {
        match self {
            Piece::Text(t) => PieceView::Text(t@),
            Piece::F32(b) => PieceView::F32(*b),
            Piece::F64(b) => PieceView::F64(*b),
        }
    }
}

/// The views of `pieces`.
pub open spec fn pieces_view(pieces: Seq<Piece>) -> Seq<PieceView> {
    pieces.map_values(|p: Piece| p@)
}

/// A line: the padding, the text and a line break.
pub open spec fn line(pad: Seq<char>, text: Seq<char>) -> PieceView {
    PieceView::Text(pad + text + "\n"@)
}

/// The text of a value that holds no other values (floats aside).
pub open spec fn leaf_text(v: DynView) -> Seq<char> {
    match v {
        DynView::Bool(b) => if b {
            "true"@
        } else {
            "false"@
        },
        DynView::I8(x) => signed_decimal_spec(x as int),
        DynView::I16(x) => signed_decimal_spec(x as int),
        DynView::I32(x) => signed_decimal_spec(x as int),
        DynView::I64(x) => signed_decimal_spec(x as int),
        DynView::U8(x) => decimal_spec(x as nat),
        DynView::U16(x) => decimal_spec(x as nat),
        DynView::U32(x) => decimal_spec(x as nat),
        DynView::U64(x) => decimal_spec(x as nat),
        DynView::String(s) => "\""@ + s + "\""@,
        DynView::Bytes(b) => "["@ + decimal_spec(b.len()) + " bytes]"@,
        _ => Seq::empty(),
    }
}

/// Whether a value is shown on lines of its own below a field's name.
pub open spec fn is_nested(v: DynView) -> bool {
    v is Struct || v is Array
}

/// What `v` shows, each line starting with `pad`. An array shows its items
/// one level deeper between bracket lines; a struct shows its type name, its
/// fields and a closing brace.
pub open spec fn shown(v: DynView, pad: Seq<char>) -> Seq<PieceView>
    decreases v,
{
    match v {
        DynView::F32(b) => seq![PieceView::Text(pad), PieceView::F32(b), PieceView::Text("\n"@)],
        DynView::F64(b) => seq![PieceView::Text(pad), PieceView::F64(b), PieceView::Text("\n"@)],
        DynView::Array(items) => seq![line(pad, "["@)] + shown_items(items, pad + "  "@).flatten()
            + seq![line(pad, "]"@)],
        DynView::Struct { struct_type, fields } => seq![line(pad, struct_type + " {"@)]
            + shown_fields(fields, pad).flatten() + seq![line(pad, "}"@)],
        _ => seq![line(pad, leaf_text(v))],
    }
}

/// What each of `items` shows, each line starting with `pad`.
pub open spec fn shown_items(items: Seq<DynView>, pad: Seq<char>) -> Seq<Seq<PieceView>>
    decreases items,
{
    Seq::new(
        items.len(),
        |i: int|
            if 0 <= i < items.len() {
                shown(items[i], pad)
            } else {
                Seq::empty()
            },
    )
}

/// What each field of a struct shown at `pad` shows: `name: ` one level
/// deeper, then the value on the same line, or, for a nested value, on the
/// next lines two levels deeper.
pub open spec fn shown_fields(fields: Seq<(Seq<char>, DynView)>, pad: Seq<char>) -> Seq<
    Seq<PieceView>,
>
    decreases fields,
{
    Seq::new(
        fields.len(),
        |i: int|
            if 0 <= i < fields.len() {
                seq![PieceView::Text(pad + "  "@ + fields[i].0 + ": "@)] + if is_nested(fields[i].1) {
                    seq![PieceView::Text("\n"@)] + shown(fields[i].1, pad + "    "@)
                } else {
                    shown(fields[i].1, Seq::empty())
                }
            } else {
                Seq::empty()
            },
    )
}

/// The text of a value that holds no other values.
fn leaf_string(v: &DynValue) -> (r: String)
    requires
        !(v is Array || v is Struct || v is F32 || v is F64),
    ensures
        r@ == leaf_text(v@),
{
    proof {
        lemma_leaf_view(*v);
    }
    match v {
        DynValue::Bool(b) => if *b {
            owned("true")
        } else {
            owned("false")
        },
        DynValue::I8(x) => i64_decimal(*x as i64),
        DynValue::I16(x) => i64_decimal(*x as i64),
        DynValue::I32(x) => i64_decimal(*x as i64),
        DynValue::I64(x) => i64_decimal(*x),
        DynValue::U8(x) => decimal(*x as u64),
        DynValue::U16(x) => decimal(*x as u64),
        DynValue::U32(x) => decimal(*x as u64),
        DynValue::U64(x) => decimal(*x),
        DynValue::String(s) => concat3("\"", s.as_str(), "\""),
        DynValue::Bytes(b) => {
            let n = decimal(b.len() as u64);
            concat3("[", n.as_str(), " bytes]")
        },
        _ => String::new(),
    }
}

/// A value is shown below a field's name exactly when its view is nested.
proof fn lemma_nested_kind(v: DynValue)
    ensures
        is_nested(v@) <==> (v is Struct || v is Array),
        (v@ is F32) <==> (v is F32),
        (v@ is F64) <==> (v is F64),
{
}

/// Appends what `v` shows, each line starting with `pad`.
fn show_into(v: &DynValue, pad: &str, out: &mut Vec<Piece>)
    ensures
        pieces_view(final(out)@) == pieces_view(old(out)@) + shown(v@, pad@),
    decreases v,
{
    proof {
        lemma_nested_kind(*v);
    }
    match v {
        DynValue::F32(b) => {
            out.push(Piece::Text(owned(pad)));
            out.push(Piece::F32(*b));
            out.push(Piece::Text(owned("\n")));
            proof {
                lemma_leaf_view(*v);
                assert(pieces_view(out@) =~= pieces_view(old(out)@) + shown(v@, pad@));
            }
        },
        DynValue::F64(b) => {
            out.push(Piece::Text(owned(pad)));
            out.push(Piece::F64(*b));
            out.push(Piece::Text(owned("\n")));
            proof {
                lemma_leaf_view(*v);
                assert(pieces_view(out@) =~= pieces_view(old(out)@) + shown(v@, pad@));
            }
        },
        DynValue::Array(items) => {
            out.push(Piece::Text(concat3(pad, "[", "\n")));
            let inner = concat2(pad, "  ");
            let ghost base = pieces_view(out@);
            let ghost sv = items@.map_values(|x: DynValue| x@);
            let ghost parts = shown_items(sv, inner@);
            let mut i: usize = 0;
            while i < items.len()
                invariant
                    *v == DynValue::Array(*items),
                    inner@ == pad@ + "  "@,
                    i <= items@.len(),
                    sv == items@.map_values(|x: DynValue| x@),
                    parts == shown_items(sv, inner@),
                    pieces_view(out@) == base + parts.take(i as int).flatten(),
                decreases items@.len() - i,
            {
                proof {
                    assert(decreases_to!(*v => (*v)->Array_0));
                    assert(decreases_to!((*v)->Array_0 => (*v)->Array_0@));
                    assert(decreases_to!(*v => items@[i as int]));
                }
                show_into(&items[i], inner.as_str(), out);
                proof {
                    assert(parts.take(i + 1) =~= parts.take(i as int).push(parts[i as int]));
                    parts.take(i as int).lemma_flatten_push(parts[i as int]);
                    assert(pieces_view(out@) =~= base + parts.take(i + 1).flatten());
                }
                i = i + 1;
            }
            let ghost middle = pieces_view(out@);
            out.push(Piece::Text(concat3(pad, "]", "\n")));
            proof {
                lemma_array_view(*items);
                assert(parts.take(items@.len() as int) =~= parts);
                assert(v@ == DynView::Array(sv));
                assert(shown(v@, pad@) == seq![line(pad@, "["@)] + parts.flatten() + seq![line(pad@, "]"@)]);
                assert(middle == pieces_view(old(out)@).push(line(pad@, "["@)) + parts.flatten());
                assert(pieces_view(out@) == middle.push(line(pad@, "]"@)));
                assert(pieces_view(out@) =~= pieces_view(old(out)@) + shown(v@, pad@));
            }
        },
        DynValue::Struct { struct_type, fields } => {
            let head = concat2(struct_type.as_str(), " {");
            out.push(Piece::Text(concat3(pad, head.as_str(), "\n")));
            let inner = concat2(pad, "  ");
            let deeper = concat2(pad, "    ");
            let none = String::new();
            let ghost base = pieces_view(out@);
            let ghost fv = fields@.map_values(|f: (String, DynValue)| (f.0@, f.1@));
            let ghost parts = shown_fields(fv, pad@);
            let mut i: usize = 0;
            while i < fields.len()
                invariant
                    *v == (DynValue::Struct { struct_type: *struct_type, fields: *fields }),
                    inner@ == pad@ + "  "@,
                    deeper@ == pad@ + "    "@,
                    none@ == Seq::<char>::empty(),
                    i <= fields@.len(),
                    fv == fields@.map_values(|f: (String, DynValue)| (f.0@, f.1@)),
                    parts == shown_fields(fv, pad@),
                    pieces_view(out@) == base + parts.take(i as int).flatten(),
                decreases fields@.len() - i,
            {
                proof {
                    assert(decreases_to!(*v => (*v)->fields));
                    assert(decreases_to!((*v)->fields => (*v)->fields@));
                    assert(decreases_to!((*v)->fields@ => (*v)->fields@[i as int]));
                    assert(decreases_to!(*v => fields@[i as int].1));
                    lemma_nested_kind(fields@[i as int].1);
                }
                let ghost before = pieces_view(out@);
                let name = concat3(inner.as_str(), fields[i].0.as_str(), ": ");
                out.push(Piece::Text(name));
                let value = &fields[i].1;
                match value {
                    DynValue::Struct { .. } | DynValue::Array(_) => {
                        out.push(Piece::Text(owned("\n")));
                        show_into(value, deeper.as_str(), out);
                    },
                    _ => {
                        show_into(value, none.as_str(), out);
                    },
                }
                proof {
                    assert(pieces_view(out@) =~= before + parts[i as int]);
                    assert(parts.take(i + 1) =~= parts.take(i as int).push(parts[i as int]));
                    parts.take(i as int).lemma_flatten_push(parts[i as int]);
                    assert(pieces_view(out@) =~= base + parts.take(i + 1).flatten());
                }
                i = i + 1;
            }
            let ghost middle = pieces_view(out@);
            out.push(Piece::Text(concat3(pad, "}", "\n")));
            proof {
                lemma_struct_view(*struct_type, *fields);
                assert(parts.take(fields@.len() as int) =~= parts);
                assert(middle == pieces_view(old(out)@).push(line(pad@, struct_type@ + " {"@)) + parts.flatten());
                assert(pieces_view(out@) == middle.push(line(pad@, "}"@)));
                assert(pieces_view(out@) =~= pieces_view(old(out)@) + shown(v@, pad@));
            }
        },
        _ => {
            let t = leaf_string(v);
            out.push(Piece::Text(concat3(pad, t.as_str(), "\n")));
            proof {
                assert(pieces_view(out@) =~= pieces_view(old(out)@) + shown(v@, pad@)) by {
                    lemma_leaf_view(*v);
                }
            }
        },
    }
}

/// What `echo` shows of a message.
pub fn echo_pieces(v: &DynValue) -> (r: Vec<Piece>)
    ensures
        pieces_view(r@) == shown(v@, Seq::empty()),
{
    let mut out: Vec<Piece> = Vec::new();
    let pad = String::new();
    show_into(v, pad.as_str(), &mut out);
    proof {
        assert(pieces_view(out@) =~= shown(v@, Seq::empty()));
    }
    out
}

/// `p` is one line at `pad` whose text reads back, as Rust reads integers, as
/// `value` (with a sign allowed where `signed`).
pub open spec fn line_reads_as(p: Seq<PieceView>, pad: Seq<char>, value: int, signed: bool) -> bool {
    &&& p.len() == 1
    &&& p[0] is Text
    &&& {
        let l = p[0]->Text_0;
        &&& l.len() >= pad.len() + 1
        &&& l.take(pad.len() as int) == pad
        &&& l.last() == '\n'
        &&& int_text_value(l.subrange(pad.len() as int, l.len() - 1), signed) == Some(value)
    }
}

/// The text of a signed decimal reads back as its number.
proof fn lemma_signed_text_reads(x: i64)
    ensures
        int_text_value(signed_decimal_spec(x as int), true) == Some(x as int),
{
    lemma_i64_text_round_trip(x);
}

/// The text of an unsigned decimal reads back as its number.
proof fn lemma_unsigned_text_reads(n: nat)
    ensures
        int_text_value(decimal_spec(n), false) == Some(n as int),
{
    lemma_decimal_digits(n);
    let d = decimal_spec(n);
    assert(is_digit(d[0]));
}

/// A line's text is what stands between its padding and its line break.
proof fn lemma_line_text(pad: Seq<char>, t: Seq<char>)
    ensures
        ({
            let l = pad + t + "\n"@;
            &&& l.len() == pad.len() + t.len() + 1
            &&& l.take(pad.len() as int) == pad
            &&& l.last() == '\n'
            &&& l.subrange(pad.len() as int, l.len() - 1) == t
        }),
{
    reveal_strlit("\n");
    let l = pad + t + "\n"@;
    assert(l.take(pad.len() as int) =~= pad);
    assert(l.subrange(pad.len() as int, l.len() - 1) =~= t);
}

/// An integer is echoed as one line whose text reads back as that integer:
/// a signed one (which starts with `-` exactly when it is negative) for
/// `i8` to `i64`, digits alone for `u8` to `u64`.
pub proof fn lemma_integers_echo_as_themselves(v: DynView, pad: Seq<char>)
    ensures
        v matches DynView::I8(x) ==> line_reads_as(shown(v, pad), pad, x as int, true),
        v matches DynView::I16(x) ==> line_reads_as(shown(v, pad), pad, x as int, true),
        v matches DynView::I32(x) ==> line_reads_as(shown(v, pad), pad, x as int, true),
        v matches DynView::I64(x) ==> line_reads_as(shown(v, pad), pad, x as int, true),
        v matches DynView::U8(x) ==> line_reads_as(shown(v, pad), pad, x as int, false),
        v matches DynView::U16(x) ==> line_reads_as(shown(v, pad), pad, x as int, false),
        v matches DynView::U32(x) ==> line_reads_as(shown(v, pad), pad, x as int, false),
        v matches DynView::U64(x) ==> line_reads_as(shown(v, pad), pad, x as int, false),
{
    lemma_line_text(pad, leaf_text(v));
    match v {
        DynView::I8(x) => lemma_signed_text_reads(x as i64),
        DynView::I16(x) => lemma_signed_text_reads(x as i64),
        DynView::I32(x) => lemma_signed_text_reads(x as i64),
        DynView::I64(x) => lemma_signed_text_reads(x),
        DynView::U8(x) => lemma_unsigned_text_reads(x as nat),
        DynView::U16(x) => lemma_unsigned_text_reads(x as nat),
        DynView::U32(x) => lemma_unsigned_text_reads(x as nat),
        DynView::U64(x) => lemma_unsigned_text_reads(x as nat),
        _ => {},
    }
}

/// `p` is one line at `pad` whose text is `t`.
pub open spec fn line_is(p: Seq<PieceView>, pad: Seq<char>, t: Seq<char>) -> bool {
    &&& p.len() == 1
    &&& p[0] is Text
    &&& {
        let l = p[0]->Text_0;
        &&& l.len() == pad.len() + t.len() + 1
        &&& l.take(pad.len() as int) == pad
        &&& l.last() == '\n'
        &&& l.subrange(pad.len() as int, l.len() - 1) == t
    }
}

/// The other leaves are echoed as one line each: a truth value as `true` or
/// `false`, a string between double quotes, a byte string as `[n bytes]`
/// where `n` reads back as its length; a float as the padding, the float's
/// bits and a line break.
pub proof fn lemma_leaves_echo(v: DynView, pad: Seq<char>)
    ensures
        v matches DynView::Bool(b) ==> line_is(
            shown(v, pad),
            pad,
            if b {
                "true"@
            } else {
                "false"@
            },
        ),
        v matches DynView::String(t) ==> line_is(shown(v, pad), pad, "\""@ + t + "\""@),
        v matches DynView::Bytes(b) ==> shown(v, pad).len() == 1 && shown(v, pad)[0] is Text && {
            let l = shown(v, pad)[0]->Text_0;
            let t = l.subrange(pad.len() as int, l.len() - 1);
            &&& l.take(pad.len() as int) == pad
            &&& l.last() == '\n'
            &&& t.len() >= 8
            &&& t.take(1) == "["@
            &&& t.skip(t.len() - 7) == " bytes]"@
            &&& int_text_value(t.subrange(1, t.len() - 7), false) == Some(b.len() as int)
        },
        v matches DynView::F32(b) ==> shown(v, pad) == seq![
            PieceView::Text(pad),
            PieceView::F32(b),
            PieceView::Text("\n"@),
        ],
        v matches DynView::F64(b) ==> shown(v, pad) == seq![
            PieceView::Text(pad),
            PieceView::F64(b),
            PieceView::Text("\n"@),
        ],
{
    lemma_line_text(pad, leaf_text(v));
    if let DynView::Bytes(b) = v {
        reveal_strlit("[");
        reveal_strlit(" bytes]");
        lemma_decimal_digits(b.len());
        lemma_unsigned_text_reads(b.len());
        let d = decimal_spec(b.len());
        let t = "["@ + d + " bytes]"@;
        assert(t.take(1) =~= "["@);
        assert(t.skip(t.len() - 7) =~= " bytes]"@);
        assert(t.subrange(1, t.len() - 7) =~= d);
    }
}

} // verus!
