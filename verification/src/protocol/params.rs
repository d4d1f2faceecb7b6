//! ROS 2 parameter values: reading them from user input and writing them out.
//!
//! Doubles are `f64` bit patterns. Reading and writing a single double is
//! left to the caller: the functions here take the readings (`str::parse` of
//! each candidate text, as bits) and the written texts of doubles as
//! arguments, and do everything around them.
use vstd::prelude::*;

use crate::number::{
    i64_decimal, is_digit, lemma_decimal_digits, lemma_i64_text_round_trip, parse_i64,
    parse_i64_spec, parse_u8, parse_u8_spec, signed_decimal_spec,
};
use crate::session::server::views;
use crate::text::{
    concat3, decimal, decimal_spec, join, join_spec, owned, split, split_spec, str_eq, str_views,
    strip_pair, strip_pair_spec, trim, trim_each, trim_end_spec, trim_spec, trim_start_spec,
    is_whitespace,
};

verus! {

/// A ROS 2 parameter value. Mirrors the variant set of
/// `rcl_interfaces/msg/ParameterValue`; doubles are `f64` bit patterns.
#[derive(Debug, Clone, PartialEq)]
pub enum ParamValue {
    NotSet,
    Bool(bool),
    Integer(i64),
    Double(u64),
    String(String),
    ByteArray(Vec<u8>),
    BoolArray(Vec<bool>),
    IntegerArray(Vec<i64>),
    DoubleArray(Vec<u64>),
    StringArray(Vec<String>),
}

/// A parameter value with its texts as sequences of chars.
pub enum ParamView {
    NotSet,
    Bool(bool),
    Integer(i64),
    Double(u64),
    String(Seq<char>),
    ByteArray(Seq<u8>),
    BoolArray(Seq<bool>),
    IntegerArray(Seq<i64>),
    DoubleArray(Seq<u64>),
    StringArray(Seq<Seq<char>>),
}

impl View for ParamValue {
    type V = ParamView;

    open spec fn view(&self) -> ParamView {
        match self {
            ParamValue::NotSet => ParamView::NotSet,
            ParamValue::Bool(b) => ParamView::Bool(*b),
            ParamValue::Integer(i) => ParamView::Integer(*i),
            ParamValue::Double(d) => ParamView::Double(*d),
            ParamValue::String(s) => ParamView::String(s@),
            ParamValue::ByteArray(a) => ParamView::ByteArray(a@),
            ParamValue::BoolArray(a) => ParamView::BoolArray(a@),
            ParamValue::IntegerArray(a) => ParamView::IntegerArray(a@),
            ParamValue::DoubleArray(a) => ParamView::DoubleArray(a@),
            ParamValue::StringArray(a) => ParamView::StringArray(views(a@)),
        }
    }
}

/// A named parameter with its value.
#[derive(Debug, Clone, PartialEq)]
pub struct ParamInfo {
    pub name: String,
    pub value: ParamValue,
}

/// The type tag of a value, e.g. for column headings.
pub open spec fn type_tag_spec(v: ParamView) -> Seq<char> {
    match v {
        ParamView::NotSet => "not set"@,
        ParamView::Bool(_) => "bool"@,
        ParamView::Integer(_) => "integer"@,
        ParamView::Double(_) => "double"@,
        ParamView::String(_) => "string"@,
        ParamView::ByteArray(_) => "byte_array"@,
        ParamView::BoolArray(_) => "bool_array"@,
        ParamView::IntegerArray(_) => "integer_array"@,
        ParamView::DoubleArray(_) => "double_array"@,
        ParamView::StringArray(_) => "string_array"@,
    }
}

/// What `parse_bool` reads: the three spellings of each truth value.
pub open spec fn bool_spec(s: Seq<char>) -> Option<bool> {
    if s == "true"@ || s == "True"@ || s == "TRUE"@ {
        Some(true)
    } else if s == "false"@ || s == "False"@ || s == "FALSE"@ {
        Some(false)
    } else {
        None
    }
}

/// `s` without one pair of enclosing double quotes, or else without one pair
/// of enclosing single quotes, or else as it is.
pub open spec fn strip_quotes_spec(s: Seq<char>) -> Seq<char> {
    match strip_pair_spec(s, '"', '"') {
        Some(inner) => inner,
        None => match strip_pair_spec(s, '\'', '\'') {
            Some(inner) => inner,
            None => s,
        },
    }
}

/// The elements of a bracketed list `[a, b, ...]`: the text between the
/// brackets, trimmed, split at commas, each piece trimmed; no elements when
/// nothing is between the brackets; `None` when `s` is not bracketed.
pub open spec fn array_elements_spec(s: Seq<char>) -> Option<Seq<Seq<char>>> {
    match strip_pair_spec(s, '[', ']') {
        Some(inner) => {
            let t = trim_spec(inner);
            if t.len() == 0 {
                Some(Seq::empty())
            } else {
                Some(split_spec(t, ',').map_values(|x: Seq<char>| trim_spec(x)))
            }
        },
        None => None,
    }
}

/// `true` or `false`.
pub open spec fn bool_text(b: bool) -> Seq<char> {
    if b {
        "true"@
    } else {
        "false"@
    }
}

/// Items between brackets, separated by `", "`.
pub open spec fn bracketed(items: Seq<Seq<char>>) -> Seq<char> {
    "["@ + join_spec(items, ", "@) + "]"@
}

/// The written text of the `i`-th double, from the texts supplied (empty
/// when none is supplied).
pub open spec fn double_text(doubles: Seq<Seq<char>>, i: int) -> Seq<char> {
    if 0 <= i < doubles.len() {
        doubles[i]
    } else {
        Seq::empty()
    }
}

/// A string element as a string list shows it: in double quotes.
pub open spec fn quoted(s: Seq<char>) -> Seq<char> {
    "\""@ + s + "\""@
}

/// The text a value is shown as, with `doubles` the written texts of its
/// doubles in order (a double is written so that it always reads as a float,
/// e.g. `1.0`, never `1`).
pub open spec fn display_spec(v: ParamView, doubles: Seq<Seq<char>>) -> Seq<char> {
    match v {
        ParamView::NotSet => "<not set>"@,
        ParamView::Bool(b) => bool_text(b),
        ParamView::Integer(i) => signed_decimal_spec(i as int),
        ParamView::Double(_) => double_text(doubles, 0),
        ParamView::String(s) => s,
        ParamView::ByteArray(a) => "["@ + decimal_spec(a.len()) + " bytes]"@,
        ParamView::BoolArray(a) => bracketed(a.map_values(|b: bool| bool_text(b))),
        ParamView::IntegerArray(a) => bracketed(a.map_values(|i: i64| signed_decimal_spec(i as int))),
        ParamView::DoubleArray(a) => bracketed(Seq::new(a.len(), |i: int| double_text(doubles, i))),
        ParamView::StringArray(a) => bracketed(a.map_values(|s: Seq<char>| quoted(s))),
    }
}

/// `s.parse::<bool>()` as user input reads it: `true`, `True`, `TRUE`,
/// `false`, `False` or `FALSE`.
pub fn parse_bool(s: &str) -> (r: Option<bool>)
    ensures
        r == bool_spec(s@),
{
    if str_eq(s, "true") || str_eq(s, "True") || str_eq(s, "TRUE") {
        Some(true)
    } else if str_eq(s, "false") || str_eq(s, "False") || str_eq(s, "FALSE") {
        Some(false)
    } else {
        None
    }
}

/// `s` without one pair of enclosing quotes (double, else single).
pub fn strip_quotes(s: &str) -> (r: &str)
    ensures
        r@ == strip_quotes_spec(s@),
{
    match strip_pair(s, '"', '"') {
        Some(inner) => inner,
        None => match strip_pair(s, '\'', '\'') {
            Some(inner) => inner,
            None => s,
        },
    }
}

/// The elements of a bracketed list, or `None` when `s` is not bracketed.
pub fn parse_array_elements(s: &str) -> (r: Option<Vec<&str>>)
    ensures
        match array_elements_spec(s@) {
            Some(e) => r matches Some(v) && str_views(v@) == e,
            None => r is None,
        },
{
    match strip_pair(s, '[', ']') {
        Some(inner) => {
            let t = trim(inner);
            if t.unicode_len() == 0 {
                let v: Vec<&str> = Vec::new();
                assert(str_views(v@) =~= Seq::<Seq<char>>::empty());
                Some(v)
            } else {
                let pieces = split(t, ',');
                Some(trim_each(&pieces))
            }
        },
        None => None,
    }
}

/// Items between brackets, separated by `", "`.
pub fn write_seq(items: &Vec<String>) -> (r: String)
    ensures
        r@ == bracketed(views(items@)),
{
    let body = join(items, ", ");
    assert(items@.map_values(|s: String| s@) =~= views(items@));
    concat3("[", body.as_str(), "]")
}

/// The reading of the `i`-th candidate text, from the readings supplied
/// (none when none is supplied).
pub open spec fn reading(readings: Seq<Option<u64>>, i: int) -> Option<u64> {
    if 0 <= i < readings.len() {
        readings[i]
    } else {
        None
    }
}

/// The texts whose double readings parsing `input` may need, in order: the
/// trimmed input, then the elements of it as a bracketed list, if it is one.
pub open spec fn double_candidates_spec(input: Seq<char>) -> Seq<Seq<char>> {
    let s = trim_spec(input);
    seq![s] + match array_elements_spec(s) {
        Some(e) => e,
        None => Seq::empty(),
    }
}

/// Every element read as a truth value, when each is one.
pub open spec fn bools_read(elems: Seq<Seq<char>>) -> Option<Seq<bool>> {
    if forall|i: int| 0 <= i < elems.len() ==> (#[trigger] bool_spec(elems[i])) is Some {
        Some(elems.map_values(|e: Seq<char>| bool_spec(e)->0))
    } else {
        None
    }
}

/// Every element read as an `i64`, when each is one.
pub open spec fn ints_read(elems: Seq<Seq<char>>) -> Option<Seq<i64>> {
    if forall|i: int| 0 <= i < elems.len() ==> (#[trigger] parse_i64_spec(elems[i])) is Some {
        Some(elems.map_values(|e: Seq<char>| parse_i64_spec(e)->0))
    } else {
        None
    }
}

/// Every element read as a byte, when each is one.
pub open spec fn bytes_read(elems: Seq<Seq<char>>) -> Option<Seq<u8>> {
    if forall|i: int| 0 <= i < elems.len() ==> (#[trigger] parse_u8_spec(elems[i])) is Some {
        Some(elems.map_values(|e: Seq<char>| parse_u8_spec(e)->0))
    } else {
        None
    }
}

/// Every element of a list read as a double, when each is one: the element
/// `i` is candidate `i + 1`.
pub open spec fn doubles_read(n: nat, readings: Seq<Option<u64>>) -> Option<Seq<u64>> {
    if forall|i: int| 0 <= i < n ==> (#[trigger] reading(readings, i + 1)) is Some {
        Some(Seq::new(n, |i: int| reading(readings, i + 1)->0))
    } else {
        None
    }
}

/// A bracketed list read with no type to keep: no elements make an empty
/// string list; otherwise the first of truth values, integers and doubles
/// that reads every element, or else the elements as strings with quotes
/// stripped.
pub open spec fn parse_array_spec(elems: Seq<Seq<char>>, readings: Seq<Option<u64>>) -> ParamView {
    if elems.len() == 0 {
        ParamView::StringArray(Seq::empty())
    } else if let Some(b) = bools_read(elems) {
        ParamView::BoolArray(b)
    } else if let Some(x) = ints_read(elems) {
        ParamView::IntegerArray(x)
    } else if let Some(d) = doubles_read(elems.len(), readings) {
        ParamView::DoubleArray(d)
    } else {
        ParamView::StringArray(elems.map_values(|e: Seq<char>| strip_quotes_spec(e)))
    }
}

/// A single value read with no type to keep: the first of truth value,
/// integer and double (candidate 0) that reads it, or else a string with
/// quotes stripped.
pub open spec fn parse_scalar_spec(s: Seq<char>, readings: Seq<Option<u64>>) -> ParamView {
    if let Some(b) = bool_spec(s) {
        ParamView::Bool(b)
    } else if let Some(i) = parse_i64_spec(s) {
        ParamView::Integer(i)
    } else if let Some(d) = reading(readings, 0) {
        ParamView::Double(d)
    } else {
        ParamView::String(strip_quotes_spec(s))
    }
}

/// A value inferred from user input: the input is trimmed, then read as a
/// bracketed list when it is one and as a single value otherwise.
pub open spec fn parse_spec(input: Seq<char>, readings: Seq<Option<u64>>) -> ParamView {
    let s = trim_spec(input);
    match array_elements_spec(s) {
        Some(e) => parse_array_spec(e, readings),
        None => parse_scalar_spec(s, readings),
    }
}

/// A value read from user input for a parameter whose value is `current`
/// (shown as `shown`): unchanged when the trimmed input is what `current`
/// shows as; otherwise read as `current`'s type where the input allows it
/// (a string takes any input, quotes stripped), and inferred as `parse_spec`
/// does where it does not.
pub open spec fn parse_preserving_spec(
    input: Seq<char>,
    current: ParamView,
    shown: Seq<char>,
    readings: Seq<Option<u64>>,
) -> ParamView {
    let s = trim_spec(input);
    let inferred = parse_spec(s, readings);
    if s == shown {
        current
    } else {
        match current {
            ParamView::NotSet => inferred,
            ParamView::Bool(_) => match bool_spec(s) {
                Some(b) => ParamView::Bool(b),
                None => inferred,
            },
            ParamView::Integer(_) => match parse_i64_spec(s) {
                Some(i) => ParamView::Integer(i),
                None => inferred,
            },
            ParamView::Double(_) => match reading(readings, 0) {
                Some(d) => ParamView::Double(d),
                None => inferred,
            },
            ParamView::String(_) => ParamView::String(strip_quotes_spec(s)),
            ParamView::ByteArray(_) => match array_elements_spec(s) {
                Some(e) => match bytes_read(e) {
                    Some(b) => ParamView::ByteArray(b),
                    None => inferred,
                },
                None => inferred,
            },
            ParamView::BoolArray(_) => match array_elements_spec(s) {
                Some(e) => match bools_read(e) {
                    Some(b) => ParamView::BoolArray(b),
                    None => inferred,
                },
                None => inferred,
            },
            ParamView::IntegerArray(_) => match array_elements_spec(s) {
                Some(e) => match ints_read(e) {
                    Some(x) => ParamView::IntegerArray(x),
                    None => inferred,
                },
                None => inferred,
            },
            ParamView::DoubleArray(_) => match array_elements_spec(s) {
                Some(e) => match doubles_read(e.len(), readings) {
                    Some(d) => ParamView::DoubleArray(d),
                    None => inferred,
                },
                None => inferred,
            },
            ParamView::StringArray(_) => match array_elements_spec(s) {
                Some(e) => ParamView::StringArray(e.map_values(|x: Seq<char>| strip_quotes_spec(x))),
                None => inferred,
            },
        }
    }
}

fn reading_at(readings: &Vec<Option<u64>>, i: usize) -> (r: Option<u64>)
    ensures
        r == reading(readings@, i as int),
{
    if i < readings.len() {
        readings[i]
    } else {
        None
    }
}

/// Each element of a list read with `parse`, when every element reads.
///
/// `r` is `None` when `s` is not a bracketed list or some element does not
/// read; otherwise it holds what `parse` gave for each element, in order.
pub fn parse_typed_array<T, F: Fn(&str) -> Option<T>>(s: &str, parse: F) -> (r: Option<Vec<T>>)
    requires
        forall|x: &str| #[trigger] parse.requires((x,)),
    ensures
        array_elements_spec(s@) is None ==> r is None,
        array_elements_spec(s@) matches Some(e) ==> (r matches Some(v) ==> v@.len() == e.len()
            && forall|i: int| 0 <= i < e.len() ==> #[trigger] element_reads(parse, e[i], Some(v@[i]))),
        array_elements_spec(s@) matches Some(e) ==> (r is None ==> exists|i: int|
            0 <= i < e.len() && #[trigger] element_reads(parse, e[i], None::<T>)),
{
    match parse_array_elements(s) {
        None => None,
        Some(elems) => {
            let ghost e = str_views(elems@);
            let mut out: Vec<T> = Vec::new();
            let mut i: usize = 0;
            while i < elems.len()
                invariant
                    forall|x: &str| #[trigger] parse.requires((x,)),
                    e == str_views(elems@),
                    array_elements_spec(s@) == Some(e),
                    i <= elems@.len(),
                    out@.len() == i,
                    forall|k: int| 0 <= k < i ==> #[trigger] element_reads(parse, e[k], Some(out@[k])),
                decreases elems@.len() - i,
            {
                let x = elems[i];
                assert(x@ == e[i as int]);
                match parse(x) {
                    Some(v) => {
                        out.push(v);
                        proof {
                            assert(element_reads(parse, e[i as int], Some(out@[i as int])));
                        }
                    },
                    None => {
                        proof {
                            assert(element_reads(parse, e[i as int], None::<T>));
                            assert(array_elements_spec(s@) == Some(e));
                            assert(exists|j: int|
                                0 <= j < e.len() && #[trigger] element_reads(parse, e[j], None::<T>));
                            let e2 = array_elements_spec(s@)->0;
                            assert(e2 == e);
                            assert(element_reads(parse, e2[i as int], None::<T>));
                        }
                        return None;
                    },
                }
                i = i + 1;
            }
            Some(out)
        },
    }
}

/// `parse` may give `o` for some text whose chars are `text`.
pub open spec fn element_reads<T, F: Fn(&str) -> Option<T>>(parse: F, text: Seq<char>, o: Option<T>) -> bool {
    exists|x: &str| x@ == text && #[trigger] parse.ensures((x,), o)
}

/// What `parse_typed_array` gives, for an element reader that reads each
/// text as `read` does: each element's reading, or `None` for some element.
proof fn lemma_typed_array<T, F: Fn(&str) -> Option<T>>(
    f: F,
    read: spec_fn(Seq<char>) -> Option<T>,
    e: Seq<Seq<char>>,
    r: Option<Vec<T>>,
)
    requires
        forall|x: &str, o: Option<T>| #[trigger] f.ensures((x,), o) ==> o == read(x@),
        r matches Some(v) ==> v@.len() == e.len() && forall|i: int|
            0 <= i < e.len() ==> #[trigger] element_reads(f, e[i], Some(v@[i])),
        r is None ==> exists|i: int| 0 <= i < e.len() && #[trigger] element_reads(f, e[i], None::<T>),
    ensures
        r matches Some(v) ==> v@.len() == e.len() && forall|i: int|
            0 <= i < e.len() ==> #[trigger] read(e[i]) == Some(v@[i]),
        r is None ==> exists|i: int| 0 <= i < e.len() && #[trigger] read(e[i]) is None,
{
    match r {
        Some(v) => {
            assert forall|i: int| 0 <= i < e.len() implies #[trigger] read(e[i]) == Some(v@[i]) by {
                assert(element_reads(f, e[i], Some(v@[i])));
            }
        },
        None => {
            let i = choose|i: int| 0 <= i < e.len() && #[trigger] element_reads(f, e[i], None::<T>);
            assert(read(e[i]) is None);
        },
    }
}

impl ParamValue {
    /// The type tag, e.g. for column headings.
    pub fn type_tag(&self) -> (r: &'static str)
        ensures
            r@ == type_tag_spec(self@),
    {
        match self {
            ParamValue::NotSet => "not set",
            ParamValue::Bool(_) => "bool",
            ParamValue::Integer(_) => "integer",
            ParamValue::Double(_) => "double",
            ParamValue::String(_) => "string",
            ParamValue::ByteArray(_) => "byte_array",
            ParamValue::BoolArray(_) => "bool_array",
            ParamValue::IntegerArray(_) => "integer_array",
            ParamValue::DoubleArray(_) => "double_array",
            ParamValue::StringArray(_) => "string_array",
        }
    }

    /// The text the value is shown as, given the written texts of its doubles
    /// in order; a list shows as `[a, b]`, a byte array as `[n bytes]`.
    pub fn display(&self, doubles: &Vec<String>) -> (r: String)
        ensures
            r@ == display_spec(self@, views(doubles@)),
    {
        match self {
            ParamValue::NotSet => owned("<not set>"),
            ParamValue::Bool(b) => owned(if *b { "true" } else { "false" }),
            ParamValue::Integer(i) => i64_decimal(*i),
            ParamValue::Double(_) => {
                if doubles.len() > 0 {
                    doubles[0].clone()
                } else {
                    String::new()
                }
            },
            ParamValue::String(s) => s.clone(),
            ParamValue::ByteArray(a) => {
                let n = decimal(a.len() as u64);
                concat3("[", n.as_str(), " bytes]")
            },
            ParamValue::BoolArray(a) => {
                let mut texts: Vec<String> = Vec::new();
                let mut i: usize = 0;
                while i < a.len()
                    invariant
                        i <= a@.len(),
                        texts@.len() == i,
                        forall|k: int| 0 <= k < i ==> #[trigger] texts@[k]@ == bool_text(a@[k]),
                    decreases a@.len() - i,
                {
                    texts.push(owned(if a[i] { "true" } else { "false" }));
                    i = i + 1;
                }
                assert(views(texts@) =~= a@.map_values(|b: bool| bool_text(b)));
                write_seq(&texts)
            },
            ParamValue::IntegerArray(a) => {
                let mut texts: Vec<String> = Vec::new();
                let mut i: usize = 0;
                while i < a.len()
                    invariant
                        i <= a@.len(),
                        texts@.len() == i,
                        forall|k: int|
                            0 <= k < i ==> #[trigger] texts@[k]@ == signed_decimal_spec(a@[k] as int),
                    decreases a@.len() - i,
                {
                    texts.push(i64_decimal(a[i]));
                    i = i + 1;
                }
                assert(views(texts@) =~= a@.map_values(|x: i64| signed_decimal_spec(x as int)));
                write_seq(&texts)
            },
            ParamValue::DoubleArray(a) => {
                let mut texts: Vec<String> = Vec::new();
                let mut i: usize = 0;
                while i < a.len()
                    invariant
                        i <= a@.len(),
                        texts@.len() == i,
                        forall|k: int|
                            0 <= k < i ==> #[trigger] texts@[k]@ == double_text(views(doubles@), k),
                    decreases a@.len() - i,
                {
                    if i < doubles.len() {
                        texts.push(doubles[i].clone());
                    } else {
                        texts.push(String::new());
                    }
                    i = i + 1;
                }
                assert(views(texts@) =~= Seq::new(
                    a@.len(),
                    |k: int| double_text(views(doubles@), k),
                ));
                write_seq(&texts)
            },
            ParamValue::StringArray(a) => {
                let mut texts: Vec<String> = Vec::new();
                let mut i: usize = 0;
                while i < a.len()
                    invariant
                        i <= a@.len(),
                        texts@.len() == i,
                        forall|k: int| 0 <= k < i ==> #[trigger] texts@[k]@ == quoted(a@[k]@),
                    decreases a@.len() - i,
                {
                    texts.push(concat3("\"", a[i].as_str(), "\""));
                    i = i + 1;
                }
                assert(views(texts@) =~= views(a@).map_values(|x: Seq<char>| quoted(x)));
                write_seq(&texts)
            },
        }
    }
}

fn read_bools(elems: &Vec<&str>) -> (r: Option<Vec<bool>>)
    ensures
        match bools_read(str_views(elems@)) {
            Some(b) => r matches Some(v) && v@ == b,
            None => r is None,
        },
{
    let ghost e = str_views(elems@);
    let mut out: Vec<bool> = Vec::new();
    let mut i: usize = 0;
    while i < elems.len()
        invariant
            e == str_views(elems@),
            i <= elems@.len(),
            out@.len() == i,
            forall|k: int| 0 <= k < i ==> (#[trigger] bool_spec(e[k])) is Some && out@[k] == bool_spec(e[k])->0,
        decreases elems@.len() - i,
    {
        match parse_bool(elems[i]) {
            Some(b) => out.push(b),
            None => {
                assert(bool_spec(e[i as int]) is None);
                return None;
            },
        }
        i = i + 1;
    }
    assert(out@ =~= e.map_values(|x: Seq<char>| bool_spec(x)->0));
    Some(out)
}

fn read_ints(elems: &Vec<&str>) -> (r: Option<Vec<i64>>)
    ensures
        match ints_read(str_views(elems@)) {
            Some(x) => r matches Some(v) && v@ == x,
            None => r is None,
        },
{
    let ghost e = str_views(elems@);
    let mut out: Vec<i64> = Vec::new();
    let mut i: usize = 0;
    while i < elems.len()
        invariant
            e == str_views(elems@),
            i <= elems@.len(),
            out@.len() == i,
            forall|k: int|
                0 <= k < i ==> (#[trigger] parse_i64_spec(e[k])) is Some && out@[k] == parse_i64_spec(
                    e[k],
                )->0,
        decreases elems@.len() - i,
    {
        match parse_i64(elems[i]) {
            Some(x) => out.push(x),
            None => {
                assert(parse_i64_spec(e[i as int]) is None);
                return None;
            },
        }
        i = i + 1;
    }
    assert(out@ =~= e.map_values(|x: Seq<char>| parse_i64_spec(x)->0));
    Some(out)
}

fn read_doubles(n: usize, readings: &Vec<Option<u64>>) -> (r: Option<Vec<u64>>)
    ensures
        match doubles_read(n as nat, readings@) {
            Some(d) => r matches Some(v) && v@ == d,
            None => r is None,
        },
{
    let mut out: Vec<u64> = Vec::new();
    let mut i: usize = 0;
    while i < n
        invariant
            i <= n,
            out@.len() == i,
            forall|k: int|
                0 <= k < i ==> (#[trigger] reading(readings@, k + 1)) is Some && out@[k] == reading(
                    readings@,
                    k + 1,
                )->0,
        decreases n - i,
    {
        if i + 1 >= readings.len() {
            assert(reading(readings@, i + 1) is None);
            return None;
        }
        match readings[i + 1] {
            Some(d) => out.push(d),
            None => {
                assert(reading(readings@, i + 1) is None);
                return None;
            },
        }
        i = i + 1;
    }
    assert(out@ =~= Seq::new(n as nat, |k: int| reading(readings@, k + 1)->0));
    Some(out)
}

fn strip_each(elems: &Vec<&str>) -> (r: Vec<String>)
    ensures
        views(r@) == str_views(elems@).map_values(|e: Seq<char>| strip_quotes_spec(e)),
{
    let mut out: Vec<String> = Vec::new();
    let mut i: usize = 0;
    while i < elems.len()
        invariant
            i <= elems@.len(),
            out@.len() == i,
            forall|k: int| 0 <= k < i ==> #[trigger] out@[k]@ == strip_quotes_spec(elems@[k]@),
        decreases elems@.len() - i,
    {
        out.push(owned(strip_quotes(elems[i])));
        i = i + 1;
    }
    assert(views(out@) =~= str_views(elems@).map_values(|e: Seq<char>| strip_quotes_spec(e)));
    out
}

/// The texts whose double readings `ParamValue::parse` of `input` needs: the
/// trimmed input, then its elements when it is a bracketed list. The caller
/// reads each (`str::parse::<f64>`, as bits) and passes the readings in this
/// order.
pub fn double_candidates(input: &str) -> (r: Vec<String>)
    ensures
        views(r@) == double_candidates_spec(input@),
{
    let s = trim(input);
    let mut r: Vec<String> = Vec::new();
    r.push(owned(s));
    match parse_array_elements(s) {
        Some(elems) => {
            let mut i: usize = 0;
            while i < elems.len()
                invariant
                    i <= elems@.len(),
                    r@.len() == i + 1,
                    r@[0]@ == s@,
                    forall|k: int| 1 <= k <= i ==> #[trigger] r@[k]@ == elems@[k - 1]@,
                decreases elems@.len() - i,
            {
                r.push(owned(elems[i]));
                i = i + 1;
            }
            assert(views(r@) =~= seq![s@] + str_views(elems@));
        },
        None => {
            assert(views(r@) =~= seq![s@] + Seq::<Seq<char>>::empty());
        },
    }
    r
}

impl ParamValue {
    /// A copy of the value.
    pub fn duplicate(&self) -> (r: ParamValue)
        ensures
            r@ == self@,
    {
        match self {
            ParamValue::NotSet => ParamValue::NotSet,
            ParamValue::Bool(b) => ParamValue::Bool(*b),
            ParamValue::Integer(i) => ParamValue::Integer(*i),
            ParamValue::Double(d) => ParamValue::Double(*d),
            ParamValue::String(s) => ParamValue::String(s.clone()),
            ParamValue::ByteArray(a) => {
                let c = a.clone();
                assert(c@ =~= a@);
                ParamValue::ByteArray(c)
            },
            ParamValue::BoolArray(a) => {
                let c = a.clone();
                assert(c@ =~= a@);
                ParamValue::BoolArray(c)
            },
            ParamValue::IntegerArray(a) => {
                let c = a.clone();
                assert(c@ =~= a@);
                ParamValue::IntegerArray(c)
            },
            ParamValue::DoubleArray(a) => {
                let c = a.clone();
                assert(c@ =~= a@);
                ParamValue::DoubleArray(c)
            },
            ParamValue::StringArray(a) => ParamValue::StringArray(crate::text::clone_strings(a)),
        }
    }

    fn parse_scalar(s: &str, readings: &Vec<Option<u64>>) -> (r: ParamValue)
        ensures
            r@ == parse_scalar_spec(s@, readings@),
    {
        if let Some(b) = parse_bool(s) {
            return ParamValue::Bool(b);
        }
        if let Some(i) = parse_i64(s) {
            return ParamValue::Integer(i);
        }
        if let Some(d) = reading_at(readings, 0) {
            return ParamValue::Double(d);
        }
        ParamValue::String(owned(strip_quotes(s)))
    }

    fn parse_array(elems: &Vec<&str>, readings: &Vec<Option<u64>>) -> (r: ParamValue)
        ensures
            r@ == parse_array_spec(str_views(elems@), readings@),
    {
        if elems.len() == 0 {
            let v: Vec<String> = Vec::new();
            assert(views(v@) =~= Seq::<Seq<char>>::empty());
            return ParamValue::StringArray(v);
        }
        if let Some(bools) = read_bools(elems) {
            return ParamValue::BoolArray(bools);
        }
        if let Some(ints) = read_ints(elems) {
            return ParamValue::IntegerArray(ints);
        }
        if let Some(doubles) = read_doubles(elems.len(), readings) {
            return ParamValue::DoubleArray(doubles);
        }
        ParamValue::StringArray(strip_each(elems))
    }

    /// A value inferred from user input (a command-line argument or an edit
    /// field): `true`/`false`, integers, doubles, `[..]` lists, and otherwise
    /// a string with quotes stripped. `readings` are the double readings of
    /// the texts `double_candidates(input)` lists, in that order.
    pub fn parse(input: &str, readings: &Vec<Option<u64>>) -> (r: ParamValue)
        ensures
            r@ == parse_spec(input@, readings@),
    {
        let s = trim(input);
        match parse_array_elements(s) {
            Some(elems) => Self::parse_array(&elems, readings),
            None => Self::parse_scalar(s, readings),
        }
    }
}

fn typed_bools(s: &str) -> (r: Option<Vec<bool>>)
    ensures
        match array_elements_spec(s@) {
            Some(e) => match bools_read(e) {
                Some(b) => r matches Some(v) && v@ == b,
                None => r is None,
            },
            None => r is None,
        },
{
    let read = |x: &str| -> (o: Option<bool>)
        ensures
            o == bool_spec(x@),
        { parse_bool(x) };
    let r = parse_typed_array(s, read);
    proof {
        if let Some(e) = array_elements_spec(s@) {
            let rd = |t: Seq<char>| bool_spec(t);
            lemma_typed_array(read, rd, e, r);
            if r is Some {
                let v = r->0;
                assert(forall|i: int| 0 <= i < e.len() ==> #[trigger] bool_spec(e[i]) == rd(e[i]));
                assert(v@ =~= e.map_values(|x: Seq<char>| bool_spec(x)->0));
            } else {
                let i = choose|i: int| 0 <= i < e.len() && #[trigger] rd(e[i]) is None;
                assert(bool_spec(e[i]) is None);
            }
        }
    }
    r
}

fn typed_ints(s: &str) -> (r: Option<Vec<i64>>)
    ensures
        match array_elements_spec(s@) {
            Some(e) => match ints_read(e) {
                Some(x) => r matches Some(v) && v@ == x,
                None => r is None,
            },
            None => r is None,
        },
{
    let read = |x: &str| -> (o: Option<i64>)
        ensures
            o == parse_i64_spec(x@),
        { parse_i64(x) };
    let r = parse_typed_array(s, read);
    proof {
        if let Some(e) = array_elements_spec(s@) {
            let rd = |t: Seq<char>| parse_i64_spec(t);
            lemma_typed_array(read, rd, e, r);
            if r is Some {
                let v = r->0;
                assert(forall|i: int| 0 <= i < e.len() ==> #[trigger] parse_i64_spec(e[i]) == rd(e[i]));
                assert(v@ =~= e.map_values(|x: Seq<char>| parse_i64_spec(x)->0));
            } else {
                let i = choose|i: int| 0 <= i < e.len() && #[trigger] rd(e[i]) is None;
                assert(parse_i64_spec(e[i]) is None);
            }
        }
    }
    r
}

fn typed_bytes(s: &str) -> (r: Option<Vec<u8>>)
    ensures
        match array_elements_spec(s@) {
            Some(e) => match bytes_read(e) {
                Some(x) => r matches Some(v) && v@ == x,
                None => r is None,
            },
            None => r is None,
        },
{
    let read = |x: &str| -> (o: Option<u8>)
        ensures
            o == parse_u8_spec(x@),
        { parse_u8(x) };
    let r = parse_typed_array(s, read);
    proof {
        if let Some(e) = array_elements_spec(s@) {
            let rd = |t: Seq<char>| parse_u8_spec(t);
            lemma_typed_array(read, rd, e, r);
            if r is Some {
                let v = r->0;
                assert(forall|i: int| 0 <= i < e.len() ==> #[trigger] parse_u8_spec(e[i]) == rd(e[i]));
                assert(v@ =~= e.map_values(|x: Seq<char>| parse_u8_spec(x)->0));
            } else {
                let i = choose|i: int| 0 <= i < e.len() && #[trigger] rd(e[i]) is None;
                assert(parse_u8_spec(e[i]) is None);
            }
        }
    }
    r
}

impl ParamValue {
    /// A value read from user input for a parameter whose value is
    /// `current`, keeping `current`'s type where the input allows it: an edit
    /// field thus keeps `"42"` a string, and submitting the shown text of a
    /// value unchanged (such as a byte array's `[3 bytes]`) keeps the value.
    /// `current_doubles` are the written texts of `current`'s doubles;
    /// `readings` are the double readings of `double_candidates(input)`.
    pub fn parse_preserving_type(
        input: &str,
        current: &ParamValue,
        current_doubles: &Vec<String>,
        readings: &Vec<Option<u64>>,
    ) -> (r: ParamValue)
        ensures
            r@ == parse_preserving_spec(
                input@,
                current@,
                display_spec(current@, views(current_doubles@)),
                readings@,
            ),
    {
        let s = trim(input);
        let shown = current.display(current_doubles);
        if str_eq(s, shown.as_str()) {
            return current.duplicate();
        }
        match current {
            ParamValue::NotSet => Self::parse(s, readings),
            ParamValue::Bool(_) => match parse_bool(s) {
                Some(b) => ParamValue::Bool(b),
                None => Self::parse(s, readings),
            },
            ParamValue::Integer(_) => match parse_i64(s) {
                Some(i) => ParamValue::Integer(i),
                None => Self::parse(s, readings),
            },
            ParamValue::Double(_) => match reading_at(readings, 0) {
                Some(d) => ParamValue::Double(d),
                None => Self::parse(s, readings),
            },
            ParamValue::String(_) => ParamValue::String(owned(strip_quotes(s))),
            ParamValue::ByteArray(_) => match typed_bytes(s) {
                Some(v) => ParamValue::ByteArray(v),
                None => Self::parse(s, readings),
            },
            ParamValue::BoolArray(_) => match typed_bools(s) {
                Some(v) => ParamValue::BoolArray(v),
                None => Self::parse(s, readings),
            },
            ParamValue::IntegerArray(_) => match typed_ints(s) {
                Some(v) => ParamValue::IntegerArray(v),
                None => Self::parse(s, readings),
            },
            ParamValue::DoubleArray(_) => match parse_array_elements(s) {
                Some(elems) => match read_doubles(elems.len(), readings) {
                    Some(v) => ParamValue::DoubleArray(v),
                    None => Self::parse(s, readings),
                },
                None => Self::parse(s, readings),
            },
            ParamValue::StringArray(_) => match parse_array_elements(s) {
                Some(elems) => ParamValue::StringArray(strip_each(&elems)),
                None => Self::parse(s, readings),
            },
        }
    }
}

/// Submitting a value's shown text unchanged keeps the value, whatever its
/// type (a byte array shown as `[3 bytes]` among them).
pub proof fn lemma_shown_text_keeps_value(
    input: Seq<char>,
    current: ParamView,
    doubles: Seq<Seq<char>>,
    readings: Seq<Option<u64>>,
)
    requires
        trim_spec(input) == display_spec(current, doubles),
    ensures
        parse_preserving_spec(input, current, display_spec(current, doubles), readings) == current,
{
}

/// A truth value shown and read back is the same value.
pub proof fn lemma_bool_display_round_trip(b: bool, doubles: Seq<Seq<char>>, readings: Seq<Option<u64>>)
    ensures
        parse_spec(display_spec(ParamView::Bool(b), doubles), readings) == ParamView::Bool(b),
{
    reveal_strlit("true");
    reveal_strlit("false");
    reveal_strlit("True");
    reveal_strlit("TRUE");
    let s = bool_text(b);
    assert(trim_start_spec(s) == s);
    assert(trim_end_spec(s) == s);
    assert(strip_pair_spec(s, '[', ']') is None);
}

/// An integer shown and read back is the same integer.
pub proof fn lemma_integer_display_round_trip(i: i64, doubles: Seq<Seq<char>>, readings: Seq<Option<u64>>)
    ensures
        parse_spec(display_spec(ParamView::Integer(i), doubles), readings) == ParamView::Integer(i),
{
    reveal_strlit("true");
    reveal_strlit("false");
    reveal_strlit("True");
    reveal_strlit("TRUE");
    reveal_strlit("False");
    reveal_strlit("FALSE");
    reveal_strlit("-");
    let s = signed_decimal_spec(i as int);
    lemma_i64_text_round_trip(i);
    let m: nat = if i < 0 { (-i) as nat } else { i as nat };
    lemma_decimal_digits(m);
    let d = decimal_spec(m);
    assert(is_digit(d[0]) && is_digit(d.last()));
    if i < 0 {
        assert(s[0] == '-');
        assert(s.last() == d.last());
    } else {
        assert(s == d);
    }
    assert(!is_whitespace(s[0]) && !is_whitespace(s.last()));
    assert(trim_start_spec(s) == s);
    assert(trim_end_spec(s) == s);
    assert(strip_pair_spec(s, '[', ']') is None);
    assert("true"@[0] == 't' && "True"@[0] == 'T' && "TRUE"@[0] == 'T');
    assert("false"@[0] == 'f' && "False"@[0] == 'F' && "FALSE"@[0] == 'F');
    assert(bool_spec(s) is None);
}

/// Editing a truth value: when the current value is a truth value and the
/// input, trimmed, is one of `true`, `True`, `TRUE` (or `false`, `False`,
/// `FALSE`), the new value is that truth value, whatever the current one was.
pub proof fn lemma_edit_bool_reads_input(
    input: Seq<char>,
    current: bool,
    doubles: Seq<Seq<char>>,
    readings: Seq<Option<u64>>,
)
    ensures
        ({
            let s = trim_spec(input);
            let r = parse_preserving_spec(
                input,
                ParamView::Bool(current),
                display_spec(ParamView::Bool(current), doubles),
                readings,
            );
            &&& (s == "true"@ || s == "True"@ || s == "TRUE"@) ==> r == ParamView::Bool(true)
            &&& (s == "false"@ || s == "False"@ || s == "FALSE"@) ==> r == ParamView::Bool(false)
        }),
{
    reveal_strlit("true");
    reveal_strlit("True");
    reveal_strlit("TRUE");
    reveal_strlit("false");
    reveal_strlit("False");
    reveal_strlit("FALSE");
    assert("true"@.len() != "false"@.len());
    assert("True"@[0] != "true"@[0] && "TRUE"@[0] != "true"@[0]);
    assert("False"@[0] != "false"@[0] && "FALSE"@[0] != "false"@[0]);
    assert("True"@.len() != "false"@.len() && "TRUE"@.len() != "false"@.len());
    assert("False"@.len() != "true"@.len() && "FALSE"@.len() != "true"@.len());
}

/// Editing an integer: when the current value is an integer and the input,
/// trimmed, is the decimal text of an `i64` `k`, the new value is `k`,
/// whatever the current one was.
pub proof fn lemma_edit_integer_reads_input(
    input: Seq<char>,
    current: i64,
    k: i64,
    doubles: Seq<Seq<char>>,
    readings: Seq<Option<u64>>,
)
    requires
        trim_spec(input) == signed_decimal_spec(k as int),
    ensures
        parse_preserving_spec(
            input,
            ParamView::Integer(current),
            display_spec(ParamView::Integer(current), doubles),
            readings,
        ) == ParamView::Integer(k),
{
    lemma_i64_text_round_trip(k);
    lemma_i64_text_round_trip(current);
}

/// Editing a double: when the current value is a double, the trimmed input
/// is not its current text, and the input reads as the double `d`, the new
/// value is `d`.
pub proof fn lemma_edit_double_reads_input(
    input: Seq<char>,
    current: u64,
    d: u64,
    doubles: Seq<Seq<char>>,
    readings: Seq<Option<u64>>,
)
    requires
        trim_spec(input) != display_spec(ParamView::Double(current), doubles),
        readings.len() > 0,
        readings[0] == Some(d),
    ensures
        parse_preserving_spec(
            input,
            ParamView::Double(current),
            display_spec(ParamView::Double(current), doubles),
            readings,
        ) == ParamView::Double(d),
{
}

} // verus!
