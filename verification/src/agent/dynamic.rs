//! Time stamps of messages converted at run time: a message of a type with
//! no static converter arrives as a `DynValue` tree, and its stamp is looked
//! up by field name.
use vstd::prelude::*;

use crate::protocol::types::{lemma_leaf_view, lemma_struct_view, DynValue, DynView, Timestamp};
use crate::text::str_eq;

verus! {

/// The position of the first field named `name` among `fields`.
pub open spec fn first_field(fields: Seq<(Seq<char>, DynView)>, name: Seq<char>) -> Option<int> {
    if exists|i: int| 0 <= i < fields.len() && fields[i].0 == name {
        Some(
            choose|i: int|
                0 <= i < fields.len() && fields[i].0 == name && forall|k: int|
                    0 <= k < i ==> fields[k].0 != name,
        )
    } else {
        None
    }
}

/// The first field named `name` of a struct value; none for other values.
pub open spec fn field_named(v: DynView, name: Seq<char>) -> Option<DynView> {
    match v {
        DynView::Struct { fields, .. } => match first_field(fields, name) {
            Some(i) => Some(fields[i].1),
            None => None,
        },
        _ => None,
    }
}

/// The field named `name` of a struct is the one at `k` when `k` is the first
/// position with that name.
pub proof fn lemma_field_named_at(v: DynView, name: Seq<char>, k: int)
    requires
        v is Struct,
        0 <= k < v->fields.len(),
        v->fields[k].0 == name,
        forall|j: int| 0 <= j < k ==> v->fields[j].0 != name,
    ensures
        field_named(v, name) == Some(v->fields[k].1),
{
    let fields = v->fields;
    assert(exists|i: int| 0 <= i < fields.len() && fields[i].0 == name);
    let c = choose|i: int|
        0 <= i < fields.len() && fields[i].0 == name && forall|j: int|
            0 <= j < i ==> fields[j].0 != name;
    assert(0 <= k < fields.len() && fields[k].0 == name && forall|j: int|
        0 <= j < k ==> fields[j].0 != name);
    assert(c == k) by {
        if c < k {
            assert(fields[c].0 != name);
        }
        if c > k {
            assert(fields[k].0 != name);
        }
    }
}

/// The time stamp in the struct field `field` of `v`: a struct whose `sec`
/// is an `i32` and whose `nanosec` is a `u32`.
pub open spec fn time_at(v: DynView, field: Seq<char>) -> Option<Timestamp> {
    match field_named(v, field) {
        Some(t) => if t is Struct {
            match (field_named(t, "sec"@), field_named(t, "nanosec"@)) {
                (Some(DynView::I32(sec)), Some(DynView::U32(nanosec))) => Some(
                    Timestamp { sec, nanosec },
                ),
                _ => None,
            }
        } else {
            None
        },
        None => None,
    }
}

/// The stamp of a message: `header.stamp` when the header is a struct with
/// one, else a top-level `stamp`.
pub open spec fn stamp_spec(v: DynView) -> Option<Timestamp> {
    match field_named(v, "header"@) {
        Some(h) => if h is Struct && time_at(h, "stamp"@) is Some {
            time_at(h, "stamp"@)
        } else {
            time_at(v, "stamp"@)
        },
        None => time_at(v, "stamp"@),
    }
}

/// The first field named `name` of a struct value.
pub fn field_of<'a>(v: &'a DynValue, name: &str) -> (r: Option<&'a DynValue>)
    ensures
        match field_named(v@, name@) {
            Some(f) => r matches Some(x) && x@ == f,
            None => r is None,
        },
{
    match v {
        DynValue::Struct { struct_type, fields } => {
            proof {
                lemma_struct_view(*struct_type, *fields);
            }
            let ghost fv = fields@.map_values(|f: (String, DynValue)| (f.0@, f.1@));
            let mut i: usize = 0;
            while i < fields.len()
                invariant
                    fv == fields@.map_values(|f: (String, DynValue)| (f.0@, f.1@)),
                    v@ == (DynView::Struct { struct_type: struct_type@, fields: fv }),
                    i <= fields@.len(),
                    forall|k: int| 0 <= k < i ==> fv[k].0 != name@,
                decreases fields@.len() - i,
            {
                if str_eq(fields[i].0.as_str(), name) {
                    proof {
                        assert(fv[i as int].0 == name@);
                        let c = choose|j: int|
                            0 <= j < fv.len() && fv[j].0 == name@ && forall|k: int|
                                0 <= k < j ==> fv[k].0 != name@;
                        assert(c == i) by {
                            if c < i {
                                assert(fv[c].0 != name@);
                            }
                            if c > i {
                                assert(fv[i as int].0 != name@);
                            }
                        }
                    }
                    return Some(&fields[i].1);
                }
                i = i + 1;
            }
            None
        },
        _ => None,
    }
}

/// A value is a struct exactly when its view is.
proof fn lemma_struct_kind(v: DynValue)
    ensures
        (v@ is Struct) <==> (v is Struct),
{
}

/// The time stamp in the struct field `field` of `v`.
#[verifier::rlimit(40)]
pub fn stamp_from_time(v: &DynValue, field: &str) -> (r: Option<Timestamp>)
    ensures
        r == time_at(v@, field@),
{
    let t = match field_of(v, field) {
        Some(t) => t,
        None => return None,
    };
    proof {
        lemma_struct_kind(*t);
    }
    match t {
        DynValue::Struct { .. } => {},
        _ => return None,
    }
    let sec_field = field_of(t, "sec");
    let sec = match sec_field {
        Some(x) => {
            proof {
                lemma_leaf_view(*x);
            }
            match x {
                DynValue::I32(s) => *s,
                _ => return None,
            }
        },
        None => return None,
    };
    let nanosec_field = field_of(t, "nanosec");
    let nanosec = match nanosec_field {
        Some(x) => {
            proof {
                lemma_leaf_view(*x);
            }
            match x {
                DynValue::U32(n) => *n,
                _ => return None,
            }
        },
        None => return None,
    };
    Some(Timestamp { sec, nanosec })
}

/// The stamp of a message converted at run time: `header.stamp`, else a
/// top-level `stamp`.
pub fn extract_stamp(v: &DynValue) -> (r: Option<Timestamp>)
    ensures
        r == stamp_spec(v@),
{
    if let Some(h) = field_of(v, "header") {
        proof {
            lemma_struct_kind(*h);
        }
        if let DynValue::Struct { .. } = h {
            if let Some(ts) = stamp_from_time(h, "stamp") {
                return Some(ts);
            }
        }
    }
    stamp_from_time(v, "stamp")
}

} // verus!
