use vstd::prelude::*;
use crate::json::{Json, JsonView, spec_obj_get, obj_get, spec_as_u64, as_u64, spec_as_text,
    as_text, spec_as_bool, as_bool, spec_as_num_text, as_num_text, views_of_members};

verus! {

// ---------------------------------------------------------------------------
// Field decoders. Each reads one member of a decoded object; the lenient one
// normalizes the upstream habit of sending an empty string for "absent".
// ---------------------------------------------------------------------------

/// A required integer field: present and a plain non-negative number.
pub open spec fn spec_req_u64(ms: Seq<(Seq<char>, JsonView)>, key: Seq<char>) -> Option<u64> {
    match spec_obj_get(ms, key) {
        Some(v) => spec_as_u64(v),
        None => None,
    }
}

pub fn req_u64(members: &Vec<(Vec<char>, Json)>, key: &str) -> (r: Option<u64>)
    ensures
        r == spec_req_u64(views_of_members(members@), key@),
{
    match obj_get(members, key) {
        Some(v) => as_u64(v),
        None => None,
    }
}

/// A required text field: present and a string.
pub open spec fn spec_req_text(ms: Seq<(Seq<char>, JsonView)>, key: Seq<char>) -> Option<
    Seq<char>,
> {
    match spec_obj_get(ms, key) {
        Some(v) => spec_as_text(v),
        None => None,
    }
}

pub fn req_text(members: &Vec<(Vec<char>, Json)>, key: &str) -> (r: Option<Vec<char>>)
    ensures
        (match r {
            Some(t) => spec_req_text(views_of_members(members@), key@) == Some(t@),
            None => spec_req_text(views_of_members(members@), key@) is None,
        }),
{
    match obj_get(members, key) {
        Some(v) => as_text(v),
        None => None,
    }
}

/// A required boolean field.
pub open spec fn spec_req_bool(ms: Seq<(Seq<char>, JsonView)>, key: Seq<char>) -> Option<bool> {
    match spec_obj_get(ms, key) {
        Some(v) => spec_as_bool(v),
        None => None,
    }
}

pub fn req_bool(members: &Vec<(Vec<char>, Json)>, key: &str) -> (r: Option<bool>)
    ensures
        r == spec_req_bool(views_of_members(members@), key@),
{
    match obj_get(members, key) {
        Some(v) => as_bool(v),
        None => None,
    }
}

/// A required numeric field kept as its decimal lexeme.
pub open spec fn spec_req_num_text(ms: Seq<(Seq<char>, JsonView)>, key: Seq<char>) -> Option<
    Seq<char>,
> {
    match spec_obj_get(ms, key) {
        Some(v) => spec_as_num_text(v),
        None => None,
    }
}

pub fn req_num_text(members: &Vec<(Vec<char>, Json)>, key: &str) -> (r: Option<Vec<char>>)
    ensures
        (match r {
            Some(t) => spec_req_num_text(views_of_members(members@), key@) == Some(t@),
            None => spec_req_num_text(views_of_members(members@), key@) is None,
        }),
{
    match obj_get(members, key) {
        Some(v) => as_num_text(v),
        None => None,
    }
}

/// An optional text field: a missing key or a null means "absent"; a string
/// is the value; anything else is a shape error (the outer `None`).
pub open spec fn spec_opt_text(ms: Seq<(Seq<char>, JsonView)>, key: Seq<char>) -> Option<
    Option<Seq<char>>,
> {
    match spec_obj_get(ms, key) {
        None => Some(None),
        Some(JsonView::Null) => Some(None),
        Some(JsonView::Str(t)) => Some(Some(t)),
        Some(_) => None,
    }
}

pub fn opt_text(members: &Vec<(Vec<char>, Json)>, key: &str) -> (r: Option<Option<Vec<char>>>)
    ensures
        (match r {
            Some(Some(t)) => spec_opt_text(views_of_members(members@), key@) == Some(
                Some(t@),
            ),
            Some(None) => spec_opt_text(views_of_members(members@), key@) == Some(
                None::<Seq<char>>,
            ),
            None => spec_opt_text(views_of_members(members@), key@) is None,
        }),
{
    match obj_get(members, key) {
        None => Some(None),
        Some(v) => match v {
            Json::Null => Some(None),
            Json::Str(t) => Some(Some(crate::text::copy_text(t))),
            _ => None,
        },
    }
}

/// An optional integer field: missing or null means "absent".
pub open spec fn spec_opt_u64(ms: Seq<(Seq<char>, JsonView)>, key: Seq<char>) -> Option<
    Option<u64>,
> {
    match spec_obj_get(ms, key) {
        None => Some(None),
        Some(JsonView::Null) => Some(None),
        Some(v) => match spec_as_u64(v) {
            Some(n) => Some(Some(n)),
            None => None,
        },
    }
}

pub fn opt_u64(members: &Vec<(Vec<char>, Json)>, key: &str) -> (r: Option<Option<u64>>)
    ensures
        r == spec_opt_u64(views_of_members(members@), key@),
{
    match obj_get(members, key) {
        None => Some(None),
        Some(v) => match v {
            Json::Null => Some(None),
            _ => match as_u64(v) {
                Some(n) => Some(Some(n)),
                None => None,
            },
        },
    }
}

/// What a lenient field decodes to, given what stood under its key: a
/// missing key, an explicit null and an empty string all mean "absent".
pub open spec fn spec_lenient_value(v: Option<JsonView>) -> Option<Option<Seq<char>>> {
    match v {
        None => Some(None),
        Some(JsonView::Null) => Some(None),
        Some(JsonView::Str(t)) => if t.len() == 0 {
            Some(None)
        } else {
            Some(Some(t))
        },
        Some(_) => None,
    }
}

/// A lenient text field of an object.
pub open spec fn spec_lenient_text(ms: Seq<(Seq<char>, JsonView)>, key: Seq<char>) -> Option<
    Option<Seq<char>>,
> {
    spec_lenient_value(spec_obj_get(ms, key))
}

pub fn lenient_text(members: &Vec<(Vec<char>, Json)>, key: &str) -> (r: Option<
    Option<Vec<char>>,
>)
    ensures
        (match r {
            Some(Some(t)) => spec_lenient_text(views_of_members(members@), key@) == Some(
                Some(t@),
            ),
            Some(None) => spec_lenient_text(views_of_members(members@), key@) == Some(
                None::<Seq<char>>,
            ),
            None => spec_lenient_text(views_of_members(members@), key@) is None,
        }),
{
    match obj_get(members, key) {
        None => Some(None),
        Some(v) => match v {
            Json::Null => Some(None),
            Json::Str(t) => if t.len() == 0 {
                Some(None)
            } else {
                Some(Some(crate::text::copy_text(t)))
            },
            _ => None,
        },
    }
}

/// Law: under a lenient field, an empty string, an explicit null and a
/// missing key all decode to the same absent value.
pub proof fn lemma_lenient_absent_forms(t: Seq<char>)
    requires
        t.len() == 0,
    ensures
        spec_lenient_value(Some(JsonView::Str(t))) == Some(None::<Seq<char>>),
        spec_lenient_value(Some(JsonView::Null)) == Some(None::<Seq<char>>),
        spec_lenient_value(None) == Some(None::<Seq<char>>),
        spec_lenient_value(Some(JsonView::Str(t))) == spec_lenient_value(None),
        spec_lenient_value(Some(JsonView::Null)) == spec_lenient_value(None),
{
}

/// Law: a lenient field never decodes to an empty string; what it returns
/// is either absent or non-empty text.
pub proof fn lemma_lenient_never_empty(v: Option<JsonView>)
    ensures
        (match spec_lenient_value(v) {
            Some(Some(t)) => t.len() > 0,
            _ => true,
        }),
{
}

} // verus!
