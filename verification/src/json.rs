use vstd::prelude::*;
use crate::text::{all_digits, dec_val, copy_text, parse_u64, text_eq_str};

verus! {

/// A JSON document after parsing. Text is kept as characters and numbers
/// keep their decimal lexeme, so nothing is lost between wire and model.
pub enum Json {
    Null,
    Bool(bool),
    Num(Vec<char>),
    Str(Vec<char>),
    Arr(Vec<Json>),
    Obj(Vec<(Vec<char>, Json)>),
}

/// The mathematical shape of a JSON document, used by every contract.
pub enum JsonView {
    Null,
    Bool(bool),
    Num(Seq<char>),
    Str(Seq<char>),
    Arr(Seq<JsonView>),
    Obj(Seq<(Seq<char>, JsonView)>),
}

pub open spec fn view_of(v: Json) -> JsonView
    decreases v,
{
    match v {
        Json::Null => JsonView::Null,
        Json::Bool(b) => JsonView::Bool(b),
        Json::Num(t) => JsonView::Num(t@),
        Json::Str(t) => JsonView::Str(t@),
        Json::Arr(items) => JsonView::Arr(views_of_list(items@)),
        Json::Obj(members) => JsonView::Obj(views_of_members(members@)),
    }
}

pub open spec fn views_of_list(items: Seq<Json>) -> Seq<JsonView>
    decreases items,
{
    if items.len() == 0 {
        Seq::empty()
    } else {
        seq![view_of(items[0])] + views_of_list(items.drop_first())
    }
}

pub open spec fn views_of_members(members: Seq<(Vec<char>, Json)>) -> Seq<(Seq<char>, JsonView)>
    decreases members,
{
    if members.len() == 0 {
        Seq::empty()
    } else {
        seq![(members[0].0@, view_of(members[0].1))] + views_of_members(members.drop_first())
    }
}

impl View for Json {
    type V = JsonView;

    open spec fn view(&self) -> JsonView {
        view_of(*self)
    }
}

pub broadcast proof fn lemma_views_of_list(items: Seq<Json>)
    ensures
        (#[trigger] views_of_list(items)).len() == items.len(),
        forall|i: int| 0 <= i < items.len() ==> views_of_list(items)[i] == view_of(items[i]),
    decreases items,
{
    if items.len() > 0 {
        lemma_views_of_list(items.drop_first());
    }
}

pub broadcast proof fn lemma_views_of_members(members: Seq<(Vec<char>, Json)>)
    ensures
        (#[trigger] views_of_members(members)).len() == members.len(),
        forall|i: int|
            0 <= i < members.len() ==> views_of_members(members)[i] == (
            members[i].0@,
            view_of(members[i].1),
            ),
    decreases members,
{
    if members.len() > 0 {
        lemma_views_of_members(members.drop_first());
    }
}

/// The value under the first member with the given key, if any.
pub open spec fn spec_obj_get(members: Seq<(Seq<char>, JsonView)>, key: Seq<char>) -> Option<
    JsonView,
>
    decreases members.len(),
{
    if members.len() == 0 {
        None
    } else if members[0].0 == key {
        Some(members[0].1)
    } else {
        spec_obj_get(members.drop_first(), key)
    }
}

/// Looks a key up in an object's member list, first match wins.
pub fn obj_get<'a>(members: &'a Vec<(Vec<char>, Json)>, key: &str) -> (r: Option<&'a Json>)
    ensures
        (match r {
            Some(v) => spec_obj_get(views_of_members(members@), key@) == Some(view_of(*v)),
            None => spec_obj_get(views_of_members(members@), key@) is None,
        }),
{
    proof {
        broadcast use lemma_views_of_members;

        assert(views_of_members(members@).skip(0) =~= views_of_members(members@));
    }
    let mut i: usize = 0;
    while i < members.len()
        invariant
            i <= members@.len(),
            spec_obj_get(views_of_members(members@), key@) == spec_obj_get(
                views_of_members(members@).skip(i as int),
                key@,
            ),
        decreases members@.len() - i,
    {
        proof {
            broadcast use lemma_views_of_members;

        }
        if text_eq_str(&members[i].0, key) {
            proof {
                let tail = views_of_members(members@).skip(i as int);
                assert(tail[0] == (members@[i as int].0@, view_of(members@[i as int].1)));
            }
            return Some(&members[i].1);
        }
        proof {
            let tail = views_of_members(members@).skip(i as int);
            assert(tail[0] == (members@[i as int].0@, view_of(members@[i as int].1)));
            assert(tail.drop_first() =~= views_of_members(members@).skip(i + 1));
        }
        i = i + 1;
    }
    proof {
        assert(views_of_members(members@).skip(i as int).len() == 0);
    }
    None
}


/// Looking a key up finds the entry at `i` when no earlier entry has it.
pub proof fn lemma_obj_get_at(ms: Seq<(Seq<char>, JsonView)>, key: Seq<char>, i: int)
    requires
        0 <= i < ms.len(),
        ms[i].0 == key,
        forall|j: int| 0 <= j < i ==> (#[trigger] ms[j]).0 != key,
    ensures
        spec_obj_get(ms, key) == Some(ms[i].1),
    decreases i,
{
    if i > 0 {
        lemma_obj_get_at(ms.drop_first(), key, i - 1);
    }
}


/// A JSON number read as a non-negative integer: defined exactly when the
/// lexeme is a plain digit run whose value fits in `u64`.
pub open spec fn spec_as_u64(v: JsonView) -> Option<u64> {
    match v {
        JsonView::Num(lex) => if lex.len() > 0 && all_digits(lex) && dec_val(lex) <= u64::MAX {
            Some(dec_val(lex) as u64)
        } else {
            None
        },
        _ => None,
    }
}

pub fn as_u64(v: &Json) -> (r: Option<u64>)
    ensures
        r == spec_as_u64(v@),
{
    match v {
        Json::Num(lex) => parse_u64(lex),
        _ => None,
    }
}

/// The text of a JSON string, and nothing else.
pub open spec fn spec_as_text(v: JsonView) -> Option<Seq<char>> {
    match v {
        JsonView::Str(t) => Some(t),
        _ => None,
    }
}

pub fn as_text(v: &Json) -> (r: Option<Vec<char>>)
    ensures
        (match r {
            Some(t) => spec_as_text(v@) == Some(t@),
            None => spec_as_text(v@) is None,
        }),
{
    match v {
        Json::Str(t) => Some(copy_text(t)),
        _ => None,
    }
}

/// The raw lexeme of a JSON number, for fields whose exact decimal text
/// matters more than an integer reading.
pub open spec fn spec_as_num_text(v: JsonView) -> Option<Seq<char>> {
    match v {
        JsonView::Num(lex) => Some(lex),
        _ => None,
    }
}

pub fn as_num_text(v: &Json) -> (r: Option<Vec<char>>)
    ensures
        (match r {
            Some(t) => spec_as_num_text(v@) == Some(t@),
            None => spec_as_num_text(v@) is None,
        }),
{
    match v {
        Json::Num(lex) => Some(copy_text(lex)),
        _ => None,
    }
}

pub open spec fn spec_as_bool(v: JsonView) -> Option<bool> {
    match v {
        JsonView::Bool(b) => Some(b),
        _ => None,
    }
}

pub fn as_bool(v: &Json) -> (r: Option<bool>)
    ensures
        r == spec_as_bool(v@),
{
    match v {
        Json::Bool(b) => Some(*b),
        _ => None,
    }
}


} // verus!
