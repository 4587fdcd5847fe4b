use vstd::prelude::*;
use crate::json::{Json, JsonView, views_of_list, lemma_views_of_list};
use crate::codec::{spec_parse_json, parse_json, chars_range};
use crate::error::{Error, ErrorView, DecodeError, DecodeErrorView, spec_is_success, is_success,
    spec_classify_failure, classify_failure};

verus! {

/// A type that can be read out of a decoded JSON document. `spec_decode`
/// is the meaning; `decode` is proved to follow it exactly.
pub trait JsonDecode: View + Sized {
    spec fn spec_decode(v: JsonView) -> Option<Self::V>;

    fn decode(v: &Json) -> (r: Option<Self>)
        ensures
            (match r {
                Some(x) => Self::spec_decode(v@) == Some(x@),
                None => Self::spec_decode(v@) is None,
            }),
    ;
}

/// A type that can also be written back as JSON, with the law that decoding
/// what was encoded returns the value unchanged.
pub trait JsonEncode: JsonDecode {
    spec fn spec_encode(x: Self::V) -> JsonView;

    fn encode(&self) -> (r: Json)
        ensures
            r@ == Self::spec_encode(self@),
    ;

    /// Law: encoding then decoding is the identity.
    proof fn lemma_encode_decode(x: Self::V)
        ensures
            Self::spec_decode(Self::spec_encode(x)) == Some(x),
    ;
}

/// The views of a sequence of values.
pub open spec fn seq_view<T: View>(s: Seq<T>) -> Seq<T::V> {
    s.map_values(|x: T| x@)
}

/// Decodes the items of a JSON array from position `i` on: defined only
/// when every item decodes.
pub open spec fn spec_decode_list<T: JsonDecode>(items: Seq<JsonView>, i: int) -> Option<
    Seq<T::V>,
>
    decreases items.len() - i,
    when 0 <= i <= items.len()
{
    if i >= items.len() {
        Some(Seq::empty())
    } else {
        match T::spec_decode(items[i]) {
            Some(x) => match spec_decode_list::<T>(items, i + 1) {
                Some(rest) => Some(seq![x] + rest),
                None => None,
            },
            None => None,
        }
    }
}

pub fn decode_list<T: JsonDecode>(items: &Vec<Json>, i: usize) -> (r: Option<Vec<T>>)
    requires
        i <= items@.len(),
    ensures
        (match r {
            Some(xs) => spec_decode_list::<T>(views_of_list(items@), i as int) == Some(
                seq_view(xs@),
            ),
            None => spec_decode_list::<T>(views_of_list(items@), i as int) is None,
        }),
    decreases items@.len() - i,
{
    proof {
        broadcast use lemma_views_of_list;

    }
    if i >= items.len() {
        let xs: Vec<T> = Vec::new();
        proof {
            assert(seq_view(xs@) =~= Seq::<T::V>::empty());
        }
        Some(xs)
    } else {
        match T::decode(&items[i]) {
            Some(x) => match decode_list::<T>(items, i + 1) {
                Some(rest) => {
                    let mut xs = rest;
                    xs.insert(0, x);
                    proof {
                        assert(xs@.drop_first() =~= xs@.subrange(1, xs@.len() as int));
                        assert(seq_view(xs@) =~= seq![xs@[0]@] + seq_view(xs@.drop_first()));
                    }
                    Some(xs)
                },
                None => None,
            },
            None => None,
        }
    }
}

/// The items of an encoded list, in order.
pub open spec fn spec_encode_list<T: JsonEncode>(xs: Seq<T::V>) -> Seq<JsonView> {
    xs.map_values(|x: T::V| T::spec_encode(x))
}

/// Law: a list of encoded values decodes back to the same values in the
/// same order.
pub proof fn lemma_decode_encode_list<T: JsonEncode>(xs: Seq<T::V>, i: int)
    requires
        0 <= i <= xs.len(),
    ensures
        spec_decode_list::<T>(spec_encode_list::<T>(xs), i) == Some(xs.skip(i)),
    decreases xs.len() - i,
{
    let encoded = spec_encode_list::<T>(xs);
    if i >= xs.len() {
        assert(xs.skip(i) =~= Seq::<T::V>::empty());
    } else {
        T::lemma_encode_decode(xs[i]);
        lemma_decode_encode_list::<T>(xs, i + 1);
        assert(xs.skip(i) =~= seq![xs[i]] + xs.skip(i + 1));
    }
}

/// A request descriptor: a value that knows its path, its query parameters
/// and the type its response body decodes to.
pub trait Command {
    type Output: JsonDecode;

    spec fn spec_path(&self) -> Seq<char>;

    spec fn spec_params(&self) -> Seq<(Seq<char>, Seq<char>)>;

    fn path(&self) -> (r: Vec<char>)
        ensures
            r@ == self.spec_path(),
    ;

    fn params(&self) -> (r: Vec<(Vec<char>, Vec<char>)>)
        ensures
            pairs_view(r@) == self.spec_params(),
    ;
}

/// The views of a list of query parameter pairs.
pub open spec fn pairs_view(s: Seq<(Vec<char>, Vec<char>)>) -> Seq<(Seq<char>, Seq<char>)> {
    s.map_values(|p: (Vec<char>, Vec<char>)| (p.0@, p.1@))
}

/// The view of a whole call result.
pub open spec fn result_view<T: View>(r: Result<T, Error>) -> Result<T::V, ErrorView> {
    match r {
        Ok(x) => Ok(x@),
        Err(e) => Err(e@),
    }
}

/// How many characters of a body a decode-failure diagnostic keeps.
pub open spec fn spec_snippet(body: Seq<char>) -> Seq<char> {
    if body.len() <= 60 {
        body
    } else {
        body.take(60)
    }
}

fn snippet_of(body: &str) -> (r: Vec<char>)
    ensures
        r@ == spec_snippet(body@),
{
    let n = body.unicode_len();
    if n <= 60 {
        let r = chars_range(body, 0, n);
        proof {
            assert(body@.subrange(0, n as int) =~= body@);
        }
        r
    } else {
        chars_range(body, 0, 60)
    }
}

/// What a successful status's body decodes to: the output type on a body
/// that parses and matches the schema, and a decode failure otherwise.
pub open spec fn spec_decode_success<T: JsonDecode>(body: Seq<char>) -> Result<T::V, ErrorView> {
    match spec_parse_json(body) {
        Some(v) => match T::spec_decode(v) {
            Some(out) => Ok(out),
            None => Err(ErrorView::Decode(DecodeErrorView { snippet: spec_snippet(body) })),
        },
        None => Err(ErrorView::Decode(DecodeErrorView { snippet: spec_snippet(body) })),
    }
}

/// The whole response pipeline as a function of status and body: a success
/// status decodes the body, any other status is classified by shape.
pub open spec fn spec_handle_response<T: JsonDecode>(status: u16, body: Seq<char>) -> Result<
    T::V,
    ErrorView,
> {
    if spec_is_success(status) {
        spec_decode_success::<T>(body)
    } else {
        Err(spec_classify_failure(status, body))
    }
}

/// Turns one HTTP response into the command's typed result or its
/// classified error. This is the pure core of command execution; the
/// transport hands it what came over the wire.
pub fn handle_response<T: JsonDecode>(status: u16, body: &str) -> (r: Result<T, Error>)
    ensures
        result_view(r) == spec_handle_response::<T>(status, body@),
{
    if is_success(status) {
        match parse_json(body) {
            Some(v) => match T::decode(&v) {
                Some(out) => Ok(out),
                None => Err(Error::Decode(DecodeError { snippet: snippet_of(body) })),
            },
            None => Err(Error::Decode(DecodeError { snippet: snippet_of(body) })),
        }
    } else {
        Err(classify_failure(status, body))
    }
}

/// Law: handling the same status and body twice yields structurally equal
/// results — the contract pins the outcome to the inputs alone.
pub proof fn lemma_handle_response_deterministic<T: JsonDecode>(
    status: u16,
    body: Seq<char>,
    r1: Result<T, Error>,
    r2: Result<T, Error>,
)
    requires
        result_view(r1) == spec_handle_response::<T>(status, body),
        result_view(r2) == spec_handle_response::<T>(status, body),
    ensures
        result_view(r1) == result_view(r2),
{
}

} // verus!
