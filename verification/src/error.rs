use vstd::prelude::*;
use crate::json::{Json, JsonView, spec_obj_get, obj_get, spec_as_text, as_text, views_of_list,
    views_of_members, view_of, lemma_views_of_list};
use crate::util::{spec_req_u64, req_u64, spec_req_text, req_text};
use crate::codec::{spec_parse_json, parse_json};
use crate::text::text_of;

verus! {

// ---------------------------------------------------------------------------
// The error taxonomy. Exactly one variant describes each failed call.
// ---------------------------------------------------------------------------

/// The service's own error record: its numeric code is the discriminant
/// callers key on, independent of the HTTP status it arrived with.
#[derive(Debug)]
pub struct ServerError {
    pub status_code: u64,
    pub status_message: Vec<char>,
}

pub struct ServerErrorView {
    pub status_code: u64,
    pub status_message: Seq<char>,
}

impl View for ServerError {
    type V = ServerErrorView;

    open spec fn view(&self) -> ServerErrorView {
        ServerErrorView { status_code: self.status_code, status_message: self.status_message@ }
    }
}

/// Field-level messages of a rejected request, in upstream order.
#[derive(Debug)]
pub struct ValidationError {
    pub errors: Vec<Vec<char>>,
}

pub struct ValidationErrorView {
    pub errors: Seq<Seq<char>>,
}

impl View for ValidationError {
    type V = ValidationErrorView;

    open spec fn view(&self) -> ValidationErrorView {
        ValidationErrorView { errors: self.errors@.map_values(|e: Vec<char>| e@) }
    }
}

/// A failure before or around the exchange itself: no response, or a
/// response whose body has no recognized shape. A `None` status means no
/// response was obtained at all.
#[derive(Debug)]
pub struct TransportError {
    pub status: Option<u16>,
    pub message: Vec<char>,
}

pub struct TransportErrorView {
    pub status: Option<u16>,
    pub message: Seq<char>,
}

impl View for TransportError {
    type V = TransportErrorView;

    open spec fn view(&self) -> TransportErrorView {
        TransportErrorView { status: self.status, message: self.message@ }
    }
}

/// A successful status whose body did not match the expected output schema:
/// a contract drift, not a transient fault. Carries a truncated body snippet.
#[derive(Debug)]
pub struct DecodeError {
    pub snippet: Vec<char>,
}

pub struct DecodeErrorView {
    pub snippet: Seq<char>,
}

impl View for DecodeError {
    type V = DecodeErrorView;

    open spec fn view(&self) -> DecodeErrorView {
        DecodeErrorView { snippet: self.snippet@ }
    }
}

#[derive(Debug)]
pub enum Error {
    Transport(TransportError),
    Server(ServerError),
    Validation(ValidationError),
    Decode(DecodeError),
}

pub enum ErrorView {
    Transport(TransportErrorView),
    Server(ServerErrorView),
    Validation(ValidationErrorView),
    Decode(DecodeErrorView),
}

impl View for Error {
    type V = ErrorView;

    open spec fn view(&self) -> ErrorView {
        match self {
            Error::Transport(e) => ErrorView::Transport(e@),
            Error::Server(e) => ErrorView::Server(e@),
            Error::Validation(e) => ErrorView::Validation(e@),
            Error::Decode(e) => ErrorView::Decode(e@),
        }
    }
}

impl Error {
    pub fn as_server_error(&self) -> (r: Option<&ServerError>)
        ensures
            (match r {
                Some(e) => self@ == ErrorView::Server(e@),
                None => !(self@ is Server),
            }),
    {
        match self {
            Error::Server(e) => Some(e),
            _ => None,
        }
    }

    pub fn as_validation_error(&self) -> (r: Option<&ValidationError>)
        ensures
            (match r {
                Some(e) => self@ == ErrorView::Validation(e@),
                None => !(self@ is Validation),
            }),
    {
        match self {
            Error::Validation(e) => Some(e),
            _ => None,
        }
    }

    pub fn as_transport_error(&self) -> (r: Option<&TransportError>)
        ensures
            (match r {
                Some(e) => self@ == ErrorView::Transport(e@),
                None => !(self@ is Transport),
            }),
    {
        match self {
            Error::Transport(e) => Some(e),
            _ => None,
        }
    }

    pub fn as_decode_error(&self) -> (r: Option<&DecodeError>)
        ensures
            (match r {
                Some(e) => self@ == ErrorView::Decode(e@),
                None => !(self@ is Decode),
            }),
    {
        match self {
            Error::Decode(e) => Some(e),
            _ => None,
        }
    }
}

// ---------------------------------------------------------------------------
// The classifier: HTTP status plus body shape decide the variant.
// ---------------------------------------------------------------------------

/// HTTP success: any status in the two hundreds.
pub open spec fn spec_is_success(status: u16) -> bool {
    200 <= status < 300
}

pub fn is_success(status: u16) -> (r: bool)
    ensures
        r == spec_is_success(status),
{
    200 <= status && status < 300
}

/// The upstream server-error body shape:
/// an object with a numeric `status_code` and a string `status_message`.
pub open spec fn spec_server_error_of(v: JsonView) -> Option<ServerErrorView> {
    match v {
        JsonView::Obj(ms) => match spec_req_u64(ms, "status_code"@) {
            Some(code) => match spec_req_text(ms, "status_message"@) {
                Some(msg) => Some(ServerErrorView { status_code: code, status_message: msg }),
                None => None,
            },
            None => None,
        },
        _ => None,
    }
}

pub fn server_error_of(v: &Json) -> (r: Option<ServerError>)
    ensures
        (match r {
            Some(e) => spec_server_error_of(v@) == Some(e@),
            None => spec_server_error_of(v@) is None,
        }),
{
    match v {
        Json::Obj(ms) => match req_u64(ms, "status_code") {
            Some(code) => match req_text(ms, "status_message") {
                Some(msg) => Some(ServerError { status_code: code, status_message: msg }),
                None => None,
            },
            None => None,
        },
        _ => None,
    }
}

/// The texts of a list of JSON values from position `i` on, defined only
/// when every one of them is a string.
pub open spec fn spec_texts_from(items: Seq<JsonView>, i: int) -> Option<Seq<Seq<char>>>
    decreases items.len() - i,
    when 0 <= i <= items.len()
{
    if i >= items.len() {
        Some(Seq::empty())
    } else {
        match spec_as_text(items[i]) {
            Some(t) => match spec_texts_from(items, i + 1) {
                Some(rest) => Some(seq![t] + rest),
                None => None,
            },
            None => None,
        }
    }
}

fn texts_from(items: &Vec<Json>, i: usize) -> (r: Option<Vec<Vec<char>>>)
    requires
        i <= items@.len(),
    ensures
        (match r {
            Some(ts) => spec_texts_from(views_of_list(items@), i as int) == Some(
                ts@.map_values(|e: Vec<char>| e@),
            ),
            None => spec_texts_from(views_of_list(items@), i as int) is None,
        }),
    decreases items@.len() - i,
{
    proof {
        broadcast use lemma_views_of_list;

    }
    if i >= items.len() {
        let ts: Vec<Vec<char>> = Vec::new();
        proof {
            assert(ts@.map_values(|e: Vec<char>| e@) =~= Seq::<Seq<char>>::empty());
        }
        Some(ts)
    } else {
        match as_text(&items[i]) {
            Some(t) => match texts_from(items, i + 1) {
                Some(rest) => {
                    let mut ts = rest;
                    ts.insert(0, t);
                    proof {
                        assert(ts@.map_values(|e: Vec<char>| e@) =~= seq![ts@[0]@]
                            + ts@.subrange(1, ts@.len() as int).map_values(|e: Vec<char>| e@));
                        assert(ts@.subrange(1, ts@.len() as int) =~= ts@.drop_first());
                    }
                    Some(ts)
                },
                None => None,
            },
            None => None,
        }
    }
}

/// The validation body shape: an object whose `errors` member is an array
/// of strings.
pub open spec fn spec_validation_of(v: JsonView) -> Option<ValidationErrorView> {
    match v {
        JsonView::Obj(ms) => match spec_obj_get(ms, "errors"@) {
            Some(JsonView::Arr(items)) => match spec_texts_from(items, 0) {
                Some(ts) => Some(ValidationErrorView { errors: ts }),
                None => None,
            },
            _ => None,
        },
        _ => None,
    }
}

pub fn validation_of(v: &Json) -> (r: Option<ValidationError>)
    ensures
        (match r {
            Some(e) => spec_validation_of(v@) == Some(e@),
            None => spec_validation_of(v@) is None,
        }),
{
    match v {
        Json::Obj(ms) => match obj_get(ms, "errors") {
            Some(ev) => match ev {
                Json::Arr(items) => match texts_from(items, 0) {
                    Some(ts) => Some(ValidationError { errors: ts }),
                    None => None,
                },
                _ => None,
            },
            None => None,
        },
        _ => None,
    }
}

/// How a failed response is classified. The body shape decides first, since
/// the service reuses HTTP statuses inconsistently across endpoints: a body
/// in the server-error shape is a server error, one in the validation shape
/// a validation error, and anything else — including an unreadable body —
/// counts as a transport-level failure carrying the HTTP status.
pub open spec fn spec_classify_failure(status: u16, body: Seq<char>) -> ErrorView {
    match spec_parse_json(body) {
        Some(v) => match spec_server_error_of(v) {
            Some(se) => ErrorView::Server(se),
            None => match spec_validation_of(v) {
                Some(ve) => ErrorView::Validation(ve),
                None => ErrorView::Transport(
                    TransportErrorView {
                        status: Some(status),
                        message: "unrecognized error body"@,
                    },
                ),
            },
        },
        None => ErrorView::Transport(
            TransportErrorView { status: Some(status), message: "unrecognized error body"@ },
        ),
    }
}

pub fn classify_failure(status: u16, body: &str) -> (r: Error)
    requires
        !spec_is_success(status),
    ensures
        r@ == spec_classify_failure(status, body@),
{
    match parse_json(body) {
        Some(v) => match server_error_of(&v) {
            Some(se) => Error::Server(se),
            None => match validation_of(&v) {
                Some(ve) => Error::Validation(ve),
                None => Error::Transport(
                    TransportError {
                        status: Some(status),
                        message: text_of("unrecognized error body"),
                    },
                ),
            },
        },
        None => Error::Transport(
            TransportError { status: Some(status), message: text_of("unrecognized error body") },
        ),
    }
}


/// Law: a body in the server-error or validation shape classifies the same
/// way whatever failing HTTP status carried it — the service's own numeric
/// code, not the transport's, is what callers see.
pub proof fn lemma_classification_ignores_status(s1: u16, s2: u16, body: Seq<char>)
    requires
        (match spec_parse_json(body) {
            Some(v) => spec_server_error_of(v) is Some || spec_validation_of(v) is Some,
            None => false,
        }),
    ensures
        spec_classify_failure(s1, body) == spec_classify_failure(s2, body),
{
}

} // verus!
