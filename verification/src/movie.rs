pub mod discover;
pub mod trending;

use vstd::prelude::*;
use crate::json::{Json, JsonView, spec_obj_get, views_of_members, lemma_views_of_members};
use crate::util::{spec_req_u64, req_u64, spec_req_text, req_text, spec_req_bool, req_bool,
    spec_req_num_text, req_num_text};
use crate::command::{JsonDecode, JsonEncode};
use crate::text::{text_of, copy_text, spec_dec, dec_of_u64, lemma_dec_digits};
use crate::codec::{wf_json, wf_text, wf_num_lex, lemma_dec_wf_num};

verus! {

/// The movie fields shared by list entries and full records.
/// `popularity` keeps the exact decimal text the service sent.
#[derive(Debug)]
pub struct MovieBase {
    pub id: u64,
    pub title: Vec<char>,
    pub original_title: Vec<char>,
    pub original_language: Vec<char>,
    pub overview: Vec<char>,
    pub popularity: Vec<char>,
    pub adult: bool,
}

#[verifier::ext_equal]
pub struct MovieBaseView {
    pub id: u64,
    pub title: Seq<char>,
    pub original_title: Seq<char>,
    pub original_language: Seq<char>,
    pub overview: Seq<char>,
    pub popularity: Seq<char>,
    pub adult: bool,
}

impl View for MovieBase {
    type V = MovieBaseView;

    open spec fn view(&self) -> MovieBaseView {
        MovieBaseView {
            id: self.id,
            title: self.title@,
            original_title: self.original_title@,
            original_language: self.original_language@,
            overview: self.overview@,
            popularity: self.popularity@,
            adult: self.adult,
        }
    }
}

impl JsonDecode for MovieBase {
    open spec fn spec_decode(v: JsonView) -> Option<MovieBaseView> {
        match v {
            JsonView::Obj(ms) => match spec_req_u64(ms, "id"@) {
                Some(id) => match spec_req_text(ms, "title"@) {
                    Some(title) => match spec_req_text(ms, "original_title"@) {
                        Some(original_title) => match spec_req_text(ms, "original_language"@) {
                            Some(original_language) => match spec_req_text(ms, "overview"@) {
                                Some(overview) => match spec_req_num_text(ms, "popularity"@) {
                                    Some(popularity) => match spec_req_bool(ms, "adult"@) {
                                        Some(adult) => Some(
                                            MovieBaseView {
                                                id,
                                                title,
                                                original_title,
                                                original_language,
                                                overview,
                                                popularity,
                                                adult,
                                            },
                                        ),
                                        None => None,
                                    },
                                    None => None,
                                },
                                None => None,
                            },
                            None => None,
                        },
                        None => None,
                    },
                    None => None,
                },
                None => None,
            },
            _ => None,
        }
    }

    fn decode(v: &Json) -> (r: Option<Self>) {
        match v {
            Json::Obj(ms) => {
                let id = match req_u64(ms, "id") {
                    Some(n) => n,
                    None => {
                        return None;
                    },
                };
                let title = match req_text(ms, "title") {
                    Some(t) => t,
                    None => {
                        return None;
                    },
                };
                let original_title = match req_text(ms, "original_title") {
                    Some(t) => t,
                    None => {
                        return None;
                    },
                };
                let original_language = match req_text(ms, "original_language") {
                    Some(t) => t,
                    None => {
                        return None;
                    },
                };
                let overview = match req_text(ms, "overview") {
                    Some(t) => t,
                    None => {
                        return None;
                    },
                };
                let popularity = match req_num_text(ms, "popularity") {
                    Some(t) => t,
                    None => {
                        return None;
                    },
                };
                let adult = match req_bool(ms, "adult") {
                    Some(b) => b,
                    None => {
                        return None;
                    },
                };
                Some(
                    MovieBase {
                        id,
                        title,
                        original_title,
                        original_language,
                        overview,
                        popularity,
                        adult,
                    },
                )
            },
            _ => None,
        }
    }
}

impl JsonEncode for MovieBase {
    open spec fn spec_encode(x: MovieBaseView) -> JsonView {
        JsonView::Obj(
            seq![
                ("id"@, JsonView::Num(spec_dec(x.id as nat))),
                ("title"@, JsonView::Str(x.title)),
                ("original_title"@, JsonView::Str(x.original_title)),
                ("original_language"@, JsonView::Str(x.original_language)),
                ("overview"@, JsonView::Str(x.overview)),
                ("popularity"@, JsonView::Num(x.popularity)),
                ("adult"@, JsonView::Bool(x.adult)),
            ],
        )
    }

    fn encode(&self) -> (r: Json) {
        let mut members: Vec<(Vec<char>, Json)> = Vec::new();
        members.push((text_of("id"), Json::Num(dec_of_u64(self.id))));
        members.push((text_of("title"), Json::Str(copy_text(&self.title))));
        members.push((text_of("original_title"), Json::Str(copy_text(&self.original_title))));
        members.push(
            (text_of("original_language"), Json::Str(copy_text(&self.original_language))),
        );
        members.push((text_of("overview"), Json::Str(copy_text(&self.overview))));
        members.push((text_of("popularity"), Json::Num(copy_text(&self.popularity))));
        members.push((text_of("adult"), Json::Bool(self.adult)));
        let r = Json::Obj(members);
        proof {
            broadcast use lemma_views_of_members;

            assert(views_of_members(members@) =~= (match Self::spec_encode(self@) {
                JsonView::Obj(sms) => sms,
                _ => Seq::empty(),
            }));
        }
        r
    }

    /// Law: an encoded movie record decodes back unchanged.
    proof fn lemma_encode_decode(x: MovieBaseView) {
        reveal_strlit("id");
        reveal_strlit("title");
        reveal_strlit("original_title");
        reveal_strlit("original_language");
        reveal_strlit("overview");
        reveal_strlit("popularity");
        reveal_strlit("adult");
        let ms = (match Self::spec_encode(x) {
            JsonView::Obj(sms) => sms,
            _ => Seq::<(Seq<char>, JsonView)>::empty(),
        });
        assert("title"@[0] != "adult"@[0]);
        lemma_dec_digits(x.id as nat);
        assert(ms[0].0 == "id"@ && ms[1].0 == "title"@ && ms[2].0 == "original_title"@
            && ms[3].0 == "original_language"@ && ms[4].0 == "overview"@ && ms[5].0
            == "popularity"@ && ms[6].0 == "adult"@);
        assert("id"@ != "original_title"@ && "title"@ != "original_title"@);
        assert("id"@ != "original_language"@ && "title"@ != "original_language"@
            && "original_title"@ != "original_language"@);
        crate::json::lemma_obj_get_at(ms, "id"@, 0);
        crate::json::lemma_obj_get_at(ms, "title"@, 1);
        crate::json::lemma_obj_get_at(ms, "original_title"@, 2);
        crate::json::lemma_obj_get_at(ms, "original_language"@, 3);
        crate::json::lemma_obj_get_at(ms, "overview"@, 4);
        crate::json::lemma_obj_get_at(ms, "popularity"@, 5);
        crate::json::lemma_obj_get_at(ms, "adult"@, 6);
        assert(spec_req_u64(ms, "id"@) == Some(x.id));
        assert(spec_req_text(ms, "title"@) == Some(x.title));
        assert(spec_req_text(ms, "original_title"@) == Some(x.original_title));
        assert(spec_req_text(ms, "original_language"@) == Some(x.original_language));
        assert(spec_req_text(ms, "overview"@) == Some(x.overview));
        assert(spec_req_num_text(ms, "popularity"@) == Some(x.popularity));
        assert(spec_req_bool(ms, "adult"@) == Some(x.adult));
        assert(Self::spec_decode(Self::spec_encode(x)) matches Some(y) && y =~= x);
    }
}

/// A movie as it appears inside list results; its base fields arrive
/// flattened at the top level of the same object.
#[derive(Debug)]
pub struct MovieShort {
    pub inner: MovieBase,
}

#[verifier::ext_equal]
pub struct MovieShortView {
    pub inner: MovieBaseView,
}

impl View for MovieShort {
    type V = MovieShortView;

    open spec fn view(&self) -> MovieShortView {
        MovieShortView { inner: self.inner@ }
    }
}

impl JsonDecode for MovieShort {
    open spec fn spec_decode(v: JsonView) -> Option<MovieShortView> {
        match MovieBase::spec_decode(v) {
            Some(inner) => Some(MovieShortView { inner }),
            None => None,
        }
    }

    fn decode(v: &Json) -> (r: Option<Self>) {
        match MovieBase::decode(v) {
            Some(inner) => Some(MovieShort { inner }),
            None => None,
        }
    }
}

impl JsonEncode for MovieShort {
    open spec fn spec_encode(x: MovieShortView) -> JsonView {
        MovieBase::spec_encode(x.inner)
    }

    fn encode(&self) -> (r: Json) {
        self.inner.encode()
    }

    /// Law: an encoded list entry decodes back unchanged.
    proof fn lemma_encode_decode(x: MovieShortView) {
        MovieBase::lemma_encode_decode(x.inner);
        assert(Self::spec_decode(Self::spec_encode(x)) matches Some(y) && y =~= x);
    }
}


/// An encoded movie record is a well-formed document whenever its text
/// fields hold no bare control character and its popularity lexeme is in
/// the number grammar.
pub proof fn lemma_movie_short_encode_wf(x: MovieShortView)
    requires
        wf_text(x.inner.title),
        wf_text(x.inner.original_title),
        wf_text(x.inner.original_language),
        wf_text(x.inner.overview),
        wf_num_lex(x.inner.popularity),
    ensures
        wf_json(MovieShort::spec_encode(x)),
{
    reveal_strlit("id");
    reveal_strlit("title");
    reveal_strlit("original_title");
    reveal_strlit("original_language");
    reveal_strlit("overview");
    reveal_strlit("popularity");
    reveal_strlit("adult");
    assert(wf_text("id"@) && wf_text("title"@) && wf_text("original_title"@) && wf_text(
        "original_language"@,
    ) && wf_text("overview"@) && wf_text("popularity"@) && wf_text("adult"@));
    lemma_dec_wf_num(x.inner.id as nat);
    let ms = (match MovieShort::spec_encode(x) {
        JsonView::Obj(sms) => sms,
        _ => Seq::<(Seq<char>, JsonView)>::empty(),
    });
    assert(ms.drop_first() =~= ms.subrange(1, 7));
    assert(ms.subrange(1, 7).drop_first() =~= ms.subrange(2, 7));
    assert(ms.subrange(2, 7).drop_first() =~= ms.subrange(3, 7));
    assert(ms.subrange(3, 7).drop_first() =~= ms.subrange(4, 7));
    assert(ms.subrange(4, 7).drop_first() =~= ms.subrange(5, 7));
    assert(ms.subrange(5, 7).drop_first() =~= ms.subrange(6, 7));
    assert(ms.subrange(6, 7).drop_first() =~= Seq::<(Seq<char>, JsonView)>::empty());
    assert(wf_json(JsonView::Num(spec_dec(x.inner.id as nat))));
    assert(wf_json(JsonView::Str(x.inner.title)));
    assert(wf_json(JsonView::Str(x.inner.original_title)));
    assert(wf_json(JsonView::Str(x.inner.original_language)));
    assert(wf_json(JsonView::Str(x.inner.overview)));
    assert(wf_json(JsonView::Num(x.inner.popularity)));
    assert(wf_json(JsonView::Bool(x.inner.adult)));
    assert(crate::codec::wf_json_members(Seq::<(Seq<char>, JsonView)>::empty()));
    assert(crate::codec::wf_json_members(ms.subrange(6, 7)));
    assert(crate::codec::wf_json_members(ms.subrange(5, 7)));
    assert(crate::codec::wf_json_members(ms.subrange(4, 7)));
    assert(crate::codec::wf_json_members(ms.subrange(3, 7)));
    assert(crate::codec::wf_json_members(ms.subrange(2, 7)));
    assert(crate::codec::wf_json_members(ms.subrange(1, 7)));
    assert(crate::codec::wf_json_members(ms));
}

} // verus!
