use vstd::prelude::*;
use crate::command::{Command, JsonDecode, spec_decode_list, decode_list};
use crate::common::keyword::Keyword;
use crate::json::{Json, JsonView, spec_obj_get, obj_get};
use crate::util::{spec_req_u64, req_u64};
use crate::text::{text_of, push_all, spec_dec, dec_of_u64};

verus! {

/// The keywords that have been added to a series.
#[derive(Debug)]
pub struct TVShowKeywords {
    /// ID of the show.
    pub series_id: u64,
}

impl TVShowKeywords {
    pub fn new(series_id: u64) -> (r: Self)
        ensures
            r.series_id == series_id,
    {
        Self { series_id }
    }
}

/// The series id together with its keywords.
#[derive(Debug)]
pub struct TVShowKeywordsResult {
    pub id: u64,
    pub results: Vec<Keyword>,
}

#[verifier::ext_equal]
pub struct TVShowKeywordsResultView {
    pub id: u64,
    pub results: Seq<crate::common::keyword::KeywordView>,
}

impl View for TVShowKeywordsResult {
    type V = TVShowKeywordsResultView;

    open spec fn view(&self) -> TVShowKeywordsResultView {
        TVShowKeywordsResultView { id: self.id, results: crate::command::seq_view(self.results@) }
    }
}

impl JsonDecode for TVShowKeywordsResult {
    open spec fn spec_decode(v: JsonView) -> Option<TVShowKeywordsResultView> {
        match v {
            JsonView::Obj(ms) => match spec_req_u64(ms, "id"@) {
                Some(id) => match spec_obj_get(ms, "results"@) {
                    Some(JsonView::Arr(items)) => match spec_decode_list::<Keyword>(items, 0) {
                        Some(results) => Some(TVShowKeywordsResultView { id, results }),
                        None => None,
                    },
                    _ => None,
                },
                None => None,
            },
            _ => None,
        }
    }

    fn decode(v: &Json) -> (r: Option<Self>) {
        match v {
            Json::Obj(ms) => {
                let id = match req_u64(ms, "id") {
                    Some(n) => n,
                    None => {
                        return None;
                    },
                };
                let results = match obj_get(ms, "results") {
                    Some(rv) => match rv {
                        Json::Arr(items) => match decode_list::<Keyword>(items, 0) {
                            Some(rs) => rs,
                            None => {
                                return None;
                            },
                        },
                        _ => {
                            return None;
                        },
                    },
                    None => {
                        return None;
                    },
                };
                Some(TVShowKeywordsResult { id, results })
            },
            _ => None,
        }
    }
}

impl Command for TVShowKeywords {
    type Output = TVShowKeywordsResult;

    open spec fn spec_path(&self) -> Seq<char> {
        "/tv/"@ + spec_dec(self.series_id as nat) + "/keywords"@
    }

    open spec fn spec_params(&self) -> Seq<(Seq<char>, Seq<char>)> {
        Seq::empty()
    }

    fn path(&self) -> (r: Vec<char>) {
        let mut out = text_of("/tv/");
        let id = dec_of_u64(self.series_id);
        push_all(&mut out, &id);
        let tail = text_of("/keywords");
        push_all(&mut out, &tail);
        out
    }

    fn params(&self) -> (r: Vec<(Vec<char>, Vec<char>)>) {
        let r: Vec<(Vec<char>, Vec<char>)> = Vec::new();
        proof {
            assert(crate::command::pairs_view(r@) =~= Seq::<(Seq<char>, Seq<char>)>::empty());
        }
        r
    }
}

} // verus!
