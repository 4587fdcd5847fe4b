use vstd::prelude::*;
use crate::command::{Command, JsonDecode, spec_decode_list, decode_list};
use crate::json::{Json, JsonView, spec_obj_get, obj_get};
use crate::util::{spec_req_u64, req_u64, spec_req_text, req_text};
use crate::text::{text_of, push_all, spec_dec, dec_of_u64};

verus! {

/// The content ratings that have been added to a series.
#[derive(Debug)]
pub struct TVShowContentRatings {
    /// ID of the show.
    pub series_id: u64,
}

impl TVShowContentRatings {
    pub fn new(series_id: u64) -> (r: Self)
        ensures
            r.series_id == series_id,
    {
        Self { series_id }
    }
}

/// One region's rating for the series.
#[derive(Debug)]
pub struct ContentRating {
    pub rating: Vec<char>,
    pub iso_3166_1: Vec<char>,
}

#[verifier::ext_equal]
pub struct ContentRatingView {
    pub rating: Seq<char>,
    pub iso_3166_1: Seq<char>,
}

impl View for ContentRating {
    type V = ContentRatingView;

    open spec fn view(&self) -> ContentRatingView {
        ContentRatingView { rating: self.rating@, iso_3166_1: self.iso_3166_1@ }
    }
}

impl JsonDecode for ContentRating {
    open spec fn spec_decode(v: JsonView) -> Option<ContentRatingView> {
        match v {
            JsonView::Obj(ms) => match spec_req_text(ms, "rating"@) {
                Some(rating) => match spec_req_text(ms, "iso_3166_1"@) {
                    Some(iso_3166_1) => Some(ContentRatingView { rating, iso_3166_1 }),
                    None => None,
                },
                None => None,
            },
            _ => None,
        }
    }

    fn decode(v: &Json) -> (r: Option<Self>) {
        match v {
            Json::Obj(ms) => {
                let rating = match req_text(ms, "rating") {
                    Some(t) => t,
                    None => {
                        return None;
                    },
                };
                let iso_3166_1 = match req_text(ms, "iso_3166_1") {
                    Some(t) => t,
                    None => {
                        return None;
                    },
                };
                Some(ContentRating { rating, iso_3166_1 })
            },
            _ => None,
        }
    }
}

/// The series id together with its ratings.
#[derive(Debug)]
pub struct TVShowContentRatingsResult {
    pub id: u64,
    pub results: Vec<ContentRating>,
}

#[verifier::ext_equal]
pub struct TVShowContentRatingsResultView {
    pub id: u64,
    pub results: Seq<ContentRatingView>,
}

impl View for TVShowContentRatingsResult {
    type V = TVShowContentRatingsResultView;

    open spec fn view(&self) -> TVShowContentRatingsResultView {
        TVShowContentRatingsResultView {
            id: self.id,
            results: crate::command::seq_view(self.results@),
        }
    }
}

impl JsonDecode for TVShowContentRatingsResult {
    open spec fn spec_decode(v: JsonView) -> Option<TVShowContentRatingsResultView> {
        match v {
            JsonView::Obj(ms) => match spec_req_u64(ms, "id"@) {
                Some(id) => match spec_obj_get(ms, "results"@) {
                    Some(JsonView::Arr(items)) => match spec_decode_list::<ContentRating>(
                        items,
                        0,
                    ) {
                        Some(results) => Some(TVShowContentRatingsResultView { id, results }),
                        None => None,
                    },
                    _ => None,
                },
                None => None,
            },
            _ => None,
        }
    }

    fn decode(v: &Json) -> (r: Option<Self>) {
        match v {
            Json::Obj(ms) => {
                let id = match req_u64(ms, "id") {
                    Some(n) => n,
                    None => {
                        return None;
                    },
                };
                let results = match obj_get(ms, "results") {
                    Some(rv) => match rv {
                        Json::Arr(items) => match decode_list::<ContentRating>(items, 0) {
                            Some(rs) => rs,
                            None => {
                                return None;
                            },
                        },
                        _ => {
                            return None;
                        },
                    },
                    None => {
                        return None;
                    },
                };
                Some(TVShowContentRatingsResult { id, results })
            },
            _ => None,
        }
    }
}

impl Command for TVShowContentRatings {
    type Output = TVShowContentRatingsResult;

    open spec fn spec_path(&self) -> Seq<char> {
        "/tv/"@ + spec_dec(self.series_id as nat) + "/content_ratings"@
    }

    open spec fn spec_params(&self) -> Seq<(Seq<char>, Seq<char>)> {
        Seq::empty()
    }

    fn path(&self) -> (r: Vec<char>) {
        let mut out = text_of("/tv/");
        let id = dec_of_u64(self.series_id);
        push_all(&mut out, &id);
        let tail = text_of("/content_ratings");
        push_all(&mut out, &tail);
        out
    }

    fn params(&self) -> (r: Vec<(Vec<char>, Vec<char>)>) {
        let r: Vec<(Vec<char>, Vec<char>)> = Vec::new();
        proof {
            assert(crate::command::pairs_view(r@) =~= Seq::<(Seq<char>, Seq<char>)>::empty());
        }
        r
    }
}

} // verus!
