pub mod credits;
pub mod keyword;

use vstd::prelude::*;
use crate::json::{Json, JsonView, spec_obj_get, obj_get, views_of_list, views_of_members,
    lemma_views_of_list, lemma_views_of_members};
use crate::util::{spec_req_u64, req_u64};
use crate::command::{JsonDecode, JsonEncode, spec_decode_list, decode_list, spec_encode_list,
    lemma_decode_encode_list, seq_view};
use crate::text::{text_of, spec_dec, dec_of_u64, lemma_dec_digits};
use crate::codec::{wf_json, wf_json_list, wf_text, spec_parse_json, spec_ser, lemma_parse_of_ser,
    lemma_dec_wf_num};

verus! {

/// One page of a paged listing, exactly as the service frames it.
#[derive(Debug)]
pub struct PaginatedResult<T> {
    pub page: u64,
    pub results: Vec<T>,
    pub total_pages: u64,
    pub total_results: u64,
}

#[verifier::ext_equal]
pub struct PaginatedResultView<TV> {
    pub page: u64,
    pub results: Seq<TV>,
    pub total_pages: u64,
    pub total_results: u64,
}

impl<T: View> View for PaginatedResult<T> {
    type V = PaginatedResultView<T::V>;

    open spec fn view(&self) -> PaginatedResultView<T::V> {
        PaginatedResultView {
            page: self.page,
            results: seq_view(self.results@),
            total_pages: self.total_pages,
            total_results: self.total_results,
        }
    }
}

impl<T: JsonDecode> JsonDecode for PaginatedResult<T> {
    open spec fn spec_decode(v: JsonView) -> Option<PaginatedResultView<T::V>> {
        match v {
            JsonView::Obj(ms) => match spec_req_u64(ms, "page"@) {
                Some(page) => match spec_obj_get(ms, "results"@) {
                    Some(JsonView::Arr(items)) => match spec_decode_list::<T>(items, 0) {
                        Some(results) => match spec_req_u64(ms, "total_pages"@) {
                            Some(total_pages) => match spec_req_u64(ms, "total_results"@) {
                                Some(total_results) => Some(
                                    PaginatedResultView {
                                        page,
                                        results,
                                        total_pages,
                                        total_results,
                                    },
                                ),
                                None => None,
                            },
                            None => None,
                        },
                        None => None,
                    },
                    _ => None,
                },
                None => None,
            },
            _ => None,
        }
    }

    fn decode(v: &Json) -> (r: Option<Self>) {
        match v {
            Json::Obj(ms) => {
                let page = match req_u64(ms, "page") {
                    Some(p) => p,
                    None => {
                        return None;
                    },
                };
                let results: Vec<T> = match obj_get(ms, "results") {
                    Some(rv) => match rv {
                        Json::Arr(items) => match decode_list::<T>(items, 0) {
                            Some(rs) => rs,
                            None => {
                                return None;
                            },
                        },
                        _ => {
                            return None;
                        },
                    },
                    None => {
                        return None;
                    },
                };
                let total_pages = match req_u64(ms, "total_pages") {
                    Some(p) => p,
                    None => {
                        return None;
                    },
                };
                let total_results = match req_u64(ms, "total_results") {
                    Some(p) => p,
                    None => {
                        return None;
                    },
                };
                Some(PaginatedResult { page, results, total_pages, total_results })
            },
            _ => None,
        }
    }
}

impl<T: JsonEncode> JsonEncode for PaginatedResult<T> {
    open spec fn spec_encode(x: PaginatedResultView<T::V>) -> JsonView {
        JsonView::Obj(
            seq![
                ("page"@, JsonView::Num(spec_dec(x.page as nat))),
                ("results"@, JsonView::Arr(spec_encode_list::<T>(x.results))),
                ("total_pages"@, JsonView::Num(spec_dec(x.total_pages as nat))),
                ("total_results"@, JsonView::Num(spec_dec(x.total_results as nat))),
            ],
        )
    }

    fn encode(&self) -> (r: Json) {
        let mut items: Vec<Json> = Vec::new();
        let mut i: usize = 0;
        proof {
            broadcast use lemma_views_of_list;

            assert(views_of_list(items@) =~= spec_encode_list::<T>(seq_view(self.results@)).take(
                0,
            ));
        }
        while i < self.results.len()
            invariant
                i <= self.results@.len(),
                views_of_list(items@) == spec_encode_list::<T>(seq_view(self.results@)).take(
                    i as int,
                ),
            decreases self.results@.len() - i,
        {
            let item = self.results[i].encode();
            items.push(item);
            proof {
                broadcast use lemma_views_of_list;

                let full = spec_encode_list::<T>(seq_view(self.results@));
                assert(full[i as int] == T::spec_encode(self.results@[i as int]@));
                assert(views_of_list(items@) =~= full.take(i + 1));
            }
            i = i + 1;
        }
        proof {
            let full = spec_encode_list::<T>(seq_view(self.results@));
            assert(full.take(full.len() as int) =~= full);
        }
        let mut members: Vec<(Vec<char>, Json)> = Vec::new();
        members.push((text_of("page"), Json::Num(dec_of_u64(self.page))));
        members.push((text_of("results"), Json::Arr(items)));
        members.push((text_of("total_pages"), Json::Num(dec_of_u64(self.total_pages))));
        members.push((text_of("total_results"), Json::Num(dec_of_u64(self.total_results))));
        let r = Json::Obj(members);
        proof {
            broadcast use lemma_views_of_members;

            assert(views_of_members(members@) =~= (match Self::spec_encode(self@) {
                JsonView::Obj(sms) => sms,
                _ => Seq::empty(),
            }));
        }
        r
    }

    /// Law: an encoded page decodes back with the same page and total
    /// counters and its items unchanged, in the same order.
    proof fn lemma_encode_decode(x: PaginatedResultView<T::V>) {
        reveal_with_fuel(crate::json::spec_obj_get, 6);
        reveal_strlit("page");
        reveal_strlit("results");
        reveal_strlit("total_pages");
        reveal_strlit("total_results");
        let ms = (match Self::spec_encode(x) {
            JsonView::Obj(sms) => sms,
            _ => Seq::<(Seq<char>, JsonView)>::empty(),
        });
        assert(ms.drop_first() =~= ms.subrange(1, 4));
        assert(ms.drop_first().drop_first() =~= ms.subrange(2, 4));
        assert(ms.drop_first().drop_first().drop_first() =~= ms.subrange(3, 4));
        assert("page"@.len() == 4 && "results"@.len() == 7 && "total_pages"@.len() == 11
            && "total_results"@.len() == 13);
        lemma_dec_digits(x.page as nat);
        lemma_dec_digits(x.total_pages as nat);
        lemma_dec_digits(x.total_results as nat);
        assert(spec_req_u64(ms, "page"@) == Some(x.page));
        assert(spec_obj_get(ms, "results"@) == Some(
            JsonView::Arr(spec_encode_list::<T>(x.results)),
        ));
        assert(spec_req_u64(ms, "total_pages"@) == Some(x.total_pages));
        assert(spec_req_u64(ms, "total_results"@) == Some(x.total_results));
        lemma_decode_encode_list::<T>(x.results, 0);
        assert(x.results.skip(0) =~= x.results);
        assert(Self::spec_decode(Self::spec_encode(x)) matches Some(y) && y =~= x);
    }
}


/// Every item of an encoded list is well formed when every source value
/// encodes to a well-formed document.
pub proof fn lemma_encode_list_wf<T: JsonEncode>(xs: Seq<T::V>, i: int)
    requires
        0 <= i <= xs.len(),
        forall|k: int| 0 <= k < xs.len() ==> wf_json(#[trigger] T::spec_encode(xs[k])),
    ensures
        wf_json_list(spec_encode_list::<T>(xs).skip(i)),
    decreases xs.len() - i,
{
    let encoded = spec_encode_list::<T>(xs);
    if i < xs.len() {
        lemma_encode_list_wf::<T>(xs, i + 1);
        assert(encoded.skip(i)[0] == T::spec_encode(xs[i]));
        assert(encoded.skip(i).drop_first() =~= encoded.skip(i + 1));
    } else {
        assert(encoded.skip(i).len() == 0);
    }
}

/// An encoded page is a well-formed document when each encoded item is.
pub proof fn lemma_paginated_encode_wf<T: JsonEncode>(x: PaginatedResultView<T::V>)
    requires
        forall|k: int|
            0 <= k < x.results.len() ==> wf_json(#[trigger] T::spec_encode(x.results[k])),
    ensures
        wf_json(PaginatedResult::<T>::spec_encode(x)),
{
    reveal_with_fuel(crate::codec::wf_json_members, 6);
    reveal_strlit("page");
    reveal_strlit("results");
    reveal_strlit("total_pages");
    reveal_strlit("total_results");
    assert(wf_text("page"@) && wf_text("results"@) && wf_text("total_pages"@) && wf_text(
        "total_results"@,
    ));
    lemma_dec_wf_num(x.page as nat);
    lemma_dec_wf_num(x.total_pages as nat);
    lemma_dec_wf_num(x.total_results as nat);
    lemma_encode_list_wf::<T>(x.results, 0);
    let encoded = spec_encode_list::<T>(x.results);
    assert(encoded.skip(0) =~= encoded);
    let ms = (match PaginatedResult::<T>::spec_encode(x) {
        JsonView::Obj(sms) => sms,
        _ => Seq::<(Seq<char>, JsonView)>::empty(),
    });
    assert(ms.drop_first() =~= ms.subrange(1, 4));
    assert(ms.subrange(1, 4).drop_first() =~= ms.subrange(2, 4));
    assert(ms.subrange(2, 4).drop_first() =~= ms.subrange(3, 4));
    assert(ms.subrange(3, 4).drop_first() =~= Seq::<(Seq<char>, JsonView)>::empty());
    assert(wf_json(JsonView::Num(spec_dec(x.page as nat))));
    assert(wf_json(JsonView::Arr(encoded)));
    assert(wf_json(JsonView::Num(spec_dec(x.total_pages as nat))));
    assert(wf_json(JsonView::Num(spec_dec(x.total_results as nat))));
    assert(crate::codec::wf_json_members(Seq::<(Seq<char>, JsonView)>::empty()));
    assert(crate::codec::wf_json_members(ms.subrange(3, 4)));
    assert(crate::codec::wf_json_members(ms.subrange(2, 4)));
    assert(crate::codec::wf_json_members(ms.subrange(1, 4)));
    assert(crate::codec::wf_json_members(ms));
}

/// Law: a page printed to the wire parses and decodes back with the same
/// page and total counters and its items unchanged, in the same order.
/// It holds of pages whose encoded items are well-formed documents; text
/// holding a bare control character the printer has no escape for is the
/// one thing left out.
pub proof fn lemma_paginated_wire_roundtrip<T: JsonEncode>(x: PaginatedResultView<T::V>)
    requires
        forall|k: int|
            0 <= k < x.results.len() ==> wf_json(#[trigger] T::spec_encode(x.results[k])),
    ensures
        spec_parse_json(spec_ser(PaginatedResult::<T>::spec_encode(x))) == Some(
            PaginatedResult::<T>::spec_encode(x),
        ),
        PaginatedResult::<T>::spec_decode(PaginatedResult::<T>::spec_encode(x)) == Some(x),
{
    lemma_paginated_encode_wf::<T>(x);
    lemma_parse_of_ser(PaginatedResult::<T>::spec_encode(x));
    PaginatedResult::<T>::lemma_encode_decode(x);
}

} // verus!
