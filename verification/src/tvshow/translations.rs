use vstd::prelude::*;
use crate::command::{Command, JsonDecode, spec_decode_list, decode_list};
use crate::json::{Json, JsonView, spec_obj_get, obj_get};
use crate::util::{spec_req_u64, req_u64, spec_req_text, req_text, spec_lenient_text,
    lenient_text};
use crate::text::{text_of, push_all, spec_dec, dec_of_u64, opt_text_view};

verus! {

/// The translations that have been created for a series.
#[derive(Debug)]
pub struct TVShowTranslations {
    /// ID of the show.
    pub series_id: u64,
}

impl TVShowTranslations {
    pub fn new(series_id: u64) -> (r: Self)
        ensures
            r.series_id == series_id,
    {
        Self { series_id }
    }
}

/// The translated free-text fields. The service sends an empty string where
/// it has nothing, so each of these decodes leniently: a missing key, a
/// null and an empty string all become an absent value.
#[derive(Debug)]
pub struct TranslationData {
    pub name: Option<Vec<char>>,
    pub tagline: Option<Vec<char>>,
    pub overview: Option<Vec<char>>,
    pub homepage: Option<Vec<char>>,
}

#[verifier::ext_equal]
pub struct TranslationDataView {
    pub name: Option<Seq<char>>,
    pub tagline: Option<Seq<char>>,
    pub overview: Option<Seq<char>>,
    pub homepage: Option<Seq<char>>,
}

impl View for TranslationData {
    type V = TranslationDataView;

    open spec fn view(&self) -> TranslationDataView {
        TranslationDataView {
            name: opt_text_view(self.name),
            tagline: opt_text_view(self.tagline),
            overview: opt_text_view(self.overview),
            homepage: opt_text_view(self.homepage),
        }
    }
}

impl JsonDecode for TranslationData {
    open spec fn spec_decode(v: JsonView) -> Option<TranslationDataView> {
        match v {
            JsonView::Obj(ms) => match spec_lenient_text(ms, "name"@) {
                Some(name) => match spec_lenient_text(ms, "tagline"@) {
                    Some(tagline) => match spec_lenient_text(ms, "overview"@) {
                        Some(overview) => match spec_lenient_text(ms, "homepage"@) {
                            Some(homepage) => Some(
                                TranslationDataView { name, tagline, overview, homepage },
                            ),
                            None => None,
                        },
                        None => None,
                    },
                    None => None,
                },
                None => None,
            },
            _ => None,
        }
    }

    fn decode(v: &Json) -> (r: Option<Self>) {
        match v {
            Json::Obj(ms) => {
                let name = match lenient_text(ms, "name") {
                    Some(o) => o,
                    None => {
                        return None;
                    },
                };
                let tagline = match lenient_text(ms, "tagline") {
                    Some(o) => o,
                    None => {
                        return None;
                    },
                };
                let overview = match lenient_text(ms, "overview") {
                    Some(o) => o,
                    None => {
                        return None;
                    },
                };
                let homepage = match lenient_text(ms, "homepage") {
                    Some(o) => o,
                    None => {
                        return None;
                    },
                };
                Some(TranslationData { name, tagline, overview, homepage })
            },
            _ => None,
        }
    }
}

/// One translation: region and language codes, the language's own names and
/// the translated fields under `data`.
#[derive(Debug)]
pub struct Translation {
    pub iso_3166_1: Vec<char>,
    pub iso_639_1: Vec<char>,
    pub name: Vec<char>,
    pub english_name: Vec<char>,
    pub data: TranslationData,
}

#[verifier::ext_equal]
pub struct TranslationView {
    pub iso_3166_1: Seq<char>,
    pub iso_639_1: Seq<char>,
    pub name: Seq<char>,
    pub english_name: Seq<char>,
    pub data: TranslationDataView,
}

impl View for Translation {
    type V = TranslationView;

    open spec fn view(&self) -> TranslationView {
        TranslationView {
            iso_3166_1: self.iso_3166_1@,
            iso_639_1: self.iso_639_1@,
            name: self.name@,
            english_name: self.english_name@,
            data: self.data@,
        }
    }
}

impl JsonDecode for Translation {
    open spec fn spec_decode(v: JsonView) -> Option<TranslationView> {
        match v {
            JsonView::Obj(ms) => match spec_req_text(ms, "iso_3166_1"@) {
                Some(iso_3166_1) => match spec_req_text(ms, "iso_639_1"@) {
                    Some(iso_639_1) => match spec_req_text(ms, "name"@) {
                        Some(name) => match spec_req_text(ms, "english_name"@) {
                            Some(english_name) => match spec_obj_get(ms, "data"@) {
                                Some(dv) => match TranslationData::spec_decode(dv) {
                                    Some(data) => Some(
                                        TranslationView {
                                            iso_3166_1,
                                            iso_639_1,
                                            name,
                                            english_name,
                                            data,
                                        },
                                    ),
                                    None => None,
                                },
                                None => None,
                            },
                            None => None,
                        },
                        None => None,
                    },
                    None => None,
                },
                None => None,
            },
            _ => None,
        }
    }

    fn decode(v: &Json) -> (r: Option<Self>) {
        match v {
            Json::Obj(ms) => {
                let iso_3166_1 = match req_text(ms, "iso_3166_1") {
                    Some(t) => t,
                    None => {
                        return None;
                    },
                };
                let iso_639_1 = match req_text(ms, "iso_639_1") {
                    Some(t) => t,
                    None => {
                        return None;
                    },
                };
                let name = match req_text(ms, "name") {
                    Some(t) => t,
                    None => {
                        return None;
                    },
                };
                let english_name = match req_text(ms, "english_name") {
                    Some(t) => t,
                    None => {
                        return None;
                    },
                };
                let data = match obj_get(ms, "data") {
                    Some(dv) => match TranslationData::decode(dv) {
                        Some(d) => d,
                        None => {
                            return None;
                        },
                    },
                    None => {
                        return None;
                    },
                };
                Some(Translation { iso_3166_1, iso_639_1, name, english_name, data })
            },
            _ => None,
        }
    }
}

/// The series id together with its translations.
#[derive(Debug)]
pub struct TVShowTranslationsResult {
    pub id: u64,
    pub translations: Vec<Translation>,
}

#[verifier::ext_equal]
pub struct TVShowTranslationsResultView {
    pub id: u64,
    pub translations: Seq<TranslationView>,
}

impl View for TVShowTranslationsResult {
    type V = TVShowTranslationsResultView;

    open spec fn view(&self) -> TVShowTranslationsResultView {
        TVShowTranslationsResultView {
            id: self.id,
            translations: crate::command::seq_view(self.translations@),
        }
    }
}

impl JsonDecode for TVShowTranslationsResult {
    open spec fn spec_decode(v: JsonView) -> Option<TVShowTranslationsResultView> {
        match v {
            JsonView::Obj(ms) => match spec_req_u64(ms, "id"@) {
                Some(id) => match spec_obj_get(ms, "translations"@) {
                    Some(JsonView::Arr(items)) => match spec_decode_list::<Translation>(
                        items,
                        0,
                    ) {
                        Some(translations) => Some(
                            TVShowTranslationsResultView { id, translations },
                        ),
                        None => None,
                    },
                    _ => None,
                },
                None => None,
            },
            _ => None,
        }
    }

    fn decode(v: &Json) -> (r: Option<Self>) {
        match v {
            Json::Obj(ms) => {
                let id = match req_u64(ms, "id") {
                    Some(n) => n,
                    None => {
                        return None;
                    },
                };
                let translations = match obj_get(ms, "translations") {
                    Some(rv) => match rv {
                        Json::Arr(items) => match decode_list::<Translation>(items, 0) {
                            Some(rs) => rs,
                            None => {
                                return None;
                            },
                        },
                        _ => {
                            return None;
                        },
                    },
                    None => {
                        return None;
                    },
                };
                Some(TVShowTranslationsResult { id, translations })
            },
            _ => None,
        }
    }
}

impl Command for TVShowTranslations {
    type Output = TVShowTranslationsResult;

    open spec fn spec_path(&self) -> Seq<char> {
        "/tv/"@ + spec_dec(self.series_id as nat) + "/translations"@
    }

    open spec fn spec_params(&self) -> Seq<(Seq<char>, Seq<char>)> {
        Seq::empty()
    }

    fn path(&self) -> (r: Vec<char>) {
        let mut out = text_of("/tv/");
        let id = dec_of_u64(self.series_id);
        push_all(&mut out, &id);
        let tail = text_of("/translations");
        push_all(&mut out, &tail);
        out
    }

    fn params(&self) -> (r: Vec<(Vec<char>, Vec<char>)>) {
        let r: Vec<(Vec<char>, Vec<char>)> = Vec::new();
        proof {
            assert(crate::command::pairs_view(r@) =~= Seq::<(Seq<char>, Seq<char>)>::empty());
        }
        r
    }
}

} // verus!
