use vstd::prelude::*;
use crate::json::{Json, JsonView};
use crate::util::{spec_req_u64, req_u64, spec_req_text, req_text, spec_req_bool, req_bool,
    spec_req_num_text, req_num_text, spec_opt_text, opt_text, spec_opt_u64, opt_u64};
use crate::command::JsonDecode;
use crate::text::{opt_text_view};

verus! {

/// The fields every credit record shares. The record arrives as one flat
/// object; decoding distributes its keys into this base and into the
/// variant-specific fields, with no discriminant key in the payload.
/// `popularity` keeps the exact decimal text the service sent.
#[derive(Debug)]
pub struct CreditCommon {
    pub credit_id: Vec<char>,
    pub adult: bool,
    pub known_for_department: Option<Vec<char>>,
    pub original_name: Vec<char>,
    pub popularity: Vec<char>,
}

#[verifier::ext_equal]
pub struct CreditCommonView {
    pub credit_id: Seq<char>,
    pub adult: bool,
    pub known_for_department: Option<Seq<char>>,
    pub original_name: Seq<char>,
    pub popularity: Seq<char>,
}

impl View for CreditCommon {
    type V = CreditCommonView;

    open spec fn view(&self) -> CreditCommonView {
        CreditCommonView {
            credit_id: self.credit_id@,
            adult: self.adult,
            known_for_department: opt_text_view(self.known_for_department),
            original_name: self.original_name@,
            popularity: self.popularity@,
        }
    }
}

impl JsonDecode for CreditCommon {
    open spec fn spec_decode(v: JsonView) -> Option<CreditCommonView> {
        match v {
            JsonView::Obj(ms) => match spec_req_text(ms, "credit_id"@) {
                Some(credit_id) => match spec_req_bool(ms, "adult"@) {
                    Some(adult) => match spec_opt_text(ms, "known_for_department"@) {
                        Some(known_for_department) => match spec_req_text(ms, "original_name"@) {
                            Some(original_name) => match spec_req_num_text(ms, "popularity"@) {
                                Some(popularity) => Some(
                                    CreditCommonView {
                                        credit_id,
                                        adult,
                                        known_for_department,
                                        original_name,
                                        popularity,
                                    },
                                ),
                                None => None,
                            },
                            None => None,
                        },
                        None => None,
                    },
                    None => None,
                },
                None => None,
            },
            _ => None,
        }
    }

    fn decode(v: &Json) -> (r: Option<Self>) {
        match v {
            Json::Obj(ms) => {
                let credit_id = match req_text(ms, "credit_id") {
                    Some(t) => t,
                    None => {
                        return None;
                    },
                };
                let adult = match req_bool(ms, "adult") {
                    Some(b) => b,
                    None => {
                        return None;
                    },
                };
                let known_for_department = match opt_text(ms, "known_for_department") {
                    Some(o) => o,
                    None => {
                        return None;
                    },
                };
                let original_name = match req_text(ms, "original_name") {
                    Some(t) => t,
                    None => {
                        return None;
                    },
                };
                let popularity = match req_num_text(ms, "popularity") {
                    Some(t) => t,
                    None => {
                        return None;
                    },
                };
                Some(
                    CreditCommon {
                        credit_id,
                        adult,
                        known_for_department,
                        original_name,
                        popularity,
                    },
                )
            },
            _ => None,
        }
    }
}

/// A cast credit: the shared base, the person reference and the
/// cast-specific fields, all read from the same flat object.
#[derive(Debug)]
pub struct Cast {
    pub credit: CreditCommon,
    pub person: crate::people::PersonShort,
    pub cast_id: Option<u64>,
    pub character: Vec<char>,
    pub order: u64,
    pub profile_path: Option<Vec<char>>,
}

#[verifier::ext_equal]
pub struct CastView {
    pub credit: CreditCommonView,
    pub person: crate::people::PersonShortView,
    pub cast_id: Option<u64>,
    pub character: Seq<char>,
    pub order: u64,
    pub profile_path: Option<Seq<char>>,
}

impl View for Cast {
    type V = CastView;

    open spec fn view(&self) -> CastView {
        CastView {
            credit: self.credit@,
            person: self.person@,
            cast_id: self.cast_id,
            character: self.character@,
            order: self.order,
            profile_path: opt_text_view(self.profile_path),
        }
    }
}

impl JsonDecode for Cast {
    open spec fn spec_decode(v: JsonView) -> Option<CastView> {
        match CreditCommon::spec_decode(v) {
            Some(credit) => match crate::people::PersonShort::spec_decode(v) {
                Some(person) => match v {
                    JsonView::Obj(ms) => match spec_opt_u64(ms, "cast_id"@) {
                        Some(cast_id) => match spec_req_text(ms, "character"@) {
                            Some(character) => match spec_req_u64(ms, "order"@) {
                                Some(order) => match spec_opt_text(ms, "profile_path"@) {
                                    Some(profile_path) => Some(
                                        CastView {
                                            credit,
                                            person,
                                            cast_id,
                                            character,
                                            order,
                                            profile_path,
                                        },
                                    ),
                                    None => None,
                                },
                                None => None,
                            },
                            None => None,
                        },
                        None => None,
                    },
                    _ => None,
                },
                None => None,
            },
            None => None,
        }
    }

    fn decode(v: &Json) -> (r: Option<Self>) {
        let credit = match CreditCommon::decode(v) {
            Some(c) => c,
            None => {
                return None;
            },
        };
        let person = match crate::people::PersonShort::decode(v) {
            Some(p) => p,
            None => {
                return None;
            },
        };
        match v {
            Json::Obj(ms) => {
                let cast_id = match opt_u64(ms, "cast_id") {
                    Some(o) => o,
                    None => {
                        return None;
                    },
                };
                let character = match req_text(ms, "character") {
                    Some(t) => t,
                    None => {
                        return None;
                    },
                };
                let order = match req_u64(ms, "order") {
                    Some(n) => n,
                    None => {
                        return None;
                    },
                };
                let profile_path = match opt_text(ms, "profile_path") {
                    Some(o) => o,
                    None => {
                        return None;
                    },
                };
                Some(Cast { credit, person, cast_id, character, order, profile_path })
            },
            _ => None,
        }
    }
}

/// A crew credit: the shared base, the person reference and the
/// crew-specific fields, all read from the same flat object.
#[derive(Debug)]
pub struct Crew {
    pub credit: CreditCommon,
    pub person: crate::people::PersonShort,
    pub department: Vec<char>,
    pub job: Vec<char>,
    pub profile_path: Option<Vec<char>>,
}

#[verifier::ext_equal]
pub struct CrewView {
    pub credit: CreditCommonView,
    pub person: crate::people::PersonShortView,
    pub department: Seq<char>,
    pub job: Seq<char>,
    pub profile_path: Option<Seq<char>>,
}

impl View for Crew {
    type V = CrewView;

    open spec fn view(&self) -> CrewView {
        CrewView {
            credit: self.credit@,
            person: self.person@,
            department: self.department@,
            job: self.job@,
            profile_path: opt_text_view(self.profile_path),
        }
    }
}

impl JsonDecode for Crew {
    open spec fn spec_decode(v: JsonView) -> Option<CrewView> {
        match CreditCommon::spec_decode(v) {
            Some(credit) => match crate::people::PersonShort::spec_decode(v) {
                Some(person) => match v {
                    JsonView::Obj(ms) => match spec_req_text(ms, "department"@) {
                        Some(department) => match spec_req_text(ms, "job"@) {
                            Some(job) => match spec_opt_text(ms, "profile_path"@) {
                                Some(profile_path) => Some(
                                    CrewView { credit, person, department, job, profile_path },
                                ),
                                None => None,
                            },
                            None => None,
                        },
                        None => None,
                    },
                    _ => None,
                },
                None => None,
            },
            None => None,
        }
    }

    fn decode(v: &Json) -> (r: Option<Self>) {
        let credit = match CreditCommon::decode(v) {
            Some(c) => c,
            None => {
                return None;
            },
        };
        let person = match crate::people::PersonShort::decode(v) {
            Some(p) => p,
            None => {
                return None;
            },
        };
        match v {
            Json::Obj(ms) => {
                let department = match req_text(ms, "department") {
                    Some(t) => t,
                    None => {
                        return None;
                    },
                };
                let job = match req_text(ms, "job") {
                    Some(t) => t,
                    None => {
                        return None;
                    },
                };
                let profile_path = match opt_text(ms, "profile_path") {
                    Some(o) => o,
                    None => {
                        return None;
                    },
                };
                Some(Crew { credit, person, department, job, profile_path })
            },
            _ => None,
        }
    }
}

} // verus!
