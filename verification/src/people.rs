use vstd::prelude::*;
use crate::json::{Json, JsonView};
use crate::util::{spec_req_u64, req_u64, spec_req_text, req_text};
use crate::command::JsonDecode;

verus! {

/// The short person reference embedded in credit records.
#[derive(Debug)]
pub struct PersonShort {
    pub id: u64,
    pub name: Vec<char>,
}

#[verifier::ext_equal]
pub struct PersonShortView {
    pub id: u64,
    pub name: Seq<char>,
}

impl View for PersonShort {
    type V = PersonShortView;

    open spec fn view(&self) -> PersonShortView {
        PersonShortView { id: self.id, name: self.name@ }
    }
}

impl JsonDecode for PersonShort {
    open spec fn spec_decode(v: JsonView) -> Option<PersonShortView> {
        match v {
            JsonView::Obj(ms) => match spec_req_u64(ms, "id"@) {
                Some(id) => match spec_req_text(ms, "name"@) {
                    Some(name) => Some(PersonShortView { id, name }),
                    None => None,
                },
                None => None,
            },
            _ => None,
        }
    }

    fn decode(v: &Json) -> (r: Option<Self>) {
        match v {
            Json::Obj(ms) => {
                let id = match req_u64(ms, "id") {
                    Some(n) => n,
                    None => {
                        return None;
                    },
                };
                let name = match req_text(ms, "name") {
                    Some(t) => t,
                    None => {
                        return None;
                    },
                };
                Some(PersonShort { id, name })
            },
            _ => None,
        }
    }
}

} // verus!
