use vstd::prelude::*;
use crate::command::{Command, pairs_view};
use crate::common::PaginatedResult;
use crate::movie::MovieShort;
use crate::params::{opt_pair, opt_num_pair, flag_pair, push_opt_text_param, push_opt_num_param,
    push_flag_param};
use crate::text::{text_of, opt_text_view, spec_dec};

verus! {

/// Discover movies by filter criteria. Every field is optional; only the
/// present ones reach the query string.
#[derive(Debug)]
pub struct MovieDiscover {
    /// ISO 639-1 value to display translated data for the fields that support it.
    pub language: Option<Vec<char>>,
    /// Which page to query.
    pub page: Option<u32>,
    /// Whether to include adult (pornography) content in the results.
    pub include_adult: bool,
    /// ISO 3166-1 code to filter release region. Must be uppercase.
    pub region: Option<Vec<char>>,
    /// ISO 3166-1 code to filter release region. Must be uppercase.
    pub watch_region: Option<Vec<char>>,
    /// ISO 3166-1 code to filter release region. Must be uppercase.
    pub with_origin_country: Option<Vec<char>>,
    /// Language code. Must be lowercase.
    pub with_original_language: Option<Vec<char>>,
    /// Sort order.
    pub sort_by: Option<Vec<char>>,
    /// Watch monetization types.
    pub with_watch_monetization_types: Option<Vec<char>>,
}

impl MovieDiscover {
    /// A fresh descriptor: everything unset but the default sort order.
    pub fn new() -> (r: Self)
        ensures
            r.language is None,
            r.page is None,
            !r.include_adult,
            r.region is None,
            r.watch_region is None,
            r.with_origin_country is None,
            r.with_original_language is None,
            r.sort_by matches Some(s) && s@ == "popularity.desc"@,
            r.with_watch_monetization_types is None,
    {
        Self {
            language: None,
            page: None,
            include_adult: false,
            region: None,
            watch_region: None,
            with_origin_country: None,
            with_original_language: None,
            sort_by: Some(text_of("popularity.desc")),
            with_watch_monetization_types: None,
        }
    }

    pub fn with_language(self, value: Option<Vec<char>>) -> (r: Self)
        ensures
            r == (Self { language: value, ..self }),
    {
        Self { language: value, ..self }
    }

    pub fn with_page(self, value: Option<u32>) -> (r: Self)
        ensures
            r == (Self { page: value, ..self }),
    {
        Self { page: value, ..self }
    }

    pub fn with_include_adult(self, value: bool) -> (r: Self)
        ensures
            r == (Self { include_adult: value, ..self }),
    {
        Self { include_adult: value, ..self }
    }

    pub fn with_region(self, value: Option<Vec<char>>) -> (r: Self)
        ensures
            r == (Self { region: value, ..self }),
    {
        Self { region: value, ..self }
    }

    pub fn with_watch_region(self, value: Option<Vec<char>>) -> (r: Self)
        ensures
            r == (Self { watch_region: value, ..self }),
    {
        Self { watch_region: value, ..self }
    }

    pub fn with_origin_country(self, value: Option<Vec<char>>) -> (r: Self)
        ensures
            r == (Self { with_origin_country: value, ..self }),
    {
        Self { with_origin_country: value, ..self }
    }

    pub fn with_original_language(self, value: Option<Vec<char>>) -> (r: Self)
        ensures
            r == (Self { with_original_language: value, ..self }),
    {
        Self { with_original_language: value, ..self }
    }

    pub fn with_sort_by(self, value: Option<Vec<char>>) -> (r: Self)
        ensures
            r == (Self { sort_by: value, ..self }),
    {
        Self { sort_by: value, ..self }
    }

    pub fn with_watch_monetization_types(self, value: Option<Vec<char>>) -> (r: Self)
        ensures
            r == (Self { with_watch_monetization_types: value, ..self }),
    {
        Self { with_watch_monetization_types: value, ..self }
    }
}

impl Command for MovieDiscover {
    type Output = PaginatedResult<MovieShort>;

    open spec fn spec_path(&self) -> Seq<char> {
        "/discover/movie"@
    }

    open spec fn spec_params(&self) -> Seq<(Seq<char>, Seq<char>)> {
        opt_pair("language"@, opt_text_view(self.language)) + opt_num_pair("page"@, self.page)
            + flag_pair("include_adult"@, self.include_adult) + opt_pair(
            "region"@,
            opt_text_view(self.region),
        ) + opt_pair("watch_region"@, opt_text_view(self.watch_region)) + opt_pair(
            "with_origin_country"@,
            opt_text_view(self.with_origin_country),
        ) + opt_pair("with_original_language"@, opt_text_view(self.with_original_language))
            + opt_pair("sort_by"@, opt_text_view(self.sort_by)) + opt_pair(
            "with_watch_monetization_types"@,
            opt_text_view(self.with_watch_monetization_types),
        )
    }

    fn path(&self) -> (r: Vec<char>) {
        text_of("/discover/movie")
    }

    fn params(&self) -> (r: Vec<(Vec<char>, Vec<char>)>) {
        let mut r: Vec<(Vec<char>, Vec<char>)> = Vec::new();
        proof {
            assert(pairs_view(r@) =~= Seq::<(Seq<char>, Seq<char>)>::empty());
        }
        push_opt_text_param(&mut r, "language", &self.language);
        push_opt_num_param(&mut r, "page", &self.page);
        push_flag_param(&mut r, "include_adult", self.include_adult);
        push_opt_text_param(&mut r, "region", &self.region);
        push_opt_text_param(&mut r, "watch_region", &self.watch_region);
        push_opt_text_param(&mut r, "with_origin_country", &self.with_origin_country);
        push_opt_text_param(&mut r, "with_original_language", &self.with_original_language);
        push_opt_text_param(&mut r, "sort_by", &self.sort_by);
        push_opt_text_param(
            &mut r,
            "with_watch_monetization_types",
            &self.with_watch_monetization_types,
        );
        proof {
            assert(pairs_view(r@) =~= self.spec_params());
        }
        r
    }
}

/// Law: every pair the codec emits carries the value of a field that is
/// present — no key ever stands for an absent optional.
pub proof fn lemma_discover_params_present_fields(d: MovieDiscover)
    ensures
        forall|k: int|
            0 <= k < d.spec_params().len() ==> {
                let pair = #[trigger] d.spec_params()[k];
                ||| (pair.0 == "language"@ && opt_text_view(d.language) == Some(pair.1))
                ||| (pair.0 == "page"@ && (d.page matches Some(p) && pair.1 == spec_dec(p as nat)))
                ||| (pair == ("include_adult"@, "true"@) && d.include_adult)
                ||| (pair.0 == "region"@ && opt_text_view(d.region) == Some(pair.1))
                ||| (pair.0 == "watch_region"@ && opt_text_view(d.watch_region) == Some(pair.1))
                ||| (pair.0 == "with_origin_country"@ && opt_text_view(d.with_origin_country)
                    == Some(pair.1))
                ||| (pair.0 == "with_original_language"@ && opt_text_view(
                    d.with_original_language,
                ) == Some(pair.1))
                ||| (pair.0 == "sort_by"@ && opt_text_view(d.sort_by) == Some(pair.1))
                ||| (pair.0 == "with_watch_monetization_types"@ && opt_text_view(
                    d.with_watch_monetization_types,
                ) == Some(pair.1))
            },
{
}

/// Law: the default-false flag is entirely absent from the query when
/// false, and present exactly as the literal `true` when set.
pub proof fn lemma_discover_include_adult(d: MovieDiscover)
    ensures
        d.include_adult ==> d.spec_params().contains(("include_adult"@, "true"@)),
        !d.include_adult ==> forall|k: int|
            0 <= k < d.spec_params().len() ==> (#[trigger] d.spec_params()[k]).0
                != "include_adult"@,
{
    reveal_strlit("language");
    reveal_strlit("page");
    reveal_strlit("include_adult");
    reveal_strlit("region");
    reveal_strlit("watch_region");
    reveal_strlit("with_origin_country");
    reveal_strlit("with_original_language");
    reveal_strlit("sort_by");
    reveal_strlit("true");
    reveal_strlit("with_watch_monetization_types");
    lemma_discover_params_present_fields(d);
    assert("language"@.len() == 8 && "page"@.len() == 4 && "include_adult"@.len() == 13
        && "region"@.len() == 6 && "watch_region"@.len() == 12 && "with_origin_country"@.len()
        == 19 && "with_original_language"@.len() == 22 && "sort_by"@.len() == 7
        && "with_watch_monetization_types"@.len() == 29);
    if d.include_adult {
        let i0 = opt_pair("language"@, opt_text_view(d.language)).len() + opt_num_pair(
            "page"@,
            d.page,
        ).len();
        assert(d.spec_params()[i0 as int] == ("include_adult"@, "true"@));
    }
}

} // verus!
