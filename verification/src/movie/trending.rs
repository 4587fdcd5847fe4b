use vstd::prelude::*;
use crate::command::{Command, pairs_view};
use crate::common::PaginatedResult;
use crate::movie::MovieShort;
use crate::params::{opt_pair, opt_num_pair, push_opt_text_param, push_opt_num_param};
use crate::text::{text_of, opt_text_view};

verus! {

/// The window a trending listing covers.
#[derive(Clone, Copy, PartialEq, Eq, Structural, Debug)]
pub enum MovieTrendingTimeWindow {
    Day,
    Week,
}

impl MovieTrendingTimeWindow {
    /// The path segment this window selects.
    pub open spec fn spec_text(self) -> Seq<char> {
        match self {
            MovieTrendingTimeWindow::Day => "day"@,
            MovieTrendingTimeWindow::Week => "week"@,
        }
    }

    pub fn as_text(&self) -> (r: Vec<char>)
        ensures
            r@ == self.spec_text(),
    {
        match self {
            MovieTrendingTimeWindow::Day => text_of("day"),
            MovieTrendingTimeWindow::Week => text_of("week"),
        }
    }
}

impl Default for MovieTrendingTimeWindow {
    fn default() -> (r: Self)
        ensures
            r == MovieTrendingTimeWindow::Day,
    {
        MovieTrendingTimeWindow::Day
    }
}

/// The movies currently trending, over a daily or weekly window. An unset
/// window means the daily one.
#[derive(Debug)]
pub struct MovieTrending {
    /// ISO 639-1 value to display translated data for the fields that support it.
    pub language: Option<Vec<char>>,
    /// Which page to query.
    pub page: Option<u32>,
    /// Time window.
    pub time_window: MovieTrendingTimeWindow,
}

impl Default for MovieTrending {
    fn default() -> (r: Self)
        ensures
            r.language is None,
            r.page is None,
            r.time_window == MovieTrendingTimeWindow::Day,
    {
        MovieTrending { language: None, page: None, time_window: MovieTrendingTimeWindow::Day }
    }
}

impl MovieTrending {
    pub fn with_language(self, value: Option<Vec<char>>) -> (r: Self)
        ensures
            r == (Self { language: value, ..self }),
    {
        Self { language: value, ..self }
    }

    pub fn with_page(self, value: Option<u32>) -> (r: Self)
        ensures
            r == (Self { page: value, ..self }),
    {
        Self { page: value, ..self }
    }

    pub fn with_time_window(self, value: MovieTrendingTimeWindow) -> (r: Self)
        ensures
            r == (Self { time_window: value, ..self }),
    {
        Self { time_window: value, ..self }
    }
}

impl Command for MovieTrending {
    type Output = PaginatedResult<MovieShort>;

    open spec fn spec_path(&self) -> Seq<char> {
        match self.time_window {
            MovieTrendingTimeWindow::Day => "/trending/movie/day"@,
            MovieTrendingTimeWindow::Week => "/trending/movie/week"@,
        }
    }

    open spec fn spec_params(&self) -> Seq<(Seq<char>, Seq<char>)> {
        opt_pair("language"@, opt_text_view(self.language)) + opt_num_pair("page"@, self.page)
    }

    fn path(&self) -> (r: Vec<char>) {
        match self.time_window {
            MovieTrendingTimeWindow::Day => text_of("/trending/movie/day"),
            MovieTrendingTimeWindow::Week => text_of("/trending/movie/week"),
        }
    }

    fn params(&self) -> (r: Vec<(Vec<char>, Vec<char>)>) {
        let mut r: Vec<(Vec<char>, Vec<char>)> = Vec::new();
        proof {
            assert(pairs_view(r@) =~= Seq::<(Seq<char>, Seq<char>)>::empty());
        }
        push_opt_text_param(&mut r, "language", &self.language);
        push_opt_num_param(&mut r, "page", &self.page);
        proof {
            assert(pairs_view(r@) =~= self.spec_params());
        }
        r
    }
}

/// Law: the trending query holds a `language` or `page` pair exactly when
/// the matching field is set, and nothing else.
pub proof fn lemma_trending_params_present_fields(d: MovieTrending)
    ensures
        forall|k: int|
            0 <= k < d.spec_params().len() ==> {
                let pair = #[trigger] d.spec_params()[k];
                ||| (pair.0 == "language"@ && opt_text_view(d.language) == Some(pair.1))
                ||| (pair.0 == "page"@ && (d.page matches Some(p) && pair.1
                    == crate::text::spec_dec(p as nat)))
            },
{
}

} // verus!
