use tmdb_api::command::Command;
use tmdb_api::movie::discover::MovieDiscover;
use tmdb_api::movie::trending::{MovieTrending, MovieTrendingTimeWindow};
use tmdb_api::tvshow::content_ratings::TVShowContentRatings;
use tmdb_api::tvshow::keywords::TVShowKeywords;
use tmdb_api::tvshow::translations::TVShowTranslations;

fn s(v: &[char]) -> String {
    v.iter().collect()
}

fn t(text: &str) -> Vec<char> {
    text.chars().collect()
}

fn rendered(params: Vec<(Vec<char>, Vec<char>)>) -> Vec<(String, String)> {
    params.into_iter().map(|(k, v)| (s(&k), s(&v))).collect()
}

#[test]
fn discover_defaults_emit_only_the_sort_order() {
    let cmd = MovieDiscover::new();
    assert_eq!(s(&cmd.path()), "/discover/movie");
    let params = rendered(cmd.params());
    assert_eq!(params, vec![("sort_by".to_string(), "popularity.desc".to_string())]);
}

#[test]
fn discover_emits_only_present_fields() {
    let cmd = MovieDiscover::new()
        .with_language(Some(t("en-US")))
        .with_page(Some(7))
        .with_region(Some(t("DE")))
        .with_sort_by(None);
    let params = rendered(cmd.params());
    assert_eq!(
        params,
        vec![
            ("language".to_string(), "en-US".to_string()),
            ("page".to_string(), "7".to_string()),
            ("region".to_string(), "DE".to_string()),
        ]
    );
}

#[test]
fn discover_adult_flag_absent_when_false() {
    let params = rendered(MovieDiscover::new().with_sort_by(None).params());
    assert!(params.iter().all(|(k, _)| k != "include_adult"));
}

#[test]
fn discover_adult_flag_literal_true_when_set() {
    let cmd = MovieDiscover::new().with_sort_by(None).with_include_adult(true);
    let params = rendered(cmd.params());
    assert_eq!(params, vec![("include_adult".to_string(), "true".to_string())]);
}

#[test]
fn discover_every_filter_reaches_the_wire_unrenamed() {
    let cmd = MovieDiscover::new()
        .with_language(Some(t("fr")))
        .with_page(Some(2))
        .with_include_adult(true)
        .with_region(Some(t("FR")))
        .with_watch_region(Some(t("FR")))
        .with_origin_country(Some(t("FR")))
        .with_original_language(Some(t("fr")))
        .with_sort_by(Some(t("popularity.desc")))
        .with_watch_monetization_types(Some(t("flatrate")));
    let keys: Vec<String> = rendered(cmd.params()).into_iter().map(|(k, _)| k).collect();
    assert_eq!(
        keys,
        vec![
            "language",
            "page",
            "include_adult",
            "region",
            "watch_region",
            "with_origin_country",
            "with_original_language",
            "sort_by",
            "with_watch_monetization_types",
        ]
    );
}

#[test]
fn trending_default_time_window_is_daily() {
    // An unset time window constructs the daily trending path.
    let cmd = MovieTrending::default();
    assert_eq!(s(&cmd.path()), "/trending/movie/day");
    assert!(cmd.params().is_empty());
}

#[test]
fn trending_weekly_path() {
    let cmd = MovieTrending::default().with_time_window(MovieTrendingTimeWindow::Week);
    assert_eq!(s(&cmd.path()), "/trending/movie/week");
}

#[test]
fn trending_language_and_page() {
    let cmd = MovieTrending::default().with_language(Some(t("de"))).with_page(Some(3));
    let params = rendered(cmd.params());
    assert_eq!(
        params,
        vec![("language".to_string(), "de".to_string()), ("page".to_string(), "3".to_string())]
    );
}

#[test]
fn tvshow_paths_interpolate_the_series_id() {
    assert_eq!(s(&TVShowContentRatings::new(550).path()), "/tv/550/content_ratings");
    assert_eq!(s(&TVShowKeywords::new(550).path()), "/tv/550/keywords");
    assert_eq!(s(&TVShowTranslations::new(550).path()), "/tv/550/translations");
    assert_eq!(s(&TVShowContentRatings::new(42).path()), "/tv/42/content_ratings");
    assert!(TVShowTranslations::new(550).params().is_empty());
}

#[test]
fn query_string_percent_encodes_and_joins() {
    let params = vec![
        (t("query"), t("game of thrones")),
        (t("api_key"), t("secret")),
        (t("x"), t("a&b=c~\u{e9}")),
    ];
    let qs = s(&tmdb_api::params::query_string(&params));
    assert_eq!(qs, "query=game%20of%20thrones&api_key=secret&x=a%26b%3Dc~%C3%A9");
}

#[test]
fn query_string_of_no_parameters_is_empty() {
    let params: Vec<(Vec<char>, Vec<char>)> = vec![];
    assert_eq!(s(&tmdb_api::params::query_string(&params)), "");
}
