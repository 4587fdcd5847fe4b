use tmdb_api::command::handle_response;
use tmdb_api::common::PaginatedResult;
use tmdb_api::error::Error;
use tmdb_api::movie::MovieShort;
use tmdb_api::tvshow::content_ratings::TVShowContentRatingsResult;
use tmdb_api::tvshow::keywords::TVShowKeywordsResult;
use tmdb_api::tvshow::translations::TVShowTranslationsResult;

fn s(v: &[char]) -> String {
    v.iter().collect()
}

const DISCOVER_BODY: &str = "{\"page\":1,\"results\":[{\"id\":427913,\"title\":\"Le clitoris\",\"original_title\":\"Le clitoris\",\"original_language\":\"fr\",\"overview\":\"Women are lucky.\",\"popularity\":2.995,\"adult\":false}],\"total_pages\":1,\"total_results\":1}";

const INVALID_KEY_BODY: &str =
    "{\"status_code\":7,\"status_message\":\"Invalid API key: You must be granted a valid key.\",\"success\":false}";

const NOT_FOUND_BODY: &str =
    "{\"status_code\":34,\"status_message\":\"The resource you requested could not be found.\"}";

const VALIDATION_BODY: &str = "{\"errors\":[\"query must be provided\"]}";

#[test]
fn discover_it_works() {
    let result: PaginatedResult<MovieShort> =
        handle_response(200, DISCOVER_BODY).expect("a success body must decode");
    assert_eq!(result.page, 1);
    assert!(!result.results.is_empty());
    assert!(result.total_pages > 0);
    assert!(result.total_results > 0);
    let item = result.results.first().unwrap();
    assert_eq!(s(&item.inner.title), "Le clitoris");
    assert_eq!(s(&item.inner.popularity), "2.995");
    assert!(!item.inner.adult);
}

#[test]
fn discover_invalid_api_key() {
    let err = handle_response::<PaginatedResult<MovieShort>>(401, INVALID_KEY_BODY).unwrap_err();
    let server_err = err.as_server_error().unwrap();
    assert_eq!(server_err.status_code, 7);
}

#[test]
fn discover_resource_not_found() {
    let err = handle_response::<PaginatedResult<MovieShort>>(404, NOT_FOUND_BODY).unwrap_err();
    let server_err = err.as_server_error().unwrap();
    assert_eq!(server_err.status_code, 34);
}

#[test]
fn validation_error() {
    let err = handle_response::<PaginatedResult<MovieShort>>(422, VALIDATION_BODY).unwrap_err();
    let validation_err = err.as_validation_error().unwrap();
    assert_eq!(validation_err.errors.len(), 1);
    assert_eq!(s(&validation_err.errors[0]), "query must be provided");
}

#[test]
fn unrecognized_error_body_is_transport() {
    let err =
        handle_response::<PaginatedResult<MovieShort>>(500, "downstream exploded").unwrap_err();
    let transport = err.as_transport_error().unwrap();
    assert_eq!(transport.status, Some(500));
}

#[test]
fn error_shape_wins_over_http_status() {
    // The service reuses HTTP statuses inconsistently: a server-error body
    // classifies as a server error whatever 4xx carried it.
    let err = handle_response::<PaginatedResult<MovieShort>>(418, NOT_FOUND_BODY).unwrap_err();
    assert_eq!(err.as_server_error().unwrap().status_code, 34);
}

#[test]
fn success_with_mismatched_schema_is_decode_error() {
    let err = handle_response::<PaginatedResult<MovieShort>>(200, "{\"page\":\"one\"}")
        .unwrap_err();
    assert!(err.as_decode_error().is_some());
}

#[test]
fn success_with_unreadable_body_is_decode_error() {
    let err = handle_response::<PaginatedResult<MovieShort>>(200, "{not json").unwrap_err();
    let decode_err = err.as_decode_error().unwrap();
    assert_eq!(s(&decode_err.snippet), "{not json");
}

#[test]
fn handling_twice_yields_equal_results() {
    let a: PaginatedResult<MovieShort> = handle_response(200, DISCOVER_BODY).unwrap();
    let b: PaginatedResult<MovieShort> = handle_response(200, DISCOVER_BODY).unwrap();
    assert_eq!(a.page, b.page);
    assert_eq!(a.total_pages, b.total_pages);
    assert_eq!(a.total_results, b.total_results);
    assert_eq!(a.results.len(), b.results.len());
    assert_eq!(s(&a.results[0].inner.title), s(&b.results[0].inner.title));

    let e1 = handle_response::<PaginatedResult<MovieShort>>(401, INVALID_KEY_BODY).unwrap_err();
    let e2 = handle_response::<PaginatedResult<MovieShort>>(401, INVALID_KEY_BODY).unwrap_err();
    match (e1, e2) {
        (Error::Server(a), Error::Server(b)) => {
            assert_eq!(a.status_code, b.status_code);
            assert_eq!(s(&a.status_message), s(&b.status_message));
        }
        _ => panic!("both runs must classify the same way"),
    }
}

#[test]
fn content_ratings_it_works() {
    let body = "{\"id\":550,\"results\":[{\"iso_3166_1\":\"US\",\"rating\":\"TV-MA\"},{\"iso_3166_1\":\"DE\",\"rating\":\"16\"}]}";
    let result: TVShowContentRatingsResult = handle_response(200, body).unwrap();
    assert_eq!(result.id, 550);
    assert_eq!(result.results.len(), 2);
    assert_eq!(s(&result.results[0].iso_3166_1), "US");
    assert_eq!(s(&result.results[0].rating), "TV-MA");
}

#[test]
fn content_ratings_invalid_api_key() {
    let err = handle_response::<TVShowContentRatingsResult>(401, INVALID_KEY_BODY).unwrap_err();
    assert_eq!(err.as_server_error().unwrap().status_code, 7);
}

#[test]
fn content_ratings_resource_not_found() {
    let err = handle_response::<TVShowContentRatingsResult>(404, NOT_FOUND_BODY).unwrap_err();
    assert_eq!(err.as_server_error().unwrap().status_code, 34);
}

#[test]
fn keywords_it_works() {
    let body = "{\"id\":550,\"results\":[{\"id\":818,\"name\":\"based on novel or book\"}]}";
    let result: TVShowKeywordsResult = handle_response(200, body).unwrap();
    assert_eq!(result.id, 550);
    assert_eq!(result.results.len(), 1);
    assert_eq!(result.results[0].id, 818);
    assert_eq!(s(&result.results[0].name), "based on novel or book");
}

#[test]
fn keywords_invalid_api_key() {
    let err = handle_response::<TVShowKeywordsResult>(401, INVALID_KEY_BODY).unwrap_err();
    assert_eq!(err.as_server_error().unwrap().status_code, 7);
}

#[test]
fn keywords_resource_not_found() {
    let err = handle_response::<TVShowKeywordsResult>(404, NOT_FOUND_BODY).unwrap_err();
    assert_eq!(err.as_server_error().unwrap().status_code, 34);
}

#[test]
fn translations_it_works() {
    let body = "{\"id\":550,\"translations\":[{\"iso_3166_1\":\"FR\",\"iso_639_1\":\"fr\",\"name\":\"Fran\u{e7}ais\",\"english_name\":\"French\",\"data\":{\"name\":\"\",\"tagline\":\"Une s\u{e9}rie.\",\"overview\":null,\"homepage\":\"\"}}]}";
    let result: TVShowTranslationsResult = handle_response(200, body).unwrap();
    assert_eq!(result.id, 550);
    assert!(!result.translations.is_empty());
    let tr = &result.translations[0];
    assert_eq!(s(&tr.iso_3166_1), "FR");
    assert_eq!(s(&tr.english_name), "French");
    assert!(tr.data.name.is_none());
    assert_eq!(s(tr.data.tagline.as_ref().unwrap()), "Une s\u{e9}rie.");
    assert!(tr.data.overview.is_none());
    assert!(tr.data.homepage.is_none());
}

#[test]
fn translations_invalid_api_key() {
    let err = handle_response::<TVShowTranslationsResult>(401, INVALID_KEY_BODY).unwrap_err();
    assert_eq!(err.as_server_error().unwrap().status_code, 7);
}

#[test]
fn translations_resource_not_found() {
    let err = handle_response::<TVShowTranslationsResult>(404, NOT_FOUND_BODY).unwrap_err();
    assert_eq!(err.as_server_error().unwrap().status_code, 34);
}

#[test]
fn trending_it_works() {
    let cmd = tmdb_api::movie::trending::MovieTrending::default();
    assert_eq!(s(&tmdb_api::command::Command::path(&cmd)), "/trending/movie/day");
    let result: PaginatedResult<MovieShort> = handle_response(200, DISCOVER_BODY).unwrap();
    assert_eq!(result.page, 1);
}

#[test]
fn trending_invalid_api_key() {
    let err = handle_response::<PaginatedResult<MovieShort>>(401, INVALID_KEY_BODY).unwrap_err();
    assert_eq!(err.as_server_error().unwrap().status_code, 7);
}

#[test]
fn trending_resource_not_found() {
    let err = handle_response::<PaginatedResult<MovieShort>>(404, NOT_FOUND_BODY).unwrap_err();
    assert_eq!(err.as_server_error().unwrap().status_code, 34);
}
