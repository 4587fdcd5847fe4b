use tmdb_api::command::handle_response;
use tmdb_api::tvshow::translations::TranslationData;

fn s(v: &[char]) -> String {
    v.iter().collect()
}

fn data(body: &str) -> TranslationData {
    handle_response::<TranslationData>(200, body).unwrap()
}

#[test]
fn empty_string_null_and_missing_key_decode_alike() {
    // Three spellings of the same absence.
    let by_empty = data("{\"name\":\"\",\"tagline\":\"t\",\"overview\":\"o\",\"homepage\":\"h\"}");
    let by_null = data("{\"name\":null,\"tagline\":\"t\",\"overview\":\"o\",\"homepage\":\"h\"}");
    let by_missing = data("{\"tagline\":\"t\",\"overview\":\"o\",\"homepage\":\"h\"}");
    assert!(by_empty.name.is_none());
    assert!(by_null.name.is_none());
    assert!(by_missing.name.is_none());
    assert_eq!(by_empty.name, by_null.name);
    assert_eq!(by_null.name, by_missing.name);
}

#[test]
fn non_empty_text_stays_present() {
    let d = data("{\"name\":\"Der Name\",\"tagline\":\"\",\"overview\":null,\"homepage\":\"\"}");
    assert_eq!(s(d.name.as_ref().unwrap()), "Der Name");
    assert!(d.tagline.is_none());
    assert!(d.overview.is_none());
    assert!(d.homepage.is_none());
}

#[test]
fn lenient_never_yields_an_empty_string() {
    let d = data("{\"name\":\"\",\"tagline\":\"\",\"overview\":\"\",\"homepage\":\"\"}");
    assert!(d.name.is_none());
    assert!(d.tagline.is_none());
    assert!(d.overview.is_none());
    assert!(d.homepage.is_none());
}

#[test]
fn a_non_string_under_a_lenient_field_is_a_shape_error() {
    let err =
        handle_response::<TranslationData>(200, "{\"name\":7,\"tagline\":\"t\",\"overview\":\"o\",\"homepage\":\"h\"}")
            .unwrap_err();
    assert!(err.as_decode_error().is_some());
}
