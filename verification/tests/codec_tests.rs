use tmdb_api::codec::{parse_json, to_json_text};
use tmdb_api::command::{handle_response, JsonEncode};
use tmdb_api::common::PaginatedResult;
use tmdb_api::json::Json;
use tmdb_api::movie::{MovieBase, MovieShort};

fn s(v: &[char]) -> String {
    v.iter().collect()
}

fn t(text: &str) -> Vec<char> {
    text.chars().collect()
}

fn movie(id: u64, title: &str, popularity: &str) -> MovieShort {
    MovieShort {
        inner: MovieBase {
            id,
            title: t(title),
            original_title: t(title),
            original_language: t("en"),
            overview: t("An overview."),
            popularity: t(popularity),
            adult: false,
        },
    }
}

#[test]
fn parse_accepts_the_usual_document() {
    let v = parse_json(" {\"a\": [1, true, null, \"x\"], \"b\": {} } ").unwrap();
    match v {
        Json::Obj(members) => {
            assert_eq!(members.len(), 2);
            assert_eq!(s(&members[0].0), "a");
            match &members[0].1 {
                Json::Arr(items) => assert_eq!(items.len(), 4),
                _ => panic!("expected an array under the first key"),
            }
        }
        _ => panic!("expected an object"),
    }
}

#[test]
fn parse_keeps_number_lexemes() {
    let v = parse_json("[0, -12, 2.995, 1e3, -1.5E-2]").unwrap();
    match v {
        Json::Arr(items) => {
            let lexemes: Vec<String> = items
                .iter()
                .map(|i| match i {
                    Json::Num(lex) => s(lex),
                    _ => panic!("expected numbers"),
                })
                .collect();
            assert_eq!(lexemes, vec!["0", "-12", "2.995", "1e3", "-1.5E-2"]);
        }
        _ => panic!("expected an array"),
    }
}

#[test]
fn parse_unescapes_strings() {
    let v = parse_json("\"a\\\"b\\\\c\\n\\t\\/\"").unwrap();
    match v {
        Json::Str(text) => assert_eq!(s(&text), "a\"b\\c\n\t/"),
        _ => panic!("expected a string"),
    }
}

#[test]
fn parse_rejects_malformed_documents() {
    assert!(parse_json("").is_none());
    assert!(parse_json("{").is_none());
    assert!(parse_json("{\"a\":}").is_none());
    assert!(parse_json("[1,]").is_none());
    assert!(parse_json("01x").is_none());
    assert!(parse_json("\"unterminated").is_none());
    assert!(parse_json("{\"a\":1} trailing").is_none());
    assert!(parse_json("1.").is_none());
}

#[test]
fn printed_documents_parse_back() {
    let body = "{\"k\":[1,{\"n\":null},\"text with \\\"quotes\\\"\"],\"b\":true}";
    let v = parse_json(body).unwrap();
    let printed: String = s(&to_json_text(&v));
    let reparsed = parse_json(&printed).unwrap();
    let reprinted: String = s(&to_json_text(&reparsed));
    assert_eq!(printed, reprinted);
}

#[test]
fn paginated_roundtrip_keeps_counters_and_item_order() {
    let page = PaginatedResult {
        page: 3,
        results: vec![movie(5, "First", "1.5"), movie(9, "Second", "0.25"), movie(2, "Third", "7")],
        total_pages: 12,
        total_results: 55,
    };
    let encoded = page.encode();
    let text = s(&to_json_text(&encoded));
    let back: PaginatedResult<MovieShort> = handle_response(200, &text).unwrap();
    assert_eq!(back.page, 3);
    assert_eq!(back.total_pages, 12);
    assert_eq!(back.total_results, 55);
    assert_eq!(back.results.len(), 3);
    let titles: Vec<String> = back.results.iter().map(|m| s(&m.inner.title)).collect();
    assert_eq!(titles, vec!["First", "Second", "Third"]);
    let ids: Vec<u64> = back.results.iter().map(|m| m.inner.id).collect();
    assert_eq!(ids, vec![5, 9, 2]);
    assert_eq!(s(&back.results[1].inner.popularity), "0.25");
}

#[test]
fn empty_page_roundtrips() {
    let page: PaginatedResult<MovieShort> =
        PaginatedResult { page: 1, results: vec![], total_pages: 0, total_results: 0 };
    let text = s(&to_json_text(&page.encode()));
    let back: PaginatedResult<MovieShort> = handle_response(200, &text).unwrap();
    assert_eq!(back.page, 1);
    assert_eq!(back.results.len(), 0);
    assert_eq!(back.total_results, 0);
}
