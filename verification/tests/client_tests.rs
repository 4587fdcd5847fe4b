use tmdb_api::client::{prepare, Client, ClientBuilderError};
use tmdb_api::command::handle_response;
use tmdb_api::common::credits::{Cast, Crew};
use tmdb_api::json::Json;
use tmdb_api::movie::trending::MovieTrending;
use tmdb_api::tvshow::content_ratings::TVShowContentRatings;

fn s(v: &[char]) -> String {
    v.iter().collect()
}

fn t(text: &str) -> Vec<char> {
    text.chars().collect()
}

#[test]
fn builder_requires_a_credential() {
    let err = Client::builder().build().unwrap_err();
    assert_eq!(err, ClientBuilderError::MissingApiKey);
}

#[test]
fn builder_defaults_the_base_url() {
    let client = Client::builder().with_api_key(t("secret")).build().unwrap();
    assert_eq!(s(&client.base_url), "https://api.themoviedb.org/3");
    assert_eq!(s(&client.api_key), "secret");
}

#[test]
fn builder_keeps_a_given_base_url() {
    let client = Client::builder()
        .with_api_key(t("secret"))
        .with_base_url(t("http://localhost:5555"))
        .build()
        .unwrap();
    assert_eq!(s(&client.base_url), "http://localhost:5555");
}

#[test]
fn prepare_joins_url_and_appends_the_credential() {
    let client = Client::builder()
        .with_api_key(t("secret"))
        .with_base_url(t("http://localhost:5555"))
        .build()
        .unwrap();
    let cmd = TVShowContentRatings::new(550);
    let (url, query) = prepare(&client, &cmd);
    assert_eq!(s(&url), "http://localhost:5555/tv/550/content_ratings");
    assert_eq!(query.len(), 1);
    assert_eq!(s(&query[0].0), "api_key");
    assert_eq!(s(&query[0].1), "secret");
}

#[test]
fn prepare_keeps_command_parameters_before_the_credential() {
    let client = Client::new(t("secret"));
    let cmd = MovieTrending::default().with_page(Some(2));
    let (url, query) = prepare(&client, &cmd);
    assert_eq!(s(&url), "https://api.themoviedb.org/3/trending/movie/day");
    let pairs: Vec<(String, String)> = query.iter().map(|(k, v)| (s(k), s(v))).collect();
    assert_eq!(
        pairs,
        vec![("page".to_string(), "2".to_string()), ("api_key".to_string(), "secret".to_string())]
    );
}

const FLAT_CREDIT: &str = "{\"credit_id\":\"52fe4250c3a36847f80149f3\",\"adult\":false,\"known_for_department\":\"Acting\",\"original_name\":\"Edward Norton\",\"popularity\":26.99,\"id\":819,\"name\":\"Edward Norton\",\"cast_id\":4,\"character\":\"The Narrator\",\"order\":0,\"department\":\"Directing\",\"job\":\"Director\"}";

#[test]
fn cast_reads_base_person_and_variant_fields_from_one_flat_object() {
    let cast: Cast = handle_response(200, FLAT_CREDIT).unwrap();
    assert_eq!(s(&cast.credit.credit_id), "52fe4250c3a36847f80149f3");
    assert!(!cast.credit.adult);
    assert_eq!(s(cast.credit.known_for_department.as_ref().unwrap()), "Acting");
    assert_eq!(s(&cast.credit.popularity), "26.99");
    assert_eq!(cast.person.id, 819);
    assert_eq!(s(&cast.person.name), "Edward Norton");
    assert_eq!(cast.cast_id, Some(4));
    assert_eq!(s(&cast.character), "The Narrator");
    assert_eq!(cast.order, 0);
    assert!(cast.profile_path.is_none());
}

#[test]
fn crew_reads_its_variant_fields_from_the_same_flat_shape() {
    let crew: Crew = handle_response(200, FLAT_CREDIT).unwrap();
    assert_eq!(s(&crew.credit.original_name), "Edward Norton");
    assert_eq!(crew.person.id, 819);
    assert_eq!(s(&crew.department), "Directing");
    assert_eq!(s(&crew.job), "Director");
}

#[test]
fn credit_without_its_variant_fields_is_rejected() {
    let body = "{\"credit_id\":\"x\",\"adult\":false,\"original_name\":\"N\",\"popularity\":1,\"id\":1,\"name\":\"N\"}";
    assert!(handle_response::<Cast>(200, body).is_err());
    let v = tmdb_api::codec::parse_json(body).unwrap();
    match v {
        Json::Obj(members) => assert_eq!(members.len(), 6),
        _ => panic!("expected an object"),
    }
}
