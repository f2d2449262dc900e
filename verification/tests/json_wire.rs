use tracker_relo::downloader::{decode_error_message, is_announce};
use tracker_relo::json::Json;
use tracker_relo::wire::{client_options, describe_status, HttpResponse, ResponseBody};

fn text(value: &str) -> Json {
    Json::Str(value.to_string())
}

fn object(members: Vec<(&str, Json)>) -> Json {
    Json::Object(members.into_iter().map(|(name, value)| (name.to_string(), value)).collect())
}

fn response(status: u16, headers: &[(&str, Option<&str>)]) -> HttpResponse {
    HttpResponse {
        status,
        headers: headers
            .iter()
            .map(|(name, value)| (name.to_string(), value.map(|text| text.to_string())))
            .collect(),
        body: ResponseBody::Text(String::new()),
    }
}

#[test]
fn json_text_is_parsed_into_values() {
    assert_eq!(Json::parse("null"), Some(Json::Null));
    assert_eq!(Json::parse("true"), Some(Json::Bool(true)));
    assert_eq!(Json::parse(" 42 "), Some(Json::Int(42)));
    assert_eq!(Json::parse("-7"), Some(Json::Int(-7)));
    assert_eq!(Json::parse("\"a\\nb\""), Some(text("a\nb")));
    assert_eq!(
        Json::parse(r#"[1, "two", [false]]"#),
        Some(Json::Array(vec![Json::Int(1), text("two"), Json::Array(vec![Json::Bool(false)])]))
    );
    assert_eq!(
        Json::parse(r#"{"a": {"b": []}}"#),
        Some(object(vec![("a", object(vec![("b", Json::Array(vec![]))]))]))
    );
}

#[test]
fn json_numbers_outside_i64_are_numbers_without_a_reading() {
    assert_eq!(Json::parse("9223372036854775807"), Some(Json::Int(i64::MAX)));
    assert_eq!(Json::parse("-9223372036854775808"), Some(Json::Int(i64::MIN)));
    assert_eq!(Json::parse("9223372036854775808"), Some(Json::Number));
    assert_eq!(Json::parse("1.5"), Some(Json::Number));
    assert_eq!(Json::parse("1e3"), Some(Json::Number));
    assert_eq!(Json::Number.as_i64(), None);
}

#[test]
fn json_text_that_is_no_json_is_refused() {
    assert_eq!(Json::parse(""), None);
    assert_eq!(Json::parse("Ok."), None);
    assert_eq!(Json::parse("{"), None);
    assert_eq!(Json::parse("[1,]"), None);
    assert_eq!(Json::parse("{} {}"), None);
}

#[test]
fn json_object_members_come_sorted_with_the_last_of_a_name() {
    assert_eq!(
        Json::parse(r#"{"b":1,"a":2,"b":3}"#),
        Some(object(vec![("a", Json::Int(2)), ("b", Json::Int(3))]))
    );
}

#[test]
fn json_members_are_found_by_name() {
    let value = object(vec![("a", Json::Int(1)), ("b", text("x")), ("a", Json::Int(2))]);
    assert_eq!(value.get("a"), Some(&Json::Int(1)));
    assert_eq!(value.get("b"), Some(&text("x")));
    assert_eq!(value.get("c"), None);
    assert_eq!(value.get(""), None);
    assert_eq!(Json::Array(vec![]).get("a"), None);
    assert_eq!(value.get_str("b"), Some("x"));
    assert_eq!(value.get_str("a"), None);
    assert_eq!(value.get_array("a"), None);
    assert_eq!(
        object(vec![("list", Json::Array(vec![Json::Null]))]).get_array("list"),
        Some(&vec![Json::Null])
    );
}

#[test]
fn json_values_are_read_by_kind() {
    assert_eq!(text("s").as_str(), Some("s"));
    assert_eq!(Json::Int(1).as_str(), None);
    assert_eq!(Json::Int(1).as_i64(), Some(1));
    assert_eq!(text("1").as_i64(), None);
    assert_eq!(Json::Bool(true).as_i64(), None);
    assert_eq!(Json::Array(vec![Json::Int(1)]).as_array(), Some(&vec![Json::Int(1)]));
    assert_eq!(Json::Null.as_array(), None);
    assert_eq!(Json::string("abc"), text("abc"));
    assert_eq!(Json::array(vec![Json::Null]), Json::Array(vec![Json::Null]));
    assert_eq!(Json::object(vec![]), Json::Object(vec![]));
}

#[test]
fn status_is_written_with_its_reason() {
    assert_eq!(describe_status(200), "200 OK");
    assert_eq!(describe_status(404), "404 Not Found");
    assert_eq!(describe_status(418), "418 I'm a teapot");
    assert_eq!(describe_status(100), "100 Continue");
    assert_eq!(describe_status(999), "999 <unknown status code>");
}

#[test]
fn a_number_that_is_no_status_is_written_bare() {
    assert_eq!(describe_status(0), "0");
    assert_eq!(describe_status(99), "99");
    assert_eq!(describe_status(1000), "1000");
    assert_eq!(describe_status(65535), "65535");
}

#[test]
fn success_is_200_to_299() {
    assert!(!response(199, &[]).is_success());
    assert!(response(200, &[]).is_success());
    assert!(response(204, &[]).is_success());
    assert!(response(299, &[]).is_success());
    assert!(!response(300, &[]).is_success());
    assert!(!response(409, &[]).is_success());
}

#[test]
fn headers_are_found_by_name() {
    let found = response(200, &[("a", Some("1")), ("b", None), ("a", Some("2"))]);
    assert_eq!(found.header("a"), Some("1".to_string()));
    assert_eq!(found.header("b"), Some(String::new()));
    assert_eq!(found.header("c"), None);
    assert_eq!(found.header("ab"), None);
    assert_eq!(found.header(""), None);
}

#[test]
fn header_names_are_matched_whatever_their_case() {
    let found = response(
        200,
        &[("Content-Type", Some("text/html")), ("X-Transmission-Session-Id", Some("tok"))],
    );
    assert_eq!(found.header("content-type"), Some("text/html".to_string()));
    assert_eq!(found.header("CONTENT-TYPE"), Some("text/html".to_string()));
    assert_eq!(found.header("x-transmission-session-id"), Some("tok".to_string()));
    assert_eq!(found.header("x_transmission_session_id"), None);
    assert_eq!(found.header("content-typ"), None);
    let found = response(200, &[("\u{e4}", Some("small")), ("\u{c4}", Some("capital"))]);
    assert_eq!(found.header("\u{c4}"), Some("capital".to_string()));
    assert_eq!(found.header("@"), None);
    let found = response(200, &[("`", Some("grave")), ("[", Some("bracket"))]);
    assert_eq!(found.header("@"), None);
    assert_eq!(found.header("{"), None);
    assert_eq!(found.header("["), Some("bracket".to_string()));
}

#[test]
fn client_options_have_the_fixed_timeouts() {
    let options = client_options(false, false);
    assert_eq!(options.timeout_secs, 10);
    assert_eq!(options.connect_timeout_secs, 5);
    assert!(!options.cookie_store);
    assert!(!options.accept_invalid_certs);
    let options = client_options(true, true);
    assert!(options.cookie_store);
    assert!(options.accept_invalid_certs);
}

#[test]
fn announce_urls_begin_with_http_or_udp() {
    assert!(is_announce("http://a"));
    assert!(is_announce("https://a"));
    assert!(is_announce("udp://a"));
    assert!(is_announce("httpx"));
    assert!(!is_announce("** [DHT] **"));
    assert!(!is_announce("ws://a"));
    assert!(!is_announce(" http://a"));
    assert!(!is_announce("ud"));
    assert!(!is_announce(""));
}

#[test]
fn the_decode_message_is_fixed() {
    assert_eq!(decode_error_message(), "error decoding response body");
}
