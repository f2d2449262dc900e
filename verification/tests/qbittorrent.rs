use tracker_relo::commands::create_downloader;
use tracker_relo::config::ConnectionConfig;
use tracker_relo::downloader::qbittorrent::{
    document_from, torrents_from, trackers_from, trackers_from_reply, ListedTorrent, QBittorrent,
};
use tracker_relo::downloader::{DownloaderKind, TorrentInfo, TorrentListing, TrackerInfo};
use tracker_relo::json::Json;
use tracker_relo::wire::{Body, ClientOptions, HttpResponse, Method, Reply, ResponseBody};

fn text_reply(status: u16, body: &str) -> Reply {
    Reply::Response(HttpResponse {
        status,
        headers: Vec::new(),
        body: ResponseBody::Text(body.to_string()),
    })
}

fn unreadable_reply(status: u16, message: &str) -> Reply {
    Reply::Response(HttpResponse {
        status,
        headers: Vec::new(),
        body: ResponseBody::Unreadable(message.to_string()),
    })
}

fn failed(message: &str) -> Reply {
    Reply::Failed(message.to_string())
}

fn pair(name: &str, value: &str) -> (String, String) {
    (name.to_string(), value.to_string())
}

fn session() -> QBittorrent {
    QBittorrent::new("127.0.0.1", 8080, false, &text_reply(200, "Ok.")).unwrap()
}

fn tracker(url: &str, status: i32) -> TrackerInfo {
    TrackerInfo { url: url.to_string(), status }
}

fn listed(hash: &str, name: &str) -> ListedTorrent {
    ListedTorrent { hash: hash.to_string(), name: name.to_string() }
}

#[test]
fn qb_login_request_posts_the_credentials_as_a_form() {
    let request = QBittorrent::login_request("127.0.0.1", 8080, "admin", "secret word", false);
    assert_eq!(request.method, Method::Post);
    assert_eq!(request.url, "http://127.0.0.1:8080/api/v2/auth/login");
    assert!(request.headers.is_empty());
    assert!(request.query.is_empty());
    assert_eq!(
        request.body,
        Body::Form(vec![pair("username", "admin"), pair("password", "secret word")])
    );
}

#[test]
fn qb_login_request_with_empty_credentials() {
    let request = QBittorrent::login_request("box", 1, "", "", true);
    assert_eq!(request.url, "https://box:1/api/v2/auth/login");
    assert_eq!(request.body, Body::Form(vec![pair("username", ""), pair("password", "")]));
}

#[test]
fn qb_login_succeeds_on_ok() {
    let client = QBittorrent::new("host.example", 443, true, &text_reply(200, "Ok.")).unwrap();
    assert_eq!(client.base_url(), "https://host.example:443");
}

#[test]
fn qb_login_body_must_be_ok_letter_for_letter() {
    assert_eq!(
        QBittorrent::new("h", 80, false, &text_reply(200, " Ok.\r\n")).unwrap_err(),
        "Login failed:  Ok.\r\n"
    );
    assert_eq!(
        QBittorrent::new("h", 80, false, &text_reply(200, "Ok.\n")).unwrap_err(),
        "Login failed: Ok.\n"
    );
    assert_eq!(
        QBittorrent::new("h", 80, false, &text_reply(200, "Ok")).unwrap_err(),
        "Login failed: Ok"
    );
    assert_eq!(
        QBittorrent::new("h", 80, false, &text_reply(200, "OK.")).unwrap_err(),
        "Login failed: OK."
    );
}

#[test]
fn qb_login_goes_by_the_body_alone() {
    assert!(QBittorrent::new("h", 80, false, &text_reply(403, "Ok.")).is_ok());
}

#[test]
fn qb_login_failure_carries_the_clients_message() {
    let error = QBittorrent::new("h", 80, false, &text_reply(200, "Fails.")).unwrap_err();
    assert_eq!(error, "Login failed: Fails.");
    assert!(error.contains("Fails."));
}

#[test]
fn qb_login_failure_hands_the_body_on_untrimmed() {
    let error = QBittorrent::new("h", 80, false, &text_reply(200, " ok. \n")).unwrap_err();
    assert_eq!(error, "Login failed:  ok. \n");
    let error = QBittorrent::new("h", 80, false, &text_reply(200, "")).unwrap_err();
    assert_eq!(error, "Login failed: ");
}

#[test]
fn qb_login_without_a_response_is_a_connection_failure() {
    let error = QBittorrent::new("h", 80, false, &failed("error sending request")).unwrap_err();
    assert_eq!(error, "Connection failed: error sending request");
}

#[test]
fn qb_login_with_an_unreadable_body_hands_the_message_on() {
    let error = QBittorrent::new("h", 80, false, &unreadable_reply(200, "body cut short")).unwrap_err();
    assert_eq!(error, "body cut short");
}

#[test]
fn qb_client_keeps_cookies_and_skips_the_certificate_check_with_https() {
    assert_eq!(
        QBittorrent::client_options(true),
        ClientOptions {
            cookie_store: true,
            accept_invalid_certs: true,
            timeout_secs: 10,
            connect_timeout_secs: 5,
        }
    );
    assert_eq!(
        QBittorrent::client_options(false),
        ClientOptions {
            cookie_store: true,
            accept_invalid_certs: false,
            timeout_secs: 10,
            connect_timeout_secs: 5,
        }
    );
}

#[test]
fn qb_version_request_and_line() {
    let client = session();
    let request = client.test_connection_request();
    assert_eq!(request.method, Method::Get);
    assert_eq!(request.url, "http://127.0.0.1:8080/api/v2/app/version");
    assert!(request.headers.is_empty());
    assert!(request.query.is_empty());
    assert_eq!(request.body, Body::Empty);
    assert_eq!(client.test_connection(text_reply(200, "v4.6.2")), Ok("qBittorrent v4.6.2".to_string()));
    assert_eq!(
        client.test_connection(failed("timed out")),
        Err("Connection failed: timed out".to_string())
    );
    assert_eq!(client.test_connection(unreadable_reply(200, "reset")), Err("reset".to_string()));
}

#[test]
fn qb_list_request() {
    let request = session().list_torrents_request();
    assert_eq!(request.method, Method::Get);
    assert_eq!(request.url, "http://127.0.0.1:8080/api/v2/torrents/info");
    assert!(request.query.is_empty());
    assert_eq!(request.body, Body::Empty);
}

#[test]
fn qb_trackers_request_names_the_hash_in_the_query() {
    let request = session().trackers_request("abc123");
    assert_eq!(request.method, Method::Get);
    assert_eq!(request.url, "http://127.0.0.1:8080/api/v2/torrents/trackers");
    assert_eq!(request.query, vec![pair("hash", "abc123")]);
    assert_eq!(request.body, Body::Empty);
}

#[test]
fn qb_torrent_list_is_read_from_json() {
    let body = r#"[{"hash":"h1","name":"one","size":5},{"name":"two","hash":"h2"}]"#;
    assert_eq!(
        session().list_torrents(text_reply(200, body)),
        Ok(vec![listed("h1", "one"), listed("h2", "two")])
    );
    assert_eq!(session().list_torrents(text_reply(200, "[]")), Ok(Vec::new()));
}

#[test]
fn qb_torrent_list_that_is_malformed_is_refused() {
    let decode = Err("error decoding response body".to_string());
    let client = session();
    assert_eq!(client.list_torrents(text_reply(200, "Forbidden")), decode);
    assert_eq!(client.list_torrents(text_reply(200, r#"{"hash":"h","name":"n"}"#)), decode);
    assert_eq!(client.list_torrents(text_reply(200, r#"[{"hash":"h"}]"#)), decode);
    assert_eq!(client.list_torrents(text_reply(200, r#"[{"hash":1,"name":"n"}]"#)), decode);
    assert_eq!(client.list_torrents(text_reply(200, r#"[{"hash":"h","name":"n"}, 3]"#)), decode);
    assert_eq!(client.list_torrents(failed("no route")), Err("no route".to_string()));
    assert_eq!(client.list_torrents(unreadable_reply(200, "cut")), Err("cut".to_string()));
}

#[test]
fn qb_trackers_are_filtered_to_http_and_udp() {
    let body = r#"[
        {"url":"** [DHT] **","status":2,"tier":-1},
        {"url":"** [PeX] **","status":2},
        {"url":"http://a.example/announce","status":2},
        {"url":"https://b.example/announce","status":4},
        {"url":"udp://c.example:6969","status":-1},
        {"url":"wss://d.example","status":1},
        {"url":"HTTP://upper.example","status":1}
    ]"#;
    assert_eq!(
        trackers_from_reply(text_reply(200, body)),
        Ok(vec![
            tracker("http://a.example/announce", 2),
            tracker("https://b.example/announce", 4),
            tracker("udp://c.example:6969", -1),
        ])
    );
}

#[test]
fn qb_trackers_must_all_be_well_formed() {
    let decode = Err("error decoding response body".to_string());
    assert_eq!(trackers_from_reply(text_reply(200, r#"[{"url":"http://a"}]"#)), decode);
    assert_eq!(trackers_from_reply(text_reply(200, r#"[{"url":"http://a","status":"2"}]"#)), decode);
    assert_eq!(trackers_from_reply(text_reply(200, r#"[{"url":"http://a","status":2.5}]"#)), decode);
    assert_eq!(
        trackers_from_reply(text_reply(200, r#"[{"url":"http://a","status":2147483648}]"#)),
        decode
    );
    assert_eq!(
        trackers_from_reply(text_reply(200, r#"[{"url":"** [DHT] **"},{"url":"http://a","status":1}]"#)),
        decode
    );
    assert_eq!(trackers_from_reply(text_reply(200, r#"{"url":"http://a","status":2}"#)), decode);
    assert_eq!(trackers_from_reply(text_reply(200, "")), decode);
}

#[test]
fn qb_tracker_status_covers_the_range_of_i32() {
    let body = r#"[{"url":"http://a","status":2147483647},{"url":"udp://b","status":-2147483648}]"#;
    assert_eq!(
        trackers_from_reply(text_reply(200, body)),
        Ok(vec![tracker("http://a", 2147483647), tracker("udp://b", -2147483648)])
    );
}

#[test]
fn qb_documents_are_read_by_their_parts() {
    let document = document_from(text_reply(200, r#"[{"hash":"h","name":"n"}]"#)).unwrap();
    assert_eq!(torrents_from(&document), Ok(vec![listed("h", "n")]));
    let document = Json::Array(vec![Json::Object(vec![
        ("url".to_string(), Json::Str("udp://x".to_string())),
        ("status".to_string(), Json::Int(3)),
    ])]);
    assert_eq!(trackers_from(&document), Ok(vec![tracker("udp://x", 3)]));
    assert_eq!(torrents_from(&Json::Null), Err("error decoding response body".to_string()));
}

#[test]
fn qb_listing_asks_once_per_torrent() {
    let client = DownloaderKind::QBittorrent(session());
    let first = client.list_torrents_request();
    assert_eq!(first.url, "http://127.0.0.1:8080/api/v2/torrents/info");
    let body = r#"[{"hash":"h1","name":"one"},{"hash":"h2","name":"two"},{"hash":"h3","name":"three"}]"#;
    let mut listing = client.list_torrents(text_reply(200, body)).unwrap();
    let replies = vec![
        r#"[{"url":"http://a.example/1","status":2}]"#,
        r#"[]"#,
        r#"[{"url":"** [DHT] **","status":0},{"url":"udp://b.example:1","status":3}]"#,
    ];
    let mut asked = Vec::new();
    let mut step = 0;
    while let Some(request) = client.trackers_request(&listing) {
        assert_eq!(request.url, "http://127.0.0.1:8080/api/v2/torrents/trackers");
        asked.push(request.query[0].1.clone());
        listing.accept_reply(text_reply(200, replies[step])).unwrap();
        step += 1;
    }
    assert_eq!(asked, vec!["h1", "h2", "h3"]);
    assert_eq!(
        listing.into_torrents(),
        vec![
            TorrentInfo {
                hash: "h1".to_string(),
                name: "one".to_string(),
                trackers: vec![tracker("http://a.example/1", 2)],
            },
            TorrentInfo { hash: "h2".to_string(), name: "two".to_string(), trackers: Vec::new() },
            TorrentInfo {
                hash: "h3".to_string(),
                name: "three".to_string(),
                trackers: vec![tracker("udp://b.example:1", 3)],
            },
        ]
    );
}

#[test]
fn qb_listing_stops_at_the_first_bad_reply() {
    let mut listing = TorrentListing::start(vec![listed("h1", "one"), listed("h2", "two")]);
    assert_eq!(listing.pending(), Some(&listed("h1", "one")));
    assert_eq!(listing.accept_reply(failed("connection reset")), Err("connection reset".to_string()));
    assert_eq!(listing.pending(), Some(&listed("h1", "one")));
    assert!(listing.into_torrents().is_empty());
}

#[test]
fn qb_listing_of_no_torrents_is_complete_at_once() {
    let client = DownloaderKind::QBittorrent(session());
    let listing = client.list_torrents(text_reply(200, "[]")).unwrap();
    assert_eq!(client.trackers_request(&listing), None);
    assert!(listing.into_torrents().is_empty());
}

#[test]
fn qb_replace_request_names_one_tracker() {
    let request = session().replace_tracker_request("abc", "http://old/a", "http://new/a");
    assert_eq!(request.method, Method::Post);
    assert_eq!(request.url, "http://127.0.0.1:8080/api/v2/torrents/editTracker");
    assert!(request.headers.is_empty());
    assert!(request.query.is_empty());
    assert_eq!(
        request.body,
        Body::Form(vec![
            pair("hash", "abc"),
            pair("origUrl", "http://old/a"),
            pair("newUrl", "http://new/a"),
        ])
    );
}

#[test]
fn qb_replace_succeeds_on_any_status_of_success() {
    let client = session();
    assert_eq!(client.replace_tracker(text_reply(200, "")), Ok(()));
    assert_eq!(client.replace_tracker(text_reply(299, "whatever")), Ok(()));
    assert_eq!(client.replace_tracker(unreadable_reply(204, "cut")), Ok(()));
}

#[test]
fn qb_replace_failure_carries_the_body() {
    let client = session();
    assert_eq!(
        client.replace_tracker(text_reply(409, "newUrl already exists")),
        Err("Edit tracker failed: newUrl already exists".to_string())
    );
    assert_eq!(client.replace_tracker(text_reply(199, "x")), Err("Edit tracker failed: x".to_string()));
    assert_eq!(client.replace_tracker(text_reply(300, "")), Err("Edit tracker failed: ".to_string()));
    assert_eq!(
        client.replace_tracker(unreadable_reply(500, "cut")),
        Err("Edit tracker failed: ".to_string())
    );
    assert_eq!(client.replace_tracker(failed("timed out")), Err("timed out".to_string()));
}

#[test]
fn qb_replace_through_the_dispatch_is_one_step() {
    let client = DownloaderKind::QBittorrent(session());
    let request = client.replace_tracker_request("abc", "http://old/a", "http://new/a");
    assert_eq!(request.url, "http://127.0.0.1:8080/api/v2/torrents/editTracker");
    assert_eq!(
        client.replace_tracker(text_reply(200, ""), "abc", "http://old/a", "http://new/a"),
        Ok(None)
    );
    assert_eq!(
        client.replace_tracker(text_reply(404, "gone"), "abc", "http://old/a", "http://new/a"),
        Err("Edit tracker failed: gone".to_string())
    );
}

#[test]
fn qb_connection_through_the_handshake() {
    let connection = ConnectionConfig {
        downloader_type: "qbittorrent".to_string(),
        host: "10.0.0.2".to_string(),
        port: 8081,
        username: "admin".to_string(),
        password: "adminadmin".to_string(),
        use_https: true,
    };
    let connecting = create_downloader(&connection).unwrap();
    assert!(connecting.client_options().accept_invalid_certs);
    let request = connecting.request();
    assert_eq!(request.url, "https://10.0.0.2:8081/api/v2/auth/login");
    assert_eq!(
        request.body,
        Body::Form(vec![pair("username", "admin"), pair("password", "adminadmin")])
    );
    let client = connecting.complete(&text_reply(200, "Ok.")).unwrap();
    assert_eq!(
        client.test_connection_request().url,
        "https://10.0.0.2:8081/api/v2/app/version"
    );
    assert_eq!(client.test_connection(text_reply(200, "v5.0")), Ok("qBittorrent v5.0".to_string()));

    let connecting = create_downloader(&connection).unwrap();
    assert_eq!(
        connecting.complete(&text_reply(200, "Fails.")).unwrap_err(),
        "Login failed: Fails."
    );
}
