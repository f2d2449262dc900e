use tracker_relo::commands::{
    backend_kind, count_domains, count_matched_torrents, create_downloader, domain_report,
    execute_replace, find_matches, list_trackers, record_outcome, scan_torrents, sort_by_count,
    BackendKind, MatchedTorrent, TrackerEntry,
};
use tracker_relo::config::{ConnectionConfig, Rule};
use tracker_relo::downloader::{ReplaceResult, TorrentInfo, TrackerInfo};

fn rule(old_domain: &str, new_domain: &str) -> Rule {
    Rule { old_domain: old_domain.to_string(), new_domain: new_domain.to_string(), enabled: true }
}

fn torrent(hash: &str, name: &str, urls: &[&str]) -> TorrentInfo {
    TorrentInfo {
        hash: hash.to_string(),
        name: name.to_string(),
        trackers: urls.iter().map(|url| TrackerInfo { url: url.to_string(), status: 2 }).collect(),
    }
}

fn matched(hash: &str, name: &str, old_url: &str, new_url: &str) -> MatchedTorrent {
    MatchedTorrent {
        hash: hash.to_string(),
        name: name.to_string(),
        old_url: old_url.to_string(),
        new_url: new_url.to_string(),
    }
}

fn entry(domain: &str, count: usize) -> TrackerEntry {
    TrackerEntry { domain: domain.to_string(), count }
}

fn connection(downloader_type: &str) -> ConnectionConfig {
    ConnectionConfig {
        downloader_type: downloader_type.to_string(),
        host: "nas.local".to_string(),
        port: 9091,
        username: "user".to_string(),
        password: "pass".to_string(),
        use_https: false,
    }
}

#[test]
fn scan_reports_matches_in_snapshot_order() {
    let torrents = vec![
        torrent("h1", "one", &["http://old.example/a", "http://keep.example/a"]),
        torrent("h2", "two", &["http://keep.example/b"]),
        torrent("h3", "three", &["udp://old.example:1", "http://old.example/c"]),
    ];
    let rules = vec![rule("old.example", "new.example")];
    let result = scan_torrents(&torrents, &rules);
    assert_eq!(result.total_torrents, 3);
    assert_eq!(result.matched_torrents, 2);
    assert_eq!(
        result.matches,
        vec![
            matched("h1", "one", "http://old.example/a", "http://new.example/a"),
            matched("h3", "three", "udp://old.example:1", "udp://new.example:1"),
            matched("h3", "three", "http://old.example/c", "http://new.example/c"),
        ]
    );
}

#[test]
fn torrent_with_three_matching_trackers_counts_once() {
    let torrents = vec![torrent(
        "abc",
        "ubuntu.iso",
        &["http://old.example/1", "http://old.example/2", "udp://old.example:3"],
    )];
    let rules = vec![rule("old.example", "new.example")];
    let result = scan_torrents(&torrents, &rules);
    assert_eq!(result.total_torrents, 1);
    assert_eq!(result.matched_torrents, 1);
    assert_eq!(result.matches.len(), 3);
}

#[test]
fn scan_of_nothing_is_empty() {
    let torrents: Vec<TorrentInfo> = Vec::new();
    let rules = vec![rule("old.example", "new.example")];
    let result = scan_torrents(&torrents, &rules);
    assert_eq!(result.total_torrents, 0);
    assert_eq!(result.matched_torrents, 0);
    assert!(result.matches.is_empty());
}

#[test]
fn scan_without_matches_counts_the_torrents() {
    let torrents = vec![torrent("h1", "one", &["http://keep.example/a"]), torrent("h2", "two", &[])];
    let rules = vec![rule("old.example", "new.example")];
    let result = scan_torrents(&torrents, &rules);
    assert_eq!(result.total_torrents, 2);
    assert_eq!(result.matched_torrents, 0);
    assert!(result.matches.is_empty());
}

#[test]
fn scanning_twice_gives_the_same_result() {
    let torrents = vec![
        torrent("h1", "one", &["http://old.example/a", "http://old.example/b"]),
        torrent("h2", "two", &["http://old.example/c"]),
    ];
    let rules = vec![rule("old.example", "new.example")];
    let first = scan_torrents(&torrents, &rules);
    let second = scan_torrents(&torrents, &rules);
    assert_eq!(first, second);
}

#[test]
fn matched_torrents_are_counted_by_hash() {
    let matches = vec![
        matched("h1", "a", "u1", "v1"),
        matched("h2", "b", "u2", "v2"),
        matched("h1", "a", "u3", "v3"),
        matched("h3", "c", "u4", "v4"),
        matched("h2", "b", "u5", "v5"),
    ];
    assert_eq!(count_matched_torrents(&matches), 3);
    assert_eq!(count_matched_torrents(&[]), 0);
}

#[test]
fn find_matches_uses_the_first_matching_rule() {
    let torrents = vec![torrent("h", "n", &["http://old.example/a"])];
    let rules = vec![rule("old.example", "first.example"), rule("old", "second")];
    assert_eq!(
        find_matches(&torrents, &rules),
        vec![matched("h", "n", "http://old.example/a", "http://first.example/a")]
    );
}

#[test]
fn a_failed_replacement_does_not_stop_the_run() {
    let torrents = vec![torrent(
        "abc",
        "ubuntu.iso",
        &["http://old.example/1", "http://old.example/2", "http://old.example/3"],
    )];
    let rules = vec![rule("old.example", "new.example")];
    let mut run = execute_replace(&torrents, &rules);
    let mut attempted = Vec::new();
    while let Some(attempt) = run.pending() {
        attempted.push(attempt.old_url.clone());
        let outcome = if attempt.old_url == "http://old.example/2" {
            Err("tracker is read-only".to_string())
        } else {
            Ok(())
        };
        run.record(outcome);
    }
    assert_eq!(
        attempted,
        vec!["http://old.example/1", "http://old.example/2", "http://old.example/3"]
    );
    let results = run.into_results();
    assert_eq!(
        results,
        vec![
            ReplaceResult {
                torrent_name: "ubuntu.iso".to_string(),
                old_url: "http://old.example/1".to_string(),
                new_url: "http://new.example/1".to_string(),
                success: true,
                error: None,
            },
            ReplaceResult {
                torrent_name: "ubuntu.iso".to_string(),
                old_url: "http://old.example/2".to_string(),
                new_url: "http://new.example/2".to_string(),
                success: false,
                error: Some("tracker is read-only".to_string()),
            },
            ReplaceResult {
                torrent_name: "ubuntu.iso".to_string(),
                old_url: "http://old.example/3".to_string(),
                new_url: "http://new.example/3".to_string(),
                success: true,
                error: None,
            },
        ]
    );
}

#[test]
fn a_run_attempts_torrent_by_torrent() {
    let torrents = vec![
        torrent("h1", "one", &["http://keep.example/x", "http://old.example/a"]),
        torrent("h2", "two", &["http://old.example/b"]),
    ];
    let rules = vec![rule("old.example", "new.example")];
    let mut run = execute_replace(&torrents, &rules);
    assert_eq!(
        run.pending(),
        Some(&matched("h1", "one", "http://old.example/a", "http://new.example/a"))
    );
    run.record(Ok(()));
    assert_eq!(
        run.pending(),
        Some(&matched("h2", "two", "http://old.example/b", "http://new.example/b"))
    );
    run.record(Ok(()));
    assert_eq!(run.pending(), None);
    let results = run.into_results();
    assert_eq!(results.len(), 2);
    assert_eq!(results[0].torrent_name, "one");
    assert_eq!(results[1].torrent_name, "two");
}

#[test]
fn a_run_without_matches_has_nothing_to_do() {
    let torrents = vec![torrent("h1", "one", &["http://keep.example/x"])];
    let rules = vec![rule("old.example", "new.example")];
    let run = execute_replace(&torrents, &rules);
    assert_eq!(run.pending(), None);
    assert!(run.into_results().is_empty());
}

#[test]
fn an_outcome_is_recorded_with_its_match() {
    let attempt = matched("h", "name", "old", "new");
    assert_eq!(
        record_outcome(&attempt, Ok(())),
        ReplaceResult {
            torrent_name: "name".to_string(),
            old_url: "old".to_string(),
            new_url: "new".to_string(),
            success: true,
            error: None,
        }
    );
    assert_eq!(
        record_outcome(&attempt, Err("no".to_string())),
        ReplaceResult {
            torrent_name: "name".to_string(),
            old_url: "old".to_string(),
            new_url: "new".to_string(),
            success: false,
            error: Some("no".to_string()),
        }
    );
}

#[test]
fn tracker_domains_are_counted_per_torrent() {
    let torrents = vec![
        torrent("h1", "one", &["http://a.example/announce", "udp://a.example:6969", "http://b.example/x"]),
        torrent("h2", "two", &["https://a.example:8443/announce"]),
        torrent("h3", "three", &["http://c.example/announce", "http://a.example/other"]),
    ];
    let report = list_trackers(&torrents);
    assert_eq!(report.len(), 3);
    assert_eq!(report[0], entry("a.example", 3));
    let mut rest = vec![report[1].clone(), report[2].clone()];
    rest.sort_by(|x, y| x.domain.cmp(&y.domain));
    assert_eq!(rest, vec![entry("b.example", 1), entry("c.example", 1)]);
}

#[test]
fn tracker_domains_come_most_used_first() {
    let torrents = vec![
        torrent("h1", "one", &["http://rare.example/a"]),
        torrent("h2", "two", &["http://common.example/a", "http://mid.example/a"]),
        torrent("h3", "three", &["http://common.example/b", "http://mid.example/b"]),
        torrent("h4", "four", &["http://common.example/c"]),
    ];
    assert_eq!(
        list_trackers(&torrents),
        vec![entry("common.example", 3), entry("mid.example", 2), entry("rare.example", 1)]
    );
}

#[test]
fn urls_without_a_host_are_not_counted() {
    let torrents = vec![torrent(
        "h1",
        "one",
        &["not a url", "** [DHT] **", "mailto:someone@example.com", "http://a.example/x"],
    )];
    assert_eq!(list_trackers(&torrents), vec![entry("a.example", 1)]);
}

#[test]
fn the_host_is_read_as_the_url_crate_reads_it() {
    let torrents = vec![torrent("h1", "one", &["HTTP://User:Pw@Tracker.Example.COM:80/announce"])];
    assert_eq!(list_trackers(&torrents), vec![entry("tracker.example.com", 1)]);
}

#[test]
fn no_torrents_no_domains() {
    let torrents: Vec<TorrentInfo> = Vec::new();
    assert!(list_trackers(&torrents).is_empty());
}

#[test]
fn domains_are_counted_from_host_lists() {
    let hosts = vec![
        vec!["x".to_string(), "y".to_string(), "x".to_string()],
        vec![],
        vec!["y".to_string()],
        vec!["z".to_string(), "y".to_string()],
    ];
    let mut counts = count_domains(&hosts);
    counts.sort_by(|a, b| a.domain.cmp(&b.domain));
    assert_eq!(counts, vec![entry("x", 1), entry("y", 3), entry("z", 1)]);
    let report = domain_report(&hosts);
    assert_eq!(report.len(), 3);
    assert_eq!(report[0], entry("y", 3));
    let mut ties = vec![report[1].clone(), report[2].clone()];
    ties.sort_by(|a, b| a.domain.cmp(&b.domain));
    assert_eq!(ties, vec![entry("x", 1), entry("z", 1)]);
}

#[test]
fn sorting_by_count_puts_the_highest_first() {
    let entries = vec![entry("a", 1), entry("b", 5), entry("c", 1), entry("d", 3), entry("e", 5)];
    let sorted = sort_by_count(entries);
    let counts: Vec<usize> = sorted.iter().map(|e| e.count).collect();
    assert_eq!(counts, vec![5, 5, 3, 1, 1]);
    let mut domains: Vec<String> = sorted.iter().map(|e| e.domain.clone()).collect();
    domains.sort();
    assert_eq!(domains, vec!["a", "b", "c", "d", "e"]);
    assert_eq!(sorted[2], entry("d", 3));
    assert_eq!(sort_by_count(vec![entry("x", 2), entry("y", 7)]), vec![entry("y", 7), entry("x", 2)]);
    assert!(sort_by_count(Vec::new()).is_empty());
}

#[test]
fn the_backend_is_chosen_by_name() {
    assert_eq!(backend_kind("qbittorrent"), Ok(BackendKind::QBittorrent));
    assert_eq!(backend_kind("transmission"), Ok(BackendKind::Transmission));
}

#[test]
fn an_unknown_backend_is_refused_before_any_request() {
    assert_eq!(backend_kind("deluge"), Err("Unknown downloader type: deluge".to_string()));
    assert_eq!(backend_kind("QBittorrent"), Err("Unknown downloader type: QBittorrent".to_string()));
    assert_eq!(backend_kind(""), Err("Unknown downloader type: ".to_string()));
    assert_eq!(
        create_downloader(&connection("rtorrent")),
        Err("Unknown downloader type: rtorrent".to_string())
    );
}

#[test]
fn a_connection_starts_with_the_clients_first_request() {
    let connecting = create_downloader(&connection("transmission")).unwrap();
    assert_eq!(connecting.kind, BackendKind::Transmission);
    assert_eq!(connecting.request().url, "http://nas.local:9091/transmission/rpc");
    assert!(!connecting.client_options().cookie_store);

    let connecting = create_downloader(&connection("qbittorrent")).unwrap();
    assert_eq!(connecting.kind, BackendKind::QBittorrent);
    assert_eq!(connecting.request().url, "http://nas.local:9091/api/v2/auth/login");
    assert!(connecting.client_options().cookie_store);
}
