use tracker_relo::config::{AppConfig, Rule};
use tracker_relo::rules::apply_rules;
use tracker_relo::text::u16_to_decimal;

fn rule(old_domain: &str, new_domain: &str, enabled: bool) -> Rule {
    Rule { old_domain: old_domain.to_string(), new_domain: new_domain.to_string(), enabled }
}

#[test]
fn replaces_the_domain_of_a_matching_rule() {
    let rules = vec![rule("tracker.old.com", "tracker.new.com", true)];
    assert_eq!(
        apply_rules("http://tracker.old.com:6969/announce", &rules),
        Some("http://tracker.new.com:6969/announce".to_string())
    );
}

#[test]
fn replaces_every_occurrence() {
    let rules = vec![rule("old", "new", true)];
    assert_eq!(
        apply_rules("http://old.example/old/announce?x=old", &rules),
        Some("http://new.example/new/announce?x=new".to_string())
    );
}

#[test]
fn occurrences_do_not_overlap() {
    let rules = vec![rule("aa", "b", true)];
    assert_eq!(apply_rules("aaaaa", &rules), Some("bba".to_string()));
}

#[test]
fn no_rule_matches_gives_none() {
    let rules = vec![rule("tracker.old.com", "tracker.new.com", true)];
    assert_eq!(apply_rules("http://other.example/announce", &rules), None);
}

#[test]
fn no_rules_gives_none() {
    let rules: Vec<Rule> = Vec::new();
    assert_eq!(apply_rules("http://tracker.old.com/announce", &rules), None);
}

#[test]
fn first_matching_rule_wins() {
    let rules = vec![
        rule("tracker.old.com", "first.example", true),
        rule("tracker.old.com", "second.example", true),
    ];
    assert_eq!(
        apply_rules("http://tracker.old.com/announce", &rules),
        Some("http://first.example/announce".to_string())
    );
}

#[test]
fn later_rule_is_not_applied_to_the_result() {
    let rules = vec![rule("old", "mid", true), rule("mid", "new", true)];
    assert_eq!(apply_rules("http://old/a", &rules), Some("http://mid/a".to_string()));
}

#[test]
fn rules_that_do_not_match_are_passed_over() {
    let rules = vec![
        rule("nowhere.example", "x", true),
        rule("tracker.old.com", "tracker.new.com", true),
    ];
    assert_eq!(
        apply_rules("udp://tracker.old.com:1337", &rules),
        Some("udp://tracker.new.com:1337".to_string())
    );
}

#[test]
fn disabled_rule_never_matches() {
    let rules = vec![rule("tracker.old.com", "tracker.new.com", false)];
    assert_eq!(apply_rules("http://tracker.old.com/announce", &rules), None);
}

#[test]
fn disabled_rule_is_skipped_for_the_next() {
    let rules = vec![
        rule("tracker.old.com", "disabled.example", false),
        rule("tracker.old.com", "enabled.example", true),
    ];
    assert_eq!(
        apply_rules("http://tracker.old.com/announce", &rules),
        Some("http://enabled.example/announce".to_string())
    );
}

#[test]
fn blank_old_domain_never_matches() {
    let rules = vec![rule("", "x", true), rule("   \t", "y", true)];
    assert_eq!(apply_rules("http://tracker.old.com/announce", &rules), None);
}

#[test]
fn domains_are_trimmed() {
    let rules = vec![rule("  tracker.old.com \n", "\ttracker.new.com  ", true)];
    assert_eq!(
        apply_rules("http://tracker.old.com/announce", &rules),
        Some("http://tracker.new.com/announce".to_string())
    );
}

#[test]
fn unicode_white_space_is_trimmed() {
    let rules = vec![rule("\u{3000}old\u{a0}", "\u{2003}new\u{85}", true)];
    assert_eq!(apply_rules("http://old/", &rules), Some("http://new/".to_string()));
}

#[test]
fn the_url_is_matched_as_written() {
    let rules = vec![rule("Tracker.Old.com", "tracker.new.com", true)];
    assert_eq!(apply_rules("http://tracker.old.com/announce", &rules), None);
}

#[test]
fn matching_is_by_substring_of_the_whole_url() {
    let rules = vec![rule("/announce", "/scrape", true)];
    assert_eq!(
        apply_rules("http://tracker.example/announce", &rules),
        Some("http://tracker.example/scrape".to_string())
    );
}

#[test]
fn empty_new_domain_removes_the_old() {
    let rules = vec![rule("old.", "", true)];
    assert_eq!(apply_rules("http://old.example/", &rules), Some("http://example/".to_string()));
}

#[test]
fn default_config_is_the_documented_one() {
    let config = AppConfig::default();
    assert_eq!(config.connection.downloader_type, "qbittorrent");
    assert_eq!(config.connection.host, "127.0.0.1");
    assert_eq!(config.connection.port, 8080);
    assert_eq!(config.connection.username, "admin");
    assert_eq!(config.connection.password, "");
    assert!(!config.connection.use_https);
    assert!(config.rules.is_empty());
}

#[test]
fn numbers_are_written_in_decimal() {
    assert_eq!(u16_to_decimal(0), "0");
    assert_eq!(u16_to_decimal(7), "7");
    assert_eq!(u16_to_decimal(10), "10");
    assert_eq!(u16_to_decimal(8080), "8080");
    assert_eq!(u16_to_decimal(9091), "9091");
    assert_eq!(u16_to_decimal(65535), "65535");
}
