//! The configuration that a caller hands to the pipelines: where the torrent client
//! is reached, and the ordered rules.

use vstd::prelude::*;
use vstd::string::StringExecFns;

verus! {

/// A substitution: where `old_domain` stands in a tracker URL, `new_domain` shall stand.
#[derive(Debug, Clone, PartialEq, Eq)]
pub struct Rule {
    pub old_domain: String,
    pub new_domain: String,
    pub enabled: bool,
}

/// What a [`Rule`] holds.
pub struct RuleView {
    pub old_domain: Seq<char>,
    pub new_domain: Seq<char>,
    pub enabled: bool,
}

impl View for Rule {
    type V = RuleView;

    open spec fn view(&self) -> RuleView {
        RuleView {
            old_domain: self.old_domain@,
            new_domain: self.new_domain@,
            enabled: self.enabled,
        }
    }
}

impl DeepView for Rule {
    type V = RuleView;

    open spec fn deep_view(&self) -> RuleView {
        self@
    }
}

/// Where and how a torrent client is reached.
#[derive(Debug, Clone, PartialEq, Eq)]
pub struct ConnectionConfig {
    /// `"qbittorrent"` or `"transmission"`.
    pub downloader_type: String,
    pub host: String,
    pub port: u16,
    pub username: String,
    pub password: String,
    pub use_https: bool,
}

/// What a [`ConnectionConfig`] holds.
pub struct ConnectionConfigView {
    pub downloader_type: Seq<char>,
    pub host: Seq<char>,
    pub port: u16,
    pub username: Seq<char>,
    pub password: Seq<char>,
    pub use_https: bool,
}

impl View for ConnectionConfig {
    type V = ConnectionConfigView;

    open spec fn view(&self) -> ConnectionConfigView {
        ConnectionConfigView {
            downloader_type: self.downloader_type@,
            host: self.host@,
            port: self.port,
            username: self.username@,
            password: self.password@,
            use_https: self.use_https,
        }
    }
}

/// A connection and the rules to apply through it, in the caller's order.
#[derive(Debug, Clone, PartialEq, Eq)]
pub struct AppConfig {
    pub connection: ConnectionConfig,
    pub rules: Vec<Rule>,
}

/// What an [`AppConfig`] holds.
pub struct AppConfigView {
    pub connection: ConnectionConfigView,
    pub rules: Seq<RuleView>,
}

impl View for AppConfig {
    type V = AppConfigView;

    open spec fn view(&self) -> AppConfigView {
        AppConfigView { connection: self.connection@, rules: self.rules.deep_view() }
    }
}

/// The configuration that stands in when none was stored.
pub open spec fn default_config() -> AppConfigView {
    AppConfigView {
        connection: ConnectionConfigView {
            downloader_type: "qbittorrent"@,
            host: "127.0.0.1"@,
            port: 8080,
            username: "admin"@,
            password: Seq::empty(),
            use_https: false,
        },
        rules: Seq::empty(),
    }
}

impl Default for AppConfig {
    fn default() -> (r: Self)
        ensures
            r@ == default_config(),
    {
        let r = AppConfig {
            connection: ConnectionConfig {
                downloader_type: String::from_str("qbittorrent"),
                host: String::from_str("127.0.0.1"),
                port: 8080,
                username: String::from_str("admin"),
                password: String::new(),
                use_https: false,
            },
            rules: Vec::new(),
        };
        assert(r.rules.deep_view() =~= Seq::empty());
        r
    }
}

} // verus!
