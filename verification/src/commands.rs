//! The pipelines over a snapshot: the preview of what the rules would change, the run
//! that changes it, and the report of tracker domains.

use vstd::prelude::*;

use crate::config::{ConnectionConfig, ConnectionConfigView, Rule, RuleView};
use crate::downloader::qbittorrent::{login_outcome, login_request, QBittorrent, QBittorrentView};
use crate::downloader::transmission::{session_token, Transmission, TransmissionView};
use crate::downloader::{
    DownloaderKind, DownloaderKindView, ReplaceResult, ReplaceResultView, TorrentInfo,
    TorrentInfoView, TrackerInfo, TrackerInfoView,
};
use crate::outcome::result_view;
use crate::rules::{apply_rules, rewrite};
use crate::text::{concat2, str_eq};
use crate::wire::{
    client_options_for, ClientOptions, HttpRequest, HttpRequestView, Reply, ReplyView,
};

verus! {

/// The two clients.
#[derive(Clone, Copy, PartialEq, Eq, Structural, Debug)]
pub enum BackendKind {
    QBittorrent,
    Transmission,
}

impl DeepView for BackendKind {
    type V = BackendKind;

    open spec fn deep_view(&self) -> BackendKind {
        *self
    }
}

/// The client that a configuration names: `qbittorrent` or `transmission`, written
/// so. Any other name is refused, and the refusal says which name it was.
pub open spec fn backend_kind_of(downloader_type: Seq<char>) -> Result<BackendKind, Seq<char>> {
    if downloader_type == "qbittorrent"@ {
        Ok(BackendKind::QBittorrent)
    } else if downloader_type == "transmission"@ {
        Ok(BackendKind::Transmission)
    } else {
        Err("Unknown downloader type: "@ + downloader_type)
    }
}

/// The client that a configuration names.
pub fn backend_kind(downloader_type: &str) -> (result: Result<BackendKind, String>)
    ensures
        result_view(result) == backend_kind_of(downloader_type@),
{
    if str_eq(downloader_type, "qbittorrent") {
        Ok(BackendKind::QBittorrent)
    } else if str_eq(downloader_type, "transmission") {
        Ok(BackendKind::Transmission)
    } else {
        Err(concat2("Unknown downloader type: ", downloader_type))
    }
}

/// A connection that is being opened: the client is chosen, and the reply to the
/// first request is awaited.
#[derive(Debug, Clone, PartialEq, Eq)]
pub struct Connecting {
    pub kind: BackendKind,
    pub host: String,
    pub port: u16,
    pub username: String,
    pub password: String,
    pub use_https: bool,
}

/// What a [`Connecting`] holds.
pub struct ConnectingView {
    pub kind: BackendKind,
    pub host: Seq<char>,
    pub port: u16,
    pub username: Seq<char>,
    pub password: Seq<char>,
    pub use_https: bool,
}

impl View for Connecting {
    type V = ConnectingView;

    open spec fn view(&self) -> ConnectingView {
        ConnectingView {
            kind: self.kind,
            host: self.host@,
            port: self.port,
            username: self.username@,
            password: self.password@,
            use_https: self.use_https,
        }
    }
}

impl DeepView for Connecting {
    type V = ConnectingView;

    open spec fn deep_view(&self) -> ConnectingView {
        self@
    }
}

impl ConnectingView {
    /// How the connection is to be set up: only qBittorrent needs the cookie store.
    pub open spec fn client_options(self) -> ClientOptions {
        client_options_for(self.kind == BackendKind::QBittorrent, self.use_https)
    }

    /// The Transmission session before the daemon has answered.
    pub open spec fn fresh_session(self) -> TransmissionView {
        TransmissionView::fresh(self.host, self.port, self.username, self.password, self.use_https)
    }

    /// The first request: the login with qBittorrent, the call for the session with
    /// Transmission.
    pub open spec fn request(self) -> HttpRequestView {
        match self.kind {
            BackendKind::QBittorrent => login_request(
                self.host,
                self.port,
                self.username,
                self.password,
                self.use_https,
            ),
            BackendKind::Transmission => self.fresh_session().session_request(),
        }
    }

    /// The session that the reply to the first request opens, or why it opens none.
    pub open spec fn complete(self, reply: ReplyView) -> Result<DownloaderKindView, Seq<char>> {
        match self.kind {
            BackendKind::QBittorrent => match login_outcome(reply) {
                Ok(_) => Ok(
                    DownloaderKindView::QBittorrent(
                        QBittorrentView::at(self.host, self.port, self.use_https),
                    ),
                ),
                Err(message) => Err(message),
            },
            BackendKind::Transmission => match session_token(reply) {
                Ok(_) => Ok(
                    DownloaderKindView::Transmission(self.fresh_session().bootstrapped(reply)),
                ),
                Err(message) => Err(message),
            },
        }
    }
}

/// The connection that a configuration asks for, before anything is sent.
pub open spec fn connecting_of(connection: ConnectionConfigView) -> Result<ConnectingView, Seq<char>> {
    match backend_kind_of(connection.downloader_type) {
        Ok(kind) => Ok(
            ConnectingView {
                kind,
                host: connection.host,
                port: connection.port,
                username: connection.username,
                password: connection.password,
                use_https: connection.use_https,
            },
        ),
        Err(message) => Err(message),
    }
}

/// Chooses the client that the configuration names. A name that is neither client's
/// is refused here, before any request exists.
pub fn create_downloader(connection: &ConnectionConfig) -> (result: Result<Connecting, String>)
    ensures
        result_view(result) == connecting_of(connection@),
{
    match backend_kind(connection.downloader_type.as_str()) {
        Ok(kind) => Ok(
            Connecting {
                kind,
                host: connection.host.clone(),
                port: connection.port,
                username: connection.username.clone(),
                password: connection.password.clone(),
                use_https: connection.use_https,
            },
        ),
        Err(message) => Err(message),
    }
}

impl Connecting {
    /// How the connection is to be set up. With HTTPS the certificate is
    /// deliberately not checked.
    pub fn client_options(&self) -> (options: ClientOptions)
        ensures
            options == self@.client_options(),
    {
        match self.kind {
            BackendKind::QBittorrent => QBittorrent::client_options(self.use_https),
            BackendKind::Transmission => Transmission::client_options(self.use_https),
        }
    }

    /// The first request.
    pub fn request(&self) -> (request: HttpRequest)
        ensures
            request@ == self@.request(),
    {
        match self.kind {
            BackendKind::QBittorrent => QBittorrent::login_request(
                self.host.as_str(),
                self.port,
                self.username.as_str(),
                self.password.as_str(),
                self.use_https,
            ),
            BackendKind::Transmission => Transmission::new(
                self.host.as_str(),
                self.port,
                self.username.as_str(),
                self.password.as_str(),
                self.use_https,
            ).session_request(),
        }
    }

    /// The session that the reply to the first request opens.
    pub fn complete(self, reply: &Reply) -> (result: Result<DownloaderKind, String>)
        ensures
            result_view(result) == self@.complete(reply@),
    {
        match self.kind {
            BackendKind::QBittorrent => match QBittorrent::new(
                self.host.as_str(),
                self.port,
                self.use_https,
                reply,
            ) {
                Ok(client) => Ok(DownloaderKind::QBittorrent(client)),
                Err(message) => Err(message),
            },
            BackendKind::Transmission => {
                let mut client = Transmission::new(
                    self.host.as_str(),
                    self.port,
                    self.username.as_str(),
                    self.password.as_str(),
                    self.use_https,
                );
                match client.refresh_session_id(reply) {
                    Ok(_) => Ok(DownloaderKind::Transmission(client)),
                    Err(message) => Err(message),
                }
            },
        }
    }
}

/// One tracker URL that a rule rewrites.
#[derive(Debug, Clone, PartialEq, Eq)]
pub struct MatchedTorrent {
    pub hash: String,
    pub name: String,
    pub old_url: String,
    pub new_url: String,
}

/// What a [`MatchedTorrent`] holds.
pub struct MatchedTorrentView {
    pub hash: Seq<char>,
    pub name: Seq<char>,
    pub old_url: Seq<char>,
    pub new_url: Seq<char>,
}

impl View for MatchedTorrent {
    type V = MatchedTorrentView;

    open spec fn view(&self) -> MatchedTorrentView {
        MatchedTorrentView {
            hash: self.hash@,
            name: self.name@,
            old_url: self.old_url@,
            new_url: self.new_url@,
        }
    }
}

impl DeepView for MatchedTorrent {
    type V = MatchedTorrentView;

    open spec fn deep_view(&self) -> MatchedTorrentView {
        self@
    }
}

/// The preview of a run.
#[derive(Debug, Clone, PartialEq, Eq)]
pub struct ScanResult {
    pub total_torrents: usize,
    /// How many different torrent hashes stand in `matches`.
    pub matched_torrents: usize,
    pub matches: Vec<MatchedTorrent>,
}

/// What a [`ScanResult`] holds.
pub struct ScanResultView {
    pub total_torrents: nat,
    pub matched_torrents: nat,
    pub matches: Seq<MatchedTorrentView>,
}

impl View for ScanResult {
    type V = ScanResultView;

    open spec fn view(&self) -> ScanResultView {
        ScanResultView {
            total_torrents: self.total_torrents as nat,
            matched_torrents: self.matched_torrents as nat,
            matches: self.matches.deep_view(),
        }
    }
}

/// What the rules make of one tracker of a torrent: one match, or none.
pub open spec fn tracker_match(
    torrent: TorrentInfoView,
    tracker: TrackerInfoView,
    rules: Seq<RuleView>,
) -> Seq<MatchedTorrentView> {
    match rewrite(tracker.url, rules) {
        Some(new_url) => seq![
            MatchedTorrentView {
                hash: torrent.hash,
                name: torrent.name,
                old_url: tracker.url,
                new_url,
            },
        ],
        None => Seq::empty(),
    }
}

/// The matches among the first `upto` trackers of a torrent, in the trackers' order.
pub open spec fn torrent_matches(
    torrent: TorrentInfoView,
    rules: Seq<RuleView>,
    upto: int,
) -> Seq<MatchedTorrentView>
    decreases upto,
{
    if upto <= 0 {
        Seq::empty()
    } else {
        torrent_matches(torrent, rules, upto - 1) + tracker_match(
            torrent,
            torrent.trackers[upto - 1],
            rules,
        )
    }
}

/// The matches among the first `upto` torrents: torrent by torrent, and within a
/// torrent tracker by tracker.
pub open spec fn matches_upto(
    torrents: Seq<TorrentInfoView>,
    rules: Seq<RuleView>,
    upto: int,
) -> Seq<MatchedTorrentView>
    decreases upto,
{
    if upto <= 0 {
        Seq::empty()
    } else {
        matches_upto(torrents, rules, upto - 1) + torrent_matches(
            torrents[upto - 1],
            rules,
            torrents[upto - 1].trackers.len() as int,
        )
    }
}

/// Every match of a snapshot, in the snapshot's order.
pub open spec fn all_matches(
    torrents: Seq<TorrentInfoView>,
    rules: Seq<RuleView>,
) -> Seq<MatchedTorrentView> {
    matches_upto(torrents, rules, torrents.len() as int)
}

/// The hashes of the matches, one for each match.
pub open spec fn match_hashes(matches: Seq<MatchedTorrentView>) -> Seq<Seq<char>> {
    Seq::new(matches.len(), |i: int| matches[i].hash)
}

/// How many different torrents the matches belong to.
pub open spec fn matched_count(matches: Seq<MatchedTorrentView>) -> nat {
    match_hashes(matches).to_set().len()
}

/// The preview for a snapshot.
pub open spec fn scan_result(torrents: Seq<TorrentInfoView>, rules: Seq<RuleView>) -> ScanResultView {
    ScanResultView {
        total_torrents: torrents.len(),
        matched_torrents: matched_count(all_matches(torrents, rules)),
        matches: all_matches(torrents, rules),
    }
}

/// Collects the matches of a snapshot.
pub fn find_matches(torrents: &[TorrentInfo], rules: &[Rule]) -> (matches: Vec<MatchedTorrent>)
    ensures
        matches.deep_view() == all_matches(torrents.deep_view(), rules.deep_view()),
{
    let ghost ts = torrents.deep_view();
    let ghost rs = rules.deep_view();
    let mut matches: Vec<MatchedTorrent> = Vec::new();
    let mut i: usize = 0;
    while i < torrents.len()
        invariant
            i <= torrents.len(),
            ts == torrents.deep_view(),
            rs == rules.deep_view(),
            matches.deep_view() == matches_upto(ts, rs, i as int),
        decreases torrents.len() - i,
    {
        let torrent = &torrents[i];
        let ghost t = ts[i as int];
        let mut k: usize = 0;
        while k < torrent.trackers.len()
            invariant
                k <= torrent.trackers.len(),
                rs == rules.deep_view(),
                t == torrent@,
                matches.deep_view() == matches_upto(ts, rs, i as int) + torrent_matches(
                    t,
                    rs,
                    k as int,
                ),
            decreases torrent.trackers.len() - k,
        {
            let tracker = &torrent.trackers[k];
            let ghost before = matches.deep_view();
            if let Some(new_url) = apply_rules(tracker.url.as_str(), rules) {
                let found = MatchedTorrent {
                    hash: torrent.hash.clone(),
                    name: torrent.name.clone(),
                    old_url: tracker.url.clone(),
                    new_url,
                };
                matches.push(found);
                assert(matches.deep_view() =~= before + tracker_match(t, tracker@, rs));
            }
            k = k + 1;
        }
        i = i + 1;
    }
    matches
}

/// Counts the different torrent hashes among the matches.
pub fn count_matched_torrents(matches: &[MatchedTorrent]) -> (count: usize)
    ensures
        count == matched_count(matches.deep_view()),
{
    let ghost hashes = match_hashes(matches.deep_view());
    let mut count: usize = 0;
    let mut i: usize = 0;
    assert(hashes.take(0).to_set() =~= Set::empty());
    while i < matches.len()
        invariant
            i <= matches.len(),
            hashes == match_hashes(matches.deep_view()),
            hashes.len() == matches.len(),
            count <= i,
            count == hashes.take(i as int).to_set().len(),
        decreases matches.len() - i,
    {
        let mut seen = false;
        let mut j: usize = 0;
        while j < i
            invariant
                j <= i,
                i < matches.len(),
                hashes == match_hashes(matches.deep_view()),
                seen == exists|k: int| 0 <= k < j && hashes[k] == hashes[i as int],
            decreases i - j,
        {
            assert(hashes[j as int] == matches[j as int].hash@);
            if matches[j].hash == matches[i].hash {
                seen = true;
            }
            j = j + 1;
        }
        proof {
            let before = hashes.take(i as int);
            let h = hashes[i as int];
            assert(hashes.take(i + 1) =~= before.push(h));
            before.lemma_push_to_set_commute(h);
            if seen {
                let k = choose|k: int| 0 <= k < i && hashes[k] == h;
                assert(before[k] == h);
            }
        }
        if !seen {
            count = count + 1;
        }
        i = i + 1;
    }
    assert(hashes.take(i as int) =~= hashes);
    count
}

/// Previews what the rules would change in a snapshot. Nothing is sent anywhere.
pub fn scan_torrents(torrents: &[TorrentInfo], rules: &[Rule]) -> (result: ScanResult)
    ensures
        result@ == scan_result(torrents.deep_view(), rules.deep_view()),
{
    let matches = find_matches(torrents, rules);
    let matched_torrents = count_matched_torrents(matches.as_slice());
    ScanResult { total_torrents: torrents.len(), matched_torrents, matches }
}

/// Two previews of one snapshot under the same rules are the same preview: a scan
/// changes nothing that a second scan could see.
pub proof fn lemma_scan_is_repeatable(
    torrents: Seq<TorrentInfoView>,
    rules: Seq<RuleView>,
    first: ScanResultView,
    second: ScanResultView,
)
    requires
        first == scan_result(torrents, rules),
        second == scan_result(torrents, rules),
    ensures
        first == second,
        first.matches == second.matches,
        first.matched_torrents == second.matched_torrents,
{
}

/// How many of the first `upto` trackers of a torrent some rule rewrites.
pub open spec fn matching_trackers(torrent: TorrentInfoView, rules: Seq<RuleView>, upto: int) -> nat
    decreases upto,
{
    if upto <= 0 {
        0
    } else if rewrite(torrent.trackers[upto - 1].url, rules) is Some {
        matching_trackers(torrent, rules, upto - 1) + 1
    } else {
        matching_trackers(torrent, rules, upto - 1)
    }
}

/// A torrent has one match for each of its trackers that a rule rewrites, and each of
/// them carries the torrent's hash and name.
pub proof fn lemma_torrent_matches(torrent: TorrentInfoView, rules: Seq<RuleView>, upto: int)
    ensures
        torrent_matches(torrent, rules, upto).len() == matching_trackers(torrent, rules, upto),
        forall|i: int|
            0 <= i < torrent_matches(torrent, rules, upto).len() ==> {
                &&& (#[trigger] torrent_matches(torrent, rules, upto)[i]).hash == torrent.hash
                &&& torrent_matches(torrent, rules, upto)[i].name == torrent.name
            },
    decreases upto,
{
    if upto > 0 {
        lemma_torrent_matches(torrent, rules, upto - 1);
    }
}

/// A snapshot of one torrent: there are as many matches as the torrent has matching
/// trackers, and however many they are, the torrent is counted once.
pub proof fn lemma_one_torrent_counts_once(torrent: TorrentInfoView, rules: Seq<RuleView>)
    ensures
        scan_result(seq![torrent], rules).total_torrents == 1,
        scan_result(seq![torrent], rules).matches.len() == matching_trackers(
            torrent,
            rules,
            torrent.trackers.len() as int,
        ),
        scan_result(seq![torrent], rules).matched_torrents == (if matching_trackers(
            torrent,
            rules,
            torrent.trackers.len() as int,
        ) > 0 {
            1nat
        } else {
            0nat
        }),
{
    let torrents = seq![torrent];
    let n = torrent.trackers.len() as int;
    let ms = all_matches(torrents, rules);
    assert(matches_upto(torrents, rules, 0) =~= Seq::empty());
    lemma_torrent_matches(torrent, rules, n);
    let hashes = match_hashes(ms);
    if ms.len() > 0 {
        assert(hashes[0] == torrent.hash);
        assert(hashes.to_set() =~= set![torrent.hash]);
    } else {
        assert(hashes.to_set() =~= Set::empty());
    }
}

/// Never more torrents are counted as matched than there are matches.
pub proof fn lemma_matched_count_at_most_matches(matches: Seq<MatchedTorrentView>)
    ensures
        matched_count(matches) <= matches.len(),
{
    match_hashes(matches).lemma_cardinality_of_set();
}

/// Every match among the first `upto` torrents carries the hash of one of them.
pub proof fn lemma_matches_carry_torrent_hashes(
    torrents: Seq<TorrentInfoView>,
    rules: Seq<RuleView>,
    upto: int,
)
    requires
        0 <= upto <= torrents.len(),
    ensures
        forall|m: int|
            0 <= m < matches_upto(torrents, rules, upto).len() ==> exists|t: int|
                0 <= t < upto && (#[trigger] torrents[t]).hash == (#[trigger] matches_upto(
                    torrents,
                    rules,
                    upto,
                )[m]).hash,
    decreases upto,
{
    if upto > 0 {
        lemma_matches_carry_torrent_hashes(torrents, rules, upto - 1);
        let torrent = torrents[upto - 1];
        lemma_torrent_matches(torrent, rules, torrent.trackers.len() as int);
        assert(matches_upto(torrents, rules, upto) == matches_upto(torrents, rules, upto - 1)
            + torrent_matches(torrent, rules, torrent.trackers.len() as int));
    }
}

/// Never more torrents are counted as matched than the snapshot holds.
pub proof fn lemma_matched_count_at_most_torrents(
    torrents: Seq<TorrentInfoView>,
    rules: Seq<RuleView>,
)
    ensures
        scan_result(torrents, rules).matched_torrents <= scan_result(torrents, rules).total_torrents,
{
    let matches = all_matches(torrents, rules);
    let matched = match_hashes(matches).to_set();
    let hashes = Seq::new(torrents.len(), |t: int| torrents[t].hash);
    lemma_matches_carry_torrent_hashes(torrents, rules, torrents.len() as int);
    assert(matched.subset_of(hashes.to_set())) by {
        assert forall|hash: Seq<char>| matched.contains(hash) implies hashes.to_set().contains(
            hash,
        ) by {
            let m = choose|m: int| 0 <= m < match_hashes(matches).len() && match_hashes(matches)[m]
                == hash;
            let t = choose|t: int|
                0 <= t < torrents.len() && (#[trigger] torrents[t]).hash == matches[m].hash;
            assert(hashes[t] == hash);
        }
    }
    vstd::set_lib::lemma_len_subset(matched, hashes.to_set());
    hashes.lemma_cardinality_of_set();
}

/// The record of one attempt: the match it was made for, and how the client answered.
pub open spec fn outcome_record(
    attempt: MatchedTorrentView,
    outcome: Result<(), Seq<char>>,
) -> ReplaceResultView {
    ReplaceResultView {
        torrent_name: attempt.name,
        old_url: attempt.old_url,
        new_url: attempt.new_url,
        success: outcome is Ok,
        error: match outcome {
            Ok(_) => None,
            Err(message) => Some(message),
        },
    }
}

/// What the answer to one attempt holds.
pub open spec fn outcome_view(outcome: Result<(), String>) -> Result<(), Seq<char>> {
    match outcome {
        Ok(_) => Ok(()),
        Err(message) => Err(message@),
    }
}

/// Puts down how one attempt ended.
pub fn record_outcome(attempt: &MatchedTorrent, outcome: Result<(), String>) -> (record:
    ReplaceResult)
    ensures
        record@ == outcome_record(attempt@, outcome_view(outcome)),
{
    match outcome {
        Ok(_) => ReplaceResult {
            torrent_name: attempt.name.clone(),
            old_url: attempt.old_url.clone(),
            new_url: attempt.new_url.clone(),
            success: true,
            error: None,
        },
        Err(message) => ReplaceResult {
            torrent_name: attempt.name.clone(),
            old_url: attempt.old_url.clone(),
            new_url: attempt.new_url.clone(),
            success: false,
            error: Some(message),
        },
    }
}

/// A run that applies the rules to a snapshot: the replacements it is to attempt, in
/// the snapshot's order, and the records of those attempted so far.
#[derive(Debug)]
pub struct ReplaceRun {
    plan: Vec<MatchedTorrent>,
    results: Vec<ReplaceResult>,
}

/// What a [`ReplaceRun`] holds.
pub struct ReplaceRunView {
    pub plan: Seq<MatchedTorrentView>,
    pub results: Seq<ReplaceResultView>,
}

impl ReplaceRunView {
    /// The run before its first attempt.
    pub open spec fn start(plan: Seq<MatchedTorrentView>) -> ReplaceRunView {
        ReplaceRunView { plan, results: Seq::empty() }
    }

    /// The replacement to attempt next; none when every one has its record.
    pub open spec fn pending(self) -> Option<MatchedTorrentView> {
        if self.results.len() < self.plan.len() {
            Some(self.plan[self.results.len() as int])
        } else {
            None
        }
    }

    /// The run after the pending attempt ended with `outcome`.
    pub open spec fn record(self, outcome: Result<(), Seq<char>>) -> ReplaceRunView {
        ReplaceRunView {
            plan: self.plan,
            results: self.results.push(
                outcome_record(self.plan[self.results.len() as int], outcome),
            ),
        }
    }

    /// The run after as many attempts as there are `outcomes`, each ended as given.
    pub open spec fn record_all(self, outcomes: Seq<Result<(), Seq<char>>>) -> ReplaceRunView
        decreases outcomes.len(),
    {
        if outcomes.len() == 0 {
            self
        } else {
            self.record_all(outcomes.drop_last()).record(outcomes.last())
        }
    }
}

impl View for ReplaceRun {
    type V = ReplaceRunView;

    closed spec fn view(&self) -> ReplaceRunView {
        ReplaceRunView { plan: self.plan.deep_view(), results: self.results.deep_view() }
    }
}

impl ReplaceRun {
    /// The replacement to attempt next; none when the run is over.
    pub fn pending(&self) -> (attempt: Option<&MatchedTorrent>)
        ensures
            attempt.deep_view() == self@.pending(),
    {
        if self.results.len() < self.plan.len() {
            Some(&self.plan[self.results.len()])
        } else {
            None
        }
    }

    /// Puts down how the pending attempt ended, and moves on to the next. A failure is
    /// a record like any other: the run goes on.
    pub fn record(&mut self, outcome: Result<(), String>)
        requires
            old(self)@.pending() is Some,
        ensures
            final(self)@ == old(self)@.record(outcome_view(outcome)),
    {
        let record = record_outcome(&self.plan[self.results.len()], outcome);
        let ghost before = self.results.deep_view();
        self.results.push(record);
        assert(self.results.deep_view() =~= before.push(record@));
    }

    /// The records of the attempts made, in the order of the attempts.
    pub fn into_results(self) -> (results: Vec<ReplaceResult>)
        ensures
            results.deep_view() == self@.results,
    {
        self.results
    }
}

/// Starts the run that applies the rules to a snapshot. The replacements are decided
/// here, from the snapshot alone; what a client answers to one attempt changes no
/// other.
pub fn execute_replace(torrents: &[TorrentInfo], rules: &[Rule]) -> (run: ReplaceRun)
    ensures
        run@ == ReplaceRunView::start(all_matches(torrents.deep_view(), rules.deep_view())),
{
    let plan = find_matches(torrents, rules);
    let run = ReplaceRun { plan, results: Vec::new() };
    assert(run.results.deep_view() =~= Seq::empty());
    run
}

/// A run that is given an outcome for each planned replacement records each of them:
/// the record at a position holds the match planned there and the outcome given
/// there, whatever the outcomes before and after it were. Then nothing is pending.
pub proof fn lemma_every_attempt_is_recorded(
    plan: Seq<MatchedTorrentView>,
    outcomes: Seq<Result<(), Seq<char>>>,
)
    requires
        outcomes.len() <= plan.len(),
    ensures
        ReplaceRunView::start(plan).record_all(outcomes).plan == plan,
        ReplaceRunView::start(plan).record_all(outcomes).results.len() == outcomes.len(),
        forall|i: int|
            0 <= i < outcomes.len() ==> #[trigger] ReplaceRunView::start(plan).record_all(
                outcomes,
            ).results[i] == outcome_record(plan[i], outcomes[i]),
        outcomes.len() == plan.len() ==> ReplaceRunView::start(plan).record_all(
            outcomes,
        ).pending() is None,
        outcomes.len() < plan.len() ==> ReplaceRunView::start(plan).record_all(
            outcomes,
        ).pending() == Some(plan[outcomes.len() as int]),
    decreases outcomes.len(),
{
    if outcomes.len() > 0 {
        lemma_every_attempt_is_recorded(plan, outcomes.drop_last());
    }
}

/// A failed attempt fails alone: the records of the other attempts are what they
/// would have been had it succeeded.
pub proof fn lemma_failure_leaves_other_records(
    plan: Seq<MatchedTorrentView>,
    outcomes: Seq<Result<(), Seq<char>>>,
    failed: int,
    message: Seq<char>,
)
    requires
        outcomes.len() <= plan.len(),
        0 <= failed < outcomes.len(),
    ensures
        forall|i: int|
            0 <= i < outcomes.len() && i != failed ==> #[trigger] ReplaceRunView::start(
                plan,
            ).record_all(outcomes.update(failed, Err(message))).results[i]
                == ReplaceRunView::start(plan).record_all(outcomes).results[i],
        ReplaceRunView::start(plan).record_all(outcomes.update(failed, Err(message))).results.len()
            == outcomes.len(),
{
    lemma_every_attempt_is_recorded(plan, outcomes);
    lemma_every_attempt_is_recorded(plan, outcomes.update(failed, Err(message)));
}

/// One tracker domain, and how many torrents announce to it.
#[derive(Debug, Clone, PartialEq, Eq)]
pub struct TrackerEntry {
    pub domain: String,
    pub count: usize,
}

/// What a [`TrackerEntry`] holds.
pub struct TrackerEntryView {
    pub domain: Seq<char>,
    pub count: nat,
}

impl View for TrackerEntry {
    type V = TrackerEntryView;

    open spec fn view(&self) -> TrackerEntryView {
        TrackerEntryView { domain: self.domain@, count: self.count as nat }
    }
}

impl DeepView for TrackerEntry {
    type V = TrackerEntryView;

    open spec fn deep_view(&self) -> TrackerEntryView {
        self@
    }
}

/// The host of a URL as the crate `url` reads it: none where the text is no absolute
/// URL, or the URL has no host.
pub uninterp spec fn url_host(url: Seq<char>) -> Option<Seq<char>>;

/// `url::Url::parse` and `Url::host_str` of the result: the host of the URL as a
/// text of its own, which depends on the URL's text alone; nothing where the text
/// does not parse or the URL has no host.
#[verifier::external_body]
fn host_of(url: &str) -> (host: Option<String>)
    ensures
        host.deep_view() == url_host(url@),
{
    match url::Url::parse(url) {
        Ok(parsed) => parsed.host_str().map(|host| host.to_string()),
        Err(_) => None,
    }
}

/// The hosts of the first `upto` trackers, in the trackers' order: one for each
/// tracker whose URL has a host.
pub open spec fn tracker_hosts(trackers: Seq<TrackerInfoView>, upto: int) -> Seq<Seq<char>>
    decreases upto,
{
    if upto <= 0 {
        Seq::empty()
    } else {
        match url_host(trackers[upto - 1].url) {
            Some(host) => tracker_hosts(trackers, upto - 1).push(host),
            None => tracker_hosts(trackers, upto - 1),
        }
    }
}

/// For each torrent of a snapshot, the hosts of its trackers.
pub open spec fn snapshot_hosts(torrents: Seq<TorrentInfoView>) -> Seq<Seq<Seq<char>>> {
    Seq::new(
        torrents.len(),
        |i: int| tracker_hosts(torrents[i].trackers, torrents[i].trackers.len() as int),
    )
}

/// How many of the first `upto` torrents have a tracker at `domain`. A torrent with
/// several trackers there counts once.
pub open spec fn referencing(hosts: Seq<Seq<Seq<char>>>, domain: Seq<char>, upto: int) -> nat
    decreases upto,
{
    if upto <= 0 {
        0
    } else if hosts[upto - 1].contains(domain) {
        referencing(hosts, domain, upto - 1) + 1
    } else {
        referencing(hosts, domain, upto - 1)
    }
}

/// An entry stands for `domain`.
pub open spec fn has_entry(entries: Seq<TrackerEntryView>, domain: Seq<char>) -> bool {
    exists|e: int| 0 <= e < entries.len() && (#[trigger] entries[e]).domain == domain
}

/// No two entries stand for the same domain.
pub open spec fn has_distinct_domains(entries: Seq<TrackerEntryView>) -> bool {
    forall|a: int, b: int|
        0 <= a < b < entries.len() ==> (#[trigger] entries[a]).domain != (
        #[trigger] entries[b]).domain
}

/// The entries are the count of the domains: for each domain that some torrent
/// announces to there is exactly one entry, with the number of those torrents, and
/// there is no other entry.
pub open spec fn is_domain_count(entries: Seq<TrackerEntryView>, hosts: Seq<Seq<Seq<char>>>) -> bool {
    &&& forall|e: int|
        0 <= e < entries.len() ==> {
            &&& (#[trigger] entries[e]).count == referencing(
                hosts,
                entries[e].domain,
                hosts.len() as int,
            )
            &&& entries[e].count > 0
        }
    &&& has_distinct_domains(entries)
    &&& forall|domain: Seq<char>|
        referencing(hosts, domain, hosts.len() as int) > 0 ==> #[trigger] has_entry(entries, domain)
}

/// The entries count the torrents `0..upto` and, once more, the domains in `current`:
/// each entry holds that count for its domain, no domain has two entries, and no
/// counted domain is without one.
spec fn counted(
    entries: Seq<TrackerEntryView>,
    hosts: Seq<Seq<Seq<char>>>,
    upto: int,
    current: Seq<Seq<char>>,
) -> bool {
    &&& forall|e: int|
        0 <= e < entries.len() ==> {
            &&& (#[trigger] entries[e]).count == referencing(hosts, entries[e].domain, upto) + (
            if current.contains(entries[e].domain) {
                1nat
            } else {
                0nat
            })
            &&& entries[e].count > 0
        }
    &&& has_distinct_domains(entries)
    &&& forall|domain: Seq<char>|
        referencing(hosts, domain, upto) > 0 || current.contains(domain) ==> #[trigger] has_entry(
            entries,
            domain,
        )
}

/// Each entry counts at least as many torrents as the entries after it.
pub open spec fn is_sorted_by_count(entries: Seq<TrackerEntryView>) -> bool {
    forall|a: int, b: int|
        0 <= a < b < entries.len() ==> (#[trigger] entries[a]).count >= (
        #[trigger] entries[b]).count
}

/// The entries are the report of the tracker domains: the count of the domains, the
/// most used first. Domains with the same count stand in any order.
pub open spec fn is_domain_report(entries: Seq<TrackerEntryView>, hosts: Seq<Seq<Seq<char>>>) -> bool {
    is_domain_count(entries, hosts) && is_sorted_by_count(entries)
}

/// No domain is counted for more torrents than there are.
pub proof fn lemma_referencing_bound(hosts: Seq<Seq<Seq<char>>>, domain: Seq<char>, upto: int)
    requires
        0 <= upto,
    ensures
        referencing(hosts, domain, upto) <= upto,
    decreases upto,
{
    if upto > 0 {
        lemma_referencing_bound(hosts, domain, upto - 1);
    }
}

/// The hosts of a torrent's trackers.
pub fn hosts_of_trackers(trackers: &Vec<TrackerInfo>) -> (hosts: Vec<String>)
    ensures
        hosts.deep_view() == tracker_hosts(trackers.deep_view(), trackers.len() as int),
{
    let ghost ts = trackers.deep_view();
    let mut hosts: Vec<String> = Vec::new();
    let mut k: usize = 0;
    while k < trackers.len()
        invariant
            k <= trackers.len(),
            ts == trackers.deep_view(),
            hosts.deep_view() == tracker_hosts(ts, k as int),
        decreases trackers.len() - k,
    {
        let tracker = &trackers[k];
        match host_of(tracker.url.as_str()) {
            Some(host) => {
                hosts.push(host);
            },
            None => {},
        }
        k = k + 1;
    }
    hosts
}

/// For each torrent of a snapshot, the hosts of its trackers.
pub fn hosts_of_snapshot(torrents: &[TorrentInfo]) -> (hosts: Vec<Vec<String>>)
    ensures
        hosts.deep_view() == snapshot_hosts(torrents.deep_view()),
{
    let ghost ts = torrents.deep_view();
    let mut hosts: Vec<Vec<String>> = Vec::new();
    let mut i: usize = 0;
    while i < torrents.len()
        invariant
            i <= torrents.len(),
            ts == torrents.deep_view(),
            hosts.len() == i,
            forall|k: int|
                0 <= k < i ==> (#[trigger] hosts@[k]).deep_view() == tracker_hosts(
                    ts[k].trackers,
                    ts[k].trackers.len() as int,
                ),
        decreases torrents.len() - i,
    {
        let torrent = &torrents[i];
        hosts.push(hosts_of_trackers(&torrent.trackers));
        i = i + 1;
    }
    hosts
}

/// Whether the host at `k` stands in the list before `k` too.
fn occurs_before(list: &Vec<String>, k: usize) -> (seen: bool)
    requires
        k < list.len(),
    ensures
        seen == list.deep_view().take(k as int).contains(list.deep_view()[k as int]),
{
    let ghost hs = list.deep_view();
    let mut j: usize = 0;
    while j < k
        invariant
            j <= k,
            k < list.len(),
            hs == list.deep_view(),
            forall|q: int| 0 <= q < j ==> hs[q] != hs[k as int],
        decreases k - j,
    {
        if list[j] == list[k] {
            assert(hs.take(k as int)[j as int] == hs[k as int]);
            return true;
        }
        j = j + 1;
    }
    false
}

/// The place of the entry for `domain`.
fn find_entry(entries: &Vec<TrackerEntry>, domain: &str) -> (place: Option<usize>)
    ensures
        match place {
            Some(e) => e < entries.len() && entries.deep_view()[e as int].domain == domain@,
            None => !has_entry(entries.deep_view(), domain@),
        },
{
    let ghost es = entries.deep_view();
    let mut e: usize = 0;
    while e < entries.len()
        invariant
            e <= entries.len(),
            es == entries.deep_view(),
            forall|q: int| 0 <= q < e ==> (#[trigger] es[q]).domain != domain@,
        decreases entries.len() - e,
    {
        if str_eq(entries[e].domain.as_str(), domain) {
            return Some(e);
        }
        e = e + 1;
    }
    None
}

/// A host that the current torrent named before changes no count.
proof fn lemma_count_again(
    entries: Seq<TrackerEntryView>,
    hosts: Seq<Seq<Seq<char>>>,
    upto: int,
    current: Seq<Seq<char>>,
    k: int,
)
    requires
        0 <= k < current.len(),
        counted(entries, hosts, upto, current.take(k)),
        current.take(k).contains(current[k]),
    ensures
        counted(entries, hosts, upto, current.take(k + 1)),
{
}

/// A host that the current torrent names for the first time, and that has an entry,
/// raises that entry's count by one and no other.
proof fn lemma_count_known(
    entries: Seq<TrackerEntryView>,
    hosts: Seq<Seq<Seq<char>>>,
    upto: int,
    current: Seq<Seq<char>>,
    k: int,
    place: int,
)
    requires
        0 <= k < current.len(),
        counted(entries, hosts, upto, current.take(k)),
        !current.take(k).contains(current[k]),
        0 <= place < entries.len(),
        entries[place].domain == current[k],
    ensures
        counted(
            entries.update(
                place,
                TrackerEntryView { domain: current[k], count: entries[place].count + 1 },
            ),
            hosts,
            upto,
            current.take(k + 1),
        ),
{
    let after = current.take(k + 1);
    let bumped = entries.update(
        place,
        TrackerEntryView { domain: current[k], count: entries[place].count + 1 },
    );
    assert(after[k] == current[k]);
    assert forall|e: int| 0 <= e < bumped.len() implies {
        &&& (#[trigger] bumped[e]).count == referencing(hosts, bumped[e].domain, upto) + (
        if after.contains(bumped[e].domain) {
            1nat
        } else {
            0nat
        })
        &&& bumped[e].count > 0
    } by {
    }
    assert forall|domain: Seq<char>|
        referencing(hosts, domain, upto) > 0 || after.contains(domain) implies #[trigger] has_entry(
        bumped,
        domain,
    ) by {
        if domain == current[k] {
            assert(bumped[place].domain == domain);
        } else {
            assert(has_entry(entries, domain));
            let e = choose|e: int| 0 <= e < entries.len() && (#[trigger] entries[e]).domain == domain;
            assert(bumped[e].domain == domain);
        }
    }
}

/// A host that the current torrent names for the first time, and that has no entry,
/// gets one with the count one.
proof fn lemma_count_new(
    entries: Seq<TrackerEntryView>,
    hosts: Seq<Seq<Seq<char>>>,
    upto: int,
    current: Seq<Seq<char>>,
    k: int,
)
    requires
        0 <= k < current.len(),
        counted(entries, hosts, upto, current.take(k)),
        !has_entry(entries, current[k]),
    ensures
        counted(
            entries.push(TrackerEntryView { domain: current[k], count: 1 }),
            hosts,
            upto,
            current.take(k + 1),
        ),
{
    let after = current.take(k + 1);
    let grown = entries.push(TrackerEntryView { domain: current[k], count: 1 });
    assert(after[k] == current[k]);
    assert forall|e: int| 0 <= e < grown.len() implies {
        &&& (#[trigger] grown[e]).count == referencing(hosts, grown[e].domain, upto) + (
        if after.contains(grown[e].domain) {
            1nat
        } else {
            0nat
        })
        &&& grown[e].count > 0
    } by {
    }
    assert forall|domain: Seq<char>|
        referencing(hosts, domain, upto) > 0 || after.contains(domain) implies #[trigger] has_entry(
        grown,
        domain,
    ) by {
        if domain == current[k] {
            assert(grown[entries.len() as int].domain == domain);
        } else {
            assert(has_entry(entries, domain));
            let e = choose|e: int| 0 <= e < entries.len() && (#[trigger] entries[e]).domain == domain;
            assert(grown[e].domain == domain);
        }
    }
}

/// When a torrent's hosts are all counted, the torrent is.
proof fn lemma_count_next_torrent(
    entries: Seq<TrackerEntryView>,
    hosts: Seq<Seq<Seq<char>>>,
    upto: int,
)
    requires
        0 <= upto < hosts.len(),
        counted(entries, hosts, upto, hosts[upto]),
    ensures
        counted(entries, hosts, upto + 1, Seq::empty()),
{
}

/// Counts, for each host, the torrents that name it. `hosts` holds for each torrent
/// the hosts of its trackers; a host that a torrent names more than once counts
/// once for that torrent.
pub fn count_domains(hosts: &Vec<Vec<String>>) -> (entries: Vec<TrackerEntry>)
    ensures
        is_domain_count(entries.deep_view(), hosts.deep_view()),
{
    let ghost hs = hosts.deep_view();
    let mut entries: Vec<TrackerEntry> = Vec::new();
    let mut i: usize = 0;
    while i < hosts.len()
        invariant
            i <= hosts.len(),
            hs == hosts.deep_view(),
            counted(entries.deep_view(), hs, i as int, Seq::empty()),
        decreases hosts.len() - i,
    {
        let list = &hosts[i];
        let ghost current = hs[i as int];
        let mut k: usize = 0;
        while k < list.len()
            invariant
                k <= list.len(),
                i < hosts.len(),
                hs == hosts.deep_view(),
                current == hs[i as int],
                current == list.deep_view(),
                counted(entries.deep_view(), hs, i as int, current.take(k as int)),
            decreases list.len() - k,
        {
            let ghost before = entries.deep_view();
            if occurs_before(list, k) {
                proof {
                    lemma_count_again(before, hs, i as int, current, k as int);
                }
            } else {
                match find_entry(&entries, list[k].as_str()) {
                    Some(place) => {
                        proof {
                            lemma_count_known(before, hs, i as int, current, k as int, place as int);
                            lemma_referencing_bound(hs, current[k as int], i as int);
                        }
                        let bumped = TrackerEntry {
                            domain: entries[place].domain.clone(),
                            count: entries[place].count + 1,
                        };
                        entries.set(place, bumped);
                        assert(entries.deep_view() =~= before.update(place as int, bumped@));
                    },
                    None => {
                        proof {
                            lemma_count_new(before, hs, i as int, current, k as int);
                        }
                        let added = TrackerEntry { domain: list[k].clone(), count: 1 };
                        entries.push(added);
                        assert(entries.deep_view() =~= before.push(added@));
                    },
                }
            }
            k = k + 1;
        }
        proof {
            assert(current.take(k as int) =~= current);
            lemma_count_next_torrent(entries.deep_view(), hs, i as int);
        }
        i = i + 1;
    }
    entries
}

/// Sorts entries by their count, the highest first.
pub fn sort_by_count(entries: Vec<TrackerEntry>) -> (sorted: Vec<TrackerEntry>)
    ensures
        sorted.deep_view().to_multiset() == entries.deep_view().to_multiset(),
        is_sorted_by_count(sorted.deep_view()),
{
    let ghost es = entries.deep_view();
    let mut sorted: Vec<TrackerEntry> = Vec::new();
    let mut i: usize = 0;
    assert(sorted.deep_view() =~= es.take(0));
    while i < entries.len()
        invariant
            i <= entries.len(),
            es == entries.deep_view(),
            sorted.len() == i,
            sorted.deep_view().to_multiset() == es.take(i as int).to_multiset(),
            is_sorted_by_count(sorted.deep_view()),
        decreases entries.len() - i,
    {
        let entry = TrackerEntry { domain: entries[i].domain.clone(), count: entries[i].count };
        let ghost before = sorted.deep_view();
        let mut place: usize = 0;
        while place < sorted.len() && sorted[place].count >= entry.count
            invariant
                place <= sorted.len(),
                before == sorted.deep_view(),
                forall|q: int| 0 <= q < place ==> (#[trigger] before[q]).count >= entry.count,
            decreases sorted.len() - place,
        {
            place = place + 1;
        }
        sorted.insert(place, entry);
        proof {
            let after = sorted.deep_view();
            assert(after =~= before.insert(place as int, entry@));
            vstd::seq_lib::to_multiset_insert(before, place as int, entry@);
            assert(es.take(i + 1) =~= es.take(i as int).push(entry@));
            es.take(i as int).to_multiset_ensures();
        }
        i = i + 1;
    }
    assert(es.take(i as int) =~= es);
    sorted
}

/// A count of the domains stays one when its entries are put in another order.
pub proof fn lemma_reordered_count(
    entries: Seq<TrackerEntryView>,
    reordered: Seq<TrackerEntryView>,
    hosts: Seq<Seq<Seq<char>>>,
)
    requires
        is_domain_count(entries, hosts),
        reordered.to_multiset() == entries.to_multiset(),
    ensures
        is_domain_count(reordered, hosts),
{
    let upto = hosts.len() as int;
    assert forall|e: int| 0 <= e < reordered.len() implies exists|o: int|
        0 <= o < entries.len() && entries[o] == #[trigger] reordered[e] by {
        vstd::seq_lib::to_multiset_contains(reordered, reordered[e]);
        vstd::seq_lib::to_multiset_contains(entries, reordered[e]);
    }
    assert forall|e: int| 0 <= e < reordered.len() implies {
        &&& (#[trigger] reordered[e]).count == referencing(hosts, reordered[e].domain, upto)
        &&& reordered[e].count > 0
    } by {
    }
    lemma_distinct_domains_distinct_entries(entries);
    entries.lemma_multiset_has_no_duplicates();
    reordered.lemma_multiset_has_no_duplicates_conv();
    assert forall|domain: Seq<char>| referencing(hosts, domain, upto) > 0 implies #[trigger] has_entry(
        reordered,
        domain,
    ) by {
        assert(has_entry(entries, domain));
        let o = choose|o: int| 0 <= o < entries.len() && (#[trigger] entries[o]).domain == domain;
        vstd::seq_lib::to_multiset_contains(entries, entries[o]);
        vstd::seq_lib::to_multiset_contains(reordered, entries[o]);
    }
}

/// The hosts decide their count: two counts of the same hosts hold the same entries,
/// and differ at most in the order of them.
pub proof fn lemma_domain_count_is_unique(
    first: Seq<TrackerEntryView>,
    second: Seq<TrackerEntryView>,
    hosts: Seq<Seq<Seq<char>>>,
)
    requires
        is_domain_count(first, hosts),
        is_domain_count(second, hosts),
    ensures
        first.to_set() == second.to_set(),
        first.len() == second.len(),
{
    lemma_domain_count_within(first, second, hosts);
    lemma_domain_count_within(second, first, hosts);
    assert(first.to_set() =~= second.to_set());
    lemma_distinct_domains_distinct_entries(first);
    lemma_distinct_domains_distinct_entries(second);
    first.unique_seq_to_set();
    second.unique_seq_to_set();
}

/// Every entry of one count of the domains stands in any other count of them.
proof fn lemma_domain_count_within(
    first: Seq<TrackerEntryView>,
    second: Seq<TrackerEntryView>,
    hosts: Seq<Seq<Seq<char>>>,
)
    requires
        is_domain_count(first, hosts),
        is_domain_count(second, hosts),
    ensures
        first.to_set().subset_of(second.to_set()),
{
    assert forall|entry: TrackerEntryView| first.to_set().contains(entry) implies second.to_set().contains(
        entry,
    ) by {
        assert(has_entry(second, entry.domain));
    }
}

/// Entries for different domains are different entries.
proof fn lemma_distinct_domains_distinct_entries(entries: Seq<TrackerEntryView>)
    requires
        has_distinct_domains(entries),
    ensures
        entries.no_duplicates(),
{
}

/// The report of the tracker domains, from the hosts of each torrent's trackers.
pub fn domain_report(hosts: &Vec<Vec<String>>) -> (entries: Vec<TrackerEntry>)
    ensures
        is_domain_report(entries.deep_view(), hosts.deep_view()),
{
    let counts = count_domains(hosts);
    let ghost unsorted = counts.deep_view();
    let entries = sort_by_count(counts);
    proof {
        lemma_reordered_count(unsorted, entries.deep_view(), hosts.deep_view());
    }
    entries
}

/// The report of the tracker domains of a snapshot: for each host that a tracker URL
/// names, the number of torrents with a tracker there, the most used host first.
pub fn list_trackers(torrents: &[TorrentInfo]) -> (entries: Vec<TrackerEntry>)
    ensures
        is_domain_report(entries.deep_view(), snapshot_hosts(torrents.deep_view())),
{
    let hosts = hosts_of_snapshot(torrents);
    domain_report(&hosts)
}

} // verus!
