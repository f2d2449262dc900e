//! What both torrent clients have in common: the snapshot records, and the outcome
//! record of one replacement.

pub mod qbittorrent;
pub mod transmission;

use vstd::prelude::*;
use vstd::string::StringExecFns;

use crate::downloader::qbittorrent::{ListedTorrent, ListedTorrentView, QBittorrent, QBittorrentView};
use crate::downloader::transmission::{Transmission, TransmissionView};
use crate::outcome::result_view;
use crate::text::{has_prefix, str_starts_with};
use crate::wire::{HttpRequest, HttpRequestView, Reply, ReplyView};

verus! {

/// The message for a response whose body is not what the protocol lays down.
pub open spec fn decode_error() -> Seq<char> {
    "error decoding response body"@
}

/// The message for a response whose body is not what the protocol lays down.
pub fn decode_error_message() -> (message: String)
    ensures
        message@ == decode_error(),
{
    String::from_str("error decoding response body")
}

/// The URL is one of an HTTP or UDP announce: it begins with `http` or with `udp`.
pub open spec fn is_announce_url(url: Seq<char>) -> bool {
    has_prefix(url, "http"@) || has_prefix(url, "udp"@)
}

/// Whether a tracker URL is one of an HTTP or UDP announce. The pseudo-trackers that
/// a client lists for DHT, PeX and the like are not.
pub fn is_announce(url: &str) -> (keep: bool)
    ensures
        keep == is_announce_url(url@),
{
    str_starts_with(url, "http") || str_starts_with(url, "udp")
}

/// One tracker of a torrent.
#[derive(Debug, Clone, PartialEq, Eq)]
pub struct TrackerInfo {
    pub url: String,
    /// As the client reports it; 0 where it reports none.
    pub status: i32,
}

/// What a [`TrackerInfo`] holds.
pub struct TrackerInfoView {
    pub url: Seq<char>,
    pub status: i32,
}

impl View for TrackerInfo {
    type V = TrackerInfoView;

    open spec fn view(&self) -> TrackerInfoView {
        TrackerInfoView { url: self.url@, status: self.status }
    }
}

impl DeepView for TrackerInfo {
    type V = TrackerInfoView;

    open spec fn deep_view(&self) -> TrackerInfoView {
        self@
    }
}

/// One torrent of a snapshot, with its trackers in the client's order.
#[derive(Debug, Clone, PartialEq, Eq)]
pub struct TorrentInfo {
    pub hash: String,
    pub name: String,
    pub trackers: Vec<TrackerInfo>,
}

/// What a [`TorrentInfo`] holds.
pub struct TorrentInfoView {
    pub hash: Seq<char>,
    pub name: Seq<char>,
    pub trackers: Seq<TrackerInfoView>,
}

impl View for TorrentInfo {
    type V = TorrentInfoView;

    open spec fn view(&self) -> TorrentInfoView {
        TorrentInfoView {
            hash: self.hash@,
            name: self.name@,
            trackers: self.trackers.deep_view(),
        }
    }
}

impl DeepView for TorrentInfo {
    type V = TorrentInfoView;

    open spec fn deep_view(&self) -> TorrentInfoView {
        self@
    }
}

/// How one attempted replacement ended.
#[derive(Debug, Clone, PartialEq, Eq)]
pub struct ReplaceResult {
    pub torrent_name: String,
    pub old_url: String,
    pub new_url: String,
    pub success: bool,
    pub error: Option<String>,
}

/// What a [`ReplaceResult`] holds.
pub struct ReplaceResultView {
    pub torrent_name: Seq<char>,
    pub old_url: Seq<char>,
    pub new_url: Seq<char>,
    pub success: bool,
    pub error: Option<Seq<char>>,
}

impl View for ReplaceResult {
    type V = ReplaceResultView;

    open spec fn view(&self) -> ReplaceResultView {
        ReplaceResultView {
            torrent_name: self.torrent_name@,
            old_url: self.old_url@,
            new_url: self.new_url@,
            success: self.success,
            error: self.error.deep_view(),
        }
    }
}

impl DeepView for ReplaceResult {
    type V = ReplaceResultView;

    open spec fn deep_view(&self) -> ReplaceResultView {
        self@
    }
}

/// A snapshot in the making. qBittorrent lists the torrents without their trackers
/// and is asked for those torrent by torrent, one request each; Transmission answers
/// one request with everything.
#[derive(Debug)]
pub struct TorrentListing {
    listed: Vec<ListedTorrent>,
    done: Vec<TorrentInfo>,
}

/// What a [`TorrentListing`] holds.
pub struct TorrentListingView {
    /// The torrents whose trackers have to be asked for, in the client's order.
    pub listed: Seq<ListedTorrentView>,
    /// The torrents of the snapshot that are complete.
    pub done: Seq<TorrentInfoView>,
}

impl TorrentListingView {
    /// A listing that starts from the list of torrents.
    pub open spec fn start(listed: Seq<ListedTorrentView>) -> TorrentListingView {
        TorrentListingView { listed, done: Seq::empty() }
    }

    /// A listing that is complete from the start.
    pub open spec fn complete(torrents: Seq<TorrentInfoView>) -> TorrentListingView {
        TorrentListingView { listed: Seq::empty(), done: torrents }
    }

    /// The torrent whose trackers are to be asked for next; none when no request is
    /// left to make.
    pub open spec fn pending(self) -> Option<ListedTorrentView> {
        if self.done.len() < self.listed.len() {
            Some(self.listed[self.done.len() as int])
        } else {
            None
        }
    }

    /// The listing after the trackers of the pending torrent have arrived.
    pub open spec fn accept(self, trackers: Seq<TrackerInfoView>) -> TorrentListingView {
        TorrentListingView {
            listed: self.listed,
            done: self.done.push(
                TorrentInfoView {
                    hash: self.listed[self.done.len() as int].hash,
                    name: self.listed[self.done.len() as int].name,
                    trackers,
                },
            ),
        }
    }

    /// The listing after the tracker lists of as many torrents have arrived, in the
    /// order in which they were asked for.
    pub open spec fn accept_all(self, lists: Seq<Seq<TrackerInfoView>>) -> TorrentListingView
        decreases lists.len(),
    {
        if lists.len() == 0 {
            self
        } else {
            self.accept_all(lists.drop_last()).accept(lists.last())
        }
    }
}

impl View for TorrentListing {
    type V = TorrentListingView;

    closed spec fn view(&self) -> TorrentListingView {
        TorrentListingView { listed: self.listed.deep_view(), done: self.done.deep_view() }
    }
}

impl DeepView for TorrentListing {
    type V = TorrentListingView;

    open spec fn deep_view(&self) -> TorrentListingView {
        self@
    }
}

impl TorrentListing {
    /// A listing that starts from the list of torrents.
    pub fn start(listed: Vec<ListedTorrent>) -> (listing: TorrentListing)
        ensures
            listing@ == TorrentListingView::start(listed.deep_view()),
    {
        let listing = TorrentListing { listed, done: Vec::new() };
        assert(listing.done.deep_view() =~= Seq::empty());
        listing
    }

    /// A listing that is complete from the start.
    pub fn complete(torrents: Vec<TorrentInfo>) -> (listing: TorrentListing)
        ensures
            listing@ == TorrentListingView::complete(torrents.deep_view()),
    {
        let listing = TorrentListing { listed: Vec::new(), done: torrents };
        assert(listing.listed.deep_view() =~= Seq::empty());
        listing
    }

    /// The torrent whose trackers are to be asked for next.
    pub fn pending(&self) -> (torrent: Option<&ListedTorrent>)
        ensures
            torrent.deep_view() == self@.pending(),
    {
        if self.done.len() < self.listed.len() {
            Some(&self.listed[self.done.len()])
        } else {
            None
        }
    }

    /// Takes in the trackers of the pending torrent, which is complete with them.
    pub fn accept(&mut self, trackers: Vec<TrackerInfo>)
        requires
            old(self)@.pending() is Some,
        ensures
            final(self)@ == old(self)@.accept(trackers.deep_view()),
    {
        let listed = &self.listed[self.done.len()];
        let torrent = TorrentInfo {
            hash: listed.hash.clone(),
            name: listed.name.clone(),
            trackers,
        };
        let ghost before = self.done.deep_view();
        self.done.push(torrent);
        assert(self.done.deep_view() =~= before.push(torrent@));
    }

    /// Takes in the reply to the request for the trackers of the pending torrent. A
    /// reply that does not hold them ends the listing: it stays as it is, and the
    /// reason is handed back.
    pub fn accept_reply(&mut self, reply: Reply) -> (result: Result<(), String>)
        requires
            old(self)@.pending() is Some,
        ensures
            match qbittorrent::trackers_outcome(reply@) {
                Ok(trackers) => result is Ok && final(self)@ == old(self)@.accept(trackers),
                Err(message) => result_view(result) == Err::<(), Seq<char>>(message)
                    && final(self)@ == old(self)@,
            },
    {
        match qbittorrent::trackers_from_reply(reply) {
            Ok(trackers) => {
                self.accept(trackers);
                Ok(())
            },
            Err(message) => Err(message),
        }
    }

    /// The torrents that are complete, in the client's order.
    pub fn into_torrents(self) -> (torrents: Vec<TorrentInfo>)
        ensures
            torrents.deep_view() == self@.done,
    {
        self.done
    }
}

/// A listing that is given the tracker list of each listed torrent ends with one
/// torrent for each: the hash and the name from the list of torrents, the trackers
/// from the answer to the request made for it. Then no request is left to make.
pub proof fn lemma_listing_asks_for_each_torrent(
    listed: Seq<ListedTorrentView>,
    lists: Seq<Seq<TrackerInfoView>>,
)
    requires
        lists.len() <= listed.len(),
    ensures
        TorrentListingView::start(listed).accept_all(lists).listed == listed,
        TorrentListingView::start(listed).accept_all(lists).done.len() == lists.len(),
        forall|i: int|
            0 <= i < lists.len() ==> #[trigger] TorrentListingView::start(listed).accept_all(
                lists,
            ).done[i] == (TorrentInfoView {
                hash: listed[i].hash,
                name: listed[i].name,
                trackers: lists[i],
            }),
        lists.len() < listed.len() ==> TorrentListingView::start(listed).accept_all(
            lists,
        ).pending() == Some(listed[lists.len() as int]),
        lists.len() == listed.len() ==> TorrentListingView::start(listed).accept_all(
            lists,
        ).pending() is None,
    decreases lists.len(),
{
    if lists.len() > 0 {
        lemma_listing_asks_for_each_torrent(listed, lists.drop_last());
    }
}

/// A session with one of the two clients.
#[derive(Debug)]
pub enum DownloaderKind {
    QBittorrent(QBittorrent),
    Transmission(Transmission),
}

/// What a [`DownloaderKind`] holds.
pub enum DownloaderKindView {
    QBittorrent(QBittorrentView),
    Transmission(TransmissionView),
}

impl View for DownloaderKind {
    type V = DownloaderKindView;

    open spec fn view(&self) -> DownloaderKindView {
        match self {
            DownloaderKind::QBittorrent(client) => DownloaderKindView::QBittorrent(client@),
            DownloaderKind::Transmission(client) => DownloaderKindView::Transmission(client@),
        }
    }
}

impl DeepView for DownloaderKind {
    type V = DownloaderKindView;

    open spec fn deep_view(&self) -> DownloaderKindView {
        self@
    }
}

impl DownloaderKindView {
    /// The request that asks the client for its version.
    pub open spec fn test_connection_request(self) -> HttpRequestView {
        match self {
            DownloaderKindView::QBittorrent(client) => client.version_request(),
            DownloaderKindView::Transmission(client) => client.rpc_request(
                "session-get"@,
                transmission::empty_object(),
            ),
        }
    }

    /// What the reply to that request means.
    pub open spec fn test_connection(self, reply: ReplyView) -> Result<Seq<char>, Seq<char>> {
        match self {
            DownloaderKindView::QBittorrent(_) => qbittorrent::version_outcome(reply),
            DownloaderKindView::Transmission(_) => transmission::version_outcome(reply),
        }
    }

    /// The first request of a snapshot.
    pub open spec fn list_torrents_request(self) -> HttpRequestView {
        match self {
            DownloaderKindView::QBittorrent(client) => client.torrents_request(),
            DownloaderKindView::Transmission(client) => client.rpc_request(
                "torrent-get"@,
                transmission::list_arguments(),
            ),
        }
    }

    /// What the reply to the first request of a snapshot means: the listing to go on
    /// with.
    pub open spec fn list_torrents(self, reply: ReplyView) -> Result<TorrentListingView, Seq<char>> {
        match self {
            DownloaderKindView::QBittorrent(_) => match qbittorrent::torrents_outcome(reply) {
                Ok(listed) => Ok(TorrentListingView::start(listed)),
                Err(message) => Err(message),
            },
            DownloaderKindView::Transmission(_) => match transmission::snapshot_outcome(reply) {
                Ok(torrents) => Ok(TorrentListingView::complete(torrents)),
                Err(message) => Err(message),
            },
        }
    }

    /// The request that a listing is to make next: with qBittorrent the one for the
    /// trackers of the pending torrent.
    pub open spec fn trackers_request(self, listing: TorrentListingView) -> Option<HttpRequestView> {
        match (self, listing.pending()) {
            (DownloaderKindView::QBittorrent(client), Some(torrent)) => Some(
                client.trackers_request(torrent.hash),
            ),
            _ => None,
        }
    }

    /// The first request of a replacement.
    pub open spec fn replace_tracker_request(
        self,
        hash: Seq<char>,
        old_url: Seq<char>,
        new_url: Seq<char>,
    ) -> HttpRequestView {
        match self {
            DownloaderKindView::QBittorrent(client) => client.edit_request(hash, old_url, new_url),
            DownloaderKindView::Transmission(client) => client.rpc_request(
                "torrent-get"@,
                transmission::locate_arguments(hash),
            ),
        }
    }

    /// What the reply to the first request of a replacement means: the replacement is
    /// made (no further request), or one more request makes it, or it has failed.
    pub open spec fn replace_tracker(
        self,
        reply: ReplyView,
        hash: Seq<char>,
        old_url: Seq<char>,
        new_url: Seq<char>,
    ) -> Result<Option<HttpRequestView>, Seq<char>> {
        match self {
            DownloaderKindView::QBittorrent(_) => match qbittorrent::edit_outcome(reply) {
                Ok(_) => Ok(None),
                Err(message) => Err(message),
            },
            DownloaderKindView::Transmission(client) => match transmission::locate_outcome(
                reply,
                old_url,
            ) {
                Ok(tracker_id) => Ok(
                    Some(
                        client.rpc_request(
                            "torrent-set"@,
                            transmission::replace_arguments(hash, tracker_id, new_url),
                        ),
                    ),
                ),
                Err(message) => Err(message),
            },
        }
    }

    /// What the reply to the last request of a replacement means.
    pub open spec fn confirm_replace(self, reply: ReplyView) -> Result<(), Seq<char>> {
        match self {
            DownloaderKindView::QBittorrent(_) => qbittorrent::edit_outcome(reply),
            DownloaderKindView::Transmission(_) => transmission::replace_outcome(reply),
        }
    }
}

impl DownloaderKind {
    /// The request that asks the client for its version.
    pub fn test_connection_request(&self) -> (request: HttpRequest)
        ensures
            request@ == self@.test_connection_request(),
    {
        match self {
            DownloaderKind::QBittorrent(client) => client.test_connection_request(),
            DownloaderKind::Transmission(client) => client.test_connection_request(),
        }
    }

    /// The line that names the client and its version, from the reply to
    /// [`test_connection_request`](Self::test_connection_request).
    pub fn test_connection(&self, reply: Reply) -> (result: Result<String, String>)
        ensures
            result_view(result) == self@.test_connection(reply@),
    {
        match self {
            DownloaderKind::QBittorrent(client) => client.test_connection(reply),
            DownloaderKind::Transmission(client) => client.test_connection(reply),
        }
    }

    /// The first request of a snapshot.
    pub fn list_torrents_request(&self) -> (request: HttpRequest)
        ensures
            request@ == self@.list_torrents_request(),
    {
        match self {
            DownloaderKind::QBittorrent(client) => client.list_torrents_request(),
            DownloaderKind::Transmission(client) => client.list_torrents_request(),
        }
    }

    /// The listing to go on with, from the reply to
    /// [`list_torrents_request`](Self::list_torrents_request).
    pub fn list_torrents(&self, reply: Reply) -> (result: Result<TorrentListing, String>)
        ensures
            result_view(result) == self@.list_torrents(reply@),
    {
        match self {
            DownloaderKind::QBittorrent(client) => match client.list_torrents(reply) {
                Ok(listed) => Ok(TorrentListing::start(listed)),
                Err(message) => Err(message),
            },
            DownloaderKind::Transmission(client) => match client.list_torrents(reply) {
                Ok(torrents) => Ok(TorrentListing::complete(torrents)),
                Err(message) => Err(message),
            },
        }
    }

    /// The request that a listing is to make next, whose reply goes to
    /// [`TorrentListing::accept_reply`]; none when the listing is complete.
    pub fn trackers_request(&self, listing: &TorrentListing) -> (request: Option<HttpRequest>)
        ensures
            request.deep_view() == self@.trackers_request(listing@),
    {
        match self {
            DownloaderKind::QBittorrent(client) => match listing.pending() {
                Some(torrent) => Some(client.trackers_request(torrent.hash.as_str())),
                None => None,
            },
            DownloaderKind::Transmission(_) => None,
        }
    }

    /// The first request of a replacement.
    pub fn replace_tracker_request(&self, hash: &str, old_url: &str, new_url: &str) -> (request:
        HttpRequest)
        ensures
            request@ == self@.replace_tracker_request(hash@, old_url@, new_url@),
    {
        match self {
            DownloaderKind::QBittorrent(client) => client.replace_tracker_request(
                hash,
                old_url,
                new_url,
            ),
            DownloaderKind::Transmission(client) => client.locate_tracker_request(hash),
        }
    }

    /// What is left to do after the reply to
    /// [`replace_tracker_request`](Self::replace_tracker_request): nothing, or one
    /// more request, whose reply goes to [`confirm_replace`](Self::confirm_replace).
    pub fn replace_tracker(&self, reply: Reply, hash: &str, old_url: &str, new_url: &str) -> (result:
        Result<Option<HttpRequest>, String>)
        ensures
            result_view(result) == self@.replace_tracker(reply@, hash@, old_url@, new_url@),
    {
        match self {
            DownloaderKind::QBittorrent(client) => match client.replace_tracker(reply) {
                Ok(_) => Ok(None),
                Err(message) => Err(message),
            },
            DownloaderKind::Transmission(client) => match client.locate_tracker(reply, old_url) {
                Ok(tracker_id) => Ok(
                    Some(client.replace_tracker_request(hash, tracker_id, new_url)),
                ),
                Err(message) => Err(message),
            },
        }
    }

    /// Whether the replacement was made, from the reply to the request that
    /// [`replace_tracker`](Self::replace_tracker) gave.
    pub fn confirm_replace(&self, reply: Reply) -> (result: Result<(), String>)
        ensures
            result_view(result) == self@.confirm_replace(reply@),
    {
        match self {
            DownloaderKind::QBittorrent(client) => client.replace_tracker(reply),
            DownloaderKind::Transmission(client) => client.replace_tracker(reply),
        }
    }
}

} // verus!
