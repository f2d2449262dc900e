//! The client for qBittorrent: a REST interface behind a login whose session lives
//! in a cookie.

use vstd::prelude::*;
use vstd::string::StringExecFns;

use crate::downloader::{
    decode_error, decode_error_message, is_announce, is_announce_url, TrackerInfo,
    TrackerInfoView,
};
use crate::json::{parsed_json, Json, JsonView};
use crate::outcome::result_view;
use crate::text::{concat2, decimal, str_eq, u16_to_decimal};
use crate::wire::{
    client_options, client_options_for, is_success, scheme_of, Body, BodyView, ClientOptions,
    HttpRequest, HttpRequestView, Method, Reply, ReplyView, ResponseBody, ResponseBodyView,
};

verus! {

/// The URL that every path of the interface is appended to.
pub open spec fn base_url(host: Seq<char>, port: u16, use_https: bool) -> Seq<char> {
    scheme_of(use_https) + "://"@ + host + ":"@ + decimal(port as nat)
}

/// A request without header fields of its own.
pub open spec fn plain_request(
    method: Method,
    url: Seq<char>,
    query: Seq<(Seq<char>, Seq<char>)>,
    body: BodyView,
) -> HttpRequestView {
    HttpRequestView { method, url, headers: Seq::empty(), query, body }
}

/// The login: the user's name and password as form fields.
pub open spec fn login_request(
    host: Seq<char>,
    port: u16,
    username: Seq<char>,
    password: Seq<char>,
    use_https: bool,
) -> HttpRequestView {
    plain_request(
        Method::Post,
        base_url(host, port, use_https) + "/api/v2/auth/login"@,
        Seq::empty(),
        BodyView::Form(seq![("username"@, username), ("password"@, password)]),
    )
}

/// What the reply to the login means: the session stands where the body is `Ok.`,
/// letter for letter; any other body is the client's refusal and is handed on as
/// it came.
pub open spec fn login_outcome(reply: ReplyView) -> Result<(), Seq<char>> {
    match reply {
        ReplyView::Failed(message) => Err("Connection failed: "@ + message),
        ReplyView::Response(response) => match response.body {
            ResponseBodyView::Unreadable(message) => Err(message),
            ResponseBodyView::Text(text) => if text == "Ok."@ {
                Ok(())
            } else {
                Err("Login failed: "@ + text)
            },
        },
    }
}

/// What the reply to the request for the version means.
pub open spec fn version_outcome(reply: ReplyView) -> Result<Seq<char>, Seq<char>> {
    match reply {
        ReplyView::Failed(message) => Err("Connection failed: "@ + message),
        ReplyView::Response(response) => match response.body {
            ResponseBodyView::Unreadable(message) => Err(message),
            ResponseBodyView::Text(version) => Ok("qBittorrent "@ + version),
        },
    }
}

/// What the reply to the request that edits a tracker means: a status of success is
/// all it takes; with any other status the body is the client's reason.
pub open spec fn edit_outcome(reply: ReplyView) -> Result<(), Seq<char>> {
    match reply {
        ReplyView::Failed(message) => Err(message),
        ReplyView::Response(response) => if is_success(response.status) {
            Ok(())
        } else {
            match response.body {
                ResponseBodyView::Text(text) => Err("Edit tracker failed: "@ + text),
                ResponseBodyView::Unreadable(_) => Err("Edit tracker failed: "@),
            }
        },
    }
}

/// The JSON document that a reply carries.
pub open spec fn document_of(reply: ReplyView) -> Result<JsonView, Seq<char>> {
    match reply {
        ReplyView::Failed(message) => Err(message),
        ReplyView::Response(response) => match response.body {
            ResponseBodyView::Unreadable(message) => Err(message),
            ResponseBodyView::Text(text) => match parsed_json(text) {
                Some(document) => Ok(document),
                None => Err(decode_error()),
            },
        },
    }
}

/// A torrent as the list of torrents names it.
#[derive(Debug, Clone, PartialEq, Eq)]
pub struct ListedTorrent {
    pub hash: String,
    pub name: String,
}

/// What a [`ListedTorrent`] holds.
pub struct ListedTorrentView {
    pub hash: Seq<char>,
    pub name: Seq<char>,
}

impl View for ListedTorrent {
    type V = ListedTorrentView;

    open spec fn view(&self) -> ListedTorrentView {
        ListedTorrentView { hash: self.hash@, name: self.name@ }
    }
}

impl DeepView for ListedTorrent {
    type V = ListedTorrentView;

    open spec fn deep_view(&self) -> ListedTorrentView {
        self@
    }
}

/// The torrent that one entry of the list stands for: the entry must name a hash and
/// a name, both as strings.
pub open spec fn listed_torrent(entry: JsonView) -> Option<ListedTorrentView> {
    match (entry.str_member("hash"@), entry.str_member("name"@)) {
        (Some(hash), Some(name)) => Some(ListedTorrentView { hash, name }),
        _ => None,
    }
}

/// The torrents that a document lists: it must be an array whose every entry stands
/// for a torrent.
pub open spec fn listed_torrents(document: JsonView) -> Result<Seq<ListedTorrentView>, Seq<char>> {
    match document.as_array() {
        Some(entries) => if forall|i: int|
            0 <= i < entries.len() ==> listed_torrent(#[trigger] entries[i]) is Some {
            Ok(Seq::new(entries.len(), |i: int| listed_torrent(entries[i])->0))
        } else {
            Err(decode_error())
        },
        None => Err(decode_error()),
    }
}

/// The status is a number in the range of `i32`.
pub open spec fn status_of(entry: JsonView) -> Option<i32> {
    match entry.member("status"@) {
        Some(JsonView::Int(n)) => if i32::MIN <= n <= i32::MAX {
            Some(n as i32)
        } else {
            None
        },
        _ => None,
    }
}

/// The tracker that one entry of a torrent's tracker list stands for: the entry must
/// name a URL as a string and a status as an integer.
pub open spec fn listed_tracker(entry: JsonView) -> Option<TrackerInfoView> {
    match (entry.str_member("url"@), status_of(entry)) {
        (Some(url), Some(status)) => Some(TrackerInfoView { url, status }),
        _ => None,
    }
}

/// The tracker is one of an HTTP or UDP announce.
pub open spec fn announces(tracker: TrackerInfoView) -> bool {
    is_announce_url(tracker.url)
}

/// The trackers that a document lists: it must be an array whose every entry stands
/// for a tracker. Of those, the ones with an HTTP or UDP announce URL are kept, in
/// their order.
pub open spec fn listed_trackers(document: JsonView) -> Result<Seq<TrackerInfoView>, Seq<char>> {
    match document.as_array() {
        Some(entries) => if forall|i: int|
            0 <= i < entries.len() ==> listed_tracker(#[trigger] entries[i]) is Some {
            Ok(
                Seq::new(entries.len(), |i: int| listed_tracker(entries[i])->0).filter(
                    |tracker: TrackerInfoView| announces(tracker),
                ),
            )
        } else {
            Err(decode_error())
        },
        None => Err(decode_error()),
    }
}

/// What the reply to the request for the list of torrents means.
pub open spec fn torrents_outcome(reply: ReplyView) -> Result<Seq<ListedTorrentView>, Seq<char>> {
    match document_of(reply) {
        Ok(document) => listed_torrents(document),
        Err(message) => Err(message),
    }
}

/// What the reply to the request for one torrent's trackers means.
pub open spec fn trackers_outcome(reply: ReplyView) -> Result<Seq<TrackerInfoView>, Seq<char>> {
    match document_of(reply) {
        Ok(document) => listed_trackers(document),
        Err(message) => Err(message),
    }
}

/// A session with qBittorrent. It stands for a login that the client accepted: the
/// cookie of the session is with whoever holds the connection.
#[derive(Debug)]
pub struct QBittorrent {
    base_url: String,
}

/// What a [`QBittorrent`] holds.
pub struct QBittorrentView {
    pub base_url: Seq<char>,
}

impl QBittorrentView {
    /// The session with the client at a host and port.
    pub open spec fn at(host: Seq<char>, port: u16, use_https: bool) -> QBittorrentView {
        QBittorrentView { base_url: base_url(host, port, use_https) }
    }

    /// The request for the client's version.
    pub open spec fn version_request(self) -> HttpRequestView {
        plain_request(
            Method::Get,
            self.base_url + "/api/v2/app/version"@,
            Seq::empty(),
            BodyView::Empty,
        )
    }

    /// The request for the list of torrents.
    pub open spec fn torrents_request(self) -> HttpRequestView {
        plain_request(
            Method::Get,
            self.base_url + "/api/v2/torrents/info"@,
            Seq::empty(),
            BodyView::Empty,
        )
    }

    /// The request for the trackers of one torrent.
    pub open spec fn trackers_request(self, hash: Seq<char>) -> HttpRequestView {
        plain_request(
            Method::Get,
            self.base_url + "/api/v2/torrents/trackers"@,
            seq![("hash"@, hash)],
            BodyView::Empty,
        )
    }

    /// The request that puts `new_url` in the place of `old_url` among the trackers
    /// of one torrent.
    pub open spec fn edit_request(
        self,
        hash: Seq<char>,
        old_url: Seq<char>,
        new_url: Seq<char>,
    ) -> HttpRequestView {
        plain_request(
            Method::Post,
            self.base_url + "/api/v2/torrents/editTracker"@,
            Seq::empty(),
            BodyView::Form(seq![("hash"@, hash), ("origUrl"@, old_url), ("newUrl"@, new_url)]),
        )
    }
}

impl View for QBittorrent {
    type V = QBittorrentView;

    closed spec fn view(&self) -> QBittorrentView {
        QBittorrentView { base_url: self.base_url@ }
    }
}

impl DeepView for QBittorrent {
    type V = QBittorrentView;

    open spec fn deep_view(&self) -> QBittorrentView {
        self@
    }
}

/// Writes the URL that every path is appended to.
fn write_base_url(host: &str, port: u16, use_https: bool) -> (url: String)
    ensures
        url@ == base_url(host@, port, use_https),
{
    let scheme = if use_https {
        "https"
    } else {
        "http"
    };
    let mut url = String::from_str(scheme);
    url.append("://");
    url.append(host);
    url.append(":");
    url.append(u16_to_decimal(port).as_str());
    url
}

/// A request without header fields of its own.
fn request(method: Method, url: String, query: Vec<(String, String)>, body: Body) -> (request:
    HttpRequest)
    ensures
        request@ == plain_request(method, url@, query.deep_view(), body@),
{
    let request = HttpRequest { method, url, headers: Vec::new(), query, body };
    assert(request.headers.deep_view() =~= Seq::empty());
    request
}

/// No parameters.
fn no_fields() -> (fields: Vec<(String, String)>)
    ensures
        fields.deep_view() == Seq::<(Seq<char>, Seq<char>)>::empty(),
{
    let fields: Vec<(String, String)> = Vec::new();
    fields
}

/// The JSON document that a reply carries.
pub fn document_from(reply: Reply) -> (result: Result<Json, String>)
    ensures
        result_view(result) == document_of(reply@),
{
    match reply {
        Reply::Failed(message) => Err(message),
        Reply::Response(response) => match response.body {
            ResponseBody::Unreadable(message) => Err(message),
            ResponseBody::Text(text) => match Json::parse(text.as_str()) {
                Some(document) => Ok(document),
                None => Err(decode_error_message()),
            },
        },
    }
}

/// The torrents that a document lists.
pub fn torrents_from(document: &Json) -> (result: Result<Vec<ListedTorrent>, String>)
    ensures
        result_view(result) == listed_torrents(document@),
{
    match document.as_array() {
        None => Err(decode_error_message()),
        Some(entries) => {
            let ghost es = entries.deep_view();
            let mut torrents: Vec<ListedTorrent> = Vec::new();
            let mut i: usize = 0;
            while i < entries.len()
                invariant
                    i <= entries.len(),
                    es == entries.deep_view(),
                    document@.as_array() == Some(es),
                    torrents.len() == i,
                    forall|k: int| 0 <= k < i ==> listed_torrent(#[trigger] es[k]) == Some(torrents@[k]@),
                decreases entries.len() - i,
            {
                let entry = &entries[i];
                assert(es[i as int] == entry@);
                match (entry.get_str("hash"), entry.get_str("name")) {
                    (Some(hash), Some(name)) => {
                        torrents.push(
                            ListedTorrent {
                                hash: String::from_str(hash),
                                name: String::from_str(name),
                            },
                        );
                    },
                    _ => {
                        return Err(decode_error_message());
                    },
                }
                i = i + 1;
            }
            assert(torrents.deep_view() =~= Seq::new(es.len(), |i: int| listed_torrent(es[i])->0));
            Ok(torrents)
        },
    }
}

/// The status of a tracker entry.
fn status_from(entry: &Json) -> (status: Option<i32>)
    ensures
        status == status_of(entry@),
{
    match entry.get("status") {
        Some(value) => match value.as_i64() {
            Some(n) => if -2147483648 <= n && n <= 2147483647 {
                Some(n as i32)
            } else {
                None
            },
            None => None,
        },
        None => None,
    }
}

/// Filtering a list that grew by one tracker: the tracker is appended where it is
/// kept, and nothing changes where it is not.
proof fn lemma_filter_next(all: Seq<TrackerInfoView>, next: TrackerInfoView)
    ensures
        all.push(next).filter(|tracker: TrackerInfoView| announces(tracker)) == if announces(next) {
            all.filter(|tracker: TrackerInfoView| announces(tracker)).push(next)
        } else {
            all.filter(|tracker: TrackerInfoView| announces(tracker))
        },
{
    reveal(Seq::filter);
    assert(all.push(next).drop_last() =~= all);
}

/// The trackers that a document lists, without those that are no HTTP or UDP
/// announce.
pub fn trackers_from(document: &Json) -> (result: Result<Vec<TrackerInfo>, String>)
    ensures
        result_view(result) == listed_trackers(document@),
{
    match document.as_array() {
        None => Err(decode_error_message()),
        Some(entries) => {
            let ghost es = entries.deep_view();
            let ghost mut all: Seq<TrackerInfoView> = Seq::empty();
            let mut kept: Vec<TrackerInfo> = Vec::new();
            let mut i: usize = 0;
            while i < entries.len()
                invariant
                    i <= entries.len(),
                    es == entries.deep_view(),
                    document@.as_array() == Some(es),
                    all.len() == i,
                    forall|k: int| 0 <= k < i ==> listed_tracker(#[trigger] es[k]) == Some(all[k]),
                    kept.deep_view() == all.filter(|tracker: TrackerInfoView| announces(tracker)),
                decreases entries.len() - i,
            {
                let entry = &entries[i];
                assert(es[i as int] == entry@);
                match (entry.get_str("url"), status_from(entry)) {
                    (Some(url), Some(status)) => {
                        let tracker = TrackerInfo { url: String::from_str(url), status };
                        proof {
                            lemma_filter_next(all, tracker@);
                            all = all.push(tracker@);
                        }
                        if is_announce(url) {
                            kept.push(tracker);
                        }
                    },
                    _ => {
                        return Err(decode_error_message());
                    },
                }
                i = i + 1;
            }
            assert(all =~= Seq::new(es.len(), |i: int| listed_tracker(es[i])->0));
            Ok(kept)
        },
    }
}

/// The trackers of one torrent, from the reply to the request for them.
pub fn trackers_from_reply(reply: Reply) -> (result: Result<Vec<TrackerInfo>, String>)
    ensures
        result_view(result) == trackers_outcome(reply@),
{
    match document_from(reply) {
        Ok(document) => trackers_from(&document),
        Err(message) => Err(message),
    }
}

impl QBittorrent {
    /// How the connection to the client is to be set up: with a store for the
    /// session's cookie. With HTTPS the certificate is deliberately not checked.
    pub fn client_options(use_https: bool) -> (options: ClientOptions)
        ensures
            options == client_options_for(true, use_https),
    {
        client_options(true, use_https)
    }

    /// The request that logs in.
    pub fn login_request(
        host: &str,
        port: u16,
        username: &str,
        password: &str,
        use_https: bool,
    ) -> (request: HttpRequest)
        ensures
            request@ == login_request(host@, port, username@, password@, use_https),
    {
        let mut url = write_base_url(host, port, use_https);
        url.append("/api/v2/auth/login");
        let mut fields: Vec<(String, String)> = Vec::new();
        fields.push((String::from_str("username"), String::from_str(username)));
        fields.push((String::from_str("password"), String::from_str(password)));
        assert(fields.deep_view() =~= seq![("username"@, username@), ("password"@, password@)]);
        request(Method::Post, url, no_fields(), Body::Form(fields))
    }

    /// The session that the reply to [`login_request`](Self::login_request) opens, if
    /// it opens one. There is no second attempt.
    pub fn new(host: &str, port: u16, use_https: bool, reply: &Reply) -> (result: Result<
        QBittorrent,
        String,
    >)
        ensures
            result_view(result) == match login_outcome(reply@) {
                Ok(_) => Ok(QBittorrentView::at(host@, port, use_https)),
                Err(message) => Err(message),
            },
    {
        match reply {
            Reply::Failed(message) => Err(concat2("Connection failed: ", message.as_str())),
            Reply::Response(response) => match &response.body {
                ResponseBody::Unreadable(message) => Err(message.clone()),
                ResponseBody::Text(text) => {
                    if str_eq(text.as_str(), "Ok.") {
                        Ok(QBittorrent { base_url: write_base_url(host, port, use_https) })
                    } else {
                        Err(concat2("Login failed: ", text.as_str()))
                    }
                },
            },
        }
    }

    /// The URL that every path is appended to.
    pub fn base_url(&self) -> (url: &str)
        ensures
            url@ == self@.base_url,
    {
        self.base_url.as_str()
    }

    /// The request for the client's version.
    pub fn test_connection_request(&self) -> (request: HttpRequest)
        ensures
            request@ == self@.version_request(),
    {
        let url = concat2(self.base_url.as_str(), "/api/v2/app/version");
        request(Method::Get, url, no_fields(), Body::Empty)
    }

    /// The line that names the client and its version, from the reply to
    /// [`test_connection_request`](Self::test_connection_request).
    pub fn test_connection(&self, reply: Reply) -> (result: Result<String, String>)
        ensures
            result_view(result) == version_outcome(reply@),
    {
        match reply {
            Reply::Failed(message) => Err(concat2("Connection failed: ", message.as_str())),
            Reply::Response(response) => match response.body {
                ResponseBody::Unreadable(message) => Err(message),
                ResponseBody::Text(version) => Ok(concat2("qBittorrent ", version.as_str())),
            },
        }
    }

    /// The request for the list of torrents. The list names no trackers: they are
    /// asked for torrent by torrent.
    pub fn list_torrents_request(&self) -> (request: HttpRequest)
        ensures
            request@ == self@.torrents_request(),
    {
        let url = concat2(self.base_url.as_str(), "/api/v2/torrents/info");
        request(Method::Get, url, no_fields(), Body::Empty)
    }

    /// The torrents, still without their trackers, from the reply to
    /// [`list_torrents_request`](Self::list_torrents_request).
    pub fn list_torrents(&self, reply: Reply) -> (result: Result<Vec<ListedTorrent>, String>)
        ensures
            result_view(result) == torrents_outcome(reply@),
    {
        match document_from(reply) {
            Ok(document) => torrents_from(&document),
            Err(message) => Err(message),
        }
    }

    /// The request for the trackers of one torrent.
    pub fn trackers_request(&self, hash: &str) -> (request: HttpRequest)
        ensures
            request@ == self@.trackers_request(hash@),
    {
        let url = concat2(self.base_url.as_str(), "/api/v2/torrents/trackers");
        let mut query: Vec<(String, String)> = Vec::new();
        query.push((String::from_str("hash"), String::from_str(hash)));
        assert(query.deep_view() =~= seq![("hash"@, hash@)]);
        request(Method::Get, url, query, Body::Empty)
    }

    /// The request that puts `new_url` in the place of `old_url` among the trackers
    /// of one torrent. It names that one tracker and no other.
    pub fn replace_tracker_request(&self, hash: &str, old_url: &str, new_url: &str) -> (request:
        HttpRequest)
        ensures
            request@ == self@.edit_request(hash@, old_url@, new_url@),
    {
        let url = concat2(self.base_url.as_str(), "/api/v2/torrents/editTracker");
        let mut fields: Vec<(String, String)> = Vec::new();
        fields.push((String::from_str("hash"), String::from_str(hash)));
        fields.push((String::from_str("origUrl"), String::from_str(old_url)));
        fields.push((String::from_str("newUrl"), String::from_str(new_url)));
        assert(fields.deep_view() =~= seq![
            ("hash"@, hash@),
            ("origUrl"@, old_url@),
            ("newUrl"@, new_url@),
        ]);
        request(Method::Post, url, no_fields(), Body::Form(fields))
    }

    /// Whether the replacement was made, from the reply to
    /// [`replace_tracker_request`](Self::replace_tracker_request).
    pub fn replace_tracker(&self, reply: Reply) -> (result: Result<(), String>)
        ensures
            result_view(result) == edit_outcome(reply@),
    {
        match reply {
            Reply::Failed(message) => Err(message),
            Reply::Response(response) => {
                if response.is_success() {
                    Ok(())
                } else {
                    match response.body {
                        ResponseBody::Text(text) => Err(
                            concat2("Edit tracker failed: ", text.as_str()),
                        ),
                        ResponseBody::Unreadable(_) => Err(String::from_str("Edit tracker failed: ")),
                    }
                }
            },
        }
    }
}

} // verus!
