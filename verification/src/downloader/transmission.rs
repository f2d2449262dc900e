//! The client for Transmission: JSON-RPC over one URL, guarded by a session token
//! that the daemon hands out with its first answer.

use base64::Engine;
use vstd::prelude::*;
use vstd::string::StringExecFns;

use crate::downloader::{
    decode_error, decode_error_message, is_announce, is_announce_url, TorrentInfo,
    TorrentInfoView, TrackerInfo, TrackerInfoView,
};
use crate::json::{parsed_json, Json, JsonView};
use crate::outcome::result_view;
use crate::text::{concat2, decimal, str_eq, u16_to_decimal};
use crate::wire::{
    client_options, client_options_for, describe_status, is_success, scheme_of, status_message,
    Body, BodyView, ClientOptions, HttpRequest, HttpRequestView, Method, Reply, ReplyView,
    ResponseBody, ResponseBodyView,
};

verus! {

/// The standard base64 encoding, with padding, of a text's UTF-8 bytes.
pub uninterp spec fn base64_standard(text: Seq<char>) -> Seq<char>;

/// `Engine::encode` of `base64::engine::general_purpose::STANDARD`: the encoding of
/// the text's bytes, which depends on the text alone. It panics only for an input
/// of more than three quarters of `usize::MAX` bytes, which no string slice has.
#[verifier::external_body]
fn base64_encode(text: &str) -> (encoded: String)
    ensures
        encoded@ == base64_standard(text@),
{
    base64::engine::general_purpose::STANDARD.encode(text)
}

/// The URL of the daemon's RPC endpoint.
pub open spec fn rpc_url(host: Seq<char>, port: u16, use_https: bool) -> Seq<char> {
    scheme_of(use_https) + "://"@ + host + ":"@ + decimal(port as nat) + "/transmission/rpc"@
}

/// The `Authorization` header for a user: none where the user name is empty.
pub open spec fn basic_auth(username: Seq<char>, password: Seq<char>) -> Option<Seq<char>> {
    if username.len() > 0 {
        Some("Basic "@ + base64_standard(username + ":"@ + password))
    } else {
        None
    }
}

/// The envelope of a call: the method and its arguments.
pub open spec fn rpc_envelope(method: Seq<char>, arguments: JsonView) -> JsonView {
    JsonView::Object(seq![("method"@, JsonView::Str(method)), ("arguments"@, arguments)])
}

/// The object without members.
pub open spec fn empty_object() -> JsonView {
    JsonView::Object(Seq::empty())
}

/// The arguments that ask for every torrent's hash, name and trackers.
pub open spec fn list_arguments() -> JsonView {
    JsonView::Object(
        seq![
            (
                "fields"@,
                JsonView::Array(
                    seq![
                        JsonView::Str("hashString"@),
                        JsonView::Str("name"@),
                        JsonView::Str("trackers"@),
                    ],
                ),
            ),
        ],
    )
}

/// The arguments that ask for the trackers of one torrent.
pub open spec fn locate_arguments(hash: Seq<char>) -> JsonView {
    JsonView::Object(
        seq![
            ("fields"@, JsonView::Array(seq![JsonView::Str("trackers"@)])),
            ("ids"@, JsonView::Array(seq![JsonView::Str(hash)])),
        ],
    )
}

/// The arguments that put `new_url` in the place of the tracker `tracker_id` of one
/// torrent.
pub open spec fn replace_arguments(hash: Seq<char>, tracker_id: i64, new_url: Seq<char>) -> JsonView {
    JsonView::Object(
        seq![
            ("ids"@, JsonView::Array(seq![JsonView::Str(hash)])),
            ("trackerReplace"@, JsonView::Array(seq![JsonView::Int(tracker_id), JsonView::Str(new_url)])),
        ],
    )
}

/// What the answer to the first call says about the session: the token to use from
/// now on, if it names one, or why no session can be had.
pub open spec fn session_token(reply: ReplyView) -> Result<Option<Seq<char>>, Seq<char>> {
    match reply {
        ReplyView::Failed(message) => Err("Connection failed: "@ + message),
        ReplyView::Response(response) => {
            let token = response.header("x-transmission-session-id"@);
            if response.status == 409 {
                match token {
                    Some(_) => Ok(token),
                    None => Err("No session ID in 409 response"@),
                }
            } else if is_success(response.status) {
                Ok(token)
            } else {
                Err("Unexpected status: "@ + status_message(response.status))
            }
        },
    }
}

/// What a decoded answer means: the arguments of a call that succeeded (the empty
/// object where it names none), or the daemon's word for why it did not.
pub open spec fn rpc_result(document: JsonView) -> Result<JsonView, Seq<char>> {
    match document.str_member("result"@) {
        None => Err(decode_error()),
        Some(result) => if result != "success"@ {
            Err("RPC error: "@ + result)
        } else {
            match document.member("arguments"@) {
                None => Ok(empty_object()),
                Some(JsonView::Null) => Ok(empty_object()),
                Some(arguments) => Ok(arguments),
            }
        },
    }
}

/// What the reply to a call means, whatever its status.
pub open spec fn rpc_outcome(reply: ReplyView) -> Result<JsonView, Seq<char>> {
    match reply {
        ReplyView::Failed(message) => Err(message),
        ReplyView::Response(response) => match response.body {
            ResponseBodyView::Unreadable(message) => Err(message),
            ResponseBodyView::Text(text) => match parsed_json(text) {
                None => Err(decode_error()),
                Some(document) => rpc_result(document),
            },
        },
    }
}

/// The line that names the daemon and its version.
pub open spec fn version_line(arguments: JsonView) -> Seq<char> {
    match arguments.str_member("version"@) {
        Some(version) => "Transmission "@ + version,
        None => "Transmission "@ + "unknown"@,
    }
}

/// The tracker that one entry of a torrent's tracker list stands for: none where the
/// entry has no announce URL, or one that is no HTTP or UDP announce.
pub open spec fn tracker_of(entry: JsonView) -> Option<TrackerInfoView> {
    match entry.str_member("announce"@) {
        Some(url) => if is_announce_url(url) {
            Some(TrackerInfoView { url, status: 0 })
        } else {
            None
        },
        None => None,
    }
}

/// The trackers that the first `upto` entries stand for, in the entries' order.
pub open spec fn trackers_of(entries: Seq<JsonView>, upto: int) -> Seq<TrackerInfoView>
    decreases upto,
{
    if upto <= 0 {
        Seq::empty()
    } else {
        match tracker_of(entries[upto - 1]) {
            Some(tracker) => trackers_of(entries, upto - 1).push(tracker),
            None => trackers_of(entries, upto - 1),
        }
    }
}

/// The text of the string member `name`, or the empty text.
pub open spec fn text_or_empty(entry: JsonView, name: Seq<char>) -> Seq<char> {
    match entry.str_member(name) {
        Some(text) => text,
        None => Seq::empty(),
    }
}

/// The torrent that one entry of the daemon's list stands for.
pub open spec fn torrent_of(entry: JsonView) -> TorrentInfoView {
    TorrentInfoView {
        hash: text_or_empty(entry, "hashString"@),
        name: text_or_empty(entry, "name"@),
        trackers: match entry.array_member("trackers"@) {
            Some(entries) => trackers_of(entries, entries.len() as int),
            None => Seq::empty(),
        },
    }
}

/// The snapshot that the arguments of a `torrent-get` answer hold.
pub open spec fn snapshot_of(arguments: JsonView) -> Result<Seq<TorrentInfoView>, Seq<char>> {
    match arguments.array_member("torrents"@) {
        Some(entries) => Ok(Seq::new(entries.len(), |i: int| torrent_of(entries[i]))),
        None => Err("No torrents field"@),
    }
}

/// The entry is the tracker that announces to `url`, and it has an id.
pub open spec fn tracker_id_of(entry: JsonView, url: Seq<char>) -> Option<i64> {
    if entry.str_member("announce"@) == Some(url) {
        match entry.member("id"@) {
            Some(id) => id.as_i64(),
            None => None,
        }
    } else {
        None
    }
}

/// The id of the first entry from `from` on that is the tracker announcing to `url`.
pub open spec fn find_tracker_id(entries: Seq<JsonView>, url: Seq<char>, from: int) -> Option<i64>
    decreases entries.len() - from,
{
    if from < 0 || from >= entries.len() {
        None
    } else if tracker_id_of(entries[from], url) is Some {
        tracker_id_of(entries[from], url)
    } else {
        find_tracker_id(entries, url, from + 1)
    }
}

/// The daemon's id for the tracker of the first listed torrent that announces to
/// exactly `url`.
pub open spec fn located_tracker(arguments: JsonView, url: Seq<char>) -> Result<i64, Seq<char>> {
    match arguments.array_member("torrents"@) {
        None => Err("No torrents"@),
        Some(torrents) => if torrents.len() == 0 {
            Err("Torrent not found"@)
        } else {
            match torrents[0].array_member("trackers"@) {
                None => Err("No trackers"@),
                Some(entries) => match find_tracker_id(entries, url, 0) {
                    Some(id) => Ok(id),
                    None => Err("Tracker not found in torrent"@),
                },
            }
        },
    }
}

/// What the reply to the call for the version means.
pub open spec fn version_outcome(reply: ReplyView) -> Result<Seq<char>, Seq<char>> {
    match rpc_outcome(reply) {
        Ok(arguments) => Ok(version_line(arguments)),
        Err(message) => Err(message),
    }
}

/// What the reply to the call for the torrents means.
pub open spec fn snapshot_outcome(reply: ReplyView) -> Result<Seq<TorrentInfoView>, Seq<char>> {
    match rpc_outcome(reply) {
        Ok(arguments) => snapshot_of(arguments),
        Err(message) => Err(message),
    }
}

/// What the reply to the call for one torrent's trackers means for the tracker that
/// announces to `url`.
pub open spec fn locate_outcome(reply: ReplyView, url: Seq<char>) -> Result<i64, Seq<char>> {
    match rpc_outcome(reply) {
        Ok(arguments) => located_tracker(arguments, url),
        Err(message) => Err(message),
    }
}

/// What the reply to the call that replaces a tracker means.
pub open spec fn replace_outcome(reply: ReplyView) -> Result<(), Seq<char>> {
    match rpc_outcome(reply) {
        Ok(_) => Ok(()),
        Err(message) => Err(message),
    }
}

/// A session with a Transmission daemon.
#[derive(Debug)]
pub struct Transmission {
    url: String,
    session_id: String,
    auth_header: Option<String>,
}

/// What a [`Transmission`] holds.
pub struct TransmissionView {
    /// The URL of the RPC endpoint.
    pub url: Seq<char>,
    /// The session token; empty until the daemon has named one.
    pub session_id: Seq<char>,
    /// The `Authorization` header that goes with every call, if any.
    pub auth_header: Option<Seq<char>>,
}

impl TransmissionView {
    /// The session before the daemon has answered.
    pub open spec fn fresh(
        host: Seq<char>,
        port: u16,
        username: Seq<char>,
        password: Seq<char>,
        use_https: bool,
    ) -> TransmissionView {
        TransmissionView {
            url: rpc_url(host, port, use_https),
            session_id: Seq::empty(),
            auth_header: basic_auth(username, password),
        }
    }

    /// The header fields that every request carries, apart from the session token.
    pub open spec fn base_headers(self) -> Seq<(Seq<char>, Seq<char>)> {
        seq![("Content-Type"@, "application/json"@)]
    }

    /// The `Authorization` header field, where the session has one.
    pub open spec fn auth_headers(self) -> Seq<(Seq<char>, Seq<char>)> {
        match self.auth_header {
            Some(value) => seq![("Authorization"@, value)],
            None => Seq::empty(),
        }
    }

    /// The first request, which asks for the session: it carries no token.
    pub open spec fn session_request(self) -> HttpRequestView {
        HttpRequestView {
            method: Method::Post,
            url: self.url,
            headers: self.base_headers() + self.auth_headers(),
            query: Seq::empty(),
            body: BodyView::Json(rpc_envelope("session-get"@, empty_object())),
        }
    }

    /// The request for a call within the session.
    pub open spec fn rpc_request(self, method: Seq<char>, arguments: JsonView) -> HttpRequestView {
        HttpRequestView {
            method: Method::Post,
            url: self.url,
            headers: self.base_headers().push(("X-Transmission-Session-Id"@, self.session_id))
                + self.auth_headers(),
            query: Seq::empty(),
            body: BodyView::Json(rpc_envelope(method, arguments)),
        }
    }

    /// The session after the answer to its first request.
    pub open spec fn bootstrapped(self, reply: ReplyView) -> TransmissionView {
        match session_token(reply) {
            Ok(Some(token)) => TransmissionView { session_id: token, ..self },
            _ => self,
        }
    }
}

impl View for Transmission {
    type V = TransmissionView;

    closed spec fn view(&self) -> TransmissionView {
        TransmissionView {
            url: self.url@,
            session_id: self.session_id@,
            auth_header: self.auth_header.deep_view(),
        }
    }
}

/// The envelope of a call.
fn envelope(method: &str, arguments: Json) -> (document: Json)
    ensures
        document@ == rpc_envelope(method@, arguments@),
{
    let mut members: Vec<(String, Json)> = Vec::new();
    members.push((String::from_str("method"), Json::string(method)));
    members.push((String::from_str("arguments"), arguments));
    assert(members.deep_view() =~= seq![
        ("method"@, JsonView::Str(method@)),
        ("arguments"@, arguments@),
    ]);
    Json::object(members)
}

/// The object without members.
fn no_arguments() -> (arguments: Json)
    ensures
        arguments@ == empty_object(),
{
    let members: Vec<(String, Json)> = Vec::new();
    assert(members.deep_view() =~= Seq::empty());
    Json::object(members)
}

/// The array that holds one string.
fn one_string(text: &str) -> (array: Json)
    ensures
        array@ == JsonView::Array(seq![JsonView::Str(text@)]),
{
    let mut items: Vec<Json> = Vec::new();
    items.push(Json::string(text));
    assert(items.deep_view() =~= seq![JsonView::Str(text@)]);
    Json::array(items)
}

/// The text of the string member `name` of an entry, or the empty text.
fn member_text(entry: &Json, name: &str) -> (text: String)
    ensures
        text@ == text_or_empty(entry@, name@),
{
    match entry.get_str(name) {
        Some(text) => String::from_str(text),
        None => String::new(),
    }
}

/// The trackers that the entries of a torrent's tracker list stand for.
pub fn trackers_from(entries: &Vec<Json>) -> (trackers: Vec<TrackerInfo>)
    ensures
        trackers.deep_view() == trackers_of(entries.deep_view(), entries.len() as int),
{
    let ghost es = entries.deep_view();
    let mut trackers: Vec<TrackerInfo> = Vec::new();
    let mut i: usize = 0;
    while i < entries.len()
        invariant
            i <= entries.len(),
            es == entries.deep_view(),
            trackers.deep_view() == trackers_of(es, i as int),
        decreases entries.len() - i,
    {
        let entry = &entries[i];
        match entry.get_str("announce") {
            Some(announce) => {
                if is_announce(announce) {
                    let tracker = TrackerInfo { url: String::from_str(announce), status: 0 };
                    trackers.push(tracker);
                }
            },
            None => {},
        }
        i = i + 1;
    }
    trackers
}

/// The torrent that one entry of the daemon's list stands for.
pub fn torrent_from(entry: &Json) -> (torrent: TorrentInfo)
    ensures
        torrent@ == torrent_of(entry@),
{
    let trackers = match entry.get_array("trackers") {
        Some(entries) => trackers_from(entries),
        None => {
            let none: Vec<TrackerInfo> = Vec::new();
            assert(none.deep_view() =~= Seq::empty());
            none
        },
    };
    TorrentInfo {
        hash: member_text(entry, "hashString"),
        name: member_text(entry, "name"),
        trackers,
    }
}

/// The snapshot that the arguments of a `torrent-get` answer hold.
pub fn snapshot_from(arguments: &Json) -> (result: Result<Vec<TorrentInfo>, String>)
    ensures
        result_view(result) == snapshot_of(arguments@),
{
    match arguments.get_array("torrents") {
        None => Err(String::from_str("No torrents field")),
        Some(entries) => {
            let ghost es = entries.deep_view();
            let mut torrents: Vec<TorrentInfo> = Vec::new();
            let mut i: usize = 0;
            while i < entries.len()
                invariant
                    i <= entries.len(),
                    es == entries.deep_view(),
                    torrents.len() == i,
                    forall|k: int| 0 <= k < i ==> (#[trigger] torrents@[k])@ == torrent_of(es[k]),
                decreases entries.len() - i,
            {
                let entry = &entries[i];
                torrents.push(torrent_from(entry));
                i = i + 1;
            }
            assert(torrents.deep_view() =~= Seq::new(es.len(), |i: int| torrent_of(es[i])));
            Ok(torrents)
        },
    }
}

/// The daemon's id for the tracker that announces to exactly `old_url`, looked up in
/// the arguments of the answer that lists one torrent's trackers. Of several
/// torrents in the answer the first is read.
pub fn locate_tracker_in(arguments: &Json, old_url: &str) -> (result: Result<i64, String>)
    ensures
        result_view(result) == located_tracker(arguments@, old_url@),
{
    let torrents = match arguments.get_array("torrents") {
        Some(torrents) => torrents,
        None => {
            return Err(String::from_str("No torrents"));
        },
    };
    if torrents.len() == 0 {
        return Err(String::from_str("Torrent not found"));
    }
    let ghost ts = torrents.deep_view();
    let entries = match torrents[0].get_array("trackers") {
        Some(entries) => entries,
        None => {
            return Err(String::from_str("No trackers"));
        },
    };
    let ghost es = entries.deep_view();
    let mut i: usize = 0;
    while i < entries.len()
        invariant
            i <= entries.len(),
            es == entries.deep_view(),
            arguments@.array_member("torrents"@) == Some(ts),
            ts.len() > 0,
            ts[0].array_member("trackers"@) == Some(es),
            find_tracker_id(es, old_url@, 0) == find_tracker_id(es, old_url@, i as int),
        decreases entries.len() - i,
    {
        let entry = &entries[i];
        match entry.get_str("announce") {
            Some(announce) => {
                if str_eq(announce, old_url) {
                    match entry.get("id") {
                        Some(id) => match id.as_i64() {
                            Some(tracker_id) => {
                                return Ok(tracker_id);
                            },
                            None => {},
                        },
                        None => {},
                    }
                }
            },
            None => {},
        }
        i = i + 1;
    }
    Err(String::from_str("Tracker not found in torrent"))
}

/// The line that names the daemon and its version.
pub fn version_line_from(arguments: &Json) -> (line: String)
    ensures
        line@ == version_line(arguments@),
{
    match arguments.get_str("version") {
        Some(version) => concat2("Transmission ", version),
        None => concat2("Transmission ", "unknown"),
    }
}

impl Transmission {
    /// How the connection to the daemon is to be set up. With HTTPS the certificate
    /// is deliberately not checked.
    pub fn client_options(use_https: bool) -> (options: ClientOptions)
        ensures
            options == client_options_for(false, use_https),
    {
        client_options(false, use_https)
    }

    /// A session that the daemon has not answered yet: it has no token.
    pub fn new(host: &str, port: u16, username: &str, password: &str, use_https: bool) -> (client:
        Transmission)
        ensures
            client@ == TransmissionView::fresh(host@, port, username@, password@, use_https),
    {
        let scheme = if use_https {
            "https"
        } else {
            "http"
        };
        let mut url = String::from_str(scheme);
        url.append("://");
        url.append(host);
        url.append(":");
        url.append(u16_to_decimal(port).as_str());
        url.append("/transmission/rpc");
        let auth_header = if !username.is_empty() {
            let mut credentials = String::from_str(username);
            credentials.append(":");
            credentials.append(password);
            let encoded = base64_encode(credentials.as_str());
            Some(concat2("Basic ", encoded.as_str()))
        } else {
            None
        };
        Transmission { url, session_id: String::new(), auth_header }
    }

    /// The header fields of a request, with the session token where `with_token`.
    fn headers(&self, with_token: bool) -> (headers: Vec<(String, String)>)
        ensures
            headers.deep_view() == if with_token {
                self@.base_headers().push(("X-Transmission-Session-Id"@, self@.session_id))
                    + self@.auth_headers()
            } else {
                self@.base_headers() + self@.auth_headers()
            },
    {
        let mut headers: Vec<(String, String)> = Vec::new();
        headers.push((String::from_str("Content-Type"), String::from_str("application/json")));
        if with_token {
            headers.push((String::from_str("X-Transmission-Session-Id"), self.session_id.clone()));
        }
        match &self.auth_header {
            Some(value) => {
                headers.push((String::from_str("Authorization"), value.clone()));
            },
            None => {},
        }
        headers
    }

    /// The first request of a session. The daemon answers it with the status 409 and
    /// the token.
    pub fn session_request(&self) -> (request: HttpRequest)
        ensures
            request@ == self@.session_request(),
    {
        let request = HttpRequest {
            method: Method::Post,
            url: self.url.clone(),
            headers: self.headers(false),
            query: Vec::new(),
            body: Body::Json(envelope("session-get", no_arguments())),
        };
        assert(request.query.deep_view() =~= Seq::empty());
        request
    }

    /// Takes the session token from the answer to the first request. The status 409
    /// is the daemon's way of handing out the token, and no failure. An answer of
    /// success that names no token leaves the token as it is.
    pub fn refresh_session_id(&mut self, reply: &Reply) -> (result: Result<(), String>)
        ensures
            final(self)@ == old(self)@.bootstrapped(reply@),
            result_view(result) == match session_token(reply@) {
                Ok(_) => Ok(()),
                Err(message) => Err(message),
            },
    {
        match reply {
            Reply::Failed(message) => Err(concat2("Connection failed: ", message.as_str())),
            Reply::Response(response) => {
                let token = response.header("x-transmission-session-id");
                if response.status == 409 {
                    match token {
                        Some(token) => {
                            self.session_id = token;
                            Ok(())
                        },
                        None => Err(String::from_str("No session ID in 409 response")),
                    }
                } else if response.is_success() {
                    match token {
                        Some(token) => {
                            self.session_id = token;
                        },
                        None => {},
                    }
                    Ok(())
                } else {
                    Err(
                        concat2(
                            "Unexpected status: ",
                            describe_status(response.status).as_str(),
                        ),
                    )
                }
            },
        }
    }

    /// The session token.
    pub fn session_id(&self) -> (token: &str)
        ensures
            token@ == self@.session_id,
    {
        self.session_id.as_str()
    }

    /// The request for a call within the session.
    pub fn rpc_request(&self, method: &str, arguments: Json) -> (request: HttpRequest)
        ensures
            request@ == self@.rpc_request(method@, arguments@),
    {
        let request = HttpRequest {
            method: Method::Post,
            url: self.url.clone(),
            headers: self.headers(true),
            query: Vec::new(),
            body: Body::Json(envelope(method, arguments)),
        };
        assert(request.query.deep_view() =~= Seq::empty());
        request
    }

    /// What a decoded answer means. A result other than `success` is a failure,
    /// whatever else the answer holds.
    pub fn rpc_result(document: Json) -> (result: Result<Json, String>)
        ensures
            result_view(result) == rpc_result(document@),
    {
        let ghost doc = document@;
        match document.get_str("result") {
            None => {
                return Err(decode_error_message());
            },
            Some(result) => {
                if !str_eq(result, "success") {
                    return Err(concat2("RPC error: ", result));
                }
            },
        }
        match document {
            Json::Object(mut members) => {
                let ghost ms = document@->Object_0;
                let mut i: usize = 0;
                while i < members.len()
                    invariant
                        i <= members.len(),
                        ms =~= members.deep_view(),
                        doc == document@,
                        doc == JsonView::Object(ms),
                        doc.str_member("result"@) == Some("success"@),
                        crate::json::find_member(ms, "arguments"@, 0) == crate::json::find_member(
                            ms,
                            "arguments"@,
                            i as int,
                        ),
                    decreases members.len() - i,
                {
                    if str_eq(members[i].0.as_str(), "arguments") {
                        let member = members.remove(i);
                        return match member.1 {
                            Json::Null => Ok(no_arguments()),
                            arguments => Ok(arguments),
                        };
                    }
                    i = i + 1;
                }
                Ok(no_arguments())
            },
            _ => Ok(no_arguments()),
        }
    }

    /// The request that asks the daemon for its version.
    pub fn test_connection_request(&self) -> (request: HttpRequest)
        ensures
            request@ == self@.rpc_request("session-get"@, empty_object()),
    {
        self.rpc_request("session-get", no_arguments())
    }

    /// The line that names the daemon, from the reply to
    /// [`test_connection_request`](Self::test_connection_request).
    pub fn test_connection(&self, reply: Reply) -> (result: Result<String, String>)
        ensures
            result_view(result) == version_outcome(reply@),
    {
        match Transmission::rpc_call(reply) {
            Ok(arguments) => Ok(version_line_from(&arguments)),
            Err(message) => Err(message),
        }
    }

    /// The one request that asks for every torrent with its trackers.
    pub fn list_torrents_request(&self) -> (request: HttpRequest)
        ensures
            request@ == self@.rpc_request("torrent-get"@, list_arguments()),
    {
        let mut fields: Vec<Json> = Vec::new();
        fields.push(Json::string("hashString"));
        fields.push(Json::string("name"));
        fields.push(Json::string("trackers"));
        assert(fields.deep_view() =~= seq![
            JsonView::Str("hashString"@),
            JsonView::Str("name"@),
            JsonView::Str("trackers"@),
        ]);
        let mut members: Vec<(String, Json)> = Vec::new();
        members.push((String::from_str("fields"), Json::array(fields)));
        assert(members.deep_view() =~= list_arguments()->Object_0);
        self.rpc_request("torrent-get", Json::object(members))
    }

    /// The snapshot, from the reply to
    /// [`list_torrents_request`](Self::list_torrents_request). The daemon reports no
    /// status for a tracker: it is 0.
    pub fn list_torrents(&self, reply: Reply) -> (result: Result<Vec<TorrentInfo>, String>)
        ensures
            result_view(result) == snapshot_outcome(reply@),
    {
        match Transmission::rpc_call(reply) {
            Ok(arguments) => snapshot_from(&arguments),
            Err(message) => Err(message),
        }
    }

    /// The first request of a replacement: it asks for the trackers of one torrent,
    /// to learn the daemon's id for the tracker that is to go.
    pub fn locate_tracker_request(&self, hash: &str) -> (request: HttpRequest)
        ensures
            request@ == self@.rpc_request("torrent-get"@, locate_arguments(hash@)),
    {
        let mut members: Vec<(String, Json)> = Vec::new();
        members.push((String::from_str("fields"), one_string("trackers")));
        members.push((String::from_str("ids"), one_string(hash)));
        assert(members.deep_view() =~= locate_arguments(hash@)->Object_0);
        self.rpc_request("torrent-get", Json::object(members))
    }

    /// The daemon's id for the tracker that announces to exactly `old_url`, from the
    /// reply to [`locate_tracker_request`](Self::locate_tracker_request).
    pub fn locate_tracker(&self, reply: Reply, old_url: &str) -> (result: Result<i64, String>)
        ensures
            result_view(result) == locate_outcome(reply@, old_url@),
    {
        match Transmission::rpc_call(reply) {
            Ok(arguments) => locate_tracker_in(&arguments, old_url),
            Err(message) => Err(message),
        }
    }

    /// The second request of a replacement: it puts `new_url` in the place of the
    /// tracker with the id `tracker_id`, and touches no other tracker.
    pub fn replace_tracker_request(&self, hash: &str, tracker_id: i64, new_url: &str) -> (request:
        HttpRequest)
        ensures
            request@ == self@.rpc_request(
                "torrent-set"@,
                replace_arguments(hash@, tracker_id, new_url@),
            ),
    {
        let mut pair: Vec<Json> = Vec::new();
        pair.push(Json::Int(tracker_id));
        pair.push(Json::string(new_url));
        assert(pair.deep_view() =~= seq![JsonView::Int(tracker_id), JsonView::Str(new_url@)]);
        let mut members: Vec<(String, Json)> = Vec::new();
        members.push((String::from_str("ids"), one_string(hash)));
        members.push((String::from_str("trackerReplace"), Json::array(pair)));
        assert(members.deep_view() =~= replace_arguments(hash@, tracker_id, new_url@)->Object_0);
        self.rpc_request("torrent-set", Json::object(members))
    }

    /// Whether the replacement was made, from the reply to
    /// [`replace_tracker_request`](Self::replace_tracker_request).
    pub fn replace_tracker(&self, reply: Reply) -> (result: Result<(), String>)
        ensures
            result_view(result) == replace_outcome(reply@),
    {
        match Transmission::rpc_call(reply) {
            Ok(_) => Ok(()),
            Err(message) => Err(message),
        }
    }

    /// What the reply to a call means. The status of the response plays no part.
    pub fn rpc_call(reply: Reply) -> (result: Result<Json, String>)
        ensures
            result_view(result) == rpc_outcome(reply@),
    {
        match reply {
            Reply::Failed(message) => Err(message),
            Reply::Response(response) => match response.body {
                ResponseBody::Unreadable(message) => Err(message),
                ResponseBody::Text(text) => match Json::parse(text.as_str()) {
                    None => Err(decode_error_message()),
                    Some(document) => Transmission::rpc_result(document),
                },
            },
        }
    }
}

} // verus!
