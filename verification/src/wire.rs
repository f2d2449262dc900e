//! Requests and replies as plain values. The clients say what is to be sent and what
//! a reply means; whoever holds the connection sends and receives.

use vstd::prelude::*;

use crate::json::{Json, JsonView};
use crate::text::{eq_ignoring_ascii_case, str_eq_ignore_ascii_case};

verus! {

/// The request methods that the clients use.
#[derive(Clone, Copy, PartialEq, Eq, Structural, Debug)]
pub enum Method {
    Get,
    Post,
}

/// What a request carries.
#[derive(Debug, PartialEq, Eq)]
pub enum Body {
    Empty,
    /// Form fields, to be sent URL-encoded.
    Form(Vec<(String, String)>),
    /// A JSON document.
    Json(Json),
}

/// What a [`Body`] holds.
pub enum BodyView {
    Empty,
    Form(Seq<(Seq<char>, Seq<char>)>),
    Json(JsonView),
}

impl View for Body {
    type V = BodyView;

    open spec fn view(&self) -> BodyView {
        match self {
            Body::Empty => BodyView::Empty,
            Body::Form(fields) => BodyView::Form(fields.deep_view()),
            Body::Json(document) => BodyView::Json(document@),
        }
    }
}

impl DeepView for Body {
    type V = BodyView;

    open spec fn deep_view(&self) -> BodyView {
        self@
    }
}

/// A request to be sent.
#[derive(Debug, PartialEq, Eq)]
pub struct HttpRequest {
    pub method: Method,
    /// The URL without a query.
    pub url: String,
    /// The header fields to set, in this order.
    pub headers: Vec<(String, String)>,
    /// The parameters of the query, to be appended URL-encoded.
    pub query: Vec<(String, String)>,
    pub body: Body,
}

/// What an [`HttpRequest`] holds.
pub struct HttpRequestView {
    pub method: Method,
    pub url: Seq<char>,
    pub headers: Seq<(Seq<char>, Seq<char>)>,
    pub query: Seq<(Seq<char>, Seq<char>)>,
    pub body: BodyView,
}

impl View for HttpRequest {
    type V = HttpRequestView;

    open spec fn view(&self) -> HttpRequestView {
        HttpRequestView {
            method: self.method,
            url: self.url@,
            headers: self.headers.deep_view(),
            query: self.query.deep_view(),
            body: self.body@,
        }
    }
}

impl DeepView for HttpRequest {
    type V = HttpRequestView;

    open spec fn deep_view(&self) -> HttpRequestView {
        self@
    }
}

/// The body of a response as it was read.
#[derive(Debug, Clone, PartialEq, Eq)]
pub enum ResponseBody {
    /// The body, as text.
    Text(String),
    /// The body could not be read; the transport's message.
    Unreadable(String),
}

/// What a [`ResponseBody`] holds.
pub enum ResponseBodyView {
    Text(Seq<char>),
    Unreadable(Seq<char>),
}

impl View for ResponseBody {
    type V = ResponseBodyView;

    open spec fn view(&self) -> ResponseBodyView {
        match self {
            ResponseBody::Text(text) => ResponseBodyView::Text(text@),
            ResponseBody::Unreadable(message) => ResponseBodyView::Unreadable(message@),
        }
    }
}

impl DeepView for ResponseBody {
    type V = ResponseBodyView;

    open spec fn deep_view(&self) -> ResponseBodyView {
        self@
    }
}

/// A response that arrived.
#[derive(Debug, Clone, PartialEq, Eq)]
pub struct HttpResponse {
    pub status: u16,
    /// The header fields: the name, and the value where it is text.
    pub headers: Vec<(String, Option<String>)>,
    pub body: ResponseBody,
}

/// What an [`HttpResponse`] holds.
pub struct HttpResponseView {
    pub status: u16,
    pub headers: Seq<(Seq<char>, Option<Seq<char>>)>,
    pub body: ResponseBodyView,
}

impl View for HttpResponse {
    type V = HttpResponseView;

    open spec fn view(&self) -> HttpResponseView {
        HttpResponseView {
            status: self.status,
            headers: self.headers.deep_view(),
            body: self.body@,
        }
    }
}

impl DeepView for HttpResponse {
    type V = HttpResponseView;

    open spec fn deep_view(&self) -> HttpResponseView {
        self@
    }
}

/// How sending a request ended.
#[derive(Debug, Clone, PartialEq, Eq)]
pub enum Reply {
    /// A response arrived, whatever its status.
    Response(HttpResponse),
    /// No response arrived; the transport's message.
    Failed(String),
}

/// What a [`Reply`] holds.
pub enum ReplyView {
    Response(HttpResponseView),
    Failed(Seq<char>),
}

impl View for Reply {
    type V = ReplyView;

    open spec fn view(&self) -> ReplyView {
        match self {
            Reply::Response(response) => ReplyView::Response(response@),
            Reply::Failed(message) => ReplyView::Failed(message@),
        }
    }
}

impl DeepView for Reply {
    type V = ReplyView;

    open spec fn deep_view(&self) -> ReplyView {
        self@
    }
}

/// How the connection to a client is to be set up.
#[derive(Clone, Copy, PartialEq, Eq, Structural, Debug)]
pub struct ClientOptions {
    /// Cookies that a response sets are sent with every later request.
    pub cookie_store: bool,
    /// Certificates are accepted unchecked.
    pub accept_invalid_certs: bool,
    /// The time allowed for a whole request, in seconds.
    pub timeout_secs: u64,
    /// The time allowed for connecting, in seconds.
    pub connect_timeout_secs: u64,
}

/// The options for a client: ten seconds for a request, five for connecting,
/// and with HTTPS no check of the certificate, so that a daemon with a
/// self-signed certificate can be reached.
pub open spec fn client_options_for(cookie_store: bool, use_https: bool) -> ClientOptions {
    ClientOptions {
        cookie_store,
        accept_invalid_certs: use_https,
        timeout_secs: 10,
        connect_timeout_secs: 5,
    }
}

/// The options for a client. With HTTPS the certificate is deliberately not
/// checked.
pub fn client_options(cookie_store: bool, use_https: bool) -> (options: ClientOptions)
    ensures
        options == client_options_for(cookie_store, use_https),
{
    ClientOptions {
        cookie_store,
        accept_invalid_certs: use_https,
        timeout_secs: 10,
        connect_timeout_secs: 5,
    }
}

/// The scheme of the URLs.
pub open spec fn scheme_of(use_https: bool) -> Seq<char> {
    if use_https {
        "https"@
    } else {
        "http"@
    }
}

/// The status is one of success: 200 to 299.
pub open spec fn is_success(status: u16) -> bool {
    200 <= status < 300
}

/// The value of the first header field named `name` among those from `from` on: its
/// text, or the empty text where the value is no text. The case of a name's ASCII
/// letters makes no difference.
pub open spec fn find_header(
    headers: Seq<(Seq<char>, Option<Seq<char>>)>,
    name: Seq<char>,
    from: int,
) -> Option<Seq<char>>
    decreases headers.len() - from,
{
    if from < 0 || from >= headers.len() {
        None
    } else if eq_ignoring_ascii_case(headers[from].0, name) {
        match headers[from].1 {
            Some(text) => Some(text),
            None => Some(Seq::empty()),
        }
    } else {
        find_header(headers, name, from + 1)
    }
}

impl HttpResponseView {
    /// The value of the header field `name`.
    pub open spec fn header(self, name: Seq<char>) -> Option<Seq<char>> {
        find_header(self.headers, name, 0)
    }
}

impl HttpResponse {
    /// Whether the status is one of success.
    pub fn is_success(&self) -> (ok: bool)
        ensures
            ok == is_success(self.status),
    {
        200 <= self.status && self.status < 300
    }

    /// The value of the header field `name`, in whatever case the name is written:
    /// the text of the first such field, and the empty text where its value is no
    /// text.
    pub fn header(&self, name: &str) -> (value: Option<String>)
        ensures
            value.deep_view() == self@.header(name@),
    {
        let ghost hs = self.headers.deep_view();
        let mut i: usize = 0;
        while i < self.headers.len()
            invariant
                i <= self.headers.len(),
                hs == self.headers.deep_view(),
                find_header(hs, name@, 0) == find_header(hs, name@, i as int),
            decreases self.headers.len() - i,
        {
            let field = &self.headers[i];
            if str_eq_ignore_ascii_case(field.0.as_str(), name) {
                return match &field.1 {
                    Some(text) => Some(text.clone()),
                    None => Some(String::new()),
                };
            }
            i = i + 1;
        }
        None
    }
}

/// The status as `reqwest::StatusCode` displays it: the number, and the reason
/// phrase where the code has one.
pub uninterp spec fn status_display(status: u16) -> Seq<char>;

/// `reqwest::StatusCode::from_u16` (the type is `http::StatusCode`) and the
/// `Display` of the result: the displayed status for a code from 100 to 999,
/// nothing for any other number.
#[verifier::external_body]
fn status_text(status: u16) -> (text: Option<String>)
    ensures
        text is Some <==> 100 <= status <= 999,
        text matches Some(t) ==> t@ == status_display(status),
{
    match reqwest::StatusCode::from_u16(status) {
        Ok(code) => Some(code.to_string()),
        Err(_) => None,
    }
}

/// How a status is written in a message.
pub open spec fn status_message(status: u16) -> Seq<char> {
    if 100 <= status <= 999 {
        status_display(status)
    } else {
        crate::text::decimal(status as nat)
    }
}

/// Writes a status for a message: as `reqwest` displays it, or the bare number
/// where the number is no status code.
pub fn describe_status(status: u16) -> (text: String)
    ensures
        text@ == status_message(status),
{
    match status_text(status) {
        Some(text) => text,
        None => crate::text::u16_to_decimal(status),
    }
}

} // verus!
