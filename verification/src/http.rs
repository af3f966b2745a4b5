//! Requests, and downloads that follow redirects without giving a credential away.

use crate::failure::{plain, seen, Failure, Messages};
use crate::text::{
    after_prefix, ascii_lower, before, before_last, chars_of, clone_text, decimal, decimal_of,
    find, find_from, find_in, lemma_before, strip_prefix, take_before, take_before_last,
};
use vstd::prelude::*;
use vstd::string::*;

verus! {

/// How many requests one download may take, redirects included.
pub const MAX_REQUESTS: u8 = 10;

/// A `GET` request.
#[derive(Clone)]
pub struct HttpRequest {
    /// What is asked for.
    pub url: String,
    /// The `User-Agent` header.
    pub user_agent: String,
    /// The `Accept` header, if one is sent.
    pub accept: Option<String>,
    /// The `Authorization` header, if one is sent.
    pub authorization: Option<String>,
}

/// What an [`HttpRequest`] holds.
pub struct RequestView {
    pub url: Seq<char>,
    pub user_agent: Seq<char>,
    pub accept: Option<Seq<char>>,
    pub authorization: Option<Seq<char>>,
}

impl View for HttpRequest {
    type V = RequestView;

    open spec fn view(&self) -> RequestView {
        RequestView {
            url: self.url@,
            user_agent: self.user_agent@,
            accept: self.accept.deep_view(),
            authorization: self.authorization.deep_view(),
        }
    }
}

/// What came of a request.
#[derive(Debug, Clone)]
pub enum HttpReply {
    /// A response whose status is no error, and its `Location` header, if it has one.
    Response { status: u16, location: Option<String> },
    /// A response whose status is an error.
    ErrorStatus(u16),
    /// No response, for this reason.
    Unreachable(String),
}

/// What an [`HttpReply`] holds.
pub enum ReplyView {
    Response { status: u16, location: Option<Seq<char>> },
    ErrorStatus(u16),
    Unreachable(Seq<char>),
}

impl View for HttpReply {
    type V = ReplyView;

    open spec fn view(&self) -> ReplyView {
        match self {
            HttpReply::Response { status, location } => ReplyView::Response {
                status: *status,
                location: location.deep_view(),
            },
            HttpReply::ErrorStatus(status) => ReplyView::ErrorStatus(*status),
            HttpReply::Unreachable(reason) => ReplyView::Unreachable(reason@),
        }
    }
}

/// The `Authorization` header for a token.
pub open spec fn bearer(token: Seq<char>) -> Seq<char> {
    "Bearer "@ + token
}

/// The `Authorization` header for a token, if there is one.
pub open spec fn bearer_if(token: Option<Seq<char>>) -> Option<Seq<char>> {
    match token {
        Some(text) => Some(bearer(text)),
        None => None,
    }
}

/// The `Authorization` header for a token, if there is one.
pub fn bearer_header(token: &Option<String>) -> (r: Option<String>)
    ensures
        r.deep_view() == bearer_if(token.deep_view()),
{
    match token {
        Some(text) => Some("Bearer ".to_owned().concat(text.as_str())),
        None => None,
    }
}

/// The host of an absolute URL, and its port if it names one, in lower case. A text without `://`
/// is no absolute URL, and its host is empty.
pub open spec fn host_of(url: Seq<char>) -> Seq<char> {
    match find_in(url, "://"@) {
        Some(i) => ascii_lower(before(url.skip(i + "://"@.len()), '/')),
        None => seq![],
    }
}

/// The parts of a URL before and after the first `://`, if it has one.
fn split_scheme(url: &str) -> (r: Option<(String, String)>)
    ensures
        match r {
            Some((scheme, rest)) => find_in(url@, "://"@) matches Some(i) && scheme@ == url@.take(i)
                && rest@ == url@.skip(i + "://"@.len()),
            None => find_in(url@, "://"@) is None,
        },
{
    match find(url, "://") {
        Some(i) => {
            proof {
                reveal_strlit("://");
                assert(url@.take(i as int) == url@.subrange(0, i as int));
                assert(url@.skip(i + 3) == url@.subrange(i + 3, url@.len() as int));
            }
            let count: usize = chars_of(url).len();
            Some((url.substring_char(0, i).to_owned(), url.substring_char(i + 3, count).to_owned()))
        },
        None => None,
    }
}

/// The host of an absolute URL, and its port if it names one, in lower case; empty where there is
/// none.
pub fn url_host(url: &str) -> (r: String)
    ensures
        r@ == host_of(url@),
{
    match split_scheme(url) {
        Some((_, rest)) => take_before(rest.as_str(), '/').as_str().to_ascii_lowercase(),
        None => {
            proof {
                reveal_strlit("");
                assert(""@ =~= Seq::<char>::empty());
            }
            "".to_owned()
        },
    }
}

/// Where the `Location` header of a response to a request for `base` leads: to the URL that it
/// is; to another host under the same scheme; to another path on the same host; or to a sibling
/// of what was asked for.
pub open spec fn resolved(base: Seq<char>, location: Seq<char>) -> Result<Seq<char>, Messages> {
    if after_prefix(location, "http://"@) is Some || after_prefix(location, "https://"@) is Some {
        Ok(location)
    } else {
        match find_in(base, "://"@) {
            None => Err(
                plain("cannot resolve redirect against non-absolute base "@ + base),
            ),
            Some(i) => {
                let scheme = base.take(i);
                let rest = base.skip(i + "://"@.len());
                match (after_prefix(location, "//"@), after_prefix(location, "/"@)) {
                    (Some(other), _) => Ok(scheme + "://"@ + other),
                    (None, Some(path)) => Ok(
                        scheme + "://"@ + before(rest, '/') + "/"@ + path,
                    ),
                    (None, None) => Ok(
                        before_last(before(base, '?'), '/') + "/"@ + location,
                    ),
                }
            },
        }
    }
}

/// Where the `Location` header of a response to a request for `base` leads.
pub fn resolve_location(base: &str, location: &str) -> (r: Result<String, Failure>)
    ensures
        seen(r) == resolved(base@, location@),
{
    if strip_prefix(location, "http://").is_some() || strip_prefix(location, "https://").is_some() {
        return Ok(location.to_owned());
    }
    match split_scheme(base) {
        None => Err(
            Failure::new(
                "cannot resolve redirect against non-absolute base ".to_owned().concat(base),
            ),
        ),
        Some((scheme, rest)) => {
            if let Some(other) = strip_prefix(location, "//") {
                return Ok(scheme.concat("://").concat(other.as_str()));
            }
            if let Some(path) = strip_prefix(location, "/") {
                let host: String = take_before(rest.as_str(), '/');
                return Ok(
                    scheme.concat("://").concat(host.as_str()).concat("/").concat(path.as_str()),
                );
            }
            let unqueried: String = take_before(base, '?');
            Ok(take_before_last(unqueried.as_str(), '/').concat("/").concat(location))
        },
    }
}

/// A download under way: the request that is to be sent next, and what the ones after it may be.
#[derive(Clone)]
pub struct Download {
    url: String,
    current: String,
    user_agent: String,
    token: Option<String>,
    accept: Option<String>,
    send_auth: bool,
    left: u8,
}

/// What a [`Download`] holds.
pub struct DownloadView {
    /// What the download is of.
    pub url: Seq<char>,
    /// Where redirects have led.
    pub current: Seq<char>,
    pub user_agent: Seq<char>,
    pub token: Option<Seq<char>>,
    pub accept: Option<Seq<char>>,
    /// Whether the token is still sent.
    pub send_auth: bool,
    /// How many requests may still be sent.
    pub left: u8,
}

impl View for Download {
    type V = DownloadView;

    closed spec fn view(&self) -> DownloadView {
        DownloadView {
            url: self.url@,
            current: self.current@,
            user_agent: self.user_agent@,
            token: self.token.deep_view(),
            accept: self.accept.deep_view(),
            send_auth: self.send_auth,
            left: self.left,
        }
    }
}

/// What a download has come to.
#[derive(Clone)]
pub enum DownloadStep {
    /// Another request is to be sent.
    Follow(Download),
    /// The body of the response is what was to be downloaded.
    Read,
    /// The download has failed.
    Failed(Failure),
}

/// What a [`DownloadStep`] holds.
pub enum DownloadStepView {
    Follow(DownloadView),
    Read,
    Failed(Messages),
}

impl View for DownloadStep {
    type V = DownloadStepView;

    open spec fn view(&self) -> DownloadStepView {
        match self {
            DownloadStep::Follow(download) => DownloadStepView::Follow(download@),
            DownloadStep::Read => DownloadStepView::Read,
            DownloadStep::Failed(failure) => DownloadStepView::Failed(failure@),
        }
    }
}

/// The download of `url`, before its first request.
pub open spec fn begun(
    url: Seq<char>,
    user_agent: Seq<char>,
    token: Option<Seq<char>>,
    accept: Option<Seq<char>>,
) -> DownloadView {
    DownloadView {
        url,
        current: url,
        user_agent,
        token,
        accept,
        send_auth: token is Some,
        left: MAX_REQUESTS,
    }
}

/// Whether a status asks for another request.
pub open spec fn redirects(status: u16) -> bool {
    300 <= status < 400
}

impl DownloadView {
    /// The request that is to be sent next.
    pub open spec fn request(self) -> RequestView {
        RequestView {
            url: self.current,
            user_agent: self.user_agent,
            accept: self.accept,
            authorization: if self.send_auth {
                bearer_if(self.token)
            } else {
                None
            },
        }
    }

    /// The download once a redirect has led to `next`: the token is kept back from then on if
    /// that is another host than the one that the download began at.
    pub open spec fn moved_to(self, next: Seq<char>) -> DownloadView {
        DownloadView {
            current: next,
            send_auth: self.send_auth && host_of(next) == host_of(self.url),
            left: (self.left - 1) as u8,
            ..self
        }
    }

    /// What the download comes to with the reply to its request.
    pub open spec fn after(self, reply: ReplyView) -> DownloadStepView {
        match reply {
            ReplyView::Unreachable(reason) => DownloadStepView::Failed(
                plain("GET "@ + self.current + ": "@ + reason),
            ),
            ReplyView::ErrorStatus(status) => if status == 404 && self.token is None {
                DownloadStepView::Failed(
                    plain(
                        "GET "@ + self.current
                            + " returned HTTP 404; GitHub returns 404 for unauthenticated private release assets; configure a token with UpdaterConfig::with_github_token, with_gh_account, or with_gh_token_fallback"@,
                    ),
                )
            } else {
                DownloadStepView::Failed(
                    plain("GET "@ + self.current + " returned HTTP "@ + decimal_of(status as nat)),
                )
            },
            ReplyView::Response { status, location } => if !redirects(status) {
                DownloadStepView::Read
            } else {
                match location {
                    None => DownloadStepView::Failed(
                        plain(
                            "HTTP "@ + decimal_of(status as nat)
                                + " redirect without Location for "@ + self.current,
                        ),
                    ),
                    Some(place) => match resolved(self.current, place) {
                        Err(failure) => DownloadStepView::Failed(failure),
                        Ok(next) => if self.left > 1 {
                            DownloadStepView::Follow(self.moved_to(next))
                        } else {
                            DownloadStepView::Failed(
                                plain("too many redirects while fetching "@ + self.url),
                            )
                        },
                    },
                }
            },
        }
    }
}

impl Download {
    /// The download of `url`, before its first request.
    pub fn start(
        url: String,
        user_agent: String,
        token: Option<String>,
        accept: Option<String>,
    ) -> (r: Download)
        ensures
            r@ == begun(url@, user_agent@, token.deep_view(), accept.deep_view()),
    {
        let current: String = url.clone();
        let send_auth: bool = token.is_some();
        Download { url, current, user_agent, token, accept, send_auth, left: MAX_REQUESTS }
    }

    /// The request that is to be sent next.
    pub fn request(&self) -> (r: HttpRequest)
        ensures
            r@ == self@.request(),
    {
        HttpRequest {
            url: self.current.clone(),
            user_agent: self.user_agent.clone(),
            accept: clone_text(&self.accept),
            authorization: if self.send_auth {
                bearer_header(&self.token)
            } else {
                None
            },
        }
    }

    /// What the download comes to with the reply to its request.
    pub fn reply(self, reply: HttpReply) -> (r: DownloadStep)
        ensures
            r@ == self@.after(reply@),
    {
        match reply {
            HttpReply::Unreachable(reason) => {
                let get: String = "GET ".to_owned().concat(self.current.as_str());
                DownloadStep::Failed(Failure::new(get.concat(": ").concat(reason.as_str())))
            },
            HttpReply::ErrorStatus(status) => {
                let get: String = "GET ".to_owned().concat(self.current.as_str());
                if status == 404 && self.token.is_none() {
                    DownloadStep::Failed(
                        Failure::new(
                            get.concat(
                                " returned HTTP 404; GitHub returns 404 for unauthenticated private release assets; configure a token with UpdaterConfig::with_github_token, with_gh_account, or with_gh_token_fallback",
                            ),
                        ),
                    )
                } else {
                    let code: String = decimal(status as u64);
                    DownloadStep::Failed(
                        Failure::new(get.concat(" returned HTTP ").concat(code.as_str())),
                    )
                }
            },
            HttpReply::Response { status, location } => {
                if status < 300 || status >= 400 {
                    return DownloadStep::Read;
                }
                match location {
                    None => {
                        let code: String = decimal(status as u64);
                        DownloadStep::Failed(
                            Failure::new(
                                "HTTP ".to_owned().concat(code.as_str()).concat(
                                    " redirect without Location for ",
                                ).concat(self.current.as_str()),
                            ),
                        )
                    },
                    Some(place) => self.redirect(place.as_str()),
                }
            },
        }
    }

    /// What the download comes to with a redirect to `location`.
    fn redirect(self, location: &str) -> (r: DownloadStep)
        ensures
            r@ == (match resolved(self@.current, location@) {
                Err(failure) => DownloadStepView::Failed(failure),
                Ok(next) => if self@.left > 1 {
                    DownloadStepView::Follow(self@.moved_to(next))
                } else {
                    DownloadStepView::Failed(
                        plain("too many redirects while fetching "@ + self@.url),
                    )
                },
            }),
    {
        match resolve_location(self.current.as_str(), location) {
            Err(failure) => DownloadStep::Failed(failure),
            Ok(next) => {
                if self.left > 1 {
                    let send_auth: bool = self.send_auth && url_host(next.as_str()) == url_host(
                        self.url.as_str(),
                    );
                    let left: u8 = self.left - 1;
                    DownloadStep::Follow(Download { current: next, send_auth, left, ..self })
                } else {
                    DownloadStep::Failed(
                        Failure::new(
                            "too many redirects while fetching ".to_owned().concat(
                                self.url.as_str(),
                            ),
                        ),
                    )
                }
            },
        }
    }
}

/// The requests that a download sends, where `replies` are the replies to them.
pub open spec fn requests_of(download: DownloadView, replies: Seq<ReplyView>) -> Seq<RequestView>
    decreases replies.len(),
{
    if replies.len() == 0 {
        seq![download.request()]
    } else {
        match download.after(replies[0]) {
            DownloadStepView::Follow(next) => seq![download.request()] + requests_of(
                next,
                replies.drop_first(),
            ),
            _ => seq![download.request()],
        }
    }
}

/// What holds of the requests that a download sends from any point on.
proof fn lemma_requests(download: DownloadView, replies: Seq<ReplyView>)
    requires
        download.send_auth ==> download.token is Some && host_of(download.current) == host_of(
            download.url,
        ),
        download.left >= 1,
    ensures
        ({
            let sent = requests_of(download, replies);
            &&& 1 <= sent.len() <= download.left
            &&& sent[0] == download.request()
            &&& forall|k: int|
                0 <= k < sent.len() ==> {
                    &&& (#[trigger] sent[k]).user_agent == download.user_agent
                    &&& sent[k].accept == download.accept
                    &&& sent[k].authorization is Some ==> download.send_auth
                        && sent[k].authorization == bearer_if(download.token) && host_of(
                        sent[k].url,
                    ) == host_of(download.url)
                }
            &&& forall|j: int, k: int|
                0 <= j <= k < sent.len() && (#[trigger] sent[k]).authorization is Some ==> (
                #[trigger] sent[j]).authorization is Some
        }),
    decreases replies.len(),
{
    let sent = requests_of(download, replies);
    if replies.len() > 0 {
        if let DownloadStepView::Follow(next) = download.after(replies[0]) {
            let rest = requests_of(next, replies.drop_first());
            lemma_requests(next, replies.drop_first());
            assert(sent == seq![download.request()] + rest);
            assert forall|k: int| 0 <= k < sent.len() implies {
                &&& (#[trigger] sent[k]).user_agent == download.user_agent
                &&& sent[k].accept == download.accept
                &&& sent[k].authorization is Some ==> download.send_auth && sent[k].authorization
                    == bearer_if(download.token) && host_of(sent[k].url) == host_of(download.url)
            } by {
                if k > 0 {
                    assert(sent[k] == rest[k - 1]);
                }
            }
            assert forall|j: int, k: int|
                0 <= j <= k < sent.len() && (
                #[trigger] sent[k]).authorization is Some implies (
                #[trigger] sent[j]).authorization is Some by {
                if k > 0 {
                    assert(sent[k] == rest[k - 1]);
                    if j > 0 {
                        assert(sent[j] == rest[j - 1]);
                    }
                }
            }
        }
    }
}

/// A token goes to the host that a download begins at and to no other: whatever the replies are,
/// each request that carries a credential goes to that host and carries that token. Once it was
/// kept back it is not sent again.
pub proof fn law_token_stays_with_its_host(
    url: Seq<char>,
    user_agent: Seq<char>,
    token: Option<Seq<char>>,
    accept: Option<Seq<char>>,
    replies: Seq<ReplyView>,
)
    ensures
        ({
            let sent = requests_of(begun(url, user_agent, token, accept), replies);
            &&& sent[0].authorization == bearer_if(token)
            &&& forall|k: int|
                0 <= k < sent.len() && (#[trigger] sent[k]).authorization is Some ==> token is Some
                    && sent[k].authorization == Some(bearer(token->0)) && host_of(sent[k].url)
                    == host_of(url)
            &&& forall|j: int, k: int|
                0 <= j <= k < sent.len() && (#[trigger] sent[j]).authorization is None ==> (
                #[trigger] sent[k]).authorization is None
        }),
{
    lemma_requests(begun(url, user_agent, token, accept), replies);
}

/// A download first asks for what it is of, sends the same `User-Agent` and `Accept` with every
/// request, and sends at most `MAX_REQUESTS` of them, whatever the replies are.
pub proof fn law_downloads_are_bounded(
    url: Seq<char>,
    user_agent: Seq<char>,
    token: Option<Seq<char>>,
    accept: Option<Seq<char>>,
    replies: Seq<ReplyView>,
)
    ensures
        ({
            let sent = requests_of(begun(url, user_agent, token, accept), replies);
            &&& 1 <= sent.len() <= MAX_REQUESTS
            &&& sent[0].url == url
            &&& forall|k: int|
                0 <= k < sent.len() ==> (#[trigger] sent[k]).user_agent == user_agent
                    && sent[k].accept == accept
        }),
{
    lemma_requests(begun(url, user_agent, token, accept), replies);
}

/// Where the first occurrence of `pattern` lies depends on the text up to its end alone.
proof fn lemma_same_start(a: Seq<char>, b: Seq<char>, pattern: Seq<char>, from: int)
    requires
        0 <= from,
        find_from(a, pattern, from) matches Some(i) && {
            &&& i + pattern.len() <= b.len()
            &&& b.take(i + pattern.len()) == a.take(i + pattern.len())
        },
    ensures
        find_from(b, pattern, from) == find_from(a, pattern, from),
        from <= find_from(a, pattern, from)->0,
    decreases a.len() + 1 - from,
{
    let n = pattern.len() as int;
    let i = find_from(a, pattern, from)->0;
    lemma_find_bounds(a, pattern, from);
    assert(b.take(i + n).subrange(from, from + n) == b.subrange(from, from + n));
    assert(a.take(i + n).subrange(from, from + n) == a.subrange(from, from + n));
    if a.subrange(from, from + n) != pattern {
        lemma_same_start(a, b, pattern, from + 1);
    }
}

/// What is found is in the text.
proof fn lemma_find_bounds(text: Seq<char>, pattern: Seq<char>, from: int)
    requires
        0 <= from,
    ensures
        find_from(text, pattern, from) matches Some(i) ==> from <= i && i + pattern.len()
            <= text.len() && text.subrange(i, i + pattern.len()) == pattern,
    decreases text.len() + 1 - from,
{
    if from + pattern.len() <= text.len() && text.subrange(from, from + pattern.len()) != pattern {
        lemma_find_bounds(text, pattern, from + 1);
    }
}

/// A redirect to a path stays on the host.
pub proof fn law_redirect_to_a_path_keeps_the_host(base: Seq<char>, path: Seq<char>)
    requires
        find_in(base, "://"@) is Some,
        after_prefix("/"@ + path, "//"@) is None,
    ensures
        resolved(base, "/"@ + path) matches Ok(next) && host_of(next) == host_of(base),
{
    reveal_strlit("://");
    reveal_strlit("/");
    reveal_strlit("//");
    reveal_strlit("http://");
    reveal_strlit("https://");
    let location = "/"@ + path;
    assert(location[0] == '/');
    assert(location.take(1) == "/"@);
    assert(location.skip(1) == path);
    if location.len() >= 7 {
        assert(location.take(7)[0] == '/');
        assert("http://"@[0] == 'h');
    }
    if location.len() >= 8 {
        assert(location.take(8)[0] == '/');
        assert("https://"@[0] == 'h');
    }
    let i = find_in(base, "://"@)->0;
    lemma_find_bounds(base, "://"@, 0);
    let rest = base.skip(i + 3);
    let host = before(rest, '/');
    let next = base.take(i) + "://"@ + host + "/"@ + path;
    assert(resolved(base, location) == Ok::<Seq<char>, Messages>(next));
    assert(base.take(i + 3) == base.take(i) + base.subrange(i, i + 3));
    assert(next.take(i + 3) == base.take(i + 3));
    lemma_same_start(base, next, "://"@, 0);
    let onward = host + "/"@ + path;
    assert(next.skip(i + 3) == onward);
    lemma_before(rest, '/');
    lemma_before(onward, '/');
    let found = before(onward, '/');
    let n = host.len() as int;
    assert(onward[n] == '/');
    if found.len() > n {
        assert(found[n] == '/');
        assert(found.contains('/'));
    }
    if found.len() < n {
        let m = found.len() as int;
        assert(onward[m] == '/');
        assert(host[m] == '/');
        assert(host.contains('/'));
    }
    assert(found == host);
}

} // verus!
