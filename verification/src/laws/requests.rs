//! Laws of requests, redirects and downloads.

use crate::failure::Messages;
use crate::http::{
    bearer_if, begun, host_of, requests_of, resolved, DownloadStepView, DownloadView,
    ReplyView, RequestView,
};
use crate::laws::texts::{law_after_prefix, law_before, law_before_last};
use crate::text::{after_prefix, ascii_lower, before, before_last, decimal_of, find_in};
use vstd::prelude::*;
use vstd::string::*;

verus! {

/// Whether `text` ends with `end`.
pub open spec fn ends_with(text: Seq<char>, end: Seq<char>) -> bool {
    &&& end.len() <= text.len()
    &&& text.skip(text.len() - end.len()) == end
}

/// A redirect to an absolute URL leads to that URL, all of it, whatever was asked for.
pub proof fn law_redirect_to_a_url(base: Seq<char>, rest: Seq<char>)
    ensures
        resolved(base, "http://"@ + rest) == Ok::<Seq<char>, Messages>("http://"@ + rest),
        resolved(base, "https://"@ + rest) == Ok::<Seq<char>, Messages>("https://"@ + rest),
{
    law_after_prefix("http://"@ + rest, "http://"@, rest);
    law_after_prefix("https://"@ + rest, "https://"@, rest);
}

/// Whether a text is an absolute URL.
pub open spec fn is_url(text: Seq<char>) -> bool {
    after_prefix(text, "http://"@) is Some || after_prefix(text, "https://"@) is Some
}

/// A redirect leads nowhere exactly if it is to no absolute URL and what was asked for is none
/// either. Else it leads to something that ends with all of the location, or, where the location
/// begins with two slashes, with all that follows them.
pub proof fn law_redirect_keeps_the_location(base: Seq<char>, location: Seq<char>)
    ensures
        match resolved(base, location) {
            Err(why) => !is_url(location) && find_in(base, "://"@) is None && why == seq![
                "cannot resolve redirect against non-absolute base "@ + base,
            ],
            Ok(next) => {
                &&& is_url(location) || find_in(base, "://"@) is Some
                &&& is_url(location) ==> next == location
                &&& ends_with(next, location) || after_prefix(location, "//"@) is Some
                &&& after_prefix(location, "//"@) matches Some(other) ==> ends_with(next, other)
            },
        },
{
    reveal_strlit("/");
    if let Ok(next) = resolved(base, location) {
        if is_url(location) {
            assert(next.skip(0) == location);
            if let Some(other) = after_prefix(location, "//"@) {
                let n = next.len() - other.len();
                assert(next.skip(n) == other);
            }
        } else {
            let i = find_in(base, "://"@)->0;
            let scheme = base.take(i);
            let rest = base.skip(i + "://"@.len());
            match (after_prefix(location, "//"@), after_prefix(location, "/"@)) {
                (Some(other), _) => {
                    assert(next == scheme + "://"@ + other);
                    assert(next.skip(next.len() - other.len()) == other);
                },
                (None, Some(path)) => {
                    law_after_prefix(location, "/"@, path);
                    let head = scheme + "://"@ + before(rest, '/');
                    assert(next == head + "/"@ + path);
                    assert(next == head + location);
                    assert(next.skip(next.len() - location.len()) == location);
                },
                (None, None) => {
                    let head = before_last(before(base, '?'), '/') + "/"@;
                    assert(next == head + location);
                    assert(next.skip(next.len() - location.len()) == location);
                },
            }
        }
    }
}

/// Whether `base` is made of a scheme, an authority and, if there is more, a path that begins with a
/// slash.
pub open spec fn made_of(
    base: Seq<char>,
    scheme: Seq<char>,
    authority: Seq<char>,
    path: Seq<char>,
) -> bool {
    &&& base == scheme + "://"@ + authority + path
    &&& find_in(base, "://"@) == Some(scheme.len() as int)
    &&& !authority.contains('/')
    &&& path.len() > 0 ==> path[0] == '/'
}

/// What stands before the path.
proof fn lemma_authority(authority: Seq<char>, path: Seq<char>)
    requires
        !authority.contains('/'),
        path.len() > 0 ==> path[0] == '/',
    ensures
        before(authority + path, '/') == authority,
{
    if path.len() == 0 {
        assert(authority + path == authority);
        law_before(authority, '/', seq![]);
    } else {
        law_before(authority, '/', path.drop_first());
        assert(authority + path == authority.push('/') + path.drop_first());
    }
}

/// The host of a URL is its authority in lower case; where there is no `://` it is empty.
pub proof fn law_host(
    base: Seq<char>,
    scheme: Seq<char>,
    authority: Seq<char>,
    path: Seq<char>,
)
    ensures
        made_of(base, scheme, authority, path) ==> host_of(base) == ascii_lower(authority),
        find_in(base, "://"@) is None ==> host_of(base).len() == 0,
{
    if made_of(base, scheme, authority, path) {
        lemma_authority(authority, path);
        assert(base.skip(scheme.len() as int + "://"@.len()) == authority + path);
    }
}

/// A redirect that begins with two slashes leads to what follows them under the same scheme; one
/// that begins with one slash leads to that path on the same host.
pub proof fn law_redirect_on_the_host(
    base: Seq<char>,
    scheme: Seq<char>,
    authority: Seq<char>,
    path: Seq<char>,
    rest: Seq<char>,
)
    requires
        made_of(base, scheme, authority, path),
    ensures
        resolved(base, "//"@ + rest) == Ok::<Seq<char>, Messages>(scheme + "://"@ + rest),
        rest.len() == 0 || rest[0] != '/' ==> resolved(base, "/"@ + rest) == Ok::<
            Seq<char>,
            Messages,
        >(scheme + "://"@ + authority + "/"@ + rest),
{
    reveal_strlit("/");
    reveal_strlit("//");
    reveal_strlit("http://");
    reveal_strlit("https://");
    assert("http://"@[0] == 'h' && "https://"@[0] == 'h');
    assert("/"@[0] == '/' && "//"@[0] == '/' && "//"@[1] == '/');
    let one = "/"@ + rest;
    let two = "//"@ + rest;
    assert(one[0] == '/' && two[0] == '/');
    assert(!is_url(one)) by {
        if one.len() >= 7 {
            assert(one.take(7)[0] == '/');
        }
        if one.len() >= 8 {
            assert(one.take(8)[0] == '/');
        }
    }
    assert(!is_url(two)) by {
        if two.len() >= 7 {
            assert(two.take(7)[0] == '/');
        }
        if two.len() >= 8 {
            assert(two.take(8)[0] == '/');
        }
    }
    law_after_prefix(two, "//"@, rest);
    law_after_prefix(one, "/"@, rest);
    lemma_authority(authority, path);
    assert(base.skip(scheme.len() as int + "://"@.len()) == authority + path);
    assert(base.take(scheme.len() as int) == scheme);
    if rest.len() == 0 || rest[0] != '/' {
        if one.len() >= 2 {
            assert(one.take(2)[1] == rest[0]);
        }
        assert(after_prefix(one, "//"@) is None);
    }
}

/// Any other redirect leads to a sibling of what was asked for: the last part of the path, and a
/// query if there is one, make way for the location.
pub proof fn law_redirect_to_a_sibling(
    dir: Seq<char>,
    name: Seq<char>,
    query: Seq<char>,
    location: Seq<char>,
)
    requires
        find_in(dir.push('/') + name + query, "://"@) is Some,
        !dir.contains('?'),
        !name.contains('?'),
        !name.contains('/'),
        query.len() > 0 ==> query[0] == '?',
        !is_url(location),
        after_prefix(location, "/"@) is None,
    ensures
        resolved(dir.push('/') + name + query, location) == Ok::<Seq<char>, Messages>(
            dir.push('/') + location,
        ),
{
    reveal_strlit("/");
    reveal_strlit("//");
    let path = dir.push('/') + name;
    let base = path + query;
    assert(!path.contains('?')) by {
        if path.contains('?') {
            let i = choose|i: int| 0 <= i < path.len() && path[i] == '?';
            if i < dir.len() {
                assert(dir[i] == '?');
            } else if i > dir.len() {
                assert(name[i - dir.len() - 1] == '?');
            }
        }
    }
    if query.len() == 0 {
        assert(base == path);
        law_before(path, '?', seq![]);
    } else {
        law_before(path, '?', query.drop_first());
        assert(base == path.push('?') + query.drop_first());
    }
    law_before_last(dir, '/', name);
    if after_prefix(location, "//"@) is Some {
        assert(location.take(2)[0] == '/');
        assert(location.take(1) == "/"@);
    }
    assert(dir + "/"@ + location == dir.push('/') + location);
}

/// A token is sent as a bearer token; without one there is no such header.
pub proof fn law_bearer(token: Seq<char>)
    ensures
        bearer_if(Some(token)) matches Some(header) && ends_with(header, token) && header.len()
            == token.len() + 7 && header.take(7) == "Bearer "@,
        bearer_if(None) is None,
{
    reveal_strlit("Bearer ");
    let header = bearer_if(Some(token))->0;
    assert(header.skip(header.len() - token.len()) == token);
    assert(header.take(7) == "Bearer "@);
}

/// A response that is no redirect is read. A redirect is followed where it leads somewhere and
/// requests are left, and then what is asked for, the headers and the token are the same, and the
/// token is sent on if it was and the host is the one that the download began at.
pub proof fn law_download_goes_on(download: DownloadView, status: u16, location: Option<Seq<char>>)
    ensures
        ({
            let step = download.after(ReplyView::Response { status, location });
            &&& step is Read <==> status < 300 || status > 399
            &&& step matches DownloadStepView::Follow(next) ==> {
                &&& 300 <= status <= 399
                &&& location matches Some(place)
                &&& resolved(download.current, place) == Ok::<Seq<char>, Messages>(next.current)
                &&& next.url == download.url
                &&& next.user_agent == download.user_agent
                &&& next.token == download.token
                &&& next.accept == download.accept
                &&& next.left == download.left - 1
                &&& next.send_auth <==> download.send_auth && host_of(next.current) == host_of(
                    download.url,
                )
            }
            &&& 300 <= status <= 399 && download.left > 1 ==> (location matches Some(place) ==> (
            resolved(download.current, place) is Ok ==> step is Follow))
        }),
{
}

/// Where a download fails, one message says so. It names what was asked for last, and the status or
/// the reason; that it was not found is explained to those who have no token. Too many redirects are
/// blamed on what the download is of.
pub proof fn law_download_fails(download: DownloadView, reply: ReplyView)
    ensures
        download.after(reply) matches DownloadStepView::Failed(why) ==> {
            &&& why.len() == 1
            &&& match reply {
                ReplyView::Unreachable(reason) => why[0] == "GET "@ + download.current + ": "@
                    + reason,
                ReplyView::ErrorStatus(status) => if status == 404 && download.token is None {
                    why[0] == "GET "@ + download.current
                        + " returned HTTP 404; GitHub returns 404 for unauthenticated private release assets; configure a token with UpdaterConfig::with_github_token, with_gh_account, or with_gh_token_fallback"@
                } else {
                    why[0] == "GET "@ + download.current + " returned HTTP "@ + decimal_of(
                        status as nat,
                    )
                },
                ReplyView::Response { status, location } => 300 <= status <= 399 && match location {
                    None => why[0] == "HTTP "@ + decimal_of(status as nat)
                        + " redirect without Location for "@ + download.current,
                    Some(place) => match resolved(download.current, place) {
                        Err(cause) => why == cause,
                        Ok(_) => download.left <= 1 && why[0]
                            == "too many redirects while fetching "@ + download.url,
                    },
                },
            }
        },
        !(reply is Response) ==> download.after(reply) is Failed,
{
}

/// A request asks for where the redirects have led, with the headers of the download, and carries
/// the token exactly if that is still sent.
pub proof fn law_download_request(download: DownloadView)
    ensures
        download.request().url == download.current,
        download.request().user_agent == download.user_agent,
        download.request().accept == download.accept,
        download.send_auth ==> download.request().authorization == bearer_if(download.token),
        !download.send_auth ==> download.request().authorization is None,
{
}

/// Whether the reply to a request for `url` sends the download on to `next`.
pub open spec fn leads_to(url: Seq<char>, reply: ReplyView, next: Seq<char>) -> bool {
    reply matches ReplyView::Response { status, location: Some(place) } && 300 <= status <= 399
        && resolved(url, place) == Ok::<Seq<char>, Messages>(next)
}

/// Whether the `k`th request of a download of `url` is for where the reply to the one before it
/// leads, and carries the token if that one did and it goes to the host that the download began at.
pub open spec fn follows_on(
    url: Seq<char>,
    sent: Seq<RequestView>,
    replies: Seq<ReplyView>,
    k: int,
) -> bool {
    &&& leads_to(sent[k - 1].url, replies[k - 1], sent[k].url)
    &&& host_of(sent[k].url) == host_of(url) ==> sent[k].authorization == sent[k
        - 1].authorization
    &&& host_of(sent[k].url) != host_of(url) ==> sent[k].authorization is None
}

/// Each request of a download after the first is for where the reply to the one before it leads. It
/// carries the token if the one before it did and it goes to the host that the download began at.
pub proof fn law_redirects_are_followed(
    url: Seq<char>,
    user_agent: Seq<char>,
    token: Option<Seq<char>>,
    accept: Option<Seq<char>>,
    replies: Seq<ReplyView>,
)
    ensures
        ({
            let sent = requests_of(begun(url, user_agent, token, accept), replies);
            &&& sent.len() <= replies.len() + 1
            &&& forall|k: int|
                0 < k < sent.len() ==> #[trigger] follows_on(url, sent, replies, k)
        }),
{
    lemma_follows(begun(url, user_agent, token, accept), replies);
}

/// What holds of the requests of a download from any point on.
proof fn lemma_follows(download: DownloadView, replies: Seq<ReplyView>)
    ensures
        ({
            let sent = requests_of(download, replies);
            &&& 1 <= sent.len() <= replies.len() + 1
            &&& sent[0] == download.request()
            &&& forall|k: int|
                0 < k < sent.len() ==> #[trigger] follows_on(download.url, sent, replies, k)
        }),
    decreases replies.len(),
{
    let sent = requests_of(download, replies);
    if replies.len() > 0 {
        if let DownloadStepView::Follow(next) = download.after(replies[0]) {
            let fewer = replies.drop_first();
            let rest = requests_of(next, fewer);
            lemma_follows(next, fewer);
            assert(sent == seq![download.request()] + rest);
            assert(leads_to(download.current, replies[0], next.current));
            assert forall|k: int| 0 < k < sent.len() implies #[trigger] follows_on(
                download.url,
                sent,
                replies,
                k,
            ) by {
                assert(sent[k] == rest[k - 1]);
                if k > 1 {
                    assert(follows_on(next.url, rest, fewer, k - 1));
                    assert(sent[k - 1] == rest[k - 2]);
                    assert(replies[k - 1] == fewer[k - 2]);
                } else {
                    assert(sent[0] == download.request());
                    assert(rest[0] == next.request());
                }
            }
        }
    }
}

/// A download does not give up early: as long as replies lead on, it sends the next request, up to
/// ten in all.
pub proof fn law_ten_requests(
    url: Seq<char>,
    user_agent: Seq<char>,
    token: Option<Seq<char>>,
    accept: Option<Seq<char>>,
    places: Seq<Seq<char>>,
)
    requires
        forall|k: int| 0 <= k < places.len() ==> is_url(#[trigger] places[k]),
    ensures
        ({
            let replies = places.map_values(
                |place: Seq<char>| ReplyView::Response { status: 302, location: Some(place) },
            );
            let sent = requests_of(begun(url, user_agent, token, accept), replies);
            &&& sent.len() == if places.len() < 10 {
                places.len() + 1
            } else {
                10
            }
            &&& forall|k: int| 0 < k < sent.len() ==> (#[trigger] sent[k]).url == places[k - 1]
        }),
{
    lemma_goes_on(begun(url, user_agent, token, accept), places);
}

/// A download whose replies all lead on sends what it may.
proof fn lemma_goes_on(download: DownloadView, places: Seq<Seq<char>>)
    requires
        1 <= download.left,
        forall|k: int| 0 <= k < places.len() ==> is_url(#[trigger] places[k]),
    ensures
        ({
            let replies = places.map_values(
                |place: Seq<char>| ReplyView::Response { status: 302, location: Some(place) },
            );
            let sent = requests_of(download, replies);
            &&& sent.len() == if places.len() < download.left {
                places.len() + 1
            } else {
                download.left as nat
            }
            &&& sent[0] == download.request()
            &&& forall|k: int| 0 < k < sent.len() ==> (#[trigger] sent[k]).url == places[k - 1]
        }),
    decreases places.len(),
{
    let replies = places.map_values(
        |place: Seq<char>| ReplyView::Response { status: 302, location: Some(place) },
    );
    let sent = requests_of(download, replies);
    if places.len() > 0 {
        let fewer = places.drop_first();
        let rest_replies = fewer.map_values(
            |place: Seq<char>| ReplyView::Response { status: 302, location: Some(place) },
        );
        assert(replies.drop_first() == rest_replies);
        assert(is_url(places[0]));
        assert(resolved(download.current, places[0]) == Ok::<Seq<char>, Messages>(places[0]));
        if let DownloadStepView::Follow(next) = download.after(replies[0]) {
            assert forall|k: int| 0 <= k < fewer.len() implies is_url(#[trigger] fewer[k]) by {
                assert(fewer[k] == places[k + 1]);
            }
            lemma_goes_on(next, fewer);
            let rest = requests_of(next, rest_replies);
            assert(sent == seq![download.request()] + rest);
            assert forall|k: int| 0 < k < sent.len() implies (#[trigger] sent[k]).url
                == places[k - 1] by {
                assert(sent[k] == rest[k - 1]);
                if k > 1 {
                    assert(fewer[k - 2] == places[k - 1]);
                }
            }
        }
    }
}

} // verus!
