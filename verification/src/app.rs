//! The waker's HTTP answers, as plain values: the redirect back to the
//! public host once Collie is awake, and the self-reloading 503 page when
//! the wake budget runs out.
use vstd::prelude::*;
use vstd::string::*;

use crate::text::{decimal, u64_to_decimal};
use crate::time::TimeSpan;
use crate::wake::WakeOutcome;

verus! {

/// `307 Temporary Redirect`.
pub const STATUS_TEMPORARY_REDIRECT: u16 = 307;

/// `503 Service Unavailable`.
pub const STATUS_SERVICE_UNAVAILABLE: u16 = 503;

/// The path reserved for the kubelet liveness probe; it never triggers a wake.
pub const HEALTHZ_PATH: &'static str = "/healthz";

/// The 503 page up to the refresh delay.
pub const TIMEOUT_HTML_HEAD: &'static str = r#"<!DOCTYPE html>
<html lang="en">
<head>
<meta charset="utf-8">
<meta name="viewport" content="width=device-width, initial-scale=1">
<meta http-equiv="refresh" content=""#;

/// The 503 page between the refresh delay and the delay in the text.
pub const TIMEOUT_HTML_MIDDLE: &'static str = r#"">
<title>Waking Collie…</title>
<style>
  body { font-family: system-ui, sans-serif; margin: 0; min-height: 100vh;
         display: grid; place-items: center; background: #11131a; color: #e6e8ef; }
  main { text-align: center; padding: 2rem; }
  h1 { font-size: 1.25rem; font-weight: 600; }
  p { color: #9aa0b4; }
</style>
</head>
<body>
<main>
  <h1>Waking the dev box…</h1>
  <p>It did not answer in time. Retrying in "#;

/// The 503 page after the delay in the text.
pub const TIMEOUT_HTML_TAIL: &'static str = r#" seconds.</p>
</main>
</body>
</html>
"#;

/// An HTTP response as plain values: status, headers in order (names in
/// lower case), body.
#[derive(Clone, Debug)]
pub struct Reply {
    pub status: u16,
    pub headers: Vec<(String, String)>,
    pub body: String,
}

impl Reply {
    /// The headers, as pairs of name and value.
    pub open spec fn header_view(&self) -> Seq<(Seq<char>, Seq<char>)> {
        self.headers@.map_values(|h: (String, String)| (h.0@, h.1@))
    }
}

/// Where a woken request is sent back to: the same path and query on the
/// public host, over HTTPS; the root where the request had none.
pub open spec fn spec_redirect_target(public_host: Seq<char>, path_and_query: Option<Seq<char>>) -> Seq<char> {
    "https://"@ + public_host + match path_and_query {
        Some(p) => p,
        None => "/"@,
    }
}

/// The 503 page, reloading itself after `seconds`.
pub open spec fn spec_timeout_html(seconds: nat) -> Seq<char> {
    TIMEOUT_HTML_HEAD@ + decimal(seconds) + TIMEOUT_HTML_MIDDLE@ + decimal(seconds)
        + TIMEOUT_HTML_TAIL@
}

/// The delay the 503 page announces: the whole seconds of `retry_after`,
/// and at least one.
pub open spec fn retry_seconds(retry_after: TimeSpan) -> nat {
    let secs = retry_after@ / 1_000_000_000;
    if secs >= 1 {
        secs
    } else {
        1
    }
}

/// The redirect for a woken request.
pub open spec fn redirect_reply(reply: Reply, public_host: Seq<char>, path_and_query: Option<Seq<char>>) -> bool {
    &&& reply.status == STATUS_TEMPORARY_REDIRECT
    &&& reply.header_view().len() == 2
    &&& reply.header_view()[0] == ("location"@, spec_redirect_target(public_host, path_and_query))
    &&& reply.header_view()[1] == ("cache-control"@, "no-store"@)
    &&& reply.body@ == Seq::<char>::empty()
}

/// The 503 auto-reload page for a request whose wake budget ran out.
pub open spec fn timeout_reply(reply: Reply, retry_after: TimeSpan) -> bool {
    let seconds = retry_seconds(retry_after);
    &&& reply.status == STATUS_SERVICE_UNAVAILABLE
    &&& reply.header_view().len() == 3
    &&& reply.header_view()[0] == ("content-type"@, "text/html; charset=utf-8"@)
    &&& reply.header_view()[1] == ("cache-control"@, "no-store"@)
    &&& reply.header_view()[2] == ("retry-after"@, decimal(seconds))
    &&& reply.body@ == spec_timeout_html(seconds)
}

/// Send the client back to the same URL on the public host; `path_and_query`
/// is the request's path and query, where its target has one.
pub fn redirect_target(public_host: &str, path_and_query: Option<&str>) -> (t: String)
    ensures
        t@ == spec_redirect_target(public_host@, match path_and_query {
            Some(p) => Some(p@),
            None => None,
        }),
        t@ == "https://"@ + public_host@ + match path_and_query {
            Some(p) => p@,
            None => "/"@,
        },
{
    let mut target = String::from_str("https://");
    target.append(public_host);
    match path_and_query {
        Some(p) => target.append(p),
        None => target.append("/"),
    }
    target
}

/// The redirect keeps the request's path and query verbatim: the target is
/// `https://`, then the public host, then the path and query unchanged, so
/// two requests on one host are sent to the same place only where their
/// paths and queries are the same.
pub proof fn lemma_redirect_keeps_path_and_query(public_host: Seq<char>, p: Seq<char>, q: Seq<char>)
    ensures
        spec_redirect_target(public_host, Some(p)).len() == 8 + public_host.len() + p.len(),
        spec_redirect_target(public_host, Some(p)).take(8) == "https://"@,
        spec_redirect_target(public_host, Some(p)).subrange(8, 8 + public_host.len() as int) == public_host,
        spec_redirect_target(public_host, Some(p)).skip(8 + public_host.len() as int) == p,
        spec_redirect_target(public_host, None) == spec_redirect_target(public_host, Some("/"@)),
        (spec_redirect_target(public_host, Some(p)) == spec_redirect_target(public_host, Some(q)))
            <==> p == q,
{
    reveal_strlit("https://");
    let t = spec_redirect_target(public_host, Some(p));
    let u = spec_redirect_target(public_host, Some(q));
    assert(t.take(8) =~= "https://"@);
    assert(t.subrange(8, 8 + public_host.len() as int) =~= public_host);
    assert(t.skip(8 + public_host.len() as int) =~= p);
    assert(u.skip(8 + public_host.len() as int) =~= q);
    if t == u {
        assert(p =~= q);
    }
}

fn pair(name: &str, value: String) -> (h: (String, String))
    ensures
        h.0@ == name@,
        h.1@ == value@,
{
    (String::from_str(name), value)
}

/// Send the client back to the same URL on the public host. Traefik's failover
/// should now pick the primary, so the retry reaches Collie itself.
pub fn redirect(public_host: &str, path_and_query: Option<&str>) -> (reply: Reply)
    ensures
        redirect_reply(reply, public_host@, match path_and_query {
            Some(p) => Some(p@),
            None => None,
        }),
{
    let location = redirect_target(public_host, path_and_query);
    let mut headers: Vec<(String, String)> = Vec::new();
    headers.push(pair("location", location));
    headers.push(pair("cache-control", String::from_str("no-store")));
    let reply = Reply { status: STATUS_TEMPORARY_REDIRECT, headers, body: String::new() };
    assert(reply.header_view() =~= seq![
        ("location"@, spec_redirect_target(public_host@, match path_and_query {
            Some(p) => Some(p@),
            None => None,
        })),
        ("cache-control"@, "no-store"@),
    ]);
    assert(reply.body@ =~= Seq::<char>::empty());
    reply
}

/// The body of the 503 page.
pub fn timeout_html(seconds: u64) -> (html: String)
    ensures
        html@ == spec_timeout_html(seconds as nat),
{
    let delay = u64_to_decimal(seconds);
    let mut html = String::from_str(TIMEOUT_HTML_HEAD);
    html.append(delay.as_str());
    html.append(TIMEOUT_HTML_MIDDLE);
    html.append(delay.as_str());
    html.append(TIMEOUT_HTML_TAIL);
    html
}

/// The 503 page that reloads itself after `retry_after`, at least one second.
pub fn timeout_page(retry_after: TimeSpan) -> (reply: Reply)
    ensures
        timeout_reply(reply, retry_after),
{
    let whole = retry_after.as_secs();
    let seconds: u64 = if whole >= 1 {
        whole
    } else {
        1
    };
    let mut headers: Vec<(String, String)> = Vec::new();
    headers.push(pair("content-type", String::from_str("text/html; charset=utf-8")));
    headers.push(pair("cache-control", String::from_str("no-store")));
    headers.push(pair("retry-after", u64_to_decimal(seconds)));
    let reply = Reply {
        status: STATUS_SERVICE_UNAVAILABLE,
        headers,
        body: timeout_html(seconds),
    };
    assert(reply.header_view() =~= seq![
        ("content-type"@, "text/html; charset=utf-8"@),
        ("cache-control"@, "no-store"@),
        ("retry-after"@, decimal(seconds as nat)),
    ]);
    reply
}

/// The answer to a wake request once the wake is over: the redirect where
/// Collie woke up, the 503 page where the budget ran out.
pub fn wake_reply(
    outcome: WakeOutcome,
    public_host: &str,
    path_and_query: Option<&str>,
    retry_after: TimeSpan,
) -> (reply: Reply)
    ensures
        outcome == WakeOutcome::Awake ==> redirect_reply(reply, public_host@, match path_and_query {
            Some(p) => Some(p@),
            None => None,
        }),
        outcome == WakeOutcome::TimedOut ==> timeout_reply(reply, retry_after),
{
    match outcome {
        WakeOutcome::Awake => redirect(public_host, path_and_query),
        WakeOutcome::TimedOut => timeout_page(retry_after),
    }
}

} // verus!
