use collie_waker::app::{
    redirect, redirect_target, timeout_html, timeout_page, wake_reply, STATUS_SERVICE_UNAVAILABLE,
    STATUS_TEMPORARY_REDIRECT,
};
use collie_waker::time::TimeSpan;
use collie_waker::wake::WakeOutcome;

#[test]
fn redirect_target_preserves_path_and_query() {
    assert_eq!(
        redirect_target("collie.example.com", Some("/api/snapshot?since=7")),
        "https://collie.example.com/api/snapshot?since=7"
    );
}

#[test]
fn redirect_target_defaults_to_root() {
    assert_eq!(
        redirect_target("collie.example.com", Some("/")),
        "https://collie.example.com/"
    );
}

#[test]
fn redirect_target_without_a_path_is_the_root() {
    assert_eq!(
        redirect_target("collie.example.com", None),
        "https://collie.example.com/"
    );
}

fn header<'a>(headers: &'a [(String, String)], name: &str) -> &'a str {
    headers
        .iter()
        .find(|(n, _)| n == name)
        .map(|(_, v)| v.as_str())
        .unwrap()
}

#[test]
fn woken_request_gets_a_307_back_to_the_public_host() {
    let reply = wake_reply(
        WakeOutcome::Awake,
        "collie.example.com",
        Some("/api/snapshot?since=7"),
        TimeSpan::from_secs(5),
    );
    assert_eq!(reply.status, STATUS_TEMPORARY_REDIRECT);
    assert_eq!(reply.status, 307);
    assert_eq!(
        header(&reply.headers, "location"),
        "https://collie.example.com/api/snapshot?since=7"
    );
    assert_eq!(header(&reply.headers, "cache-control"), "no-store");
    assert!(reply.body.is_empty());
}

#[test]
fn timed_out_request_gets_the_503_auto_reload_page() {
    let reply = wake_reply(
        WakeOutcome::TimedOut,
        "collie.example.com",
        Some("/"),
        TimeSpan::from_secs(5),
    );
    assert_eq!(reply.status, STATUS_SERVICE_UNAVAILABLE);
    assert_eq!(reply.status, 503);
    assert_eq!(header(&reply.headers, "retry-after"), "5");
    assert_eq!(
        header(&reply.headers, "content-type"),
        "text/html; charset=utf-8"
    );
    assert_eq!(header(&reply.headers, "cache-control"), "no-store");
    assert!(reply.body.contains(r#"http-equiv="refresh" content="5""#));
    assert!(reply.body.contains("Retrying in 5 seconds."));
}

#[test]
fn timeout_page_waits_at_least_one_second() {
    let reply = timeout_page(TimeSpan::from_millis(300));
    assert_eq!(header(&reply.headers, "retry-after"), "1");
    assert!(reply.body.contains(r#"content="1""#));
    let reply = timeout_page(TimeSpan::from_millis(2_999));
    assert_eq!(header(&reply.headers, "retry-after"), "2");
}

#[test]
fn timeout_html_is_the_whole_page() {
    let html = timeout_html(7);
    assert!(html.starts_with("<!DOCTYPE html>\n<html lang=\"en\">"));
    assert!(html.contains("<meta http-equiv=\"refresh\" content=\"7\">"));
    assert!(html.contains("<title>Waking Collie…</title>"));
    assert!(html.contains("  body { font-family: system-ui, sans-serif;"));
    assert!(html.contains("<p>It did not answer in time. Retrying in 7 seconds.</p>"));
    assert!(html.ends_with("</body>\n</html>\n"));
}

#[test]
fn redirect_reply_has_location_then_cache_control() {
    let reply = redirect("h.example", Some("/a?b=c"));
    assert_eq!(
        reply.headers,
        vec![
            ("location".to_string(), "https://h.example/a?b=c".to_string()),
            ("cache-control".to_string(), "no-store".to_string()),
        ]
    );
}
