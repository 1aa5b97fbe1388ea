use unity_dlp::extract::{
    acquire_slot, classify, max_result_bytes, release_slot, settle, settle_snippet, ErrorKind,
    ExtractError, RaisedException, SnippetOutcome, WorkerOutcome, EXTRACT_DEADLINE_SECS,
    MAX_IN_FLIGHT, MAX_RESULT_BYTES_DESKTOP, MAX_RESULT_BYTES_MOBILE, PY_EXTRACT_TIMEOUT_SECS,
};
use unity_dlp::jsc_provider::JS_TIMEOUT_SECS;

fn raised(js: bool, timeout: bool, os: bool) -> RaisedException {
    RaisedException { is_js_error: js, is_timeout_error: timeout, is_os_error: os }
}

fn kind_of(e: &ExtractError) -> &'static str {
    match e {
        ExtractError::Python(_) => "python",
        ExtractError::Network(_) => "network",
        ExtractError::Js(_) => "js",
        ExtractError::Timeout(_) => "timeout",
        ExtractError::Busy(_) => "busy",
        ExtractError::TooLarge(_) => "too_large",
    }
}

#[test]
fn budgets_fire_innermost_first() {
    assert!(JS_TIMEOUT_SECS < PY_EXTRACT_TIMEOUT_SECS);
    assert!(PY_EXTRACT_TIMEOUT_SECS < EXTRACT_DEADLINE_SECS);
}

#[test]
fn a_timeout_is_not_reported_as_a_network_failure() {
    // TimeoutError derives from OSError.
    let e = classify(raised(false, true, true), "t".to_string());
    assert_eq!(kind_of(&e), "timeout");
}

#[test]
fn classification_follows_the_class_not_the_text() {
    assert_eq!(kind_of(&classify(raised(true, false, true), "Network".into())), "js");
    assert_eq!(kind_of(&classify(raised(false, false, true), "x".into())), "network");
    assert_eq!(kind_of(&classify(raised(false, false, false), "Network timeout".into())), "python");
}

#[test]
fn the_message_is_kept_whatever_the_kind() {
    let e = ExtractError::of_kind(ErrorKind::Js, "engine broke".to_string());
    assert_eq!(e.message(), "engine broke");
    assert_eq!(ExtractError::TooLarge("big".into()).message(), "big");
}

#[test]
fn the_fifth_extraction_is_busy() {
    let mut count = 0;
    for _ in 0..MAX_IN_FLIGHT {
        count = acquire_slot(count).ok().unwrap();
    }
    assert_eq!(count, 4);
    let err = acquire_slot(count).unwrap_err();
    assert_eq!(kind_of(&err), "busy");
    assert_eq!(err.message(), "4 extractions already in flight; try again later");
    assert_eq!(acquire_slot(release_slot(count)).ok(), Some(4));
}

#[test]
fn waiting_outcomes_are_settled() {
    let e = settle(WorkerOutcome::TimedOut).unwrap_err();
    assert_eq!(kind_of(&e), "timeout");
    assert_eq!(e.message(), "extraction exceeded 20s and was abandoned");

    let e = settle(WorkerOutcome::Disconnected).unwrap_err();
    assert_eq!(kind_of(&e), "python");
    assert_eq!(e.message(), "extraction thread ended without producing a result");

    let e = settle(WorkerOutcome::SpawnFailed("no threads".into())).unwrap_err();
    assert_eq!(e.message(), "could not start extraction thread: no threads");

    assert_eq!(settle(WorkerOutcome::Finished(Ok("{}".into()))).ok(), Some("{}".to_string()));
}

#[test]
fn snippet_outcomes_are_settled() {
    let e = settle_snippet(SnippetOutcome::TooLarge(Some(70000000)), MAX_RESULT_BYTES_DESKTOP)
        .unwrap_err();
    assert_eq!(kind_of(&e), "too_large");
    assert_eq!(
        e.message(),
        "extraction result is 70000000 bytes, over the 67108864-byte limit"
    );

    let e = settle_snippet(SnippetOutcome::TooLarge(None), MAX_RESULT_BYTES_MOBILE).unwrap_err();
    assert_eq!(e.message(), "extraction result is 0 bytes, over the 16777216-byte limit");

    let e = settle_snippet(
        SnippetOutcome::Raised(raised(false, false, true), "URLError: boom".into()),
        MAX_RESULT_BYTES_DESKTOP,
    )
    .unwrap_err();
    assert_eq!(kind_of(&e), "network");
    assert_eq!(e.message(), "yt-dlp extraction failed: URLError: boom");

    let e = settle_snippet(
        SnippetOutcome::SetupFailed("_url".into(), "bad".into()),
        MAX_RESULT_BYTES_DESKTOP,
    )
    .unwrap_err();
    assert_eq!(e.message(), "set _url: bad");

    let e = settle_snippet(SnippetOutcome::Missing, 1).unwrap_err();
    assert_eq!(e.message(), "extraction produced no result");
    let e = settle_snippet(SnippetOutcome::ReadFailed("r".into()), 1).unwrap_err();
    assert_eq!(e.message(), "read _result: r");
    let e = settle_snippet(SnippetOutcome::NotAString("n".into()), 1).unwrap_err();
    assert_eq!(e.message(), "_result is not a string: n");

    assert_eq!(
        settle_snippet(SnippetOutcome::Produced("{\"a\":1}".into()), 1).ok(),
        Some("{\"a\":1}".to_string())
    );
}

#[test]
fn result_ceilings_by_platform() {
    assert_eq!(max_result_bytes(false), 64 * 1024 * 1024);
    assert_eq!(max_result_bytes(true), 16 * 1024 * 1024);
}

#[test]
fn the_count_follows_the_live_permits() {
    // Five asks, two admitted releases, then more asks: never above four.
    let mut count = 0usize;
    let mut live = 0usize;
    for step in ["a", "a", "a", "a", "a", "r", "r", "a", "a", "a"] {
        if step == "a" {
            if let Ok(n) = acquire_slot(count) {
                count = n;
                live += 1;
            }
        } else {
            count = release_slot(count);
            live -= 1;
        }
        assert_eq!(count, live);
        assert!(count <= MAX_IN_FLIGHT);
    }
    assert_eq!(count, 4);
}
