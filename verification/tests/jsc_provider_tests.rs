use unity_dlp::jsc_provider::{
    js_max_heap_bytes, run_js, run_js_limited, wrap_script, JS_EPILOGUE, JS_MAX_HEAP_BYTES_DESKTOP,
    JS_MAX_HEAP_BYTES_MOBILE, JS_PRELUDE, JS_TIMEOUT_SECS,
};

#[test]
fn captures_console_output() {
    let out = run_js("console.log('ok')").expect("script should evaluate");
    assert_eq!(out.trim(), "ok");
}

#[test]
fn a_trailing_line_comment_does_not_swallow_the_wrapper() {
    let out = run_js("console.log('ok') // trailing comment")
        .expect("a script ending in a line comment must still evaluate");
    assert_eq!(out.trim(), "ok");
}

/// The point of the engine budget: a script that never returns has to be
/// stopped by the engine.
#[test]
fn a_runaway_script_is_terminated() {
    let budget = std::time::Duration::from_secs(JS_TIMEOUT_SECS);
    let started = std::time::Instant::now();
    let errored = run_js("while (true) {}").is_err();
    let elapsed = started.elapsed();

    assert!(errored, "an infinite loop must not return Ok");
    assert!(
        elapsed < budget * 3,
        "expected termination near the {budget:?} budget, took {elapsed:?}"
    );
}

#[test]
fn all_console_channels_are_captured_in_order() {
    let out = run_js("console.log('a', 1); console.warn('b'); console.error('c')").unwrap();
    assert_eq!(out, "a 1\nb\nc");
}

#[test]
fn a_script_error_is_reported_as_an_engine_failure() {
    let err = run_js("throw new Error('nope')").unwrap_err();
    assert!(err.starts_with("rquickjs: "), "{err}");
}

#[test]
fn the_mobile_heap_limit_still_runs_small_scripts() {
    let out = run_js_limited("console.log('small')", js_max_heap_bytes(true)).unwrap();
    assert_eq!(out, "small");
}

#[test]
fn heap_limits_by_platform() {
    assert_eq!(js_max_heap_bytes(false), JS_MAX_HEAP_BYTES_DESKTOP);
    assert_eq!(js_max_heap_bytes(true), JS_MAX_HEAP_BYTES_MOBILE);
    assert_eq!(JS_MAX_HEAP_BYTES_DESKTOP, 256 * 1024 * 1024);
    assert_eq!(JS_MAX_HEAP_BYTES_MOBILE, 64 * 1024 * 1024);
}

#[test]
fn the_wrapper_surrounds_the_script() {
    let wrapped = wrap_script("x()");
    assert_eq!(wrapped, format!("{JS_PRELUDE}x(){JS_EPILOGUE}"));
    assert!(wrapped.starts_with("(function(){var __out=[];"));
    assert!(wrapped.ends_with("\n;return __out.join('\\n');})()"));
}
