use unity_dlp::extract::ExtractError;
use unity_dlp::ffi::{
    copy_into, deliver, error_code, init_arguments, panic_detail, CText, Delivery, InitStart,
    Lifecycle, PanicPayload, MAX_LAST_ERROR_BYTES, UNITY_DLP_ERR_BUF, UNITY_DLP_ERR_BUSY,
    UNITY_DLP_ERR_INIT, UNITY_DLP_ERR_JS, UNITY_DLP_ERR_NET, UNITY_DLP_ERR_PYTHON,
    UNITY_DLP_ERR_TIMEOUT, UNITY_DLP_ERR_TOO_LARGE, UNITY_DLP_OK, UNITY_DLP_OK_DEGRADED, VERSION,
};

#[test]
fn first_init_runs_and_later_ones_echo_its_code() {
    let mut lc = Lifecycle::new();
    assert!(!lc.is_ready());
    assert_eq!(lc.begin_init(), InitStart::Run);
    assert_eq!(lc.complete_init(Ok(Some("no shim".into()))), UNITY_DLP_OK_DEGRADED);
    assert!(lc.is_ready());
    assert_eq!(lc.last_error(), "no shim");
    assert_eq!(lc.begin_init(), InitStart::Return(UNITY_DLP_OK_DEGRADED));
    assert_eq!(lc.begin_init(), InitStart::Return(UNITY_DLP_OK_DEGRADED));
}

#[test]
fn a_clean_init_reports_ok() {
    let mut lc = Lifecycle::new();
    assert_eq!(lc.begin_init(), InitStart::Run);
    assert_eq!(lc.complete_init(Ok(None)), UNITY_DLP_OK);
    assert_eq!(lc.begin_init(), InitStart::Return(UNITY_DLP_OK));
    assert_eq!(lc.last_error(), "");
}

#[test]
fn a_concurrent_init_is_refused() {
    let mut lc = Lifecycle::new();
    assert_eq!(lc.begin_init(), InitStart::Run);
    assert_eq!(lc.begin_init(), InitStart::Return(UNITY_DLP_ERR_INIT));
    assert_eq!(
        lc.last_error(),
        "initialisation is already in progress on another thread"
    );
    assert!(!lc.is_ready());
}

#[test]
fn a_failed_init_is_terminal_and_keeps_its_reason() {
    let mut lc = Lifecycle::new();
    assert_eq!(lc.begin_init(), InitStart::Run);
    assert_eq!(lc.complete_init(Err("no stdlib".into())), UNITY_DLP_ERR_INIT);
    // A later extraction overwrites the slot.
    let refused = lc.begin_extract(CText::Text("https://x".into()), false, CText::Null);
    assert_eq!(refused.err(), Some(UNITY_DLP_ERR_INIT));
    assert_eq!(lc.last_error(), "library not initialised; call unity_dlp_init first");
    // The next init restores the original reason.
    assert_eq!(lc.begin_init(), InitStart::Return(UNITY_DLP_ERR_INIT));
    assert_eq!(lc.last_error(), "no stdlib");
    assert_eq!(lc.shutdown(), UNITY_DLP_OK);
    assert_eq!(lc.begin_init(), InitStart::Return(UNITY_DLP_ERR_INIT));
}

#[test]
fn bad_arguments_leave_init_retryable() {
    let mut lc = Lifecycle::new();
    assert_eq!(lc.begin_init(), InitStart::Run);
    let reason = init_arguments(CText::NotUtf8, CText::Null).unwrap_err();
    assert_eq!(reason, "python_home is not valid UTF-8");
    assert_eq!(lc.abandon_init(reason), UNITY_DLP_ERR_INIT);
    assert_eq!(lc.last_error(), "python_home is not valid UTF-8");
    assert_eq!(lc.begin_init(), InitStart::Run);
}

#[test]
fn init_arguments_decode() {
    assert_eq!(
        init_arguments(CText::Null, CText::Text("a.zip".into())).unwrap(),
        (String::new(), "a.zip".to_string())
    );
    assert_eq!(
        init_arguments(CText::Text("/py".into()), CText::NotUtf8).unwrap_err(),
        "packages_path is not valid UTF-8"
    );
}

#[test]
fn shutdown_then_init_runs_again() {
    let mut lc = Lifecycle::new();
    assert_eq!(lc.shutdown(), UNITY_DLP_OK);
    assert_eq!(lc.begin_init(), InitStart::Run);
    assert_eq!(lc.complete_init(Ok(None)), UNITY_DLP_OK);
    assert_eq!(lc.shutdown(), UNITY_DLP_OK);
    assert!(!lc.is_ready());
    assert_eq!(lc.shutdown(), UNITY_DLP_OK);
    assert_eq!(lc.begin_init(), InitStart::Run);
}

#[test]
fn extraction_checks_come_in_order() {
    let mut lc = Lifecycle::new();
    assert_eq!(
        lc.begin_extract(CText::Null, false, CText::Null).err(),
        Some(UNITY_DLP_ERR_INIT)
    );
    assert_eq!(lc.last_error(), "null pointer argument");
    assert_eq!(
        lc.begin_extract(CText::Text("u".into()), true, CText::Null).err(),
        Some(UNITY_DLP_ERR_INIT)
    );
    assert_eq!(lc.last_error(), "null pointer argument");
    lc.begin_init();
    lc.complete_init(Ok(None));
    assert_eq!(
        lc.begin_extract(CText::NotUtf8, false, CText::Null).err(),
        Some(UNITY_DLP_ERR_INIT)
    );
    assert_eq!(lc.last_error(), "url is not valid UTF-8");
    let (url, opts) = lc
        .begin_extract(CText::Text("https://v".into()), false, CText::Text(String::new()))
        .ok()
        .unwrap();
    assert_eq!(url, "https://v");
    assert_eq!(opts, None);
    let (_, opts) = lc
        .begin_extract(CText::Text("https://v".into()), false, CText::NotUtf8)
        .ok()
        .unwrap();
    assert_eq!(opts, None);
    let (_, opts) = lc
        .begin_extract(CText::Text("https://v".into()), false, CText::Text("{\"f\":1}".into()))
        .ok()
        .unwrap();
    assert_eq!(opts, Some("{\"f\":1}".to_string()));
}

#[test]
fn extraction_failures_map_to_codes() {
    assert_eq!(error_code(&ExtractError::Timeout(String::new())), UNITY_DLP_ERR_TIMEOUT);
    assert_eq!(error_code(&ExtractError::Busy(String::new())), UNITY_DLP_ERR_BUSY);
    assert_eq!(error_code(&ExtractError::Network(String::new())), UNITY_DLP_ERR_NET);
    assert_eq!(error_code(&ExtractError::Js(String::new())), UNITY_DLP_ERR_JS);
    assert_eq!(error_code(&ExtractError::TooLarge(String::new())), UNITY_DLP_ERR_TOO_LARGE);
    assert_eq!(error_code(&ExtractError::Python(String::new())), UNITY_DLP_ERR_PYTHON);

    let mut lc = Lifecycle::new();
    let code = lc.fail_extract(&ExtractError::Network("down".into()));
    assert_eq!(code, UNITY_DLP_ERR_NET);
    assert_eq!(lc.last_error(), "down");
}

#[test]
fn the_error_slot_is_capped() {
    let mut lc = Lifecycle::new();
    lc.set_last_error("x".repeat(10_000));
    assert_eq!(lc.last_error().len(), MAX_LAST_ERROR_BYTES);
    let d = lc.deliver_last_error(false, false, 10_000);
    assert_eq!(d, Delivery { code: UNITY_DLP_OK, out_len: Some(4096), copy: true });
}

#[test]
fn buffer_protocol() {
    assert_eq!(deliver(10, false, 10), Delivery { code: UNITY_DLP_OK, out_len: Some(10), copy: true });
    assert_eq!(deliver(10, false, 9), Delivery { code: UNITY_DLP_ERR_BUF, out_len: Some(10), copy: false });
    assert_eq!(deliver(10, true, 100), Delivery { code: UNITY_DLP_ERR_BUF, out_len: Some(10), copy: false });
    assert_eq!(deliver(0, false, 0), Delivery { code: UNITY_DLP_OK, out_len: Some(0), copy: true });
    let huge = (i32::MAX as usize) + 1;
    assert_eq!(deliver(huge, false, i32::MAX), Delivery { code: UNITY_DLP_ERR_BUF, out_len: Some(0), copy: false });

    let mut lc = Lifecycle::new();
    let d = lc.deliver_result(huge, false, i32::MAX);
    assert_eq!(d.code, UNITY_DLP_ERR_BUF);
    assert_eq!(lc.last_error(), "result exceeds the 2 GiB limit the ABI can express");
    assert_eq!(
        lc.deliver_last_error(true, false, 100),
        Delivery { code: UNITY_DLP_ERR_INIT, out_len: None, copy: false }
    );
}

#[test]
fn copy_fills_the_front_of_the_buffer() {
    let mut buf = [9u8; 6];
    copy_into(&mut buf, b"abc");
    assert_eq!(&buf, b"abc\x09\x09\x09");
}

#[test]
fn panics_are_reported() {
    assert_eq!(panic_detail(PanicPayload::Str("boom".into())), "boom");
    assert_eq!(panic_detail(PanicPayload::Owned("bang".into())), "bang");
    assert_eq!(panic_detail(PanicPayload::Other), "unknown panic payload");
    let mut lc = Lifecycle::new();
    assert_eq!(lc.record_panic("boom", UNITY_DLP_ERR_PYTHON), UNITY_DLP_ERR_PYTHON);
    assert_eq!(lc.last_error(), "panic in native library: boom");
}

#[test]
fn version_string() {
    assert_eq!(VERSION, "unity_dlp/0.1.0 (phase-2)");
}

#[test]
fn ready_exactly_after_a_success_without_a_later_shutdown() {
    let mut lc = Lifecycle::new();
    assert_eq!(lc.begin_init(), InitStart::Run);
    assert_eq!(lc.begin_init(), InitStart::Return(UNITY_DLP_ERR_INIT));
    assert_eq!(lc.shutdown(), UNITY_DLP_OK);
    assert!(!lc.is_ready());
    lc.complete_init(Ok(None));
    assert!(lc.is_ready());
    lc.shutdown();
    assert!(!lc.is_ready());
    assert_eq!(lc.begin_init(), InitStart::Run);
    lc.complete_init(Ok(Some("shim".into())));
    assert!(lc.is_ready());
    assert_eq!(lc.begin_init(), InitStart::Return(UNITY_DLP_OK_DEGRADED));
}
