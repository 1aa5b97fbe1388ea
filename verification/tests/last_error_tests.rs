use unity_dlp::ffi::{clamp_error_message, LAST_ERROR_TRUNCATED_SUFFIX, MAX_LAST_ERROR_BYTES};

#[test]
fn short_messages_are_unchanged() {
    assert_eq!(clamp_error_message("boom".to_string()), "boom");
}

#[test]
fn a_message_at_the_limit_is_unchanged() {
    let msg = "a".repeat(MAX_LAST_ERROR_BYTES);
    assert_eq!(clamp_error_message(msg.clone()), msg);
}

#[test]
fn oversized_messages_are_capped() {
    let got = clamp_error_message("a".repeat(MAX_LAST_ERROR_BYTES * 3));
    assert_eq!(got.len(), MAX_LAST_ERROR_BYTES);
    assert!(got.ends_with(LAST_ERROR_TRUNCATED_SUFFIX));
}

#[test]
fn truncation_lands_on_a_char_boundary() {
    // A multi-byte character straddling the cut must not be split.
    let got = clamp_error_message("é".repeat(MAX_LAST_ERROR_BYTES));
    assert!(got.len() <= MAX_LAST_ERROR_BYTES);
    assert!(got.ends_with(LAST_ERROR_TRUNCATED_SUFFIX));
}

#[test]
fn one_byte_over_the_limit_is_cut_to_the_limit() {
    let got = clamp_error_message("b".repeat(MAX_LAST_ERROR_BYTES + 1));
    assert_eq!(got.len(), MAX_LAST_ERROR_BYTES);
    let keep = MAX_LAST_ERROR_BYTES - LAST_ERROR_TRUNCATED_SUFFIX.len();
    assert_eq!(&got[..keep], "b".repeat(keep));
    assert_eq!(&got[keep..], LAST_ERROR_TRUNCATED_SUFFIX);
}

#[test]
fn a_straddling_character_is_dropped_whole() {
    // 4081 bytes are kept; with two-byte characters the boundary below 4081
    // is 4080, so exactly 2040 characters survive.
    let got = clamp_error_message("é".repeat(MAX_LAST_ERROR_BYTES));
    assert_eq!(got.len(), 4080 + LAST_ERROR_TRUNCATED_SUFFIX.len());
    assert_eq!(got.chars().filter(|c| *c == 'é').count(), 2040);
}

#[test]
fn empty_message_is_unchanged() {
    assert_eq!(clamp_error_message(String::new()), "");
}

#[test]
fn a_cut_message_keeps_at_least_4093_bytes_and_clamping_again_changes_nothing() {
    for ch in ["a", "é", "€", "😀"] {
        let got = clamp_error_message(ch.repeat(MAX_LAST_ERROR_BYTES));
        assert!(got.len() >= MAX_LAST_ERROR_BYTES - 3, "{ch}: {}", got.len());
        assert!(got.len() <= MAX_LAST_ERROR_BYTES);
        assert_eq!(clamp_error_message(got.clone()), got);
    }
}
