use unity_dlp::python_host::{parse_packages_path, shim_outcome, sys_path_plan};

#[test]
fn splits_and_preserves_order() {
    assert_eq!(
        parse_packages_path("a.zip\nb.zip\nc"),
        vec!["a.zip", "b.zip", "c"]
    );
}

#[test]
fn skips_empty_segments() {
    assert_eq!(
        parse_packages_path("\na.zip\n\n\nb.zip\n"),
        vec!["a.zip", "b.zip"]
    );
}

#[test]
fn single_entry_unchanged() {
    assert_eq!(parse_packages_path("only.zip"), vec!["only.zip"]);
}

#[test]
fn empty_yields_no_segments() {
    assert!(parse_packages_path("").is_empty());
    assert!(parse_packages_path("\n\n").is_empty());
}

#[test]
fn segments_are_trimmed_of_unicode_white_space() {
    assert_eq!(
        parse_packages_path("  a dir/x.zip \t\n\u{3000}b.zip\u{a0}\n   \n"),
        vec!["a dir/x.zip", "b.zip"]
    );
}

#[test]
fn carriage_returns_are_trimmed() {
    assert_eq!(parse_packages_path("a.zip\r\nb.zip\r\n"), vec!["a.zip", "b.zip"]);
}

#[test]
fn a_clean_shim_import_is_not_degraded() {
    assert_eq!(shim_outcome(Ok(())), None);
}

#[test]
fn a_failed_shim_import_names_the_module() {
    assert_eq!(
        shim_outcome(Err("ModuleNotFoundError: nope".to_string())),
        Some("import unity_dlp_jsc: ModuleNotFoundError: nope".to_string())
    );
}

#[test]
fn the_plan_puts_each_segment_at_its_own_index() {
    let plan = sys_path_plan("\n b.zip\na.zip\n");
    assert_eq!(plan, vec![(0, "b.zip".to_string()), (1, "a.zip".to_string())]);
    // Made in order on an existing path, the segments lead it.
    let mut path = vec!["stdlib".to_string(), "site".to_string()];
    for (i, seg) in &plan {
        path.insert(*i, seg.clone());
    }
    assert_eq!(path, vec!["b.zip", "a.zip", "stdlib", "site"]);
}

#[test]
fn parsing_the_join_of_clean_segments_gives_them_back() {
    let segments = vec!["a.zip", "dir with space", "c"];
    assert_eq!(parse_packages_path(&segments.join("\n")), segments);
}

#[test]
fn white_space_matches_std_for_every_char() {
    for code in 0u32..=0x10FFFF {
        let Some(c) = char::from_u32(code) else { continue };
        if c == '\n' {
            continue;
        }
        let got = parse_packages_path(&format!("x{c}"));
        let expected = if c.is_whitespace() { "x".to_string() } else { format!("x{c}") };
        assert_eq!(got, vec![expected], "U+{code:04X}");
    }
}
