use arxiv_cli::sanitize_filename;

#[test]
fn sanitize_replaces_reserved_characters() {
    assert_eq!(sanitize_filename("a<b>c:d\"e/f\\g|h?i*j"), "a_b_c_d_e_f_g_h_i_j");
}

#[test]
fn sanitize_trims_whitespace_and_dots() {
    assert_eq!(sanitize_filename("  Attention Is All You Need...  "), "Attention Is All You Need");
    assert_eq!(sanitize_filename("\n\tTitle\n"), "Title");
}

#[test]
fn sanitize_removes_mixed_trailing_whitespace_and_dots() {
    assert_eq!(sanitize_filename("a ."), "a");
    assert_eq!(sanitize_filename("Title ."), "Title");
    assert_eq!(sanitize_filename("Title . . "), "Title");
}

#[test]
fn sanitize_cut_never_leaves_trailing_whitespace() {
    let title = format!("{} b", "a".repeat(199));
    assert_eq!(sanitize_filename(&title), "a".repeat(199));
    let dotted = format!("{}.b", "a".repeat(199));
    assert_eq!(sanitize_filename(&dotted), "a".repeat(199));
}

#[test]
fn sanitize_is_stable() {
    for t in ["a .", "  x?y.. ", "plain", "\u{3000}wide\u{3000}"] {
        let once = sanitize_filename(t);
        assert_eq!(sanitize_filename(&once), once);
    }
    assert_eq!(sanitize_filename("\u{3000}wide\u{3000}"), "wide");
}

#[test]
fn sanitize_limits_length() {
    let long = "x".repeat(250);
    let r = sanitize_filename(&long);
    assert_eq!(r.chars().count(), 200);
    assert_eq!(r, "x".repeat(200));
    let wide = "é".repeat(201);
    assert_eq!(sanitize_filename(&wide).chars().count(), 200);
}

#[test]
fn sanitize_empty_and_blank() {
    assert_eq!(sanitize_filename(""), "");
    assert_eq!(sanitize_filename("   "), "");
    assert_eq!(sanitize_filename("..."), "");
}

#[test]
fn sanitize_reserved_title_has_none_left() {
    let r = sanitize_filename("What? Why: How/When*");
    assert!(!r.contains(|c: char| "<>:\"/\\|?*".contains(c)));
    assert_eq!(r, "What_ Why_ How_When_");
}
