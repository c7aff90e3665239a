use ark::coordinates::line_range::LineRange;
use ark::line_ending::{convert_line_endings, LineEnding};

#[test]
fn test_convert_line_endings_explicit() {
    // [\r] [\n]
    let s = "\r\n";

    let posix = convert_line_endings(s, LineEnding::Posix);
    assert_eq!(posix, "\n");

    let windows = convert_line_endings(s, LineEnding::Windows);
    assert_eq!(windows, s);

    // [a] [\] [r] [\] [n] [b]
    let s2 = r#"a\r\nb"#;
    let s2_res = convert_line_endings(s2, LineEnding::Posix);
    assert_eq!(s2_res, s2);
}

#[test]
fn test_convert_line_endings_native_unix() {
    let res = convert_line_endings("\r\n", LineEnding::Native);
    assert_eq!(res, "\n");
}

#[test]
fn converting_to_posix_keeps_all_but_returns() {
    assert_eq!(convert_line_endings("a\r\nb\rc\r\r\n", LineEnding::Posix), "a\nb\rc\r\n");
    assert_eq!(convert_line_endings("a\r\nb", LineEnding::Windows), "a\r\nb");
}

#[test]
fn ranges_cover_both() {
    let a = LineRange::new(1, 3);
    let b = LineRange::new(5, 6);
    let c = a.cover(b);
    assert_eq!((c.start(), c.end()), (1, 6));
    assert!(LineRange::new(1, 6).contains(5));
    assert!(!LineRange::new(1, 6).contains(6));
}
