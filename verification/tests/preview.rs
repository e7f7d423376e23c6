use cpp_watcher::preview::{preview, PREVIEW_LIMIT};

#[test]
fn a_short_text_is_shown_whole() {
    let p = preview("  1 2\n3\n\n", PREVIEW_LIMIT);
    assert_eq!(p.lines, vec!["1 2", "3"]);
    assert!(!p.truncated);
    let p = preview("", 5);
    assert!(p.lines.is_empty());
    assert!(!p.truncated);
    let p = preview("a\nb\nc\nd\ne", 5);
    assert_eq!(p.lines, vec!["a", "b", "c", "d", "e"]);
    assert!(!p.truncated);
}

#[test]
fn a_long_text_is_cut_after_the_limit() {
    assert_eq!(PREVIEW_LIMIT, 5);
    let p = preview("\n1\r\n2\n3\n4\n5\n6\n7\n", PREVIEW_LIMIT);
    assert_eq!(p.lines, vec!["1", "2", "3", "4", "5"]);
    assert!(p.truncated);
    let p = preview("a\nb", 0);
    assert!(p.lines.is_empty());
    assert!(p.truncated);
    let p = preview("a\nb", 1);
    assert_eq!(p.lines, vec!["a"]);
    assert!(p.truncated);
}
