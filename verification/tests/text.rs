use cpp_watcher::text::{
    chars_of, decimal_string, is_whitespace, replace_crlf, same_text, split_lines, trim_bounds,
    trim_text,
};

fn chars(s: &str) -> Vec<char> {
    s.chars().collect()
}

fn text(v: &[char]) -> String {
    v.iter().collect()
}

#[test]
fn white_space_is_what_std_calls_white_space() {
    let mut code: u32 = 0;
    while code <= 0x10FFFF {
        if let Some(c) = char::from_u32(code) {
            assert_eq!(is_whitespace(c), c.is_whitespace(), "code point {:#x}", code);
        }
        code += 1;
    }
}

#[test]
fn chars_of_gives_every_character() {
    assert_eq!(chars_of(""), Vec::<char>::new());
    assert_eq!(chars_of("a\u{e9}\u{4e2d}\u{1F600}z"), vec!['a', '\u{e9}', '\u{4e2d}', '\u{1F600}', 'z']);
}

#[test]
fn same_text_compares_character_by_character() {
    assert!(same_text("", ""));
    assert!(same_text("abc", "abc"));
    assert!(!same_text("abc", "abd"));
    assert!(!same_text("abc", "ab"));
    assert!(!same_text("a", "A"));
    assert!(same_text("\u{e9}t\u{e9}", "\u{e9}t\u{e9}"));
}

#[test]
fn trim_text_agrees_with_std_trim() {
    let samples = [
        "",
        " ",
        "\n\t \r",
        "a",
        "  a",
        "a  ",
        " a b ",
        "\u{a0}x\u{3000}",
        "\u{2003}\u{85}mid dle\u{1680}\u{2028}",
        "\r\n7\r\n",
        "\u{200b}zero width is no space\u{200b}",
        "x\u{feff}",
    ];
    for s in samples {
        assert_eq!(trim_text(s), s.trim(), "sample {:?}", s);
    }
}

#[test]
fn trim_bounds_point_at_the_trimmed_part() {
    let v = chars("  ab c \n");
    assert_eq!(trim_bounds(&v), (2, 6));
    let all_space = chars(" \t ");
    let (a, b) = trim_bounds(&all_space);
    assert_eq!(a, b);
    assert_eq!(trim_bounds(&Vec::new()), (0, 0));
}

#[test]
fn replace_crlf_agrees_with_std_replace() {
    let samples = ["", "\r", "\n", "\r\n", "a\r\nb", "a\rb\nc", "\r\r\n", "a\r\r\nb", "\r\n\r\n", "x\r"];
    for s in samples {
        assert_eq!(text(&replace_crlf(&chars(s))), s.replace("\r\n", "\n"), "sample {:?}", s);
    }
}

#[test]
fn split_lines_agrees_with_std_lines() {
    let samples = [
        "",
        "\n",
        "a",
        "a\n",
        "a\nb",
        "a\r\nb\r\n",
        "a\n\nb\n\n",
        "a\r",
        "a\r\n\r",
        "\r\r\n",
        "x\ry\nz",
        "last line without end",
    ];
    for s in samples {
        let got: Vec<String> = split_lines(&chars(s)).iter().map(|l| text(l)).collect();
        let want: Vec<String> = s.lines().map(|l| l.to_string()).collect();
        assert_eq!(got, want, "sample {:?}", s);
    }
}

#[test]
fn decimal_string_writes_the_number() {
    assert_eq!(decimal_string(0), "0");
    assert_eq!(decimal_string(7), "7");
    assert_eq!(decimal_string(10), "10");
    assert_eq!(decimal_string(1234567890), "1234567890");
    assert_eq!(decimal_string(u64::MAX), "18446744073709551615");
    let mut n: u64 = 1;
    while n < u64::MAX / 7 {
        assert_eq!(decimal_string(n), n.to_string());
        n = n * 7 + 3;
    }
}
