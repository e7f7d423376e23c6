use cpp_watcher::testcase::{parse_test_cases, ParseError};

#[test]
fn parses_the_documented_example() {
    let text = "@{basic}\n3 4\n@\n7\n@{empty input}\n@\n0\n";
    let cases = parse_test_cases(text).unwrap();
    assert_eq!(cases.len(), 2);
    assert_eq!(cases[0].name, "basic");
    assert_eq!(cases[0].input, "3 4");
    assert_eq!(cases[0].expected_output, "7");
    assert_eq!(cases[1].name, "empty input");
    assert_eq!(cases[1].input, "");
    assert_eq!(cases[1].expected_output, "0");
}

#[test]
fn empty_file_has_no_cases() {
    assert_eq!(parse_test_cases("").unwrap().len(), 0);
    assert_eq!(parse_test_cases("\n   \n\t\n").unwrap().len(), 0);
}

#[test]
fn multi_line_bodies_are_joined_with_newlines() {
    let text = "  @{ two lines }  \r\n1\r\n2\r\n @ \r\n3\r\n\r\n4\n";
    let cases = parse_test_cases(text).unwrap();
    assert_eq!(cases.len(), 1);
    assert_eq!(cases[0].name, "two lines");
    assert_eq!(cases[0].input, "1\n2");
    assert_eq!(cases[0].expected_output, "3\n\n4");
}

#[test]
fn header_without_name_is_rejected() {
    let err = parse_test_cases("\n@{   }\n@\n1\n").unwrap_err();
    assert!(matches!(err, ParseError::MissingName { line: 2 }));
    assert_eq!(err.line(), 2);
    assert_eq!(err.message(), "Missing test case name line 2");
}

#[test]
fn second_separator_is_rejected() {
    let err = parse_test_cases("@{a}\n1\n@\n2\n@\n3\n").unwrap_err();
    match &err {
        ParseError::SecondSeparator { line, name, started } => {
            assert_eq!(*line, 5);
            assert_eq!(name, "a");
            assert_eq!(*started, 1);
        }
        other => panic!("unexpected error {:?}", other),
    }
    assert_eq!(err.message(), "Unexpected second '@' line 5 for test 'a' (started 1)");
}

#[test]
fn missing_separator_points_at_the_block_start() {
    let text = "@{a}\n1 1\n@\n2\n@{b}\n5 5\n10\n@{c}\n@\n1\n";
    let err = parse_test_cases(text).unwrap_err();
    match &err {
        ParseError::MissingSeparator { name, started } => {
            assert_eq!(name, "b");
            assert_eq!(*started, 5);
        }
        other => panic!("unexpected error {:?}", other),
    }
    assert_eq!(err.line(), 5);
    assert_eq!(err.message(), "Missing '@' separator for test 'b' (started 5)");
}

#[test]
fn content_outside_a_block_is_rejected() {
    let err = parse_test_cases("\nhello\n@{a}\n@\n").unwrap_err();
    match &err {
        ParseError::UnexpectedContent { line, content } => {
            assert_eq!(*line, 2);
            assert_eq!(content, "hello");
        }
        other => panic!("unexpected error {:?}", other),
    }
    assert_eq!(err.message(), "Unexpected content line 2: 'hello'");
}

#[test]
fn unfinished_header_ends_a_block_and_is_rejected() {
    let err = parse_test_cases("@{a}\n@\n1\n@{oops\n").unwrap_err();
    assert!(matches!(err, ParseError::UnexpectedContent { line: 4, .. }));
}

#[test]
fn only_the_first_error_is_reported() {
    let err = parse_test_cases("@{a}\n1\n@{}\n").unwrap_err();
    assert!(matches!(err, ParseError::MissingSeparator { started: 1, .. }));
}
