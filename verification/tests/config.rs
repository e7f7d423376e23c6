use cpp_watcher::config::{
    custom_mode, custom_name, is_affirmative, lowered_is_yes, select, source_message,
    source_problem, CommandLine, ConfigError, CustomConfig, MissingFile, Mode, Role, Selection,
    SelectionError, SourceProblem,
};

fn custom(mode: &str, solution: &str, testcases: &str, brute: &str, generator: &str) -> CustomConfig {
    CustomConfig {
        mode: mode.to_string(),
        solution: solution.to_string(),
        testcases: testcases.to_string(),
        brute: brute.to_string(),
        generator: generator.to_string(),
    }
}

fn line() -> CommandLine {
    CommandLine {
        input: None,
        test_cases: None,
        stress: None,
        auto_test: false,
        auto_test_pattern: None,
        auto_stress: false,
        auto_stress_pattern: None,
    }
}

#[test]
fn a_custom_entry_gives_its_mode() {
    match custom_mode(&custom("watcher", "a.cpp", "", "", "")).unwrap() {
        Mode::Watcher { solution } => assert_eq!(solution, "a.cpp"),
        other => panic!("unexpected mode {:?}", other),
    }
    match custom_mode(&custom("testcase", "a.cpp", "a.cases", "", "")).unwrap() {
        Mode::TestCase { solution, testcases } => {
            assert_eq!(solution, "a.cpp");
            assert_eq!(testcases, "a.cases");
        }
        other => panic!("unexpected mode {:?}", other),
    }
    match custom_mode(&custom("stress", "a.cpp", "", "b.cpp", "g.cpp")).unwrap() {
        Mode::Stress { solution, generator, brute } => {
            assert_eq!(solution, "a.cpp");
            assert_eq!(generator, "g.cpp");
            assert_eq!(brute, "b.cpp");
        }
        other => panic!("unexpected mode {:?}", other),
    }
}

#[test]
fn a_custom_entry_with_gaps_is_refused() {
    let err = custom_mode(&custom("watcher", "", "x", "x", "x")).unwrap_err();
    assert!(matches!(err, ConfigError::MissingSolution));
    assert_eq!(err.message("fast"), "Custom config 'fast' missing solution field");
    let err = custom_mode(&custom("testcase", "a.cpp", "", "", "")).unwrap_err();
    assert!(matches!(err, ConfigError::MissingTestCaseFields));
    assert_eq!(err.message("fast"), "Custom config 'fast' missing solution or testcases field");
    let err = custom_mode(&custom("testcase", "", "a.cases", "", "")).unwrap_err();
    assert!(matches!(err, ConfigError::MissingTestCaseFields));
    let err = custom_mode(&custom("stress", "a.cpp", "", "b.cpp", "")).unwrap_err();
    assert!(matches!(err, ConfigError::MissingStressFields));
    assert_eq!(err.message("s"), "Custom config 's' missing required fields for stress mode");
    let err = custom_mode(&custom("Watcher", "a.cpp", "", "", "")).unwrap_err();
    assert!(matches!(err, ConfigError::InvalidMode { .. }));
    assert_eq!(err.message("w"), "Invalid mode 'Watcher' in custom config 'w'");
}

#[test]
fn the_first_missing_file_is_reported() {
    let mode = Mode::Stress {
        solution: "s.cpp".to_string(),
        generator: "g.cpp".to_string(),
        brute: "b.cpp".to_string(),
    };
    let files = mode.files();
    assert_eq!(
        files,
        vec![
            (Role::Solution, "s.cpp".to_string()),
            (Role::Brute, "b.cpp".to_string()),
            (Role::Generator, "g.cpp".to_string())
        ]
    );
    assert!(mode.missing_file(&vec![true, true, true]).is_none());
    let missing = mode.missing_file(&vec![true, false, false]).unwrap();
    assert_eq!(missing.role, Role::Brute);
    assert_eq!(missing.message(), "Brute force file 'b.cpp' not found");
    assert_eq!(missing.warning("default_stress"), "Warning: default_stress brute file 'b.cpp' not found");
    let missing = mode.missing_file(&vec![true, true]).unwrap();
    assert_eq!(missing.message(), "Generator file 'g.cpp' not found");
    let missing = mode.missing_file(&vec![]).unwrap();
    assert_eq!(missing.message(), "Solution file 's.cpp' not found");
    let mode = Mode::TestCase { solution: "s.cpp".to_string(), testcases: "t.cases".to_string() };
    let missing: MissingFile = mode.missing_file(&vec![true, false]).unwrap();
    assert_eq!(missing.message(), "Test case file 't.cases' not found");
    assert_eq!(
        missing.warning("default_testcase"),
        "Warning: default_testcase testcases file 't.cases' not found"
    );
}

#[test]
fn the_first_argument_may_name_a_custom_entry() {
    let args = |list: &[&str]| list.iter().map(|a| a.to_string()).collect::<Vec<String>>();
    assert_eq!(custom_name(&args(&["prog", "fast"])), Some("fast".to_string()));
    assert_eq!(custom_name(&args(&["prog", "fast", "-i", "x"])), Some("fast".to_string()));
    assert_eq!(custom_name(&args(&["prog", ""])), Some("".to_string()));
    assert_eq!(custom_name(&args(&["prog", "-i", "a.cpp"])), None);
    assert_eq!(custom_name(&args(&["prog"])), None);
    assert_eq!(custom_name(&args(&[])), None);
}

#[test]
fn the_command_line_selects_a_mode() {
    let mut l = line();
    l.input = Some("a.cpp".to_string());
    assert!(matches!(select(l).unwrap(), Selection::Run { mode: Mode::Watcher { .. } }));
    let mut l = line();
    l.input = Some("a.cpp".to_string());
    l.test_cases = Some("a.cases".to_string());
    assert!(matches!(select(l).unwrap(), Selection::Run { mode: Mode::TestCase { .. } }));
    let mut l = line();
    l.input = Some("a.cpp".to_string());
    l.test_cases = Some("a.cases".to_string());
    l.stress = Some(("g.cpp".to_string(), "b.cpp".to_string()));
    match select(l).unwrap() {
        Selection::Run { mode: Mode::Stress { solution, generator, brute } } => {
            assert_eq!(solution, "a.cpp");
            assert_eq!(generator, "g.cpp");
            assert_eq!(brute, "b.cpp");
        }
        other => panic!("unexpected selection {:?}", other),
    }
    let err = select(line()).unwrap_err();
    assert_eq!(err, SelectionError::NoInput);
    assert_eq!(
        err.message(),
        "Error: No input file specified. Use -i option or one of the auto modes (-t or -s)."
    );
}

#[test]
fn automatic_modes_come_first() {
    let mut l = line();
    l.input = Some("a.cpp".to_string());
    l.auto_stress = true;
    l.auto_stress_pattern = Some("x".to_string());
    match select(l).unwrap() {
        Selection::AutoStress { pattern } => assert_eq!(pattern.as_deref(), Some("x")),
        other => panic!("unexpected selection {:?}", other),
    }
    let mut l = line();
    l.auto_stress = true;
    l.auto_test = true;
    match select(l).unwrap() {
        Selection::AutoTest { pattern } => assert_eq!(pattern, None),
        other => panic!("unexpected selection {:?}", other),
    }
}

#[test]
fn a_source_must_exist_and_be_a_cpp_file() {
    assert_eq!(source_problem(true, Some("cpp")), None);
    assert_eq!(source_problem(false, Some("cpp")), Some(SourceProblem::Missing));
    assert_eq!(source_problem(true, Some("cc")), Some(SourceProblem::NotCpp));
    assert_eq!(source_problem(true, Some("CPP")), Some(SourceProblem::NotCpp));
    assert_eq!(source_problem(true, None), Some(SourceProblem::NotCpp));
    assert_eq!(source_problem(false, None), Some(SourceProblem::Missing));
    assert_eq!(
        source_message(SourceProblem::Missing, "Input", "a.cpp"),
        "Error: Input file 'a.cpp' does not exist."
    );
    assert_eq!(
        source_message(SourceProblem::NotCpp, "Generator", "g.py"),
        "Error: Generator file 'g.py' must be a .cpp file."
    );
}

#[test]
fn only_y_and_yes_mean_yes() {
    assert!(is_affirmative("y"));
    assert!(is_affirmative("Y\n"));
    assert!(is_affirmative("  yes  "));
    assert!(is_affirmative("YES\r\n"));
    assert!(is_affirmative("yEs"));
    assert!(!is_affirmative(""));
    assert!(!is_affirmative("n"));
    assert!(!is_affirmative("yess"));
    assert!(!is_affirmative("y e s"));
    assert!(!is_affirmative("ye"));
    assert!(lowered_is_yes("y"));
    assert!(lowered_is_yes("yes"));
    assert!(!lowered_is_yes("Y"));
    assert!(!lowered_is_yes(" y"));
}
