use cpp_watcher::discover::{
    find_files, find_specific_cpp_file, list_all_matching_files, target_extension, target_words,
    Entry,
};
use cpp_watcher::select::{
    auto_stress_files, auto_test_files, autodetect_solution_file, find_cases_file_with_pattern,
    find_cpp_file_with_pattern, find_solution_file, find_test_case_file, handle_ambiguous_files,
    pick_containing, pick_named, DiscoveryError, FileKind, StressFiles, TestFiles,
};

fn entry(name: &str) -> Entry {
    let (stem, extension) = match name.rfind('.') {
        Some(0) | None => (name.to_string(), None),
        Some(dot) => (name[..dot].to_string(), Some(name[dot + 1..].to_string())),
    };
    Entry {
        path: format!("./{}", name),
        file_name: name.to_string(),
        stem: Some(stem),
        extension,
    }
}

fn listing(names: &[&str]) -> Vec<Entry> {
    names.iter().map(|n| entry(n)).collect()
}

#[test]
fn find_files_filters_by_extension_and_pattern() {
    let entries = listing(&["a.cpp", "b.cases", "ab.cpp", "notes.txt", "Makefile", "c.CPP"]);
    assert_eq!(find_files(&entries, "cpp", None), vec!["./a.cpp", "./ab.cpp"]);
    assert_eq!(find_files(&entries, ".cpp", None), vec!["./a.cpp", "./ab.cpp"]);
    assert_eq!(find_files(&entries, "cpp", Some("b")), vec!["./ab.cpp"]);
    assert_eq!(find_files(&entries, "cpp", Some("B")), Vec::<String>::new());
    assert_eq!(find_files(&entries, "cpp", Some("cpp")), vec!["./a.cpp", "./ab.cpp"]);
    assert_eq!(find_files(&entries, "cases", None), vec!["./b.cases"]);
    assert_eq!(find_files(&entries, "rs", None), Vec::<String>::new());
}

#[test]
fn target_words_and_extensions() {
    assert_eq!(target_words("solution"), vec!["solution", "sol"]);
    assert_eq!(target_words("brute"), vec!["brute", "bru"]);
    assert_eq!(target_words("generator"), vec!["generator", "gen"]);
    assert_eq!(target_words("test"), vec!["test", "t"]);
    assert_eq!(target_words("oracle"), vec!["oracle"]);
    assert_eq!(target_extension("test"), "cases");
    assert_eq!(target_extension("solution"), "cpp");
    assert_eq!(target_extension("oracle"), "cpp");
}

#[test]
fn list_all_matching_files_goes_by_kind_and_pattern() {
    let entries = listing(&[
        "solution.cpp",
        "brute.cpp",
        "gen.cpp",
        "A_sol.cpp",
        "B_sol.cpp",
        "console.cpp",
        "test.cases",
        "sol.cases",
    ]);
    assert_eq!(
        list_all_matching_files(&entries, "solution", None),
        vec!["./solution.cpp", "./A_sol.cpp", "./B_sol.cpp"]
    );
    assert_eq!(list_all_matching_files(&entries, "solution", Some("a_")), vec!["./A_sol.cpp"]);
    assert_eq!(list_all_matching_files(&entries, "solution", Some("B_S")), vec!["./B_sol.cpp"]);
    assert_eq!(list_all_matching_files(&entries, "brute", None), vec!["./brute.cpp"]);
    assert_eq!(list_all_matching_files(&entries, "generator", None), vec!["./gen.cpp"]);
    assert_eq!(list_all_matching_files(&entries, "test", None), vec!["./test.cases"]);
    assert_eq!(list_all_matching_files(&entries, "console", None), vec!["./console.cpp"]);
}

#[test]
fn a_pattern_must_single_out_one_file() {
    let entries = listing(&["abc.cpp", "abd.cpp", "x.cases"]);
    assert_eq!(find_cpp_file_with_pattern(&entries, "abc").unwrap(), "./abc.cpp");
    let err = find_cpp_file_with_pattern(&entries, "zzz").unwrap_err();
    assert!(matches!(err, DiscoveryError::NoneContaining { .. }));
    assert_eq!(err.message(), "No .cpp files containing 'zzz' found.");
    let err = find_cpp_file_with_pattern(&entries, "ab").unwrap_err();
    assert_eq!(
        err.message(),
        "Multiple .cpp files matching 'ab' found. Please be more specific:\n  - ./abc.cpp\n  - ./abd.cpp\n"
    );
    assert_eq!(find_cases_file_with_pattern(&entries, "x").unwrap(), "./x.cases");
    let err = find_cases_file_with_pattern(&entries, "y").unwrap_err();
    assert_eq!(err.message(), "No .cases files containing 'y' found.");
}

#[test]
fn handle_ambiguous_files_wants_exactly_one() {
    assert_eq!(
        handle_ambiguous_files("generator", None, vec!["g.cpp".to_string()]).unwrap(),
        "g.cpp"
    );
    let err = handle_ambiguous_files("brute force", None, vec![]).unwrap_err();
    assert_eq!(err.message(), "Could not find a brute force file");
    let err = handle_ambiguous_files("solution", Some("x"), vec![]).unwrap_err();
    assert_eq!(err.message(), "Could not find a solution file containing 'x'");
    let err = handle_ambiguous_files(
        "generator",
        None,
        vec!["gen.cpp".to_string(), "gen2.cpp".to_string()],
    )
    .unwrap_err();
    assert_eq!(
        err.message(),
        "Found multiple generator files, which is ambiguous:\n  - gen.cpp\n  - gen2.cpp\n"
    );
}

#[test]
fn the_solution_is_found_by_name_or_as_the_only_source() {
    assert_eq!(
        find_solution_file(&listing(&["a.cpp", "my_sol.cpp"]), None).unwrap(),
        "./my_sol.cpp"
    );
    assert_eq!(find_solution_file(&listing(&["only.cpp", "t.cases"]), None).unwrap(), "./only.cpp");
    assert_eq!(find_solution_file(&listing(&["a.cpp", "b.cpp"]), Some("b")).unwrap(), "./b.cpp");
    let err = find_solution_file(&listing(&["t.cases"]), None).unwrap_err();
    assert_eq!(err.message(), "No .cpp files found in the current directory.");
    let err = find_solution_file(&listing(&["a.cpp", "b.cpp"]), None).unwrap_err();
    assert_eq!(
        err.message(),
        "Multiple .cpp files found, but none match 'solution' or 'sol' pattern. Use -i or a pattern:\n  - ./a.cpp\n  - ./b.cpp\n"
    );
    let err = find_solution_file(&listing(&["sol.cpp", "solution.cpp"]), None).unwrap_err();
    assert_eq!(
        err.message(),
        "Multiple files matching 'solution'/'sol' found. Please specify a pattern or use -i:\n  - ./sol.cpp\n  - ./solution.cpp\n"
    );
}

#[test]
fn the_test_table_is_found_by_name_or_as_the_only_table() {
    assert_eq!(find_test_case_file(&listing(&["x.cases"]), None, true).unwrap(), "test.cases");
    assert_eq!(find_test_case_file(&listing(&["x.cases"]), None, false).unwrap(), "./x.cases");
    assert_eq!(
        find_test_case_file(&listing(&["x.cases", "my_test.cases"]), None, false).unwrap(),
        "./my_test.cases"
    );
    assert_eq!(
        find_test_case_file(&listing(&["x.cases", "y.cases"]), Some("y"), true).unwrap(),
        "./y.cases"
    );
    let err = find_test_case_file(&listing(&["a.cpp"]), None, false).unwrap_err();
    assert_eq!(err.message(), "No .cases files found in the current directory.");
    let err = find_test_case_file(&listing(&["x.cases", "y.cases"]), None, false).unwrap_err();
    assert_eq!(
        err.message(),
        "Multiple .cases files found, but none match 'test' pattern. Use -c or a pattern:\n  - ./x.cases\n  - ./y.cases\n"
    );
    let err = find_test_case_file(&listing(&["t.cases", "a_test.cases"]), None, false).unwrap_err();
    assert_eq!(
        err.message(),
        "Multiple files matching 'test' found. Please specify a pattern or use -c:\n  - ./t.cases\n  - ./a_test.cases\n"
    );
}

#[test]
fn the_files_of_a_test_session() {
    let entries = listing(&["my_sol.cpp", "other.cpp", "cases_test.cases"]);
    let configured = TestFiles { solution: "c.cpp".to_string(), testcases: "c.cases".to_string() };
    let files = auto_test_files(&entries, None, Some(configured), true, true).unwrap();
    assert_eq!((files.solution.as_str(), files.testcases.as_str()), ("c.cpp", "c.cases"));
    let files = auto_test_files(&entries, None, None, true, true).unwrap();
    assert_eq!((files.solution.as_str(), files.testcases.as_str()), ("solution.cpp", "test.cases"));
    let files = auto_test_files(&entries, None, None, false, true).unwrap();
    assert_eq!((files.solution.as_str(), files.testcases.as_str()), ("./my_sol.cpp", "test.cases"));
    let files = auto_test_files(&entries, None, None, true, false).unwrap();
    assert_eq!(
        (files.solution.as_str(), files.testcases.as_str()),
        ("./my_sol.cpp", "./cases_test.cases")
    );
    let configured = TestFiles { solution: "c.cpp".to_string(), testcases: "c.cases".to_string() };
    let files = auto_test_files(&entries, Some("e"), Some(configured), true, true).unwrap();
    assert_eq!(
        (files.solution.as_str(), files.testcases.as_str()),
        ("./other.cpp", "./cases_test.cases")
    );
    let err = auto_test_files(&entries, Some("zz"), None, true, true).unwrap_err();
    assert_eq!(err.message(), "No .cpp files containing 'zz' found.");
}

#[test]
fn the_files_of_a_stress_session() {
    let entries = listing(&["solution.cpp", "brute.cpp", "gen.cpp", "notes.txt"]);
    let files = auto_stress_files(&entries, None, None).unwrap();
    assert_eq!(files.solution, "./solution.cpp");
    assert_eq!(files.generator, "./gen.cpp");
    assert_eq!(files.brute, "./brute.cpp");
    let configured = StressFiles {
        solution: "s.cpp".to_string(),
        generator: "g.cpp".to_string(),
        brute: "b.cpp".to_string(),
    };
    let files = auto_stress_files(&entries, None, Some(configured)).unwrap();
    assert_eq!(files.generator, "g.cpp");
    let err = auto_stress_files(&listing(&["solution.cpp", "gen.cpp"]), None, None).unwrap_err();
    assert_eq!(err.message(), "Could not find a brute force file");
    let err = auto_stress_files(&listing(&["solution.cpp", "brute.cpp"]), Some("x"), None).unwrap_err();
    assert_eq!(err.message(), "Could not find a generator file containing 'x'");
    let entries = listing(&["a_sol.cpp", "a_bru.cpp", "a_gen.cpp", "b_sol.cpp", "b_bru.cpp", "b_gen.cpp"]);
    let files = auto_stress_files(&entries, Some("B_"), None).unwrap();
    assert_eq!(files.solution, "./b_sol.cpp");
    assert_eq!(files.generator, "./b_gen.cpp");
    assert_eq!(files.brute, "./b_bru.cpp");
    let err = auto_stress_files(&entries, None, None).unwrap_err();
    assert_eq!(
        err.message(),
        "Found multiple generator files, which is ambiguous:\n  - ./a_gen.cpp\n  - ./b_gen.cpp\n"
    );
}

#[test]
fn a_specific_source_is_found_only_if_it_is_the_only_one() {
    let entries = listing(&["solution.cpp", "brute.cpp", "gen.cpp", "gen2.cpp", "my_gen.cpp", "ab.cpp"]);
    assert_eq!(
        find_specific_cpp_file(&entries, "solution", None).unwrap(),
        Some("./solution.cpp".to_string())
    );
    assert_eq!(find_specific_cpp_file(&entries, "generator", None).unwrap(), None);
    assert_eq!(
        find_specific_cpp_file(&entries, "generator", Some("MY")).unwrap(),
        Some("./my_gen.cpp".to_string())
    );
    assert_eq!(find_specific_cpp_file(&entries, "oracle", None).unwrap(), None);
    let err = find_specific_cpp_file(&entries, "ab", None).unwrap_err();
    assert_eq!(err.word, "ab");
    assert_eq!(err.message(), "Target pattern 'ab' must be at least 3 characters");
    assert_eq!(find_specific_cpp_file(&entries, "test", None).unwrap(), None);
}

#[test]
fn the_source_to_watch_is_detected() {
    let entries = listing(&["a.cpp", "my_sol.cpp", "x.cases"]);
    assert_eq!(
        autodetect_solution_file(&entries, Some("cfg.cpp".to_string())).unwrap(),
        Some("cfg.cpp".to_string())
    );
    assert_eq!(autodetect_solution_file(&entries, None).unwrap(), Some("./my_sol.cpp".to_string()));
    assert_eq!(
        autodetect_solution_file(&listing(&["only.cpp"]), None).unwrap(),
        Some("./only.cpp".to_string())
    );
    assert_eq!(autodetect_solution_file(&listing(&["a.cpp", "b.cpp"]), None).unwrap(), None);
    assert_eq!(autodetect_solution_file(&listing(&["x.cases"]), None).unwrap(), None);
    let err = autodetect_solution_file(&listing(&["sol.cpp", "solution.cpp"]), None).unwrap_err();
    assert!(matches!(err, DiscoveryError::SeveralSolutions { .. }));
    assert_eq!(
        err.message(),
        "Multiple solution files found. This is ambiguous:\n  - ./sol.cpp\n  - ./solution.cpp\n"
    );
}

#[test]
fn picking_works_on_the_lists_it_is_given() {
    let list = |names: &[&str]| names.iter().map(|n| n.to_string()).collect::<Vec<String>>();
    assert_eq!(pick_containing(list(&["a"]), FileKind::Solution, "a").unwrap(), "a");
    assert!(matches!(
        pick_containing(list(&[]), FileKind::TestCases, "a"),
        Err(DiscoveryError::NoneContaining { kind: FileKind::TestCases, .. })
    ));
    assert_eq!(pick_named(list(&["n"]), list(&["x", "y"]), FileKind::Solution).unwrap(), "n");
    assert_eq!(pick_named(list(&[]), list(&["x"]), FileKind::Solution).unwrap(), "x");
    assert!(matches!(
        pick_named(list(&[]), list(&[]), FileKind::Solution),
        Err(DiscoveryError::NoFiles { kind: FileKind::Solution })
    ));
    assert!(matches!(
        pick_named(list(&[]), list(&["x", "y"]), FileKind::TestCases),
        Err(DiscoveryError::NoneNamed { .. })
    ));
    assert!(matches!(
        pick_named(list(&["m", "n"]), list(&["m", "n"]), FileKind::TestCases),
        Err(DiscoveryError::SeveralNamed { .. })
    ));
}
