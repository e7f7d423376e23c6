use cpp_watcher::pattern::{
    any_word_matches, capital_flags, find_first, matches_target_pattern, text_contains,
    word_matches,
};

fn words(list: &[&str]) -> Vec<String> {
    list.iter().map(|w| w.to_string()).collect()
}

fn chars(s: &str) -> Vec<char> {
    s.chars().collect()
}

/// The same rule written with the string functions of std.
fn expected(name: &str, list: &[&str]) -> bool {
    let low = name.to_lowercase();
    let upper_at = |k: usize| name.chars().nth(k).map_or(false, |c| c.is_uppercase());
    let underscore_at = |k: usize| low.chars().nth(k) == Some('_');
    for word in list {
        if low == *word {
            return true;
        }
        if low.starts_with(word)
            && (low.len() == word.len() || underscore_at(word.len()) || upper_at(word.len()))
        {
            return true;
        }
        if low.ends_with(word) {
            let start = low.len() - word.len();
            if start == 0
                || underscore_at(start - 1)
                || (!word.is_empty() && upper_at(start))
            {
                return true;
            }
        }
        if let Some(pos) = low.find(word) {
            let before = pos == 0 || underscore_at(pos - 1);
            let end = pos + word.len();
            let after = end == low.len() || underscore_at(end) || upper_at(end);
            if before && after {
                return true;
            }
        }
    }
    false
}

#[test]
fn exact_names_match() {
    let list = words(&["solution", "sol"]);
    assert!(matches_target_pattern("solution", &list));
    assert!(matches_target_pattern("sol", &list));
    assert!(matches_target_pattern("SOLUTION", &list));
    assert!(matches_target_pattern("Sol", &list));
}

#[test]
fn a_word_at_a_boundary_matches() {
    let list = words(&["solution", "sol"]);
    assert!(matches_target_pattern("sol_a", &list));
    assert!(matches_target_pattern("solA", &list));
    assert!(matches_target_pattern("my_sol", &list));
    assert!(matches_target_pattern("mySol", &list));
    assert!(matches_target_pattern("a_sol_b", &list));
    assert!(matches_target_pattern("generator_v2", &words(&["generator", "gen"])));
    assert!(matches_target_pattern("my_t", &words(&["test", "t"])));
}

#[test]
fn a_word_inside_another_word_does_not_match() {
    let list = words(&["solution", "sol"]);
    assert!(!matches_target_pattern("sola", &list));
    assert!(!matches_target_pattern("mysol", &list));
    assert!(!matches_target_pattern("console", &list));
    assert!(!matches_target_pattern("main", &list));
    assert!(!matches_target_pattern("t1", &words(&["test", "t"])));
    assert!(!matches_target_pattern("", &list));
    assert!(!matches_target_pattern("sol", &words(&[])));
}

#[test]
fn boundaries_are_looked_up_at_byte_offsets() {
    let list = words(&["sol"]);
    assert!(matches_target_pattern("e_sol", &list));
    assert!(!matches_target_pattern("\u{e9}_sol", &list));
}

#[test]
fn the_rule_agrees_with_the_string_functions_of_std() {
    let names = [
        "", "s", "sol", "Sol", "SOL", "sola", "solA", "sol_", "_sol", "sol_sol", "solsol",
        "solSol", "xsol", "xSol", "x_sol", "x_sol_y", "x_solY", "xsol_y", "solution", "Solution2",
        "my_solution", "mySolution", "resolution", "brute", "Brute", "bruteForce", "brute_force",
        "abrute", "gen", "Gen", "generator", "regen", "re_gen", "reGen", "gen2", "genX", "t",
        "T", "tt", "t_", "_t", "test", "Test", "test1", "my_test", "myTest", "latest", "tEST",
        "\u{e9}sol", "\u{e9}_sol", "sol\u{e9}", "sol_\u{e9}", "\u{c9}Sol", "\u{130}sol",
        "sol\u{130}", "\u{130}_sol", "a\u{df}_gen", "GEN\u{4e2d}", "\u{4e2d}_gen", "gen_\u{4e2d}",
        "\u{1F600}Gen", "x\u{1F600}_t", "\u{3a3}\u{391}\u{3a3}", "sol\u{3a3}",
    ];
    let lists: [&[&str]; 6] = [
        &["solution", "sol"],
        &["brute", "bru"],
        &["generator", "gen"],
        &["test", "t"],
        &["\u{e9}"],
        &[""],
    ];
    for list in lists {
        let owned = words(list);
        for name in names {
            assert_eq!(
                matches_target_pattern(name, &owned),
                expected(name, list),
                "name {:?}, words {:?}",
                name,
                list
            );
        }
    }
}

#[test]
fn word_matches_works_on_what_it_is_given() {
    let flags = vec![false, false, true, false, false];
    assert!(word_matches("mysol", &flags, "sol"));
    assert!(!word_matches("mysol", &vec![false; 5], "sol"));
    assert!(word_matches("my_sol", &vec![false; 6], "sol"));
    assert!(any_word_matches("solx", &vec![false, false, false, true], &words(&["no", "sol"])));
    assert!(!any_word_matches("solx", &vec![false; 4], &words(&["no", "sol"])));
}

#[test]
fn capital_flags_mark_upper_case_letters() {
    assert_eq!(capital_flags("aB_\u{c9}\u{e9}1"), vec![false, true, false, true, false, false]);
    assert_eq!(capital_flags(""), Vec::<bool>::new());
}

#[test]
fn find_first_gives_the_first_place() {
    assert_eq!(find_first(&chars("abcabc"), &chars("bc")), Some(1));
    assert_eq!(find_first(&chars("abcabc"), &chars("abc")), Some(0));
    assert_eq!(find_first(&chars("abcabc"), &chars("cab")), Some(2));
    assert_eq!(find_first(&chars("abcabc"), &chars("")), Some(0));
    assert_eq!(find_first(&chars(""), &chars("")), Some(0));
    assert_eq!(find_first(&chars("abc"), &chars("abcd")), None);
    assert_eq!(find_first(&chars("abc"), &chars("x")), None);
    assert_eq!(find_first(&chars("aab"), &chars("ab")), Some(1));
}

#[test]
fn text_contains_agrees_with_std_contains() {
    let texts = ["", "a", "solution.cpp", "my_sol.cpp", "\u{e9}t\u{e9}", "aaa"];
    let patterns = ["", "a", "sol", ".cpp", "t\u{e9}", "aaaa", "x"];
    for t in texts {
        for p in patterns {
            assert_eq!(text_contains(t, p), t.contains(p), "text {:?}, pattern {:?}", t, p);
        }
    }
}
