use regex::Regex;
use rtlog::filter::{
    build_filter, compile_enabled_rules, compile_pattern, is_match, line_matches, FilterRule,
};

fn make_rule(pattern: &str, is_regex: bool, case_insensitive: bool, word: bool, line: bool) -> FilterRule {
    FilterRule {
        pattern: pattern.to_string(),
        is_regex,
        case_insensitive,
        whole_word: word,
        whole_line: line,
        enabled: true,
        compiled: None,
        match_count: 0,
    }
}

#[test]
fn test_line_matches_any() {
    let r1 = FilterRule {
        pattern: "ERROR".into(),
        is_regex: false,
        case_insensitive: true,
        whole_word: false,
        whole_line: false,
        enabled: true,
        compiled: None,
        match_count: 0,
    };
    let r2 = FilterRule {
        pattern: "WARN".into(),
        is_regex: false,
        case_insensitive: false,
        whole_word: false,
        whole_line: false,
        enabled: true,
        compiled: None,
        match_count: 0,
    };
    let enabled = compile_enabled_rules(&[r1, r2]);
    assert!(line_matches("2025 ERROR something", &enabled));
    assert!(line_matches("2025 WARN something", &enabled));
    assert!(!line_matches("2025 info ok", &enabled));
}

#[test]
fn empty_matcher_set_shows_every_line() {
    let none: Vec<Regex> = Vec::new();
    assert!(line_matches("anything at all", &none));
    assert!(line_matches("", &none));
}

#[test]
fn matcher_set_is_an_or_not_an_and() {
    let enabled = compile_enabled_rules(&[
        make_rule("alpha", false, false, false, false),
        make_rule("beta", false, false, false, false),
    ]);
    assert_eq!(enabled.len(), 2);
    assert!(line_matches("only alpha here", &enabled));
    assert!(line_matches("only beta here", &enabled));
    assert!(line_matches("alpha and beta", &enabled));
    assert!(!line_matches("gamma", &enabled));
}

#[test]
fn whole_word_rule_matches_word_only() {
    let enabled = compile_enabled_rules(&[make_rule("log", false, false, true, false)]);
    assert!(line_matches("the log file", &enabled));
    assert!(!line_matches("logger started", &enabled));
}

#[test]
fn error_rule_scenario_counts_two_of_three() {
    let mut rule = make_rule("ERROR", false, true, false, false);
    let lines = ["a ERROR 1", "b", "c ERROR 2"];
    let enabled = compile_enabled_rules(&[rule.clone()]);
    assert!(line_matches(lines[0], &enabled));
    assert!(!line_matches(lines[1], &enabled));
    assert!(line_matches(lines[2], &enabled));
    for line in lines {
        rule.count_line(line);
    }
    assert_eq!(rule.match_count, 2);
}

#[test]
fn pattern_text_escapes_literals() {
    let rule = make_rule("a.b(c)", false, false, false, false);
    assert_eq!(rule.pattern_text(), "a\\.b\\(c\\)");
    let every_meta = make_rule("\\.+*?()|[]{}^$#&-~", false, false, false, false);
    assert_eq!(
        every_meta.pattern_text(),
        "\\\\\\.\\+\\*\\?\\(\\)\\|\\[\\]\\{\\}\\^\\$\\#\\&\\-\\~"
    );
    let plain = make_rule("abc %/!\"", false, false, false, false);
    assert_eq!(plain.pattern_text(), "abc %/!\"");
}

#[test]
fn pattern_text_keeps_regex_as_written() {
    let rule = make_rule("a.b", true, false, false, false);
    assert_eq!(rule.pattern_text(), "a.b");
}

#[test]
fn literal_dot_does_not_match_any_character() {
    let literal = compile_enabled_rules(&[make_rule("a.b", false, false, false, false)]);
    assert!(line_matches("xa.bx", &literal));
    assert!(!line_matches("xaxbx", &literal));
    let regex = compile_enabled_rules(&[make_rule("a.b", true, false, false, false)]);
    assert!(line_matches("xaxbx", &regex));
}

#[test]
fn whole_line_wins_over_whole_word() {
    let both = make_rule("abc", false, false, true, true);
    assert_eq!(both.pattern_text(), "^abc$");
    let line_only = make_rule("abc", false, false, false, true);
    assert_eq!(line_only.pattern_text(), "^abc$");
    let word_only = make_rule("abc", false, false, true, false);
    assert_eq!(word_only.pattern_text(), "\\babc\\b");
    let re = both.compile().unwrap();
    assert_eq!(re.as_str(), "^abc$");
    assert!(is_match(&re, "abc"));
    assert!(!is_match(&re, "abc d"));
    assert!(!is_match(&re, "an abc"));
}

#[test]
fn compile_keeps_the_case_flag() {
    let loose = make_rule("error", false, true, false, false).compile().unwrap();
    assert!(is_match(&loose, "An ERROR here"));
    let strict = make_rule("error", false, false, false, false).compile().unwrap();
    assert!(!is_match(&strict, "An ERROR here"));
    assert!(is_match(&strict, "An error here"));
}

#[test]
fn compile_reports_invalid_regex() {
    let bad = make_rule("(unclosed", true, false, false, false);
    let err = bad.compile().unwrap_err();
    let expected = Regex::new("(unclosed").unwrap_err().to_string();
    assert_eq!(err.message, expected);
    assert_eq!(err.to_string(), expected);
    assert!(!err.message.is_empty());
    // the same text as a literal compiles
    assert!(make_rule("(unclosed", false, false, false, false).compile().is_ok());
}

#[test]
fn compile_pattern_compiles_text_as_it_stands() {
    let re = compile_pattern("a+", false).unwrap();
    assert_eq!(re.as_str(), "a+");
    assert!(is_match(&re, "caaat"));
    assert!(compile_pattern("[", true).is_err());
}

#[test]
fn ensure_compiled_fills_cache_once() {
    let mut rule = make_rule("abc", false, false, false, false);
    assert!(rule.compiled.is_none());
    rule.ensure_compiled();
    assert_eq!(rule.compiled.as_ref().unwrap().as_str(), "abc");
    // a cached matcher is kept even when the pattern text has changed
    rule.pattern = "xyz".to_string();
    rule.ensure_compiled();
    assert_eq!(rule.compiled.as_ref().unwrap().as_str(), "abc");
    assert_eq!(rule.pattern, "xyz");
    assert_eq!(rule.match_count, 0);
}

#[test]
fn ensure_compiled_leaves_bad_rule_uncompiled() {
    let mut rule = make_rule("(", true, false, false, false);
    rule.ensure_compiled();
    assert!(rule.compiled.is_none());
    rule.count_line("( anything");
    assert_eq!(rule.match_count, 0);
    // once corrected, the next use compiles it
    rule.pattern = "any".to_string();
    rule.count_line("( anything");
    assert!(rule.compiled.is_some());
    assert_eq!(rule.match_count, 1);
}

#[test]
fn disabled_rule_does_not_count() {
    let mut rule = make_rule("x", false, false, false, false);
    rule.enabled = false;
    rule.count_line("x");
    assert_eq!(rule.match_count, 0);
    assert!(rule.compiled.is_none());
}

#[test]
fn match_count_saturates() {
    let mut rule = make_rule("x", false, false, false, false);
    rule.match_count = usize::MAX;
    rule.count_line("x");
    assert_eq!(rule.match_count, usize::MAX);
}

#[test]
fn compile_enabled_rules_skips_disabled_and_invalid() {
    let mut off = make_rule("off", false, false, false, false);
    off.enabled = false;
    let rules = [
        make_rule("one", false, false, false, false),
        off,
        make_rule("(", true, false, false, false),
        make_rule("two", true, true, false, false),
    ];
    let enabled = compile_enabled_rules(&rules);
    let texts: Vec<&str> = enabled.iter().map(|re| re.as_str()).collect();
    assert_eq!(texts, vec!["one", "two"]);
}

#[test]
fn build_filter_handles_absent_and_empty() {
    assert!(build_filter(None).unwrap().is_none());
    assert!(build_filter(Some("")).unwrap().is_none());
    let re = build_filter(Some("warn")).unwrap().unwrap();
    assert_eq!(re.as_str(), "warn");
    assert!(is_match(&re, "a WARNing"));
    assert!(build_filter(Some("(")).is_err());
}

#[test]
fn new_rule_is_enabled_and_uncompiled() {
    let rule = FilterRule::new("abc".to_string(), true, false, true, false);
    assert_eq!(rule.pattern, "abc");
    assert!(rule.is_regex);
    assert!(!rule.case_insensitive);
    assert!(rule.whole_word);
    assert!(!rule.whole_line);
    assert!(rule.enabled);
    assert!(rule.compiled.is_none());
    assert_eq!(rule.match_count, 0);
}

#[test]
fn anchored_pattern_needs_whole_line() {
    let re = Regex::new("^done$").unwrap();
    assert!(is_match(&re, "done"));
    assert!(!is_match(&re, "not done"));
    let loose = Regex::new("done").unwrap();
    assert!(is_match(&loose, "not done yet"));
}

#[test]
fn changing_a_rule_empties_its_cache() {
    let mut rule = make_rule("abc", false, false, false, false);
    rule.count_line("abc");
    assert_eq!(rule.match_count, 1);
    assert!(rule.compiled.is_some());
    rule.set_pattern("xyz".to_string());
    assert!(rule.compiled.is_none());
    assert_eq!(rule.pattern, "xyz");
    assert_eq!(rule.match_count, 1);
    rule.count_line("abc");
    assert_eq!(rule.match_count, 1);
    rule.count_line("an XYZ");
    assert_eq!(rule.match_count, 1);
    rule.set_flags(false, true, false, false);
    assert!(rule.compiled.is_none());
    assert!(rule.case_insensitive);
    rule.count_line("an XYZ");
    assert_eq!(rule.match_count, 2);
    rule.set_flags(true, false, false, true);
    assert!(rule.is_regex && rule.whole_line && !rule.whole_word && !rule.case_insensitive);
    rule.count_line("xyz");
    assert_eq!(rule.match_count, 3);
    assert_eq!(rule.compiled.as_ref().unwrap().as_str(), "^xyz$");
}
