use vanity_gen::matcher::prefix_match;
use vanity_gen::rarity::{find_block_tiling, find_rare_pattern, find_single_run};
use vanity_gen::rules::{preprocess_patterns, JobContext, PatternConfig, PatternKind, PatternRule};

fn config(pattern: &str, min_length: usize) -> PatternConfig {
    PatternConfig { pattern: pattern.to_string(), min_length }
}

fn job(prefix: &str, entries: Vec<PatternConfig>) -> JobContext {
    JobContext::new(prefix, Some(&entries))
}

#[test]
fn single_rule_reports_first_qualifying_run() {
    let found = find_single_run(b"aaabccaaaa", b'a', 3);
    assert_eq!(found, Some("aaa".to_string()));
}

#[test]
fn single_rule_reports_whole_maximal_run() {
    assert_eq!(find_single_run(b"baaaaac", b'a', 3), Some("aaaaa".to_string()));
}

#[test]
fn single_rule_skips_short_runs() {
    assert_eq!(find_single_run(b"aabaaabaaaa", b'a', 4), Some("aaaa".to_string()));
    assert_eq!(find_single_run(b"aabaaabaaaa", b'a', 3), Some("aaa".to_string()));
}

#[test]
fn single_rule_sees_trailing_run() {
    assert_eq!(find_single_run(b"xyzzz", b'z', 3), Some("zzz".to_string()));
}

#[test]
fn single_rule_without_match() {
    assert_eq!(find_single_run(b"abcabc", b'a', 2), None);
    assert_eq!(find_single_run(b"", b'a', 1), None);
}

#[test]
fn single_rule_with_zero_minimum_reports_leading_run() {
    assert_eq!(find_single_run(b"bcd", b'a', 0), Some(String::new()));
    assert_eq!(find_single_run(b"aab", b'a', 0), Some("aa".to_string()));
    assert_eq!(find_single_run(b"", b'a', 0), Some(String::new()));
}

#[test]
fn single_rule_on_a_byte_that_is_no_text() {
    assert_eq!(find_single_run(&[0xff, 0xff, 0xff], 0xff, 2), None);
    assert_eq!(find_single_run(&[0xff, b'a', b'b'], 0xff, 1), None);
    assert_eq!(find_single_run(&[0xff, b'a'], 0xff, 0), Some(String::new()));
    assert_eq!(find_single_run(&[b'a', 0xff], 0xff, 0), Some(String::new()));
}

#[test]
fn block_rule_reports_all_consecutive_tiles() {
    assert_eq!(find_block_tiling(b"xyxyxyz", b"xy", 2), Some("xyxyxy".to_string()));
}

#[test]
fn block_rule_takes_first_qualifying_offset() {
    assert_eq!(find_block_tiling(b"xyaxyxybxyxyxy", b"xy", 2), Some("xyxy".to_string()));
    assert_eq!(find_block_tiling(b"xyaxyxybxyxyxy", b"xy", 3), Some("xyxyxy".to_string()));
    assert_eq!(find_block_tiling(b"xyaxyxybxyxyxy", b"xy", 4), None);
}

#[test]
fn block_rule_resumes_behind_a_failed_tiling() {
    assert_eq!(find_block_tiling(b"abaabaXabaabaaba", b"aba", 3), Some("abaabaaba".to_string()));
    assert_eq!(find_block_tiling(b"ababa", b"aba", 1), Some("aba".to_string()));
}

#[test]
fn block_rule_does_not_look_inside_a_failed_tiling() {
    assert_eq!(find_block_tiling(b"ababaaba", b"aba", 2), None);
    assert_eq!(find_block_tiling(b"ababaaba", b"aba", 1), Some("aba".to_string()));
}

#[test]
fn block_rule_skips_short_addresses() {
    assert_eq!(find_block_tiling(b"xyxy", b"xy", 3), None);
    assert_eq!(find_block_tiling(b"x", b"xy", 0), None);
    assert_eq!(find_block_tiling(b"xyxy", b"xy", usize::MAX), None);
}

#[test]
fn block_rule_with_zero_minimum_needs_one_tile() {
    assert_eq!(find_block_tiling(b"abxyc", b"xy", 0), Some("xy".to_string()));
    assert_eq!(find_block_tiling(b"abc", b"xy", 0), None);
}

#[test]
fn block_rule_with_empty_unit_finds_nothing() {
    assert_eq!(find_block_tiling(b"abc", b"", 0), None);
}

#[test]
fn block_rule_with_multibyte_text() {
    let address = "aééb".as_bytes();
    assert_eq!(find_block_tiling(address, "é".as_bytes(), 2), Some("éé".to_string()));
}

#[test]
fn first_rule_in_order_wins() {
    let long_first = job("", vec![config("a", 4), config("xy", 2)]);
    assert_eq!(find_rare_pattern(b"xyxyaaaa", &long_first), Some("aaaa".to_string()));
    let block_first = job("", vec![config("xy", 2), config("a", 4)]);
    assert_eq!(find_rare_pattern(b"xyxyaaaa", &block_first), Some("xyxy".to_string()));
}

#[test]
fn later_rule_is_used_when_earlier_ones_fail() {
    let context = job("", vec![config("q", 2), config("zz", 3), config("b", 2)]);
    assert_eq!(find_rare_pattern(b"abbc", &context), Some("bb".to_string()));
    assert_eq!(find_rare_pattern(b"abc", &context), None);
}

#[test]
fn empty_patterns_are_dropped() {
    let entries = vec![config("", 1), config("a", 2), config("", 0), config("bc", 3)];
    let rules = preprocess_patterns(Some(&entries)).unwrap();
    assert_eq!(rules.len(), 2);
    assert!(matches!(rules[0], PatternRule { kind: PatternKind::Single(b'a'), min_length: 2 }));
    match &rules[1] {
        PatternRule { kind: PatternKind::Sequence(unit), min_length } => {
            assert_eq!(unit.as_slice(), b"bc");
            assert_eq!(*min_length, 3);
        }
        _ => panic!("a block rule was expected"),
    }
}

#[test]
fn only_empty_patterns_give_no_rule_set() {
    let entries = vec![config("", 1), config("", 5)];
    assert!(preprocess_patterns(Some(&entries)).is_none());
    let none: Vec<PatternConfig> = Vec::new();
    assert!(preprocess_patterns(Some(&none)).is_none());
    assert!(preprocess_patterns(None).is_none());
}

#[test]
fn multibyte_character_compiles_to_a_block_rule() {
    let entries = vec![config("é", 2)];
    let rules = preprocess_patterns(Some(&entries)).unwrap();
    match &rules[0].kind {
        PatternKind::Sequence(unit) => assert_eq!(unit.as_slice(), "é".as_bytes()),
        PatternKind::Single(_) => panic!("a block rule was expected"),
    }
}

#[test]
fn job_without_rules_finds_nothing_rare() {
    let absent = JobContext::new("ab", None);
    assert!(absent.pattern_rules.is_none());
    assert_eq!(find_rare_pattern(b"aaaaaaaa", &absent), None);
    let empty = job("ab", Vec::new());
    assert!(empty.pattern_rules.is_none());
    assert_eq!(find_rare_pattern(b"aaaaaaaa", &empty), None);
    let dropped = job("ab", vec![config("", 0)]);
    assert_eq!(find_rare_pattern(b"aaaaaaaa", &dropped), None);
}

#[test]
fn job_keeps_prefix_bytes() {
    let context = JobContext::new("So1", None);
    assert_eq!(context.prefix_bytes, b"So1".to_vec());
}

#[test]
fn prefix_is_compared_byte_for_byte() {
    assert!(prefix_match(b"abcdef", b"abc"));
    assert!(prefix_match(b"abc", b"abc"));
    assert!(prefix_match(b"abc", b""));
    assert!(prefix_match(b"", b""));
    assert!(!prefix_match(b"abcdef", b"abd"));
    assert!(!prefix_match(b"abcdef", b"Abc"));
    assert!(!prefix_match(b"ab", b"abc"));
    assert!(!prefix_match(b"xabc", b"abc"));
}
