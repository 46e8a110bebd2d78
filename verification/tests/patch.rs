use grok_tools::patch::closest::{closest_match, levenshtein, line_similarity, trim_trailing_blank};
use grok_tools::patch::diagnose::diagnose_missing_lines;
use grok_tools::precision::single::{tenths_text, Single};

fn to_vec(strings: &[&str]) -> Vec<String> {
    strings.iter().map(ToString::to_string).collect()
}

fn chars(s: &str) -> Vec<char> {
    s.chars().collect()
}

/// The number as the machine has it.
fn float(s: Single) -> f32 {
    s.digits as f32 * 2f32.powi(s.exponent as i32)
}

#[test]
fn finds_best_window_when_pattern_lines_are_not_adjacent() {
    let lines = to_vec(&[
        "var errorMessage: String?",
        "var showingRestPicker = false",
        "var currentRestDuration: TimeInterval = 0",
        "var showingExerciseEditor = false",
        "var isSavingHistory = false",
    ]);
    let pattern = to_vec(&[
        "var showingRestPicker = false",
        "var showingExerciseEditor = false",
        "var isSavingHistory = false",
    ]);
    let m = closest_match(&lines, &pattern).unwrap();
    assert_eq!(m.start, 2);
    assert_eq!(m.len, 3);
    assert!(float(m.similarity) > 0.5, "similarity was {}", float(m.similarity));
    assert!(float(m.similarity) < 1.0);
}

#[test]
fn fallback_matches_near_miss_line_without_verbatim_anchor() {
    let lines = to_vec(&["fn hello_world() {", "    body();", "}"]);
    let pattern = to_vec(&["fn helo_world() {"]);
    let m = closest_match(&lines, &pattern).unwrap();
    assert_eq!(m.start, 0);
    assert!(float(m.similarity) > 0.8);
}

#[test]
fn empty_file_or_pattern_returns_none() {
    assert!(closest_match(&[], &to_vec(&["x"])).is_none());
    assert!(closest_match(&to_vec(&["x"]), &[]).is_none());
    assert!(closest_match(&to_vec(&["x"]), &to_vec(&["", "  "])).is_none());
}

#[test]
fn pattern_longer_than_file_clamps_window() {
    let lines = to_vec(&["a", "b"]);
    let pattern = to_vec(&["a", "b", "c", "d"]);
    let m = closest_match(&lines, &pattern).unwrap();
    assert_eq!(m.start, 0);
    assert_eq!(m.len, 2);
    assert!((float(m.similarity) - 0.5).abs() < 0.01);
    assert_eq!(m.similarity, Single::ratio(1, 2));
}

#[test]
fn diagnose_reports_line_numbers_and_similarity() {
    let lines = to_vec(&["alpha", "beta", "gamma", "delta"]);
    let pattern = to_vec(&["beta", "gamma", "epsilon"]);
    let msg = diagnose_missing_lines(&lines, &pattern, "f.txt", 0);
    assert!(msg.contains("Closest match in f.txt at lines 2-4"), "{msg}");
    assert!(msg.contains("(similarity:"), "{msg}");
    assert!(msg.contains("2\tbeta"), "{msg}");
}

#[test]
fn diagnose_notes_out_of_order_hunks() {
    let lines = to_vec(&["a", "b", "c", "d"]);
    let pattern = to_vec(&["a"]);
    let msg = diagnose_missing_lines(&lines, &pattern, "f.txt", 2);
    assert!(msg.contains("BEFORE"), "{msg}");
    assert!(msg.contains("ordered top-to-bottom"), "{msg}");
}

#[test]
fn diagnose_reports_no_similar_region_for_unrelated_pattern() {
    let lines = to_vec(&["alpha", "beta"]);
    let pattern = to_vec(&["zzzzzzzzzzzzzzzzzzzz"]);
    let msg = diagnose_missing_lines(&lines, &pattern, "f.txt", 0);
    assert!(msg.contains("No similar region was found in f.txt"), "{msg}");
}

#[test]
fn edit_distance_counts_edits_in_both_directions() {
    assert_eq!(levenshtein(&chars("kitten"), &chars("sitting")), 3);
    assert_eq!(levenshtein(&chars("sitting"), &chars("kitten")), 3);
    assert_eq!(levenshtein(&chars("same"), &chars("same")), 0);
    assert_eq!(levenshtein(&chars(""), &chars("abc")), 3);
    assert_eq!(levenshtein(&chars("abc"), &chars("")), 3);
    assert_eq!(levenshtein(&chars(&"a".repeat(300)), &chars(&"b".repeat(250))), 300);
    assert_eq!(levenshtein(&chars(&"a".repeat(300)), &chars(&"a".repeat(170))), 130);
    let d = |a: &str, b: &str| levenshtein(&chars(a), &chars(b));
    assert_eq!((d("flaw", "lawn"), d("flaw", "law"), d("law", "lawn")), (2, 1, 1));
    assert!(d("kitten", "lawn") <= d("kitten", "sitting") + d("sitting", "lawn"));
}

#[test]
fn similarity_lies_between_zero_and_one() {
    assert_eq!(line_similarity("  a b ", "a b"), Single::one());
    assert_eq!(line_similarity("", "x"), Single::zero());
    assert_eq!(line_similarity("abcd", "abcx"), Single::ratio(3, 4));
    assert_eq!(line_similarity("abcx", "abcd"), Single::ratio(3, 4));
    let long_a = "a".repeat(200);
    let long_b = "b".repeat(130);
    assert_eq!(line_similarity(&long_a, &long_b), Single::zero());
    let s = line_similarity("abc", "abx");
    assert_eq!((s.digits, s.exponent), (11_184_810, -24));
}

#[test]
fn trailing_blank_lines_do_not_count() {
    assert_eq!(trim_trailing_blank(&to_vec(&["a", "", " \t"])), 1);
    assert_eq!(trim_trailing_blank(&to_vec(&["", "a"])), 2);
    assert_eq!(trim_trailing_blank(&[]), 0);
}

#[test]
fn shares_of_one_are_those_of_the_machine() {
    for m in 1..=120u32 {
        for d in 0..=m {
            let alike = Single::ratio(d, m).rest_of_one();
            let expected = 1.0 - d as f32 / m as f32;
            assert_eq!(float(alike), expected, "{d} of {m}");
            assert_eq!(alike.is_zero(), d == m);
            assert_eq!(
                tenths_text(alike.hundredfold().tenths()),
                format!("{:.1}", expected * 100.0),
                "{d} of {m}"
            );
        }
    }
}

#[test]
fn means_are_those_of_the_machine() {
    let mut total = Single::zero();
    let mut expected = 0f32;
    let mut seed = 12345u32;
    for k in 1..=3000usize {
        seed = seed.wrapping_mul(1_103_515_245).wrapping_add(12_345);
        let m = (seed >> 16) % 120 + 1;
        let d = (seed >> 8) % (m + 1);
        let alike = Single::ratio(d, m).rest_of_one();
        total = total.plus(&alike);
        expected += 1.0 - d as f32 / m as f32;
        assert_eq!(float(total), expected);
        for n in [k, k + 7, 16_777_217 + k, 4_294_967_295 * k, usize::MAX - k] {
            let mean = total.over(&Single::of_count(n));
            assert_eq!(float(Single::of_count(n)), n as f32, "{n}");
            assert_eq!(float(mean), expected / n as f32, "{k} over {n}");
            assert_eq!(mean.is_below(&alike), float(mean) < float(alike));
            assert_eq!(
                tenths_text(mean.hundredfold().tenths()),
                format!("{:.1}", expected / n as f32 * 100.0)
            );
        }
    }
}

#[test]
fn sums_stop_where_single_precision_ends() {
    let top = Single::of_count(16_777_216);
    assert_eq!((top.digits, top.exponent), (8_388_608, 1));
    assert_eq!(top.plus(&Single::one()), top);
    assert_eq!(Single::of_count(16_777_215).plus(&Single::one()), top);
    assert_eq!(Single::of_count(16_777_217), top);
    assert_eq!(top.over(&Single::of_count(16_777_217)), Single::one());
    assert!(top.over(&Single::of_count(16_777_218)).is_below(&Single::one()));
    assert_eq!(Single::zero().plus(&Single::one()), Single::one());
    assert!(!Single::zero().is_below(&Single::zero()));
}

#[test]
fn percentages_round_halves_to_even() {
    let tenths = |num: u32, den: u32| Single::ratio(num, den).hundredfold().tenths();
    assert_eq!(tenths(1, 3), 333);
    assert_eq!(tenths(2, 3), 667);
    assert_eq!(tenths(13, 16), 812);
    assert_eq!(tenths(3, 16), 188);
    assert_eq!(tenths(0, 1), 0);
    assert_eq!(tenths(1, 1), 1000);
    assert_eq!(tenths_text(1000), "100.0");
    assert_eq!(tenths_text(7), "0.7");
}

#[test]
fn percentages_come_from_the_rounded_similarity() {
    let line = "a".repeat(27) + &"b".repeat(53);
    let pattern = "a".repeat(27) + &"c".repeat(53);
    assert_eq!(levenshtein(&chars(&line), &chars(&pattern)), 53);
    let msg = diagnose_missing_lines(&[line.clone()], &[pattern], "f.txt", 0);
    assert_eq!(msg, format!("Closest match in f.txt at lines 1-1 (similarity: 33.7%):\n1\t{line}"));
}

#[test]
fn regions_below_three_tenths_are_not_shown() {
    let lines = to_vec(&["abcdefghij"]);
    let msg = diagnose_missing_lines(&lines, &to_vec(&["abcxxxxxxx"]), "f.txt", 0);
    assert_eq!(msg.contains("similarity: 30.0%"), 1.0 - 7.0f32 / 10.0 >= 0.3);
    let msg = diagnose_missing_lines(&lines, &to_vec(&["abxxxxxxxx"]), "f.txt", 0);
    assert!(msg.contains("No similar region"), "{msg}");
}

#[test]
fn long_regions_are_cut_short() {
    let lines: Vec<String> = (0..30).map(|i| format!("line {i}")).collect();
    let msg = diagnose_missing_lines(&lines, &lines, "big.rs", 0);
    assert!(msg.starts_with("Closest match in big.rs at lines 1-30 (similarity: 100.0%):\n1\tline 0\n"));
    assert!(msg.contains("20\tline 19\n\t… (10 more lines)"));
    assert!(!msg.contains("21\tline 20"));
}

#[test]
fn more_votes_win_and_then_the_earlier_place() {
    let lines = to_vec(&["x", "y", "q", "x", "y", "z"]);
    let m = closest_match(&lines, &to_vec(&["x", "y", "z"])).unwrap();
    assert_eq!(m.start, 3);
    let twice = to_vec(&["x", "y", "q", "x", "y", "q"]);
    let m = closest_match(&twice, &to_vec(&["x", "y"])).unwrap();
    assert_eq!(m.start, 0);
}

#[test]
fn the_same_lines_are_fully_alike() {
    let lines: Vec<String> = (0..300).map(|i| format!("line {i} of many")).collect();
    let pattern: Vec<String> = (100..200).map(|i| format!("  line {i} of many ")).collect();
    let m = closest_match(&lines, &pattern).unwrap();
    assert_eq!((m.start, m.len), (100, 100));
    assert_eq!(m.similarity, Single::one());
}
