use minigrep::matcher::Matcher;
use minigrep::regex_slice_iterator::{RegexSliceIterator, RegexSliceMatch};
use minigrep::render::render_line;
use minigrep::{copy_range, grep, trim_line, ConvertibleToGrepResult, FileGrepError, GrepConfig};

fn collect_matches(pattern: &Matcher, line: &[u8]) -> Vec<RegexSliceMatch> {
    let owned = line.to_vec();
    let mut iter = RegexSliceIterator::new(pattern, &owned);
    let mut results: Vec<RegexSliceMatch> = Vec::new();
    loop {
        match iter.next() {
            Some(m) => results.push(m),
            None => break,
        }
    }
    results
}

#[test]
fn test_iter() {
    let text = "123456789";
    let pattern = Matcher::new("(1|3|5|7|9)").expect("Invalid regex");
    let results: Vec<Vec<u8>> = collect_matches(&pattern, text.as_bytes())
        .iter()
        .map(|x| x.as_bytes().clone())
        .collect();
    let expected: Vec<Vec<u8>> = vec![
        b"1".to_vec(),
        b"3".to_vec(),
        b"5".to_vec(),
        b"7".to_vec(),
        b"9".to_vec(),
    ];
    assert_eq!(results, expected);
}

#[test]
fn test_iter_no_matches() {
    let text = "123456789";
    let pattern = Matcher::new("(a|b)").expect("Invalid regex");
    let results = collect_matches(&pattern, text.as_bytes());
    assert_eq!(results.len(), 0);
}

#[test]
fn odd_digit_spans() {
    let pattern = Matcher::new("(1|3|5|7|9)").expect("Invalid regex");
    let matches = collect_matches(&pattern, b"123456789");
    let spans: Vec<(usize, usize)> = matches.iter().map(|m| (m.start(), m.end())).collect();
    assert_eq!(spans, vec![(0, 1), (2, 3), (4, 5), (6, 7), (8, 9)]);
}

#[test]
fn odd_digit_rendering() {
    let pattern = Matcher::new("(1|3|5|7|9)").expect("Invalid regex");
    let segs = render_line(&pattern, &b"123456789".to_vec()).expect("the line matches");
    let texts: Vec<Vec<u8>> = segs.iter().map(|s| s.text.clone()).collect();
    let flags: Vec<bool> = segs.iter().map(|s| s.is_match).collect();
    let expected: Vec<Vec<u8>> = vec![
        b"".to_vec(),
        b"1".to_vec(),
        b"2".to_vec(),
        b"3".to_vec(),
        b"4".to_vec(),
        b"5".to_vec(),
        b"6".to_vec(),
        b"7".to_vec(),
        b"8".to_vec(),
        b"9".to_vec(),
        b"".to_vec(),
    ];
    assert_eq!(texts, expected);
    assert_eq!(
        flags,
        vec![false, true, false, true, false, true, false, true, false, true, false]
    );
}

#[test]
fn no_match_renders_nothing() {
    let pattern = Matcher::new("(a|b)").expect("Invalid regex");
    assert!(render_line(&pattern, &b"123456789".to_vec()).is_none());
}

#[test]
fn round_trip_reconstructs_line() {
    let pattern = Matcher::new("l+").expect("Invalid regex");
    let line = b"hello, well, all lines".to_vec();
    let segs = render_line(&pattern, &line).expect("the line matches");
    let mut rebuilt: Vec<u8> = Vec::new();
    for seg in &segs {
        rebuilt.extend_from_slice(&seg.text);
    }
    assert_eq!(rebuilt, line);
}

#[test]
fn zero_width_pattern_terminates() {
    let pattern = Matcher::new("").expect("Invalid regex");
    let matches = collect_matches(&pattern, b"abc");
    let spans: Vec<(usize, usize)> = matches.iter().map(|m| (m.start(), m.end())).collect();
    assert_eq!(spans, vec![(0, 0), (1, 1), (2, 2)]);
    for w in spans.windows(2) {
        assert!(w[0].1 <= w[1].0);
    }
}

#[test]
fn zero_width_round_trip() {
    let pattern = Matcher::new("").expect("Invalid regex");
    let line = b"abc".to_vec();
    let segs = render_line(&pattern, &line).expect("the line matches");
    let mut rebuilt: Vec<u8> = Vec::new();
    for seg in &segs {
        rebuilt.extend_from_slice(&seg.text);
    }
    assert_eq!(rebuilt, line);
}

#[test]
fn valid_pattern_yields_a_matcher() {
    assert!(Matcher::new("(1|3|5|7|9)").is_ok());
    assert!(Matcher::new("").is_ok());
}

#[test]
fn invalid_pattern_is_reported() {
    let result = Matcher::new("(1|3");
    assert!(result.is_err());
    let message = result.err().map(|e| e.message().clone()).unwrap();
    assert!(!message.is_empty());
}

#[test]
fn to_grep_result_carries_compiler_text() {
    let raw = regex::bytes::Regex::new("(unbalanced");
    let expected = raw.as_ref().err().map(|e| e.to_string()).unwrap();
    let converted = raw.to_grep_result();
    let message = converted.err().map(|e| e.message().clone()).unwrap();
    assert_eq!(message, expected);
}

#[test]
fn to_grep_result_passes_values_through() {
    let raw = regex::bytes::Regex::new("ab+");
    let converted = raw.to_grep_result();
    assert!(converted.is_ok());
}

#[test]
fn error_message_round_trip() {
    let e = FileGrepError::new(String::from("boom"));
    assert_eq!(e.message(), "boom");
}

#[test]
fn from_cli_reads_pattern_and_path() {
    let args: Vec<String> = vec![
        String::from("prog"),
        String::from("(1|3)"),
        String::from("input.txt"),
    ];
    let config = GrepConfig::from_cli(args).expect("three arguments are enough");
    assert_eq!(config.pattern, "(1|3)");
    assert_eq!(config.path, "input.txt");
}

#[test]
fn from_cli_rejects_short_argument_lists() {
    let args: Vec<String> = vec![String::from("prog"), String::from("(1|3)")];
    let result = GrepConfig::from_cli(args);
    let message = result.err().map(|e| e.message().clone()).unwrap();
    assert_eq!(message, "Not enough command line paramters");
}

#[test]
fn from_cli_rejects_empty_argument_lists() {
    let result = GrepConfig::from_cli(Vec::new());
    let message = result.err().map(|e| e.message().clone()).unwrap();
    assert_eq!(message, "Not enough command line paramters");
}

#[test]
fn from_cli_ignores_extra_arguments() {
    let args: Vec<String> = vec![
        String::from("prog"),
        String::from("pat"),
        String::from("path"),
        String::from("extra"),
    ];
    let config = GrepConfig::from_cli(args).expect("three arguments are enough");
    assert_eq!(config.pattern, "pat");
    assert_eq!(config.path, "path");
}

#[test]
fn grep_finds_matching_lines_with_indices() {
    let pattern = Matcher::new("(1|9)").expect("Invalid regex");
    let input = b"123\nabc\n789\n".to_vec();
    let rendered = grep(&pattern, input);
    let indices: Vec<usize> = rendered.iter().map(|l| l.index).collect();
    assert_eq!(indices, vec![0, 2]);
    let first: Vec<u8> = rendered[0]
        .segments
        .iter()
        .flat_map(|s| s.text.clone())
        .collect();
    assert_eq!(first, b"123".to_vec());
    let second: Vec<u8> = rendered[1]
        .segments
        .iter()
        .flat_map(|s| s.text.clone())
        .collect();
    assert_eq!(second, b"789".to_vec());
}

#[test]
fn grep_empty_input_processes_zero_lines() {
    let pattern = Matcher::new("a").expect("Invalid regex");
    let rendered = grep(&pattern, Vec::new());
    assert_eq!(rendered.len(), 0);
}

#[test]
fn grep_counts_non_matching_lines() {
    let pattern = Matcher::new("x").expect("Invalid regex");
    let input = b"a\nb\nxx\n".to_vec();
    let rendered = grep(&pattern, input);
    assert_eq!(rendered.len(), 1);
    assert_eq!(rendered[0].index, 2);
}

#[test]
fn grep_last_line_may_lack_newline() {
    let pattern = Matcher::new("b").expect("Invalid regex");
    let input = b"a\nb".to_vec();
    let rendered = grep(&pattern, input);
    assert_eq!(rendered.len(), 1);
    assert_eq!(rendered[0].index, 1);
}

#[test]
fn trim_line_drops_one_trailing_newline() {
    assert_eq!(trim_line(&b"abc\n".to_vec()), b"abc".to_vec());
    assert_eq!(trim_line(&b"abc".to_vec()), b"abc".to_vec());
    assert_eq!(trim_line(&b"\n".to_vec()), b"".to_vec());
    assert_eq!(trim_line(&Vec::new()), Vec::<u8>::new());
}

#[test]
fn copy_range_copies_the_window() {
    let v = b"abcdef".to_vec();
    assert_eq!(copy_range(&v, 1, 4), b"bcd".to_vec());
    assert_eq!(copy_range(&v, 0, 0), Vec::<u8>::new());
}
