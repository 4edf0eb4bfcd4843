use std::time::Duration;
use vamq::tts_guard::{ends_with_boundary, find_last_reasonable_boundary, TtsChunkGuard};

fn chars(s: &str) -> Vec<char> {
    s.chars().collect()
}

#[test]
fn boundary_detection_ignores_trailing_white_space() {
    assert!(ends_with_boundary(&chars("Hello.")));
    assert!(ends_with_boundary(&chars("Hello,  \n ")));
    assert!(ends_with_boundary(&chars("a;")));
    assert!(!ends_with_boundary(&chars("Hello")));
    assert!(!ends_with_boundary(&chars("   ")));
    assert!(!ends_with_boundary(&chars("")));
}

#[test]
fn last_boundary_prefers_sentence_ends() {
    assert_eq!(find_last_reasonable_boundary("a, b. c, d"), Some(5));
    assert_eq!(find_last_reasonable_boundary("a,b;c"), Some(4));
    assert_eq!(find_last_reasonable_boundary("a, b; c"), Some(6));
    assert_eq!(find_last_reasonable_boundary("ab cd"), Some(3));
    assert_eq!(find_last_reasonable_boundary("noboundary"), None);
    assert_eq!(find_last_reasonable_boundary("x\ny"), Some(2));
    // byte indices: 'é' takes two bytes
    assert_eq!(find_last_reasonable_boundary("é."), Some(3));
    assert_eq!(find_last_reasonable_boundary("été, ok"), Some(7));
}

#[test]
fn last_boundary_only_searches_the_last_320_bytes() {
    let mut s = String::from("Early. ");
    s.push_str(&"a".repeat(330));
    assert_eq!(find_last_reasonable_boundary(&s), None);
    let s = format!("{}{}", "a".repeat(20), "b. c");
    assert_eq!(find_last_reasonable_boundary(&s), Some(22));
}

#[test]
fn small_chunks_are_held_back() {
    let mut g = TtsChunkGuard::with_limits(10, 100, Duration::from_secs(3600));
    assert_eq!(g.push("Hello"), None);
    assert_eq!(g.push(""), None);
    assert_eq!(g.push(" wor"), None);
    assert_eq!(g.push("ld, it is me."), Some("Hello world, it is me.".to_string()));
    assert_eq!(g.finish(), None);
}

#[test]
fn too_much_text_is_cut_at_the_last_boundary() {
    let mut g = TtsChunkGuard::with_limits(1000, 20, Duration::from_secs(3600));
    assert_eq!(g.push("One. Two, three four five"), Some("One.".to_string()));
    assert_eq!(g.finish(), Some(" Two, three four five".to_string()));
}

#[test]
fn too_much_text_without_boundary_is_flushed_whole() {
    let mut g = TtsChunkGuard::with_limits(1000, 5, Duration::from_secs(3600));
    assert_eq!(g.push("abcdefgh"), Some("abcdefgh".to_string()));
    assert_eq!(g.finish(), None);
}

#[test]
fn waiting_long_enough_flushes_at_a_boundary() {
    let mut g = TtsChunkGuard::with_limits(4, 1000, Duration::from_secs(3600));
    assert_eq!(g.push_after("Hi, there you", 0), None);
    assert_eq!(g.push_after(" go", 3_600_000_000_000), Some("Hi, there you ".to_string()));
    assert_eq!(g.finish(), Some("go".to_string()));
}

#[test]
fn zero_wait_limit_flushes_once_min_is_reached() {
    let mut g = TtsChunkGuard::with_limits(3, 1000, Duration::from_millis(0));
    assert_eq!(g.push("ab"), None);
    assert_eq!(g.push("cd"), Some("abcd".to_string()));
}

#[test]
fn finish_drops_blank_text() {
    let mut g = TtsChunkGuard::new();
    assert_eq!(g.push("  \n "), None);
    assert_eq!(g.finish(), None);
    assert_eq!(g.push("Hi"), None);
    assert_eq!(g.finish(), Some("Hi".to_string()));
    assert_eq!(g.finish(), None);
}

#[test]
fn default_guard_waits_for_90_chars() {
    let mut g = TtsChunkGuard::default();
    let short = "Short sentence.";
    assert_eq!(g.push(short), None);
    let long = " ".to_string() + &"word ".repeat(16) + "end.";
    let out = g.push(&long).unwrap();
    assert_eq!(out, format!("{}{}", short, long));
}

#[test]
fn multibyte_text_is_kept_whole() {
    let mut g = TtsChunkGuard::with_limits(1000, 6, Duration::from_secs(3600));
    assert_eq!(g.push("สวัสดี. ครับ"), Some("สวัสดี.".to_string()));
    assert_eq!(g.finish(), Some(" ครับ".to_string()));
}

#[test]
fn push_is_defined_checks_the_window() {
    let g = TtsChunkGuard::with_limits(1, 1, Duration::from_secs(3600));
    assert!(g.push_is_defined("", true));
    assert!(g.push_is_defined(&"a".repeat(400), true));
    // 161 two-byte characters and one ASCII letter: 323 bytes, so the
    // window would start inside a character.
    let bad = format!("{}a", "é".repeat(161));
    assert!(!g.push_is_defined(&bad, true));
    assert!(g.push_is_defined(&"é".repeat(161), true));
    let roomy = TtsChunkGuard::with_limits(1000, 1000, Duration::from_secs(3600));
    assert!(roomy.push_is_defined(&bad, false));
}

#[test]
fn elapsed_time_against_the_wait_limit() {
    let mut g = TtsChunkGuard::with_limits(3, 1000, Duration::from_millis(5));
    assert_eq!(g.push_after("abcd", 4_999_999), None);
    assert_eq!(g.push_after("e", 5_000_000), Some("abcde".to_string()));
    assert_eq!(g.push_after("", u128::MAX), None);
    let mut d = TtsChunkGuard::new();
    assert_eq!(d.push_after(&"x".repeat(95), 319_999_999), None);
    assert_eq!(d.push_after("y", 320_000_000), Some(format!("{}y", "x".repeat(95))));
}
