use statline::error::StatlineError;
use statline::num::{copy_stat, decimal_text, Stat};
use statline::text::{
    ascii_lowercase, chars_end_with, chars_hold, chars_lt, chars_of, join_texts, push_str,
    same_text, text_of,
};

fn stat(x: f64) -> Stat {
    Stat { bits: x.to_bits(), fixed2: format!("{:.2}", x) }
}

#[test]
fn decimal_text_writes_numbers_like_display() {
    for n in [0u64, 7, 10, 42, 100, 999, 1000, 123456789, u64::MAX] {
        assert_eq!(decimal_text(n), n.to_string());
    }
}

#[test]
fn text_helpers_copy_and_compare() {
    assert_eq!(text_of("héllo"), "héllo");
    let mut s = String::from("ab");
    push_str(&mut s, "cd€");
    assert_eq!(s, "abcd€");
    assert!(same_text("abc", "abc"));
    assert!(!same_text("abc", "abd"));
    assert!(!same_text("abc", "ab"));
    assert_eq!(chars_of("añb"), vec!['a', 'ñ', 'b']);
}

#[test]
fn join_texts_puts_separator_between_neighbours() {
    let parts = vec!["a".to_string(), "".to_string(), "c".to_string()];
    assert_eq!(join_texts(&parts, ", "), "a, , c");
    assert_eq!(join_texts(&Vec::new(), ", "), "");
    assert_eq!(join_texts(&vec!["x".to_string()], "--"), "x");
}

#[test]
fn ascii_lowercase_matches_std() {
    for s in ["CSV", "PaRqUeT", "ÄBC", "mixed123_X", ""] {
        let expected: Vec<char> = s.to_ascii_lowercase().chars().collect();
        assert_eq!(ascii_lowercase(s), expected);
    }
}

#[test]
fn chars_lt_orders_like_strings() {
    let words = ["", "a", "ab", "b", "B", "é", "abc", "aa"];
    for a in words {
        for b in words {
            let x: Vec<char> = a.chars().collect();
            let y: Vec<char> = b.chars().collect();
            assert_eq!(chars_lt(&x, &y), a < b, "{a:?} < {b:?}");
        }
    }
}

#[test]
fn suffix_and_part_search() {
    let s: Vec<char> = "user_id".chars().collect();
    assert!(chars_end_with(&s, &"_id".chars().collect()));
    assert!(!chars_end_with(&s, &"user".chars().collect()));
    assert!(chars_hold(&s, &"er_i".chars().collect()));
    assert!(!chars_hold(&s, &"uuid".chars().collect()));
    assert!(chars_hold(&s, &Vec::new()));
}

#[test]
fn error_messages_match_display_text() {
    assert_eq!(
        StatlineError::InputNotFound("data/x.csv".to_string()).message(),
        "Input path does not exist: data/x.csv"
    );
    assert_eq!(
        StatlineError::InputNotAFile("data".to_string()).message(),
        "Input path is not a file: data"
    );
    assert_eq!(
        StatlineError::UnsupportedFormat("a.txt".to_string()).message(),
        "Unsupported input format for file: a.txt"
    );
    assert_eq!(StatlineError::EmptyDataset.message(), "Dataset is empty after loading");
    assert_eq!(StatlineError::Message("boom".to_string()).message(), "boom");
}

#[test]
fn stat_finiteness_follows_the_bits() {
    assert!(stat(1.5).is_finite());
    assert!(stat(-0.0).is_finite());
    assert!(stat(f64::MAX).is_finite());
    assert!(!stat(f64::NAN).is_finite());
    assert!(!stat(f64::INFINITY).is_finite());
    assert!(!stat(f64::NEG_INFINITY).is_finite());
    let copied = copy_stat(&Some(stat(2.25)));
    let c = copied.unwrap();
    assert_eq!(c.bits, 2.25f64.to_bits());
    assert_eq!(c.fixed2, "2.25");
    assert!(copy_stat(&None).is_none());
}

#[test]
fn decimal_text_reads_back() {
    for n in [0u64, 5, 10, 99, 1234567, u32::MAX as u64, u64::MAX] {
        let text = decimal_text(n);
        assert_eq!(statline::visualization::terminal::utils::parse_usize(&text), Some(n as usize));
    }
}
