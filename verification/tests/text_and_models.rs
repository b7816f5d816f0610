use jjs::models::{InvokeStatus, Run};
use jjs::text::{decimal_string, find_char, prefixed, signed_decimal_string};

#[test]
fn decimal_of_zero_and_large_numbers() {
    assert_eq!(decimal_string(0), "0");
    assert_eq!(decimal_string(7), "7");
    assert_eq!(decimal_string(1234567890), "1234567890");
    assert_eq!(decimal_string(u64::MAX), u64::MAX.to_string());
    assert_eq!(decimal_string(1000), "1000");
}

#[test]
fn signed_decimal_matches_to_string() {
    assert_eq!(signed_decimal_string(0), "0");
    assert_eq!(signed_decimal_string(-42), "-42");
    assert_eq!(signed_decimal_string(i64::MIN), i64::MIN.to_string());
    assert_eq!(signed_decimal_string(i64::MAX), i64::MAX.to_string());
    assert_eq!(signed_decimal_string(i32::MIN as i64), "-2147483648");
}

#[test]
fn decimal_reads_back_as_the_number() {
    for n in [0u64, 1, 9, 10, 99, 100, 65535, 4294967296] {
        let text = decimal_string(n);
        assert_eq!(text.parse::<u64>().unwrap(), n);
        assert!(text.chars().all(|c| c.is_ascii_digit()));
        assert!(n == 0 || !text.starts_with('0'));
    }
}

#[test]
fn find_char_gives_first_position_or_length() {
    assert_eq!(find_char("A=B=C", '='), 1);
    assert_eq!(find_char("ABC", '='), 3);
    assert_eq!(find_char("", '='), 0);
    assert_eq!(find_char("=x", '='), 0);
}

#[test]
fn prefixed_concatenates() {
    assert_eq!(prefixed("file-", "out.txt"), "file-out.txt");
    assert_eq!(prefixed("", ""), "");
}

#[test]
fn run_new_keeps_every_field() {
    let status = InvokeStatus { code: "ACCEPTED".to_string(), kind: "Accepted".to_string() };
    let run = Run::new(
        "trial".to_string(),
        17,
        "A".to_string(),
        Some(100),
        Some(status.clone()),
        "g++".to_string(),
    );
    assert_eq!(run.contest_id, "trial");
    assert_eq!(run.id, 17);
    assert_eq!(run.problem_name, "A");
    assert_eq!(run.score, Some(100));
    assert_eq!(run.status, Some(status));
    assert_eq!(run.toolchain_name, "g++");
}

#[test]
fn run_new_without_score_or_status() {
    let run = Run::new("c".to_string(), -1, "B".to_string(), None, None, "rust".to_string());
    assert_eq!(run.score, None);
    assert_eq!(run.status, None);
    assert_eq!(run.id, -1);
}
