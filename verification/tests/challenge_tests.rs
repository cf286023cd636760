use wisdom::challenge::{meets_difficulty, Challenge, SolveError, VerifyError};
use wisdom::number::IntErrorKind;

const README_CHALLENGE: &str = "2:zC9iarFfZP34DYPutwnh4PMb6YVUmH:0";
const README_ANSWER: &str = "2:zC9iarFfZP34DYPutwnh4PMb6YVUmH:18950";

#[test]
fn new_challenge_has_thirty_alphanumeric_characters() {
    let c = Challenge::new(4);
    assert_eq!(c.num_zeros(), 4);
    assert_eq!(c.counter(), 0);
    assert_eq!(c.text().chars().count(), 30);
    assert!(c.text().chars().all(|ch| ch.is_ascii_alphanumeric()));
}

#[test]
fn new_challenges_differ() {
    let a = Challenge::new(1);
    let b = Challenge::new(1);
    assert_ne!(a.text(), b.text());
}

#[test]
fn to_string_joins_fields_with_colons() {
    let c = Challenge::from_str("7:abc:42").unwrap();
    assert_eq!(c.to_string(), "7:abc:42");
}

#[test]
fn from_str_reads_fields() {
    let c = Challenge::from_str(README_CHALLENGE).unwrap();
    assert_eq!(c.num_zeros(), 2);
    assert_eq!(c.text(), "zC9iarFfZP34DYPutwnh4PMb6YVUmH");
    assert_eq!(c.counter(), 0);
}

#[test]
fn from_str_trims_whitespace() {
    let c = Challenge::from_str("  3:xyz:9\r\n").unwrap();
    assert_eq!(c.num_zeros(), 3);
    assert_eq!(c.text(), "xyz");
    assert_eq!(c.counter(), 9);
}

#[test]
fn from_str_accepts_plus_sign_and_leading_zeros() {
    let c = Challenge::from_str("+05:t:+0010").unwrap();
    assert_eq!(c.num_zeros(), 5);
    assert_eq!(c.counter(), 10);
    assert_eq!(c.to_string(), "5:t:10");
}

#[test]
fn from_str_allows_empty_text() {
    let c = Challenge::from_str("1::2").unwrap();
    assert_eq!(c.text(), "");
}

#[test]
fn from_str_refuses_wrong_number_of_parts() {
    assert_eq!(Challenge::from_str("1:2").err(), Some(IntErrorKind::Empty));
    assert_eq!(Challenge::from_str("1:2:3:4").err(), Some(IntErrorKind::Empty));
    assert_eq!(Challenge::from_str("").err(), Some(IntErrorKind::Empty));
}

#[test]
fn from_str_reports_number_errors() {
    assert_eq!(Challenge::from_str(":a:1").err(), Some(IntErrorKind::Empty));
    assert_eq!(Challenge::from_str("x:a:1").err(), Some(IntErrorKind::InvalidDigit));
    assert_eq!(Challenge::from_str("+:a:1").err(), Some(IntErrorKind::InvalidDigit));
    assert_eq!(Challenge::from_str("-1:a:1").err(), Some(IntErrorKind::InvalidDigit));
    assert_eq!(Challenge::from_str("256:a:1").err(), Some(IntErrorKind::PosOverflow));
    assert_eq!(Challenge::from_str("255:a:").err(), Some(IntErrorKind::Empty));
    assert_eq!(
        Challenge::from_str("1:a:340282366920938463463374607431768211456").err(),
        Some(IntErrorKind::PosOverflow)
    );
    // an invalid digit after an overflow: the overflow comes first
    assert_eq!(Challenge::from_str("2560x:a:1").err(), Some(IntErrorKind::PosOverflow));
    // an invalid digit before an overflow: the digit comes first
    assert_eq!(Challenge::from_str("2x99999:a:1").err(), Some(IntErrorKind::InvalidDigit));
}

#[test]
fn from_str_reads_largest_counter() {
    let c = Challenge::from_str("255:a:340282366920938463463374607431768211455").unwrap();
    assert_eq!(c.num_zeros(), 255);
    assert_eq!(c.counter(), u128::MAX);
    assert_eq!(c.to_string(), "255:a:340282366920938463463374607431768211455");
}

#[test]
fn round_trip_of_fresh_challenge() {
    let c = Challenge::new(9);
    let back = Challenge::from_str(&c.to_string()).unwrap();
    assert_eq!(back.num_zeros(), c.num_zeros());
    assert_eq!(back.text(), c.text());
    assert_eq!(back.counter(), c.counter());
}

#[test]
fn readme_solution() {
    let answer = Challenge::solve(README_CHALLENGE).unwrap();
    assert_eq!(answer.counter(), 18950);
    assert_eq!(answer.to_string(), README_ANSWER);
}

#[test]
fn readme_answer_is_accepted() {
    let c = Challenge::from_str(README_CHALLENGE).unwrap();
    assert_eq!(c.verify(README_ANSWER), Ok(()));
    assert_eq!(c.verify(&format!("{}\n", README_ANSWER)), Ok(()));
}

#[test]
fn other_counters_are_not_solutions() {
    let c = Challenge::from_str(README_CHALLENGE).unwrap();
    assert_eq!(
        c.verify("2:zC9iarFfZP34DYPutwnh4PMb6YVUmH:18949"),
        Err(VerifyError::NotSolved)
    );
    assert!(!Challenge::from_str("2:zC9iarFfZP34DYPutwnh4PMb6YVUmH:0").unwrap().is_solved());
    assert!(Challenge::from_str(README_ANSWER).unwrap().is_solved());
}

#[test]
fn answer_for_another_challenge_is_refused() {
    let c = Challenge::from_str(README_CHALLENGE).unwrap();
    assert_eq!(
        c.verify("2:zC9iarFfZP34DYPutwnh4PMb6YVUmX:18950"),
        Err(VerifyError::Mismatch)
    );
    assert_eq!(
        c.verify("3:zC9iarFfZP34DYPutwnh4PMb6YVUmH:18950"),
        Err(VerifyError::Mismatch)
    );
    assert_eq!(c.verify("garbage"), Err(VerifyError::Parse(IntErrorKind::Empty)));
}

#[test]
fn solve_starts_from_given_counter() {
    let answer = Challenge::solve("2:zC9iarFfZP34DYPutwnh4PMb6YVUmH:18950").unwrap();
    assert_eq!(answer.counter(), 18950);
    let later = Challenge::solve("2:zC9iarFfZP34DYPutwnh4PMb6YVUmH:18951").unwrap();
    assert!(later.counter() > 18950);
    let c = Challenge::from_str(README_CHALLENGE).unwrap();
    assert_eq!(c.verify(&later.to_string()), Ok(()));
}

#[test]
fn difficulty_zero_is_solved_at_once() {
    let answer = Challenge::solve("0:anything:77").unwrap();
    assert_eq!(answer.counter(), 77);
}

#[test]
fn solve_reports_parse_errors() {
    assert_eq!(
        Challenge::solve("2:a").err(),
        Some(SolveError::Parse(IntErrorKind::Empty))
    );
    assert_eq!(
        Challenge::solve("q:a:0").err(),
        Some(SolveError::Parse(IntErrorKind::InvalidDigit))
    );
}

#[test]
fn solve_at_last_counter_gives_up() {
    // difficulty 33 asks for more zero bytes than a digest has
    let r = Challenge::solve("33:a:340282366920938463463374607431768211455");
    assert_eq!(r.err(), Some(SolveError::Exhausted));
}

#[test]
fn meets_difficulty_checks_leading_zero_characters() {
    assert!(meets_difficulty(b"00abc", 2));
    assert!(meets_difficulty(b"00abc", 0));
    assert!(!meets_difficulty(b"0a0bc", 2));
    assert!(!meets_difficulty(&[0u8, 0u8, 1u8], 1));
    assert!(!meets_difficulty(b"00", 3));
    assert!(meets_difficulty(b"000", 3));
}

#[test]
fn difficulty_beyond_digest_length_is_never_solved() {
    let c = Challenge::from_str("33:a:0").unwrap();
    assert!(!c.is_solved());
    assert_eq!(c.verify("33:a:5"), Err(VerifyError::NotSolved));
}
