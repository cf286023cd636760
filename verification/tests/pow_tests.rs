use std::path::PathBuf;

use wisdom::pow::challenge::{Challenge, VerifyError};
use wisdom::pow::db::Db;
use wisdom::pow::state::{State, StateWrapper};
use wisdom::state::ProcessError;

#[test]
fn builtin_quotes() {
    let db = Db::new(PathBuf::from("ignored.txt"));
    assert_eq!(db.num_quotes(), 3);
    assert_eq!(db.get_quote(0).unwrap(), "first quote");
    assert_eq!(db.get_quote(1).unwrap(), "second quote");
    assert_eq!(db.get_quote(2).unwrap(), "third one");
    assert!(db.get_quote(3).is_none());
}

#[test]
fn challenge_accepts_only_123() {
    let c = Challenge::new(5);
    assert_eq!(c.verify("123"), Ok(()));
    assert_eq!(c.verify("124"), Err(VerifyError::Failed));
    assert_eq!(c.verify("123\n"), Err(VerifyError::Failed));
    assert!(c.to_string().starts_with("5:"));
    assert!(c.to_string().ends_with(":0"));
    assert_eq!(c.text().len(), 30);
}

#[test]
fn pow_exchange() {
    let db = Db::new(PathBuf::from("words_of_wisdom.txt"));
    let mut s = State::new().state;
    assert_eq!(s.process("HELLO", &db), Err(ProcessError::InvalidCommand));
    let reply = s.process("GET", &db).unwrap();
    assert!(reply.starts_with("SLV 5:"));
    assert!(!s.done());
    s = s.next();
    assert!(matches!(s, StateWrapper::ChallengeSent(_)));
    assert_eq!(s.process("999", &db), Err(ProcessError::VerificationFailed));
    let quote = s.process("123", &db).unwrap();
    assert!(["first quote", "second quote", "third one"].contains(&quote.as_str()));
    s = s.next();
    assert!(s.done());
    assert_eq!(s.process("anything", &db).unwrap(), "BYE");
    s = s.next();
    assert!(s.done());
}
