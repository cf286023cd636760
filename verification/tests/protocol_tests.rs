use wisdom::client::{parse, solve, wants_quote};
use wisdom::command::Command;
use wisdom::db::Db;
use wisdom::state::{
    ChallengeSent, Connected, ConnectionState, Done, Phase, ProcessError, State, StateWrapper,
};
use wisdom::text::lines_of;
use wisdom::challenge::Challenge;

fn two_line_db() -> Db {
    Db::new(vec!["header".to_string(), "the only quote".to_string()])
}

#[test]
fn command_names() {
    assert_eq!(Command::GET.to_string(), "GET");
    assert_eq!(Command::QUO.to_string(), "QUO");
    assert_eq!(Command::SLV.to_string(), "SLV");
    assert_eq!(Command::THX.to_string(), "THX");
}

#[test]
fn db_lookup() {
    let db = two_line_db();
    assert_eq!(db.num_quotes(), 2);
    assert_eq!(db.get_quote(1).map(|s| s.as_str()), Some("the only quote"));
    assert_eq!(db.get_quote(2), None);
}

#[test]
fn lines_of_strips_line_endings() {
    assert_eq!(lines_of("a\nb\r\nc"), vec!["a", "b", "c"]);
    assert_eq!(lines_of("a\n\nb\n"), vec!["a", "", "b"]);
    assert_eq!(lines_of(""), Vec::<String>::new());
    assert_eq!(lines_of("x\r"), vec!["x\r"]);
    assert_eq!(lines_of("\n"), vec![""]);
}

#[test]
fn new_state_is_connected_without_challenge() {
    let s = State::new();
    assert_eq!(s.state.phase(), Phase::Connected);
    match &s.state {
        StateWrapper::Connected(c) => assert!(c.challenge().is_none()),
        _ => panic!("not connected"),
    }
}

#[test]
fn connected_refuses_anything_but_get() {
    let db = two_line_db();
    let mut s = State::new().state;
    assert_eq!(s.process("HELLO", &db, 2), Err(ProcessError::InvalidCommand));
    assert_eq!(s.process("GET\n", &db, 2), Err(ProcessError::InvalidCommand));
    assert_eq!(s.phase(), Phase::Connected);
}

#[test]
fn full_exchange_gives_the_quote() {
    let db = two_line_db();
    let mut s = State::new().state;
    let reply = s.process("GET", &db, 1).unwrap().unwrap();
    assert!(reply.starts_with("SLV 1:"));
    assert!(reply.ends_with(":0"));
    s = s.next();
    assert_eq!(s.phase(), Phase::ChallengeSent);

    // the client's side
    let challenge = parse(&format!("{}\n", reply));
    assert_eq!(format!("SLV {}", challenge), format!("{}\n", reply));
    let answer = solve(&challenge).unwrap();
    assert!(answer.ends_with('\n'));

    let quote = s.process(&answer, &db, 1).unwrap().unwrap();
    assert_eq!(quote, "QUO the only quote");
    assert_eq!(parse(&format!("{}\n", quote)), "the only quote");

    s = s.next();
    assert_eq!(s.phase(), Phase::Done);
    assert_eq!(s.process("THX", &db, 1), Ok(None));
    s = s.next();
    assert_eq!(s.phase(), Phase::Connected);
    match &s {
        StateWrapper::Connected(c) => assert!(c.challenge().is_none()),
        _ => panic!("not connected"),
    }
}

#[test]
fn wrong_answer_is_refused() {
    let db = two_line_db();
    let mut s = State::new().state;
    s.process("GET", &db, 1).unwrap();
    s = s.next();
    assert_eq!(
        s.process("1:nope:0", &db, 1),
        Err(ProcessError::VerificationFailed)
    );
    assert_eq!(s.phase(), Phase::ChallengeSent);
}

#[test]
fn challenge_is_kept_until_back_to_connected() {
    let db = two_line_db();
    let mut cs = ConnectionState::new();
    cs.process("GET", &db, 3).unwrap();
    let text = cs.challenge().unwrap().to_string();
    let mut s = StateWrapper::Connected(cs);
    s = s.next();
    match &s {
        StateWrapper::ChallengeSent(c) => assert_eq!(c.challenge().unwrap().to_string(), text),
        _ => panic!("wrong phase"),
    }
    s = s.next();
    match &s {
        StateWrapper::Done(c) => assert_eq!(c.challenge().unwrap().to_string(), text),
        _ => panic!("wrong phase"),
    }
    s = s.next();
    match &s {
        StateWrapper::Connected(c) => assert!(c.challenge().is_none()),
        _ => panic!("wrong phase"),
    }
}

#[test]
fn three_steps_return_to_same_phase() {
    let mut s = State::new().state;
    for _ in 0..3 {
        s = s.next();
    }
    assert_eq!(s.phase(), Phase::Connected);
    s = s.next();
    for _ in 0..3 {
        s = s.next();
    }
    assert_eq!(s.phase(), Phase::ChallengeSent);
}

#[test]
fn parse_decodes_server_lines() {
    assert_eq!(parse("SLV 2:abc:0\n"), "2:abc:0\n");
    assert_eq!(parse("QUO “Always Do What You Are Afraid To Do” – Ralph Waldo Emerson\n"),
        "“Always Do What You Are Afraid To Do” – Ralph Waldo Emerson");
    assert_eq!(parse("BYE\n"), "unknown command\n");
    assert_eq!(parse("ABCDE"), "unknown command\n");
}

#[test]
fn solve_gives_answer_line() {
    let answer = solve("2:zC9iarFfZP34DYPutwnh4PMb6YVUmH:0\n").unwrap();
    assert_eq!(answer, "2:zC9iarFfZP34DYPutwnh4PMb6YVUmH:18950\n");
    let c = Challenge::from_str("2:zC9iarFfZP34DYPutwnh4PMb6YVUmH:0").unwrap();
    assert_eq!(c.verify(&answer), Ok(()));
}

#[test]
fn prompt_answers() {
    assert!(wants_quote("y\n"));
    assert!(wants_quote("  YES "));
    assert!(wants_quote("Yes"));
    assert!(!wants_quote("no"));
    assert!(!wants_quote("yess"));
    assert!(!wants_quote(""));
    assert!(!wants_quote("y e s"));
}

#[test]
fn checked_process_refuses_when_no_quote_can_be_given() {
    let header_only = Db::new(vec!["header".to_string()]);
    let mut s = State::new().state;
    let reply = s.checked_process("GET", &header_only, 1).unwrap().unwrap().unwrap();
    s = s.next();
    let answer = solve(&parse(&format!("{}\n", reply))).unwrap();
    assert!(s.checked_process(&answer, &header_only, 1).is_none());
    assert_eq!(s.phase(), Phase::ChallengeSent);
    // a wrong answer can still be refused
    assert_eq!(
        s.checked_process("1:x:0", &header_only, 1),
        Some(Err(ProcessError::VerificationFailed))
    );
    let db = two_line_db();
    assert_eq!(
        s.checked_process(&answer, &db, 1),
        Some(Ok(Some("QUO the only quote".to_string())))
    );
}

#[test]
fn transitions_keep_or_drop_the_challenge() {
    let db = two_line_db();
    let mut cs: ConnectionState<Connected> = ConnectionState::new();
    cs.process("GET", &db, 2).unwrap();
    let text = cs.challenge().unwrap().to_string();
    let sent = ConnectionState::<ChallengeSent>::from(cs);
    assert_eq!(sent.challenge().unwrap().to_string(), text);
    let done = ConnectionState::<Done>::from(sent);
    assert_eq!(done.challenge().unwrap().to_string(), text);
    let back = ConnectionState::<Connected>::from(done);
    assert!(back.challenge().is_none());
}
