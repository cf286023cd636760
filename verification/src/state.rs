//! The server's view of one connection: a state machine that moves from
//! `Connected` (waiting for `GET`) to `ChallengeSent` (waiting for the
//! answer) to `Done` (quote sent) and back to `Connected`.

use vstd::prelude::*;

use crate::challenge::{
    is_field_text, law_solution_accepted, render, solves, verify_outcome, with_counter, Challenge,
    ChallengeView,
};
use crate::command::{command_text, Command};
use crate::db::Db;
use crate::text::{push_char, push_str};

use rand::Rng;
use vstd::std_specs::convert::FromSpec;

verus! {

/// A struct that keeps track of the challenge of a connection in the phase
/// `T`.
pub struct ConnectionState<T> {
    challenge: Option<Challenge>,
    _state: T,
}

/// A client established a connection.
pub struct Connected {}

/// The challenge was sent to the client.
pub struct ChallengeSent {}

/// A quote was sent to the client.
pub struct Done {}

/// Why a line from the client was refused.
#[derive(Debug, Clone, Copy, PartialEq, Eq, Structural)]
pub enum ProcessError {
    /// A connected client sent something other than `GET`.
    InvalidCommand,
    /// The client's answer does not solve the challenge.
    VerificationFailed,
}

/// The value of an optional challenge.
pub open spec fn challenge_view(c: Option<Challenge>) -> Option<ChallengeView> {
    match c {
        Some(ch) => Some(ch@),
        None => None,
    }
}

/// The reply that sends the challenge `c`: `SLV difficulty:text:counter`.
pub open spec fn challenge_reply(c: ChallengeView) -> Seq<char> {
    command_text(Command::SLV) + seq![' '] + render(c)
}

/// The reply that sends the quote `q`: `QUO quote`.
pub open spec fn quote_reply(q: Seq<char>) -> Seq<char> {
    command_text(Command::QUO) + seq![' '] + q
}

/// A reply that sends one of the quotes of `db`, the header line excepted.
pub open spec fn is_quote_reply(db: Seq<Seq<char>>, reply: Seq<char>) -> bool {
    exists|i: int| 1 <= i < db.len() && reply == quote_reply(#[trigger] db[i])
}

/// A fresh challenge of difficulty `difficulty`, as `Challenge::new` makes
/// one.
pub open spec fn is_fresh_challenge(c: ChallengeView, difficulty: u8) -> bool {
    &&& c.num_zeros == difficulty
    &&& c.counter == 0
    &&& c.text.len() == 30
    &&& forall|i: int| 0 <= i < 30 ==> crate::challenge::is_alphanumeric(#[trigger] c.text[i])
}

/// A number drawn at random from `low..high` by `rand::Rng::gen_range` on
/// `rand::thread_rng()`, which panics on an empty range. Trusted: the
/// number lies in the range; which one is left open.
#[verifier::external_body]
pub(crate) fn random_index(low: usize, high: usize) -> (n: usize)
    requires
        low < high,
    ensures
        low <= n < high,
{
    rand::thread_rng().gen_range(low..high)
}

impl<T> ConnectionState<T> {
    /// The challenge of this connection, if one was sent.
    pub closed spec fn spec_challenge(&self) -> Option<ChallengeView> {
        challenge_view(self.challenge)
    }

    /// The challenge of this connection, if one was sent.
    pub fn challenge(&self) -> (c: Option<&Challenge>)
        ensures
            match c {
                Some(ch) => self.spec_challenge() == Some(ch@),
                None => self.spec_challenge() is None,
            },
    {
        match &self.challenge {
            Some(ch) => Some(ch),
            None => None,
        }
    }
}

impl ConnectionState<Connected> {
    /// A connection that has sent nothing yet.
    pub fn new() -> (s: Self)
        ensures
            s.spec_challenge() is None,
    {
        ConnectionState { challenge: None, _state: Connected {} }
    }

    /// Handles a line from a client that has just connected: `GET` is
    /// answered with a fresh challenge, anything else is refused.
    pub fn process(&mut self, line: &str, _db: &Db, difficulty: u8) -> (r: Result<
        Option<String>,
        ProcessError,
    >)
        ensures
            line@ == command_text(Command::GET) ==> {
                &&& final(self).spec_challenge() is Some
                &&& is_fresh_challenge(final(self).spec_challenge()->Some_0, difficulty)
                &&& r matches Ok(Some(reply)) && reply@ == challenge_reply(
                    final(self).spec_challenge()->Some_0,
                )
            },
            line@ != command_text(Command::GET) ==> {
                &&& r == Err::<Option<String>, ProcessError>(ProcessError::InvalidCommand)
                &&& final(self).spec_challenge() == old(self).spec_challenge()
            },
    {
        if line.to_owned() == Command::GET.to_string() {
            let challenge = Challenge::new(difficulty);
            let mut reply = Command::SLV.to_string();
            push_char(&mut reply, ' ');
            let text = challenge.to_string();
            push_str(&mut reply, text.as_str());
            self.challenge = Some(challenge);
            return Ok(Some(reply));
        }
        Err(ProcessError::InvalidCommand)
    }
}

impl ConnectionState<ChallengeSent> {
    /// Handles the answer of a client that was sent a challenge: an answer
    /// that solves it is answered with a random quote (never the header
    /// line), anything else is refused.
    pub fn process(&mut self, line: &str, db: &Db, _difficulty: u8) -> (r: Result<
        Option<String>,
        ProcessError,
    >)
        requires
            old(self).spec_challenge() is Some,
            verify_outcome(old(self).spec_challenge()->Some_0, line@) is Ok ==> db@.len() > 1,
        ensures
            final(self).spec_challenge() == old(self).spec_challenge(),
            verify_outcome(old(self).spec_challenge()->Some_0, line@) is Ok ==> (r matches Ok(
                Some(reply),
            ) && is_quote_reply(db@, reply@)),
            verify_outcome(old(self).spec_challenge()->Some_0, line@) is Err ==> r == Err::<
                Option<String>,
                ProcessError,
            >(ProcessError::VerificationFailed),
    {
        let verified = match &self.challenge {
            Some(c) => c.verify(line),
            None => {
                return Err(ProcessError::VerificationFailed);
            },
        };
        if let Ok(()) = verified {
            let quote = Self::get_quote(db);
            let mut reply = Command::QUO.to_string();
            push_char(&mut reply, ' ');
            push_str(&mut reply, quote.as_str());
            proof {
                let i = choose|i: int| 1 <= i < db@.len() && quote@ == db@[i];
                assert(reply@ =~= quote_reply(db@[i]));
            }
            return Ok(Some(reply));
        }
        Err(ProcessError::VerificationFailed)
    }

    /// A random quote of `db`, the header line excepted.
    fn get_quote(db: &Db) -> (q: String)
        requires
            db@.len() > 1,
        ensures
            exists|i: int| 1 <= i < db@.len() && q@ == db@[i],
    {
        let n = random_index(1, db.num_quotes());
        Self::quote_at(db, n)
    }

    /// The quote at index `n` of `db`: what is served when the random draw
    /// gives `n`.
    pub fn quote_at(db: &Db, n: usize) -> (q: String)
        requires
            n < db@.len(),
        ensures
            q@ == db@[n as int],
    {
        match db.get_quote(n) {
            Some(quote) => quote.clone(),
            None => String::new(),
        }
    }
}

impl ConnectionState<Done> {
    /// Handles a line after the quote was sent: nothing is answered.
    pub fn process(&mut self, _line: &str, _db: &Db, _difficulty: u8) -> (r: Result<
        Option<String>,
        ProcessError,
    >)
        ensures
            r == Ok::<Option<String>, ProcessError>(None),
            final(self).spec_challenge() == old(self).spec_challenge(),
    {
        Ok(None)
    }
}

// The transitions between phases; a transition that is not listed here,
// such as `Connected` to `Done`, does not compile.

/// From `Connected` to `ChallengeSent`: the challenge is kept.
impl From<ConnectionState<Connected>> for ConnectionState<ChallengeSent> {
    fn from(val: ConnectionState<Connected>) -> (r: ConnectionState<ChallengeSent>)
        ensures
            r.spec_challenge() == val.spec_challenge(),
    {
        ConnectionState { challenge: val.challenge, _state: ChallengeSent {} }
    }
}

impl vstd::std_specs::convert::FromSpecImpl<ConnectionState<Connected>> for ConnectionState<ChallengeSent> {
    open spec fn obeys_from_spec() -> bool {
        true
    }

    closed spec fn from_spec(val: ConnectionState<Connected>) -> ConnectionState<ChallengeSent> {
        ConnectionState { challenge: val.challenge, _state: ChallengeSent {} }
    }
}

/// From `ChallengeSent` to `Done`: the challenge is kept.
impl From<ConnectionState<ChallengeSent>> for ConnectionState<Done> {
    fn from(val: ConnectionState<ChallengeSent>) -> (r: ConnectionState<Done>)
        ensures
            r.spec_challenge() == val.spec_challenge(),
    {
        ConnectionState { challenge: val.challenge, _state: Done {} }
    }
}

impl vstd::std_specs::convert::FromSpecImpl<ConnectionState<ChallengeSent>> for ConnectionState<Done> {
    open spec fn obeys_from_spec() -> bool {
        true
    }

    closed spec fn from_spec(val: ConnectionState<ChallengeSent>) -> ConnectionState<Done> {
        ConnectionState { challenge: val.challenge, _state: Done {} }
    }
}

/// From `Done` back to `Connected`: the challenge is dropped.
impl From<ConnectionState<Done>> for ConnectionState<Connected> {
    fn from(_val: ConnectionState<Done>) -> (r: ConnectionState<Connected>)
        ensures
            r.spec_challenge() is None,
    {
        ConnectionState { challenge: None, _state: Connected {} }
    }
}

impl vstd::std_specs::convert::FromSpecImpl<ConnectionState<Done>> for ConnectionState<Connected> {
    open spec fn obeys_from_spec() -> bool {
        true
    }

    closed spec fn from_spec(val: ConnectionState<Done>) -> ConnectionState<Connected> {
        ConnectionState { challenge: None, _state: Connected {} }
    }
}

/// The phases of a connection.
#[derive(Debug, Clone, Copy, PartialEq, Eq, Structural)]
pub enum Phase {
    Connected,
    ChallengeSent,
    Done,
}

/// The value of a connection's state: its phase and its challenge.
pub struct StateView {
    pub phase: Phase,
    pub challenge: Option<ChallengeView>,
}

/// The phase that follows `p`.
pub open spec fn next_phase(p: Phase) -> Phase {
    match p {
        Phase::Connected => Phase::ChallengeSent,
        Phase::ChallengeSent => Phase::Done,
        Phase::Done => Phase::Connected,
    }
}

/// The state that follows `v`: the challenge is kept until the connection
/// returns to `Connected`.
pub open spec fn next_view(v: StateView) -> StateView {
    StateView {
        phase: next_phase(v.phase),
        challenge: if v.phase == Phase::Done {
            None
        } else {
            v.challenge
        },
    }
}

/// The value of a reply: its text, if there is one, or the error.
pub open spec fn reply_view(r: Result<Option<String>, ProcessError>) -> Result<
    Option<Seq<char>>,
    ProcessError,
> {
    match r {
        Ok(Some(s)) => Ok(Some(s@)),
        Ok(None) => Ok(None),
        Err(e) => Err(e),
    }
}

/// Whether a line can be handled in the state `v` with the quotes `db`
/// without failing: a connection waiting for an answer has a challenge,
/// and if the answer solves it there is a quote besides the header line.
pub open spec fn can_process(v: StateView, line: Seq<char>, db: Seq<Seq<char>>) -> bool {
    v.phase == Phase::ChallengeSent ==> {
        &&& v.challenge is Some
        &&& verify_outcome(v.challenge->Some_0, line) is Ok ==> db.len() > 1
    }
}

/// What handling `line` in the state `before` does: the phase stays; a
/// connected client's `GET` gets a fresh challenge of difficulty
/// `difficulty`; an answer that solves the challenge gets a quote; after the
/// quote nothing is answered; every other line is refused and changes
/// nothing.
pub open spec fn process_outcome(
    before: StateView,
    after: StateView,
    line: Seq<char>,
    db: Seq<Seq<char>>,
    difficulty: u8,
    r: Result<Option<Seq<char>>, ProcessError>,
) -> bool {
    &&& after.phase == before.phase
    &&& match before.phase {
        Phase::Connected => if line == command_text(Command::GET) {
            &&& after.challenge is Some
            &&& is_fresh_challenge(after.challenge->Some_0, difficulty)
            &&& r == Ok::<Option<Seq<char>>, ProcessError>(
                Some(challenge_reply(after.challenge->Some_0)),
            )
        } else {
            &&& after.challenge == before.challenge
            &&& r == Err::<Option<Seq<char>>, ProcessError>(ProcessError::InvalidCommand)
        },
        Phase::ChallengeSent => {
            &&& before.challenge is Some
            &&& after.challenge == before.challenge
            &&& if verify_outcome(before.challenge->Some_0, line) is Ok {
                r matches Ok(Some(reply)) && is_quote_reply(db, reply)
            } else {
                r == Err::<Option<Seq<char>>, ProcessError>(ProcessError::VerificationFailed)
            }
        },
        Phase::Done => {
            &&& after.challenge == before.challenge
            &&& r == Ok::<Option<Seq<char>>, ProcessError>(None)
        },
    }
}

/// An enum holding the state of a connection in one of its phases.
pub enum StateWrapper {
    Connected(ConnectionState<Connected>),
    ChallengeSent(ConnectionState<ChallengeSent>),
    Done(ConnectionState<Done>),
}

impl View for StateWrapper {
    type V = StateView;

    open spec fn view(&self) -> StateView {
        match self {
            StateWrapper::Connected(s) => StateView {
                phase: Phase::Connected,
                challenge: s.spec_challenge(),
            },
            StateWrapper::ChallengeSent(s) => StateView {
                phase: Phase::ChallengeSent,
                challenge: s.spec_challenge(),
            },
            StateWrapper::Done(s) => StateView { phase: Phase::Done, challenge: s.spec_challenge() },
        }
    }
}

/// A struct that holds a StateWrapper instance.
pub struct State {
    /// The state of the connection.
    pub state: StateWrapper,
}

impl State {
    /// The state of a new connection: connected, with no challenge.
    pub fn new() -> (s: Self)
        ensures
            s.state@ == (StateView { phase: Phase::Connected, challenge: None }),
    {
        State { state: StateWrapper::Connected(ConnectionState::<Connected>::new()) }
    }
}

impl StateWrapper {
    /// Proceeds to the next phase.
    pub fn next(self) -> (s: Self)
        ensures
            s@ == next_view(self@),
    {
        match self {
            StateWrapper::Connected(val) => StateWrapper::ChallengeSent(val.into()),
            StateWrapper::ChallengeSent(val) => StateWrapper::Done(val.into()),
            StateWrapper::Done(val) => StateWrapper::Connected(val.into()),
        }
    }

    /// Handles a line from the client in the current phase.
    pub fn process(&mut self, line: &str, db: &Db, difficulty: u8) -> (r: Result<
        Option<String>,
        ProcessError,
    >)
        requires
            can_process(old(self)@, line@, db@),
        ensures
            process_outcome(old(self)@, final(self)@, line@, db@, difficulty, reply_view(r)),
    {
        match self {
            StateWrapper::Connected(val) => val.process(line, db, difficulty),
            StateWrapper::ChallengeSent(val) => val.process(line, db, difficulty),
            StateWrapper::Done(val) => val.process(line, db, difficulty),
        }
    }

    /// Handles a line as `process` does when it can be handled without
    /// failing; gives `None`, and changes nothing, when the connection waits
    /// for an answer without a challenge, or when the answer solves the
    /// challenge but the store holds no quote besides the header line.
    pub fn checked_process(&mut self, line: &str, db: &Db, difficulty: u8) -> (r: Option<
        Result<Option<String>, ProcessError>,
    >)
        ensures
            r is None <==> !can_process(old(self)@, line@, db@),
            r is None ==> final(self)@ == old(self)@,
            r matches Some(res) ==> process_outcome(
                old(self)@,
                final(self)@,
                line@,
                db@,
                difficulty,
                reply_view(res),
            ),
    {
        if let StateWrapper::ChallengeSent(s) = self {
            match s.challenge() {
                None => {
                    return None;
                },
                Some(c) => {
                    if db.num_quotes() <= 1 && c.verify(line).is_ok() {
                        return None;
                    }
                },
            }
        }
        Some(self.process(line, db, difficulty))
    }

    /// The phase of the connection.
    pub fn phase(&self) -> (p: Phase)
        ensures
            p == self@.phase,
    {
        match self {
            StateWrapper::Connected(_) => Phase::Connected,
            StateWrapper::ChallengeSent(_) => Phase::ChallengeSent,
            StateWrapper::Done(_) => Phase::Done,
        }
    }
}

/// Three steps take a connection back to its phase, with no challenge
/// left: the challenge is kept from `Connected` through `Done` and dropped
/// on the way back to `Connected`.
pub proof fn law_next_cycles(v: StateView)
    ensures
        next_view(next_view(next_view(v))).phase == v.phase,
        next_view(next_view(next_view(v))).challenge is None,
        v.phase != Phase::Done ==> next_view(v).challenge == v.challenge,
{
}

/// A client that asks with `GET` and then answers with a counter that
/// solves the challenge it was sent gets a quote, never the header line,
/// whenever the store holds a quote besides the header line.
pub proof fn law_solved_challenge_gets_quote(
    before: StateView,
    after: StateView,
    db: Seq<Seq<char>>,
    difficulty: u8,
    reply: Result<Option<Seq<char>>, ProcessError>,
    k: u128,
    last: StateView,
    answer_reply: Result<Option<Seq<char>>, ProcessError>,
)
    requires
        before.phase == Phase::Connected,
        process_outcome(before, after, command_text(Command::GET), db, difficulty, reply),
        solves(with_counter(after.challenge->Some_0, k)),
        db.len() > 1,
        process_outcome(
            next_view(after),
            last,
            render(with_counter(after.challenge->Some_0, k)),
            db,
            difficulty,
            answer_reply,
        ),
    ensures
        reply == Ok::<Option<Seq<char>>, ProcessError>(
            Some(challenge_reply(after.challenge->Some_0)),
        ),
        next_view(after).phase == Phase::ChallengeSent,
        can_process(next_view(after), render(with_counter(after.challenge->Some_0, k)), db),
        answer_reply matches Ok(Some(q)) && is_quote_reply(db, q),
{
    let c = after.challenge->Some_0;
    assert(is_field_text(c.text)) by {
        if c.text.contains(':') {
            let i = choose|i: int| 0 <= i < c.text.len() && c.text[i] == ':';
            assert(crate::challenge::is_alphanumeric(c.text[i]));
        }
    }
    law_solution_accepted(c, k);
}

/// The transitions keep the challenge from `Connected` through `Done` and
/// drop it on the way back to `Connected`.
pub proof fn law_transitions_carry_challenge(
    a: ConnectionState<Connected>,
    b: ConnectionState<ChallengeSent>,
    c: ConnectionState<Done>,
)
    ensures
        <ConnectionState<ChallengeSent> as FromSpec<ConnectionState<Connected>>>::from_spec(
            a,
        ).spec_challenge() == a.spec_challenge(),
        <ConnectionState<Done> as FromSpec<ConnectionState<ChallengeSent>>>::from_spec(
            b,
        ).spec_challenge() == b.spec_challenge(),
        <ConnectionState<Connected> as FromSpec<ConnectionState<Done>>>::from_spec(
            c,
        ).spec_challenge() is None,
{
}

/// Handling a line never changes the phase, and changes the challenge only
/// when a connected client asks with `GET`.
pub proof fn law_process_keeps_phase(
    before: StateView,
    after: StateView,
    line: Seq<char>,
    db: Seq<Seq<char>>,
    difficulty: u8,
    r: Result<Option<Seq<char>>, ProcessError>,
)
    requires
        process_outcome(before, after, line, db, difficulty, r),
    ensures
        after.phase == before.phase,
        after.challenge != before.challenge ==> before.phase == Phase::Connected && line
            == command_text(Command::GET),
{
}

/// No quote without a solved challenge: a reply that starts with `QUO `
/// comes only from a connection that waits for an answer, and only when
/// the line solves its challenge.
pub proof fn law_no_quote_without_solution(
    before: StateView,
    after: StateView,
    line: Seq<char>,
    db: Seq<Seq<char>>,
    difficulty: u8,
    reply: Seq<char>,
)
    requires
        process_outcome(
            before,
            after,
            line,
            db,
            difficulty,
            Ok::<Option<Seq<char>>, ProcessError>(Some(reply)),
        ),
        reply.len() >= 4,
        reply.subrange(0, 4) == quote_reply(Seq::<char>::empty()),
    ensures
        before.phase == Phase::ChallengeSent,
        before.challenge is Some,
        verify_outcome(before.challenge->Some_0, line) is Ok,
{
    if before.phase == Phase::Connected {
        let c = after.challenge->Some_0;
        assert(reply[0] == challenge_reply(c)[0]);
        assert(reply.subrange(0, 4)[0] == reply[0]);
        assert(quote_reply(Seq::<char>::empty())[0] == 'Q');
    }
}

/// Every quote but the header can be served: for each index `i` from 1 on,
/// the reply that serves the `i`-th line is a quote reply of the store, and
/// replies that serve different quotes differ, so each quote is an outcome
/// of its own.
pub proof fn law_every_quote_can_be_served(db: Seq<Seq<char>>, i: int, j: int)
    requires
        1 <= i < db.len(),
        1 <= j < db.len(),
    ensures
        is_quote_reply(db, quote_reply(db[i])),
        db[i] != db[j] ==> quote_reply(db[i]) != quote_reply(db[j]),
{
    if db[i] != db[j] {
        assert(quote_reply(db[i]).subrange(4, quote_reply(db[i]).len() as int) =~= db[i]);
        assert(quote_reply(db[j]).subrange(4, quote_reply(db[j]).len() as int) =~= db[j]);
    }
}

} // verus!
