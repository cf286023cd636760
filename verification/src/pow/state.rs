//! The connection state machine of the first server version: `Connected`
//! (waiting for `GET`), `ChallengeSent` (waiting for the answer), `Done`
//! (the quote was sent; the connection says `BYE` from then on).

use vstd::prelude::*;

use crate::pow::challenge::{
    accepted_answer, law_render_holds_fields, lemma_fresh_text_has_no_separator, render, Challenge,
    ChallengeView,
};
use crate::text::split_on;
use crate::pow::db::Db;
use crate::state::{random_index, ProcessError};
use crate::text::push_str;
use vstd::std_specs::convert::FromSpec;

verus! {

/// The difficulty of every challenge of this version.
pub const DIFFICULTY: usize = 5;

/// A struct that keeps track of the challenge of a connection in the phase
/// `T`.
pub struct ConnectionState<T> {
    challenge: Option<Challenge>,
    state: T,
}

/// A client established a connection.
pub struct Connected {}

/// The challenge was sent to the client.
pub struct ChallengeSent {}

/// A quote was sent to the client.
pub struct Done {}

/// The value of an optional challenge.
pub open spec fn challenge_view(c: Option<Challenge>) -> Option<ChallengeView> {
    match c {
        Some(ch) => Some(ch@),
        None => None,
    }
}

/// The text `GET`.
pub open spec fn get_text() -> Seq<char> {
    seq!['G', 'E', 'T']
}

/// The text `BYE`.
pub open spec fn bye_text() -> Seq<char> {
    seq!['B', 'Y', 'E']
}

/// The reply that sends the challenge `c`: `SLV difficulty:text:counter`.
pub open spec fn challenge_reply(c: ChallengeView) -> Seq<char> {
    seq!['S', 'L', 'V', ' '] + render(c)
}

/// A fresh challenge of this version's difficulty.
pub open spec fn is_fresh_challenge(c: ChallengeView) -> bool {
    &&& c.num_zeros == DIFFICULTY
    &&& c.counter == 0
    &&& c.text.len() == 30
    &&& forall|i: int| 0 <= i < 30 ==> crate::challenge::is_alphanumeric(#[trigger] c.text[i])
}

impl<T> ConnectionState<T> {
    /// The challenge of this connection, if one was sent.
    pub closed spec fn spec_challenge(&self) -> Option<ChallengeView> {
        challenge_view(self.challenge)
    }

    /// The challenge of this connection, if one was sent.
    pub fn challenge(&self) -> (c: Option<&Challenge>)
        ensures
            match c {
                Some(ch) => self.spec_challenge() == Some(ch@),
                None => self.spec_challenge() is None,
            },
    {
        match &self.challenge {
            Some(ch) => Some(ch),
            None => None,
        }
    }
}

impl ConnectionState<Connected> {
    /// A connection that has sent nothing yet.
    pub fn new() -> (s: Self)
        ensures
            s.spec_challenge() is None,
    {
        ConnectionState { challenge: None, state: Connected {} }
    }

    /// Handles a line from a client that has just connected: `GET` is
    /// answered with a fresh challenge, anything else is refused.
    pub fn process(&mut self, line: &str, _db: &Db) -> (r: Result<String, ProcessError>)
        ensures
            line@ == get_text() ==> {
                &&& final(self).spec_challenge() is Some
                &&& is_fresh_challenge(final(self).spec_challenge()->Some_0)
                &&& r matches Ok(reply) && reply@ == challenge_reply(
                    final(self).spec_challenge()->Some_0,
                )
            },
            line@ != get_text() ==> {
                &&& r == Err::<String, ProcessError>(ProcessError::InvalidCommand)
                &&& final(self).spec_challenge() == old(self).spec_challenge()
            },
    {
        let get = "GET";
        let slv = "SLV ";
        proof {
            reveal_strlit("GET");
            reveal_strlit("SLV ");
            assert(get@ =~= get_text());
        }
        if line.to_owned() == get.to_owned() {
            let challenge = Challenge::new(DIFFICULTY);
            let mut reply = slv.to_owned();
            let text = challenge.to_string();
            push_str(&mut reply, text.as_str());
            self.challenge = Some(challenge);
            assert(reply@ =~= challenge_reply(challenge@));
            return Ok(reply);
        }
        Err(ProcessError::InvalidCommand)
    }
}

impl ConnectionState<ChallengeSent> {
    /// Handles the answer of a client that was sent a challenge: the
    /// accepted answer gets a random quote, anything else is refused.
    pub fn process(&mut self, line: &str, db: &Db) -> (r: Result<String, ProcessError>)
        requires
            old(self).spec_challenge() is Some,
            line@ == accepted_answer() ==> db@.len() > 0,
        ensures
            final(self).spec_challenge() == old(self).spec_challenge(),
            line@ == accepted_answer() ==> (r matches Ok(q) && exists|i: int|
                0 <= i < db@.len() && q@ == #[trigger] db@[i]),
            line@ != accepted_answer() ==> r == Err::<String, ProcessError>(
                ProcessError::VerificationFailed,
            ),
    {
        let verified = match &self.challenge {
            Some(c) => c.verify(line),
            None => {
                return Err(ProcessError::VerificationFailed);
            },
        };
        if let Ok(()) = verified {
            return Ok(Self::get_quote(db));
        }
        Err(ProcessError::VerificationFailed)
    }

    /// A random quote of `db`.
    fn get_quote(db: &Db) -> (q: String)
        requires
            db@.len() > 0,
        ensures
            exists|i: int| 0 <= i < db@.len() && q@ == #[trigger] db@[i],
    {
        let n = random_index(0, db.num_quotes());
        match db.get_quote(n) {
            Some(quote) => quote.clone(),
            None => String::new(),
        }
    }
}

/// From `Connected` to `ChallengeSent`: the challenge is kept.
impl From<ConnectionState<Connected>> for ConnectionState<ChallengeSent> {
    fn from(val: ConnectionState<Connected>) -> (r: ConnectionState<ChallengeSent>)
        ensures
            r.spec_challenge() == val.spec_challenge(),
    {
        ConnectionState { challenge: val.challenge, state: ChallengeSent {} }
    }
}

impl vstd::std_specs::convert::FromSpecImpl<ConnectionState<Connected>> for ConnectionState<ChallengeSent> {
    open spec fn obeys_from_spec() -> bool {
        true
    }

    closed spec fn from_spec(val: ConnectionState<Connected>) -> ConnectionState<ChallengeSent> {
        ConnectionState { challenge: val.challenge, state: ChallengeSent {} }
    }
}

/// From `ChallengeSent` to `Done`: the challenge is kept.
impl From<ConnectionState<ChallengeSent>> for ConnectionState<Done> {
    fn from(val: ConnectionState<ChallengeSent>) -> (r: ConnectionState<Done>)
        ensures
            r.spec_challenge() == val.spec_challenge(),
    {
        ConnectionState { challenge: val.challenge, state: Done {} }
    }
}

impl vstd::std_specs::convert::FromSpecImpl<ConnectionState<ChallengeSent>> for ConnectionState<Done> {
    open spec fn obeys_from_spec() -> bool {
        true
    }

    closed spec fn from_spec(val: ConnectionState<ChallengeSent>) -> ConnectionState<Done> {
        ConnectionState { challenge: val.challenge, state: Done {} }
    }
}

/// The phases of a connection.
#[derive(Debug, Clone, Copy, PartialEq, Eq, Structural)]
pub enum Phase {
    Connected,
    ChallengeSent,
    Done,
}

/// The value of a connection's state: its phase and its challenge.
pub struct StateView {
    pub phase: Phase,
    pub challenge: Option<ChallengeView>,
}

/// The state that follows `v`: `Done` is final, and the challenge is kept.
pub open spec fn next_view(v: StateView) -> StateView {
    StateView {
        phase: match v.phase {
            Phase::Connected => Phase::ChallengeSent,
            Phase::ChallengeSent => Phase::Done,
            Phase::Done => Phase::Done,
        },
        challenge: v.challenge,
    }
}

/// Whether a line can be handled in the state `v` with the quotes `db`
/// without failing.
pub open spec fn can_process(v: StateView, line: Seq<char>, db: Seq<Seq<char>>) -> bool {
    v.phase == Phase::ChallengeSent ==> {
        &&& v.challenge is Some
        &&& line == accepted_answer() ==> db.len() > 0
    }
}

/// What handling `line` in the state `before` does: the phase stays; a
/// connected client's `GET` gets a fresh challenge; the accepted answer
/// gets a quote; after the quote every line is answered `BYE`; every other
/// line is refused and changes nothing.
pub open spec fn process_outcome(
    before: StateView,
    after: StateView,
    line: Seq<char>,
    db: Seq<Seq<char>>,
    r: Result<Seq<char>, ProcessError>,
) -> bool {
    &&& after.phase == before.phase
    &&& match before.phase {
        Phase::Connected => if line == get_text() {
            &&& after.challenge is Some
            &&& is_fresh_challenge(after.challenge->Some_0)
            &&& r == Ok::<Seq<char>, ProcessError>(challenge_reply(after.challenge->Some_0))
        } else {
            &&& after.challenge == before.challenge
            &&& r == Err::<Seq<char>, ProcessError>(ProcessError::InvalidCommand)
        },
        Phase::ChallengeSent => {
            &&& before.challenge is Some
            &&& after.challenge == before.challenge
            &&& if line == accepted_answer() {
                r matches Ok(q) && exists|i: int| 0 <= i < db.len() && q == #[trigger] db[i]
            } else {
                r == Err::<Seq<char>, ProcessError>(ProcessError::VerificationFailed)
            }
        },
        Phase::Done => {
            &&& after.challenge == before.challenge
            &&& r == Ok::<Seq<char>, ProcessError>(bye_text())
        },
    }
}

/// The value of a reply: its text, or the error.
pub open spec fn reply_view(r: Result<String, ProcessError>) -> Result<Seq<char>, ProcessError> {
    match r {
        Ok(s) => Ok(s@),
        Err(e) => Err(e),
    }
}

/// An enum holding the state of a connection in one of its phases.
pub enum StateWrapper {
    Connected(ConnectionState<Connected>),
    ChallengeSent(ConnectionState<ChallengeSent>),
    Done(ConnectionState<Done>),
}

impl View for StateWrapper {
    type V = StateView;

    open spec fn view(&self) -> StateView {
        match self {
            StateWrapper::Connected(s) => StateView {
                phase: Phase::Connected,
                challenge: s.spec_challenge(),
            },
            StateWrapper::ChallengeSent(s) => StateView {
                phase: Phase::ChallengeSent,
                challenge: s.spec_challenge(),
            },
            StateWrapper::Done(s) => StateView { phase: Phase::Done, challenge: s.spec_challenge() },
        }
    }
}

/// A struct that holds a StateWrapper instance.
pub struct State {
    /// The state of the connection.
    pub state: StateWrapper,
}

impl State {
    /// The state of a new connection: connected, with no challenge.
    pub fn new() -> (s: Self)
        ensures
            s.state@ == (StateView { phase: Phase::Connected, challenge: None }),
    {
        State { state: StateWrapper::Connected(ConnectionState::<Connected>::new()) }
    }
}

impl StateWrapper {
    /// Proceeds to the next phase; `Done` stays `Done`.
    pub fn next(self) -> (s: Self)
        ensures
            s@ == next_view(self@),
    {
        match self {
            StateWrapper::Connected(val) => StateWrapper::ChallengeSent(val.into()),
            StateWrapper::ChallengeSent(val) => StateWrapper::Done(val.into()),
            StateWrapper::Done(val) => StateWrapper::Done(val),
        }
    }

    /// Handles a line from the client in the current phase.
    pub fn process(&mut self, line: &str, db: &Db) -> (r: Result<String, ProcessError>)
        requires
            can_process(old(self)@, line@, db@),
        ensures
            process_outcome(old(self)@, final(self)@, line@, db@, reply_view(r)),
    {
        match self {
            StateWrapper::Connected(val) => val.process(line, db),
            StateWrapper::ChallengeSent(val) => val.process(line, db),
            StateWrapper::Done(_) => {
                let bye = "BYE";
                proof {
                    reveal_strlit("BYE");
                    assert(bye@ =~= bye_text());
                }
                Ok(bye.to_owned())
            },
        }
    }

    /// Whether the connection is done.
    pub fn done(&self) -> (b: bool)
        ensures
            b == (self@.phase == Phase::Done),
    {
        if let StateWrapper::Done(_) = self {
            return true;
        }
        false
    }
}

/// Once done, a connection stays done and keeps its challenge.
pub proof fn law_done_is_final(v: StateView)
    requires
        v.phase == Phase::Done,
    ensures
        next_view(v) == v,
{
}

/// Two steps take a connection from `Connected` to `Done`, keeping its
/// challenge.
pub proof fn law_two_steps_to_done(v: StateView)
    requires
        v.phase == Phase::Connected,
    ensures
        next_view(next_view(v)).phase == Phase::Done,
        next_view(next_view(v)).challenge == v.challenge,
{
}

/// The transitions keep the challenge.
pub proof fn law_transitions_carry_challenge(
    a: ConnectionState<Connected>,
    b: ConnectionState<ChallengeSent>,
)
    ensures
        <ConnectionState<ChallengeSent> as FromSpec<ConnectionState<Connected>>>::from_spec(
            a,
        ).spec_challenge() == a.spec_challenge(),
        <ConnectionState<Done> as FromSpec<ConnectionState<ChallengeSent>>>::from_spec(
            b,
        ).spec_challenge() == b.spec_challenge(),
{
}

/// Handling a line never changes the phase, and changes the challenge only
/// when a connected client asks with `GET`.
pub proof fn law_process_keeps_phase(
    before: StateView,
    after: StateView,
    line: Seq<char>,
    db: Seq<Seq<char>>,
    r: Result<Seq<char>, ProcessError>,
)
    requires
        process_outcome(before, after, line, db, r),
    ensures
        after.phase == before.phase,
        after.challenge != before.challenge ==> before.phase == Phase::Connected && line
            == get_text(),
{
}

/// The reply to `GET` carries the fresh challenge: after `SLV ` comes its
/// text, whose pieces between `:` are the difficulty 5, the 30 random
/// characters, and the counter 0.
pub proof fn law_get_reply_holds_challenge(
    before: StateView,
    after: StateView,
    db: Seq<Seq<char>>,
    reply: Seq<char>,
)
    requires
        before.phase == Phase::Connected,
        process_outcome(before, after, get_text(), db, Ok::<Seq<char>, ProcessError>(reply)),
    ensures
        reply.subrange(0, 4) == seq!['S', 'L', 'V', ' '],
        split_on(reply.subrange(4, reply.len() as int), ':')[1] == after.challenge->Some_0.text,
        split_on(reply.subrange(4, reply.len() as int), ':')[1].len() == 30,
        split_on(reply.subrange(4, reply.len() as int), ':')[0] == crate::number::dec(
            DIFFICULTY as nat,
        ),
        split_on(reply.subrange(4, reply.len() as int), ':')[2] == crate::number::dec(0),
{
    let c = after.challenge->Some_0;
    lemma_fresh_text_has_no_separator(c.text);
    law_render_holds_fields(c);
    assert(reply.subrange(4, reply.len() as int) =~= render(c));
    assert(reply.subrange(0, 4) =~= seq!['S', 'L', 'V', ' ']);
}

} // verus!
