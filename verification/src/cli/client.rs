//! The options of the client program.

use vstd::prelude::*;

use crate::number::{dec, push_decimal};
use crate::text::{push_char, push_str};

verus! {

/// The port that the server listens on unless told otherwise.
pub const DEFAULT_PORT: u16 = 3962;

/// The address `127.0.0.1`.
pub open spec fn localhost() -> Seq<char> {
    seq!['1', '2', '7', '.', '0', '.', '0', '.', '1']
}

/// A struct encapsulating the command line arguments of the client.
pub struct CommandLineArgs {
    /// ip address of the server
    pub addr: Option<String>,
    /// port to connect to
    pub port: Option<u16>,
    /// interactive mode
    pub interactive: bool,
}

/// The address to connect to: the given one or `127.0.0.1`, a colon, and
/// the given port or 3962.
pub open spec fn endpoint_text(addr: Option<Seq<char>>, port: Option<u16>) -> Seq<char> {
    let a = match addr {
        Some(a) => a,
        None => localhost(),
    };
    let p = match port {
        Some(p) => p,
        None => DEFAULT_PORT,
    };
    a + seq![':'] + dec(p as nat)
}

impl CommandLineArgs {
    /// The address of the server as `address:port`, with the defaults
    /// `127.0.0.1` and 3962 for what was not given.
    pub fn endpoint(&self) -> (s: String)
        ensures
            s@ == endpoint_text(
                match self.addr {
                    Some(a) => Some(a@),
                    None => None,
                },
                self.port,
            ),
    {
        let mut s = String::new();
        match &self.addr {
            Some(a) => push_str(&mut s, a.as_str()),
            None => {
                let local = "127.0.0.1";
                proof {
                    reveal_strlit("127.0.0.1");
                    assert(local@ =~= localhost());
                }
                push_str(&mut s, local);
            },
        }
        push_char(&mut s, ':');
        let port = match self.port {
            Some(p) => p,
            None => DEFAULT_PORT,
        };
        push_decimal(&mut s, port as u128);
        s
    }
}

/// A given address is the one connected to: the endpoint starts with it
/// and a `:`; a given port is the one connected to: the endpoint ends with
/// `:` and its digits. Only what is missing falls back to `127.0.0.1` and
/// 3962.
pub proof fn law_endpoint_uses_given_values(addr: Option<Seq<char>>, port: Option<u16>)
    ensures
        ({
            let e = endpoint_text(addr, port);
            let a = match addr {
                Some(a) => a,
                None => localhost(),
            };
            let p: u16 = match port {
                Some(p) => p,
                None => DEFAULT_PORT,
            };
            &&& e.len() == a.len() + 1 + dec(p as nat).len()
            &&& e.subrange(0, a.len() as int) == a
            &&& e[a.len() as int] == ':'
            &&& e.subrange(a.len() + 1int, e.len() as int) == dec(p as nat)
            &&& crate::number::parse_unsigned(
                e.subrange(a.len() + 1int, e.len() as int),
                u16::MAX as nat,
            ) == Ok::<nat, crate::number::IntErrorKind>(p as nat)
        }),
        addr matches Some(a) ==> endpoint_text(addr, port).subrange(0, a.len() as int) == a,
{
    let e = endpoint_text(addr, port);
    let a = match addr {
        Some(a) => a,
        None => localhost(),
    };
    let p: u16 = match port {
        Some(p) => p,
        None => DEFAULT_PORT,
    };
    assert(e.subrange(0, a.len() as int) =~= a);
    assert(e.subrange(a.len() + 1int, e.len() as int) =~= dec(p as nat));
    crate::number::lemma_parse_dec(p as nat, u16::MAX as nat);
}

} // verus!
