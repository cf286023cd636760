//! The options of the server program.

use vstd::prelude::*;

use std::path::PathBuf;

use crate::number::{dec, push_decimal};
use crate::text::push_str;

verus! {

/// The port that the server listens on unless told otherwise.
pub const DEFAULT_PORT: u16 = 3962;

/// The difficulty of challenges unless told otherwise.
pub const DEFAULT_DIFFICULTY: u8 = 4;

/// A struct encapsulating the command line arguments of the server.
pub struct CommandLineArgs {
    /// port to run on
    pub port: Option<u16>,
    /// difficulty setting
    pub difficulty: Option<u8>,
    /// database location (txt)
    pub words: Option<PathBuf>,
}

/// The address `127.0.0.1:` followed by `port`.
pub open spec fn listen_text(port: u16) -> Seq<char> {
    seq!['1', '2', '7', '.', '0', '.', '0', '.', '1', ':'] + dec(port as nat)
}

impl CommandLineArgs {
    /// The port to run on: the given one or 3962.
    pub fn port_or_default(&self) -> (p: u16)
        ensures
            p == match self.port {
                Some(p) => p,
                None => DEFAULT_PORT,
            },
    {
        match self.port {
            Some(p) => p,
            None => DEFAULT_PORT,
        }
    }

    /// The difficulty of challenges: the given one or 4.
    pub fn difficulty_or_default(&self) -> (d: u8)
        ensures
            d == match self.difficulty {
                Some(d) => d,
                None => DEFAULT_DIFFICULTY,
            },
    {
        match self.difficulty {
            Some(d) => d,
            None => DEFAULT_DIFFICULTY,
        }
    }

    /// The local address to listen on, `127.0.0.1:port`.
    pub fn listen_address(&self) -> (s: String)
        ensures
            s@ == listen_text(
                match self.port {
                    Some(p) => p,
                    None => DEFAULT_PORT,
                },
            ),
    {
        let local = "127.0.0.1:";
        proof {
            reveal_strlit("127.0.0.1:");
        }
        let port = self.port_or_default();
        let mut s = String::new();
        push_str(&mut s, local);
        push_decimal(&mut s, port as u128);
        assert(s@ =~= listen_text(port));
        s
    }
}

/// The listen address ends with the digits of the port, which read back as
/// the port, so different ports give different addresses.
pub proof fn law_listen_address_names_port(p: u16, q: u16)
    ensures
        listen_text(p).len() >= 10,
        crate::number::parse_unsigned(
            listen_text(p).subrange(10, listen_text(p).len() as int),
            u16::MAX as nat,
        ) == Ok::<nat, crate::number::IntErrorKind>(p as nat),
        p != q ==> listen_text(p) != listen_text(q),
{
    crate::number::lemma_parse_dec(p as nat, u16::MAX as nat);
    crate::number::lemma_parse_dec(q as nat, u16::MAX as nat);
    assert(listen_text(p).subrange(10, listen_text(p).len() as int) =~= dec(p as nat));
    assert(listen_text(q).subrange(10, listen_text(q).len() as int) =~= dec(q as nat));
}

} // verus!
