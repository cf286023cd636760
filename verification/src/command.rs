//! The names of the protocol's messages.

use vstd::prelude::*;

verus! {

/// The commands of the protocol: a client asks with `GET`, the server
/// sends a challenge with `SLV` and a quote with `QUO`, and the client
/// closes with `THX`.
#[allow(non_camel_case_types, clippy::upper_case_acronyms)]
#[derive(Debug, Clone, Copy, PartialEq, Eq, Structural)]
pub enum Command {
    /// get
    GET,
    /// quote
    QUO,
    /// solve
    SLV,
    /// thanks
    THX,
}

/// The text of a command: its name.
pub open spec fn command_text(c: Command) -> Seq<char> {
    match c {
        Command::GET => seq!['G', 'E', 'T'],
        Command::QUO => seq!['Q', 'U', 'O'],
        Command::SLV => seq!['S', 'L', 'V'],
        Command::THX => seq!['T', 'H', 'X'],
    }
}

impl Command {
    /// The name of the command, as it is written on the wire.
    pub fn to_string(&self) -> (s: String)
        ensures
            s@ == command_text(*self),
    {
        match self {
            Command::GET => {
                proof {
                    reveal_strlit("GET");
                }
                "GET".to_owned()
            },
            Command::QUO => {
                proof {
                    reveal_strlit("QUO");
                }
                "QUO".to_owned()
            },
            Command::SLV => {
                proof {
                    reveal_strlit("SLV");
                }
                "SLV".to_owned()
            },
            Command::THX => {
                proof {
                    reveal_strlit("THX");
                }
                "THX".to_owned()
            },
        }
    }
}

} // verus!
