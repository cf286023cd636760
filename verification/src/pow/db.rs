//! The quotes of the first server version, built in.

use vstd::prelude::*;

use std::path::PathBuf;

verus! {

/// The path of a file, `std::path::PathBuf`, carried through unread.
#[verifier::external_type_specification]
#[verifier::external_body]
pub struct ExPathBuf(PathBuf);

/// The three quotes this version hands out.
pub open spec fn builtin_quotes() -> Seq<Seq<char>> {
    seq![
        seq!['f', 'i', 'r', 's', 't', ' ', 'q', 'u', 'o', 't', 'e'],
        seq!['s', 'e', 'c', 'o', 'n', 'd', ' ', 'q', 'u', 'o', 't', 'e'],
        seq!['t', 'h', 'i', 'r', 'd', ' ', 'o', 'n', 'e'],
    ]
}

/// A simple database storing its values in a vector.
pub struct Db {
    content: Vec<String>,
}

impl View for Db {
    type V = Seq<Seq<char>>;

    closed spec fn view(&self) -> Seq<Seq<char>> {
        self.content@.map_values(|s: String| s@)
    }
}

impl Db {
    /// The database of the three built-in quotes; the file is not read.
    pub fn new(_file: PathBuf) -> (db: Self)
        ensures
            db@ == builtin_quotes(),
    {
        let first = "first quote";
        let second = "second quote";
        let third = "third one";
        proof {
            reveal_strlit("first quote");
            reveal_strlit("second quote");
            reveal_strlit("third one");
            assert(first@ =~= builtin_quotes()[0]);
            assert(second@ =~= builtin_quotes()[1]);
            assert(third@ =~= builtin_quotes()[2]);
        }
        let mut content: Vec<String> = Vec::new();
        content.push(first.to_owned());
        content.push(second.to_owned());
        content.push(third.to_owned());
        let db = Db { content };
        assert(db@ =~= builtin_quotes());
        db
    }

    /// The number of quotes in the database.
    pub fn num_quotes(&self) -> (n: usize)
        ensures
            n == self@.len(),
    {
        self.content.len()
    }

    /// The quote at index `n`, if there is one.
    pub fn get_quote(&self, n: usize) -> (q: Option<&String>)
        ensures
            match q {
                Some(s) => n < self@.len() && s@ == self@[n as int],
                None => n >= self@.len(),
            },
    {
        if n < self.content.len() {
            Some(&self.content[n])
        } else {
            None
        }
    }
}

} // verus!
