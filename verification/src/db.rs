//! The store of quotes that the server hands out.

use vstd::prelude::*;

verus! {

/// A simple database storing its quotes in a vector; the first entry is the
/// header line of the file the quotes came from.
pub struct Db {
    content: Vec<String>,
}

impl View for Db {
    type V = Seq<Seq<char>>;

    closed spec fn view(&self) -> Seq<Seq<char>> {
        self.content@.map_values(|s: String| s@)
    }
}

impl Db {
    /// A database of the given lines, in order.
    pub fn new(content: Vec<String>) -> (db: Self)
        ensures
            db@ == content@.map_values(|s: String| s@),
    {
        Db { content }
    }

    /// The number of entries in the database.
    pub fn num_quotes(&self) -> (n: usize)
        ensures
            n == self@.len(),
    {
        self.content.len()
    }

    /// The entry at index `n`, if there is one.
    pub fn get_quote(&self, n: usize) -> (q: Option<&String>)
        ensures
            match q {
                Some(s) => n < self@.len() && s@ == self@[n as int],
                None => n >= self@.len(),
            },
    {
        if n < self.content.len() {
            Some(&self.content[n])
        } else {
            None
        }
    }
}

} // verus!
