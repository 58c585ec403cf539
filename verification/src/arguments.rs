//! The command line as a sequence of tokens with a read position.

use vstd::prelude::*;

verus! {

/// The tokens of a command line and the index of the token read last.
///
/// The token at index 0 names the program and is never handed out.
pub struct Arguments {
    args: Vec<String>,
    index: usize,
}

impl Arguments {
    /// The tokens, each as its sequence of characters.
    pub closed spec fn tokens(&self) -> Seq<Seq<char>> {
        Seq::new(self.args@.len(), |i: int| self.args@[i]@)
    }

    /// The index of the token that was read last.
    pub closed spec fn position(&self) -> nat {
        self.index as nat
    }

    /// Whether a token is left to read.
    pub open spec fn has_next(&self) -> bool {
        self.position() + 1 < self.tokens().len()
    }

    /// The token that the next read hands out.
    pub open spec fn next_token(&self) -> Seq<char>
        recommends
            self.has_next(),
    {
        self.tokens()[self.position() as int + 1]
    }

    /// Takes the tokens of a command line; reading starts behind the first.
    pub fn new(args: Vec<String>) -> (res: Self)
        ensures
            res.tokens() == Seq::new(args@.len(), |i: int| args@[i]@),
            res.position() == 0,
    {
        Self { args, index: 0 }
    }

    /// Returns the next token and moves the position onto it. Where no
    /// token is left, returns `None` and leaves the position alone.
    pub fn get_next(&mut self) -> (res: Option<&String>)
        ensures
            final(self).tokens() == old(self).tokens(),
            old(self).has_next() ==> res.is_some() && res.unwrap()@ == old(self).next_token()
                && final(self).position() == old(self).position() + 1,
            !old(self).has_next() ==> res.is_none() && final(self).position() == old(
                self,
            ).position(),
    {
        let len: usize = self.args.len();
        if len > 0 && self.index < len - 1 {
            self.index = self.index + 1;
            Some(&self.args[self.index])
        } else {
            None
        }
    }

    /// Returns a copy of the next token and moves the position onto it.
    /// Where no token is left, returns `error_msg` as the error and leaves
    /// the position alone.
    pub fn get_next_check(&mut self, error_msg: &str) -> (res: Result<String, String>)
        ensures
            final(self).tokens() == old(self).tokens(),
            old(self).has_next() ==> res.is_ok() && res.unwrap()@ == old(self).next_token()
                && final(self).position() == old(self).position() + 1,
            !old(self).has_next() ==> res.is_err() && res.unwrap_err()@ == error_msg@
                && final(self).position() == old(self).position(),
    {
        match self.get_next() {
            Some(token) => Ok(token.clone()),
            None => Err(error_msg.to_owned()),
        }
    }
}

} // verus!
