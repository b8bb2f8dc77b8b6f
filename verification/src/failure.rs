//! Failures: a message, and below it the messages of what caused it.

use crate::text;
use crate::text::join;
use vstd::prelude::*;

verus! {

/// Why something failed: messages from the outermost to the innermost cause.
pub struct Failure {
    pub messages: Vec<String>,
}

impl Failure {
    /// The messages, outermost first.
    pub open spec fn view(&self) -> Seq<Seq<char>> {
        text::texts(self.messages@)
    }

    /// A failure with a single message.
    pub fn new(message: &str) -> (r: Failure)
        ensures
            r@ == seq![message@],
    {
        let mut messages: Vec<String> = Vec::new();
        messages.push(message.to_owned());
        assert(text::texts(messages@) =~= seq![message@]);
        Failure { messages }
    }

    /// The failure with a message put on top.
    pub fn context(self, message: &str) -> (r: Failure)
        ensures
            r@ == seq![message@] + self@,
    {
        let mut messages = self.messages;
        messages.insert(0, message.to_owned());
        assert(text::texts(messages@) =~= seq![message@] + text::texts(self.messages@));
        Failure { messages }
    }

    /// A failure with what caused it.
    pub fn caused(message: &str, cause: &str) -> (r: Failure)
        ensures
            r@ == seq![message@, cause@],
    {
        let f = Failure::new(cause).context(message);
        assert(f@ =~= seq![message@, cause@]);
        f
    }

    /// The outermost message.
    pub fn message(&self) -> (r: String)
        ensures
            r@ == outermost(self@),
    {
        if self.messages.len() == 0 {
            String::new()
        } else {
            self.messages[0].clone()
        }
    }

    /// All messages, outermost first, with `: ` between them.
    pub fn chain_text(&self) -> (r: String)
        ensures
            r@ == text::joined(self@, ": "@),
    {
        join(&self.messages, ": ")
    }
}

/// The first of the messages; nothing where there is none.
pub open spec fn outermost(messages: Seq<Seq<char>>) -> Seq<char> {
    if messages.len() == 0 {
        Seq::empty()
    } else {
        messages[0]
    }
}

} // verus!
