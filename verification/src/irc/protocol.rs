//! Structured messages of the channel protocol.
//!
//! A message is a command with its arguments, an optional sender prefix and
//! an optional trailing text. Reading one from the wire and writing one to it
//! is left to the connection; here a message is a plain value.

use vstd::prelude::*;
use crate::text::{clone_opt_string, clone_string_vec, opt_string_eq, string_vec_eq};

verus! {

/// The kind of a message.
#[derive(Debug, Clone, Copy, PartialEq, Eq, Structural)]
pub enum Command {
    Pass,
    Nick,
    User,
    Join,
    Part,
    Ping,
    Pong,
    Quit,
    Privmsg,
    Topic,
    /// The word of the gateway that the session is over, and why.
    Error,
    /// A numeric reply, by its three-digit code.
    Numeric(u16),
    /// Any command the gateway has no use for.
    Unknown,
}

/// A message, as character sequences.
pub struct MessageView {
    pub prefix: Option<Seq<char>>,
    pub command: Command,
    pub args: Seq<Seq<char>>,
    pub suffix: Option<Seq<char>>,
}

/// One message of the channel protocol.
#[derive(Debug)]
pub struct Message {
    pub prefix: Option<String>,
    pub command: Command,
    pub args: Vec<String>,
    pub suffix: Option<String>,
}

impl View for Message {
    type V = MessageView;

    open spec fn view(&self) -> MessageView {
        MessageView {
            prefix: self.prefix.deep_view(),
            command: self.command,
            args: self.args.deep_view(),
            suffix: self.suffix.deep_view(),
        }
    }
}

impl DeepView for Message {
    type V = MessageView;

    open spec fn deep_view(&self) -> MessageView {
        self@
    }
}

impl Clone for Message {
    fn clone(&self) -> (r: Self)
        ensures
            r@ == self@,
    {
        Message {
            prefix: clone_opt_string(&self.prefix),
            command: self.command,
            args: clone_string_vec(&self.args),
            suffix: clone_opt_string(&self.suffix),
        }
    }
}

impl PartialEq for Message {
    fn eq(&self, other: &Self) -> (r: bool) {
        opt_string_eq(&self.prefix, &other.prefix) && self.command == other.command
            && string_vec_eq(&self.args, &other.args) && opt_string_eq(&self.suffix, &other.suffix)
    }
}

impl Eq for Message {}

impl vstd::std_specs::cmp::PartialEqSpecImpl for Message {
    open spec fn obeys_eq_spec() -> bool {
        true
    }

    open spec fn eq_spec(&self, other: &Self) -> bool {
        self@ == other@
    }
}

} // verus!
