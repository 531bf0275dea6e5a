//! The failure of a parse.
use vstd::prelude::*;
use vstd::string::*;

verus! {

/// A parse failure: the command, what went wrong, and how the command is
/// meant to be called.
#[derive(Debug)]
pub struct ArgumentError {
    command_name: &'static str,
    message: String,
    usage: String,
}

/// A parse failure as plain values.
pub struct ErrorView {
    pub command: Seq<char>,
    pub message: Seq<char>,
    pub usage: Seq<char>,
}

impl View for ArgumentError {
    type V = ErrorView;

    closed spec fn view(&self) -> ErrorView {
        ErrorView { command: self.command_name@, message: self.message@, usage: self.usage@ }
    }
}

impl ArgumentError {
    pub(crate) fn new(command_name: &'static str, message: String, usage: String) -> (r: Self)
        ensures
            r@ == (ErrorView { command: command_name@, message: message@, usage: usage@ }),
    {
        Self { command_name, message, usage }
    }

    /// What went wrong.
    pub fn message(&self) -> (r: &str)
        ensures
            r@ == self@.message,
    {
        self.message.as_str()
    }

    /// The usage text of the command.
    pub fn usage(&self) -> (r: &str)
        ensures
            r@ == self@.usage,
    {
        self.usage.as_str()
    }

    /// The command that was being parsed.
    pub fn command(&self) -> (r: &str)
        ensures
            r@ == self@.command,
    {
        self.command_name
    }

    /// The message, a line break, and the usage text.
    pub fn pretty(&self) -> (r: String)
        ensures
            r@ == self@.message + "\n"@ + self@.usage,
    {
        let mut out = self.message.clone();
        out.append("\n");
        out.append(self.usage.as_str());
        out
    }
}

} // verus!
