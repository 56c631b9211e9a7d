//! Error types: syntax errors from the grammar parser, and the
//! description-carrying errors reported to callers for configuration
//! loading and command handling.

use vstd::prelude::*;

verus! {

/// The input line does not match the message grammar. No partial
/// message is returned alongside it.
#[derive(Debug)]
pub struct SyntaxError {
    description: String,
}

impl View for SyntaxError {
    type V = Seq<char>;

    closed spec fn view(&self) -> Seq<char> {
        self.description@
    }
}

impl SyntaxError {
    /// Wraps a description of the first mismatching construct.
    pub fn new(details: &str) -> (r: SyntaxError)
        ensures
            r@ == details@,
    {
        SyntaxError { description: details.to_owned() }
    }

    /// The description of the first mismatching construct.
    pub fn description(&self) -> (r: &str)
        ensures
            r@ == self@,
    {
        self.description.as_str()
    }
}

/// A configuration source (such as the reply-code table) could not
/// be read or holds a malformed entry.
#[derive(Debug)]
pub struct ConfigReadError {
    description: String,
}

impl View for ConfigReadError {
    type V = Seq<char>;

    closed spec fn view(&self) -> Seq<char> {
        self.description@
    }
}

impl ConfigReadError {
    /// Builds the error text `Error parsing config <file>: <error_string>`.
    pub fn new(file: &str, error_string: &str) -> (r: ConfigReadError)
        ensures
            r@ == "Error parsing config "@ + file@ + ": "@ + error_string@,
    {
        let mut description = String::new();
        description.append("Error parsing config ");
        description.append(file);
        description.append(": ");
        description.append(error_string);
        proof {
            assert(description@ =~= "Error parsing config "@ + file@ + ": "@ + error_string@);
        }
        ConfigReadError { description }
    }

    /// The error text.
    pub fn description(&self) -> (r: &str)
        ensures
            r@ == self@,
    {
        self.description.as_str()
    }
}

/// A message could not be decoded into, or was inconsistent with, a
/// typed command record.
#[derive(Debug)]
pub struct IrcCommandError {
    description: String,
}

impl View for IrcCommandError {
    type V = Seq<char>;

    closed spec fn view(&self) -> Seq<char> {
        self.description@
    }
}

impl IrcCommandError {
    /// Builds the error text `Error: <details>`.
    pub fn new(details: &str) -> (r: IrcCommandError)
        ensures
            r@ == "Error: "@ + details@,
    {
        let mut description = String::new();
        description.append("Error: ");
        description.append(details);
        proof {
            assert(description@ =~= "Error: "@ + details@);
        }
        IrcCommandError { description }
    }

    /// The error text.
    pub fn description(&self) -> (r: &str)
        ensures
            r@ == self@,
    {
        self.description.as_str()
    }
}

} // verus!
