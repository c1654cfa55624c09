//! The failure of a field's resolution, and the texts that its messages are made of.

use crate::text::{decimal, decimal_text};
use vstd::prelude::*;

verus! {

/// The ways in which the resolution of one field fails.
#[derive(Clone, Copy, Debug, PartialEq, Eq, Structural)]
pub enum ErrorKind {
    /// A bare literal stands in the directive list where a named directive is expected.
    UnexpectedLiteral,
    /// The payload of a directive has none of the shapes accepted for its name.
    MalformedDirective,
    /// A setting that may be given once was given a second time.
    DuplicateAssignment,
    /// The directives select a kind, but do not make up a valid field of that kind.
    InvalidField,
    /// No directive selects a kind.
    MissingKind,
}

/// A failed resolution: its class and a message for the person who wrote the directives.
#[derive(Clone, Debug, PartialEq, Eq)]
pub struct Error {
    pub kind: ErrorKind,
    pub message: String,
}

/// What an `Error` says: its class and the characters of its message.
pub struct Failure {
    pub kind: ErrorKind,
    pub message: Seq<char>,
}

impl View for Error {
    type V = Failure;

    open spec fn view(&self) -> Failure {
        Failure { kind: self.kind, message: self.message@ }
    }
}

impl Error {
    pub fn new(kind: ErrorKind, message: String) -> (error: Error)
        ensures
            error@ == (Failure { kind, message: message@ }),
    {
        Error { kind, message }
    }

    /// The message, with the class left out.
    pub fn to_string(&self) -> (text: String)
        ensures
            text@ == self@.message,
    {
        self.message.clone()
    }
}

/// Whether an outcome is the expected one, errors compared by what they say.
pub open spec fn agrees<T>(outcome: Result<T, Error>, expected: Result<T, Failure>) -> bool {
    match outcome {
        Ok(value) => expected == Ok::<T, Failure>(value),
        Err(error) => expected == Err::<T, Failure>(error@),
    }
}

/// A value that can be shown in a message.
pub trait Describe {
    /// The text that stands for the value in a message.
    spec fn description(&self) -> Seq<char>;

    fn describe(&self) -> (text: String)
        ensures
            text@ == self.description(),
    ;
}

impl Describe for u32 {
    open spec fn description(&self) -> Seq<char> {
        decimal(*self as nat)
    }

    fn describe(&self) -> (text: String) {
        decimal_text(*self as u64)
    }
}

impl Describe for u64 {
    open spec fn description(&self) -> Seq<char> {
        decimal(*self as nat)
    }

    fn describe(&self) -> (text: String) {
        decimal_text(*self)
    }
}

impl Describe for bool {
    open spec fn description(&self) -> Seq<char> {
        if *self {
            "true"@
        } else {
            "false"@
        }
    }

    fn describe(&self) -> (text: String) {
        if *self {
            String::from_str("true")
        } else {
            String::from_str("false")
        }
    }
}

/// A string is shown by its characters, as they are.
impl Describe for String {
    open spec fn description(&self) -> Seq<char> {
        self@
    }

    fn describe(&self) -> (text: String) {
        self.clone()
    }
}

/// A string between double quotes, its characters as they are.
pub open spec fn quoted(s: Seq<char>) -> Seq<char> {
    "\""@ + s + "\""@
}

/// A string between double quotes.
pub fn quoted_text(s: &str) -> (text: String)
    ensures
        text@ == quoted(s@),
{
    let mut text: String = String::from_str("\"");
    text.append(s);
    text.append("\"");
    text
}

/// The numbers of a list in decimal, separated by a comma and a blank.
pub open spec fn listed(values: Seq<u32>) -> Seq<char>
    decreases values.len(),
{
    if values.len() == 0 {
        Seq::empty()
    } else if values.len() == 1 {
        decimal(values[0] as nat)
    } else {
        listed(values.drop_last()) + ", "@ + decimal(values.last() as nat)
    }
}

/// A list of numbers is shown between square brackets.
pub open spec fn bracketed(values: Seq<u32>) -> Seq<char> {
    "["@ + listed(values) + "]"@
}

impl Describe for Vec<u32> {
    open spec fn description(&self) -> Seq<char> {
        bracketed(self@)
    }

    fn describe(&self) -> (text: String) {
        let mut text: String = String::from_str("[");
        let mut i: usize = 0;
        while i < self.len()
            invariant
                i <= self.len(),
                text@ == "["@ + listed(self@.subrange(0, i as int)),
            decreases self.len() - i,
        {
            if i > 0 {
                text.append(", ");
            }
            let item: String = decimal_text(self[i] as u64);
            text.append(item.as_str());
            proof {
                let before = self@.subrange(0, i as int);
                let after = self@.subrange(0, i + 1);
                assert(after.drop_last() =~= before);
                assert(text@ =~= "["@ + listed(after));
            }
            i += 1;
        }
        assert(self@.subrange(0, self.len() as int) =~= self@);
        text.append("]");
        text
    }
}

} // verus!
