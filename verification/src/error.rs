//! The error that commands report to the user.

use vstd::prelude::*;

use crate::text::copy;

verus! {

/// An error, as the message that is shown.
#[derive(Debug)]
pub struct Error {
    pub message: String,
}

impl View for Error {
    type V = Seq<char>;

    open spec fn view(&self) -> Seq<char> {
        self.message@
    }
}

impl Error {
    /// An error with a message.
    pub fn new(message: &str) -> (r: Error)
        ensures
            r@ == message@,
    {
        Error { message: copy(message) }
    }

    /// The message.
    pub fn text(&self) -> (r: String)
        ensures
            r@ == self@,
    {
        copy(self.message.as_str())
    }
}

/// Why the work on a host broke off.
#[derive(Debug)]
pub enum Fault {
    /// The time limit of the host was exceeded.
    TimedOut(Error),
    /// Any other error of the connection.
    Other(Error),
}

/// Why the work on a host broke off, as a value of the specification language.
pub ghost enum FaultView {
    TimedOut(Seq<char>),
    Other(Seq<char>),
}

impl View for Fault {
    type V = FaultView;

    open spec fn view(&self) -> FaultView {
        match self {
            Fault::TimedOut(e) => FaultView::TimedOut(e@),
            Fault::Other(e) => FaultView::Other(e@),
        }
    }
}

} // verus!
