//! The error that the codecs report.

use vstd::prelude::*;
use vstd::string::StringExecFns;

verus! {

/// An error, told apart from others by its message alone.
#[derive(Debug)]
pub struct Error {
    message: String,
}

impl View for Error {
    type V = Seq<char>;

    /// The message.
    closed spec fn view(&self) -> Seq<char> {
        self.message@
    }
}

impl Error {
    /// An error with the message `msg`.
    pub fn new(msg: &str) -> (r: Self)
        ensures
            r@ == msg@,
    {
        Self { message: msg.to_owned() }
    }

    /// An error whose message is `context`, a colon and a space, then `cause`.
    pub fn with_cause(context: &str, cause: &str) -> (r: Self)
        ensures
            r@ == context@ + ": "@ + cause@,
    {
        let mut message = context.to_owned();
        message.append(": ");
        message.append(cause);
        Self { message }
    }

    /// The message.
    pub fn message(&self) -> (r: &str)
        ensures
            r@ == self@,
    {
        self.message.as_str()
    }

    /// The message, as an owned string.
    pub fn to_string(&self) -> (r: String)
        ensures
            r@ == self@,
    {
        self.message.clone()
    }
}

} // verus!
