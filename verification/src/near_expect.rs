//! Unwrapping that ends a contract call with a message of the caller's choice.

use vstd::prelude::*;

verus! {

/// Values that may be missing, and that a contract call cannot go on without.
pub trait NearExpect<T>: Sized {
    /// The value, where it is there.
    spec fn expected(self) -> Option<T>;

    /// Whether `text` can be what the call ends with where the value is missing
    /// and the caller's message is `msg`.
    spec fn ends_with(self, msg: Seq<char>, text: Seq<char>) -> bool;

    /// The value, or the message that the contract call has to end with.
    fn near_expect_or_message(self, msg: &str) -> (outcome: Result<T, String>)
        ensures
            outcome is Ok <==> self.expected() is Some,
            outcome matches Ok(value) ==> self.expected() == Some(value),
            outcome matches Err(text) ==> self.ends_with(msg@, text@),
    ;

    /// The value, which has to be there.
    fn near_expect(self, msg: &str) -> (value: T)
        requires
            self.expected() is Some,
        ensures
            self.expected() == Some(value),
    ;
}

impl<T> NearExpect<T> for Option<T> {
    open spec fn expected(self) -> Option<T> {
        self
    }

    /// A missing option ends the call with the message alone.
    open spec fn ends_with(self, msg: Seq<char>, text: Seq<char>) -> bool {
        text == msg
    }

    fn near_expect_or_message(self, msg: &str) -> (outcome: Result<T, String>) {
        match self {
            Some(value) => Ok(value),
            None => Err(msg.to_owned()),
        }
    }

    fn near_expect(self, msg: &str) -> (value: T) {
        self.unwrap()
    }
}

/// The message of a failed result: the caller's message, a colon and the error.
pub open spec fn failure_text(msg: Seq<char>, error: Seq<char>) -> Seq<char> {
    msg + ": "@ + error
}

/// Puts together the message of a failed result from the caller's message and the text of
/// the error.
pub fn failure_message(msg: &str, error: &str) -> (text: String)
    ensures
        text@ == failure_text(msg@, error@),
{
    let mut text = msg.to_owned();
    text.append(": ");
    text.append(error);
    text
}

/// The error as its `core::fmt::Debug::fmt` writes it. Nothing is claimed of the text itself: what
/// it is, is up to the type of the error.
#[verifier::external_body]
fn debug_text<E: core::fmt::Debug>(error: &E) -> (text: String)
{
    format!("{:?}", error)
}

/// Whether `text` is a debug form of the error: one that formatting the error can give.
pub closed spec fn debug_form<E: core::fmt::Debug>(error: E, text: Seq<char>) -> bool {
    exists|formatted: String| #[trigger]
        call_ensures(debug_text::<E>, (&error,), formatted) && formatted@ == text
}

/// A debug form of an error is what formatting that error can give, and nothing else is one.
proof fn law_debug_form<E: core::fmt::Debug>(error: E, formatted: String, text: Seq<char>)
    ensures
        call_ensures(debug_text::<E>, (&error,), formatted) ==> debug_form(error, formatted@),
        debug_form(error, text) ==> exists|s: String| #[trigger]
            call_ensures(debug_text::<E>, (&error,), s) && s@ == text,
{
}

/// Hands the error to `describe`, which formats it.
fn described<E, F: Fn(&E) -> String>(describe: F, error: &E) -> (text: String)
    requires
        call_requires(describe, (error,)),
    ensures
        call_ensures(describe, (error,), text),
{
    describe(error)
}

impl<T, E: core::fmt::Debug> NearExpect<T> for Result<T, E> {
    open spec fn expected(self) -> Option<T> {
        self.ok()
    }

    /// A failed result ends the call with the message, a colon and the debug form of the error.
    open spec fn ends_with(self, msg: Seq<char>, text: Seq<char>) -> bool {
        exists|error: Seq<char>| #[trigger]
            debug_form(self->Err_0, error) && text == failure_text(msg, error)
    }

    fn near_expect_or_message(self, msg: &str) -> (outcome: Result<T, String>) {
        match self {
            Ok(value) => Ok(value),
            Err(error) => {
                let error_text = described(debug_text::<E>, &error);
                assert(debug_form(error, error_text@));
                Err(failure_message(msg, error_text.as_str()))
            },
        }
    }

    fn near_expect(self, msg: &str) -> (value: T) {
        match self {
            Ok(value) => value,
            Err(_) => vstd::pervasive::unreached(),
        }
    }
}

} // verus!
