//! The task types of `std` that polling needs, and the failure type.
//!
//! Verus has no specification for them. They are declared so that they can
//! pass through verified code, which never looks inside them.

use std::task::Poll;
use vstd::prelude::*;

verus! {

/// `std::io::Error`, the one kind of failure that a source reports.
#[verifier::external_type_specification]
#[verifier::external_body]
pub struct ExIoError(std::io::Error);

/// `std::task::Context`, which carries the waker of the polling task.
#[verifier::external_type_specification]
#[verifier::external_body]
pub struct ExContext<'a>(std::task::Context<'a>);

/// `std::task::Poll`, the result of a poll.
#[verifier::external_type_specification]
#[verifier::external_body]
#[verifier::reject_recursive_types(T)]
pub struct ExPoll<T>(std::task::Poll<T>);

/// `std::pin::Pin`, in which the polling traits hand over their receiver.
#[verifier::external_type_specification]
#[verifier::external_body]
#[verifier::reject_recursive_types(Ptr)]
pub struct ExPin<Ptr>(std::pin::Pin<Ptr>);

/// The failure of kind `Other` that carries the message given.
pub uninterp spec fn other_error(message: Seq<char>) -> std::io::Error;

/// A failure of the library's own (`io::Error::new` with
/// `io::ErrorKind::Other`): it is of that kind and carries the message.
#[verifier::external_body]
pub(crate) fn new_other_error(message: &str) -> (error: std::io::Error)
    ensures
        error == other_error(message@),
{
    std::io::Error::new(std::io::ErrorKind::Other, message)
}

/// The result of polling a fallible operation: `Poll<io::Result<T>>`, as an
/// enum that verified code can build and match.
#[derive(Debug)]
pub enum Polled<T> {
    /// Not finished: the task will be woken.
    Pending,
    /// Finished, with a value or a failure.
    Ready(Result<T, std::io::Error>),
}

/// What a `std::task::Poll` of a fallible operation without a value holds.
pub uninterp spec fn poll_result(poll: Poll<Result<(), std::io::Error>>) -> Polled<()>;

/// The same value as a `std::task::Poll`, variant for variant: the `Poll`
/// holds what it was made of.
#[verifier::external_body]
pub(crate) fn into_unit_poll(polled: Polled<()>) -> (poll: Poll<Result<(), std::io::Error>>)
    ensures
        poll_result(poll) == polled,
{
    match polled {
        Polled::Pending => Poll::Pending,
        Polled::Ready(result) => Poll::Ready(result),
    }
}

/// The same value as a `std::task::Poll`, variant for variant.
#[verifier::external_body]
pub(crate) fn into_poll<T>(polled: Polled<T>) -> Poll<Result<T, std::io::Error>> {
    match polled {
        Polled::Pending => Poll::Pending,
        Polled::Ready(result) => Poll::Ready(result),
    }
}

} // verus!
