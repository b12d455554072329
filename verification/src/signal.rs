use crate::SocketCompletionResponse;
use vstd::prelude::*;

verus! {

/// Declaration of tokio's one-shot sender: the single-use producer half of
/// the signal that carries one completion outcome back to the task awaiting
/// it. The type is opaque here; only `resolve` below touches it.
#[verifier::external_type_specification]
#[verifier::external_body]
#[verifier::reject_recursive_types(T)]
pub struct ExOneshotSender<T>(tokio::sync::oneshot::Sender<T>);

/// Receipt of a resolved completion handle, recording the outcome it was
/// resolved with. The fields are private and only `resolve` constructs a
/// value, so a contract that hands out a `Resolution` shows that the
/// completion was resolved with the outcome the view carries — and, the
/// sender being consumed by `resolve`, resolved at most once.
pub struct Resolution {
    succeeded: bool,
    message: String,
}

impl View for Resolution {
    type V = (bool, Seq<char>);

    /// The outcome the completion handle was resolved with: the success
    /// flag and the message.
    closed spec fn view(&self) -> (bool, Seq<char>) {
        (self.succeeded, self.message@)
    }
}

impl Resolution {
    /// Whether the completion was resolved as a success.
    pub fn succeeded(&self) -> (r: bool)
        ensures
            r == self@.0,
    {
        self.succeeded
    }

    /// The message the completion was resolved with.
    pub fn message(&self) -> (r: &str)
        ensures
            r@ == self@.1,
    {
        self.message.as_str()
    }
}

/// Relies on tokio::sync::oneshot::Sender::send: consuming the sender, it
/// delivers the outcome if the receiver is still listening and is inert if
/// the receiver has already been dropped; it never panics, so resolving an
/// abandoned completion is safe. The receipt holds a copy of exactly what
/// was sent.
#[verifier::external_body]
pub fn resolve(
    sender: tokio::sync::oneshot::Sender<SocketCompletionResponse>,
    succeeded: bool,
    message: String,
) -> (r: Resolution)
    ensures
        r@ == (succeeded, message@),
{
    let _ = sender.send(SocketCompletionResponse { succeeded, message: message.clone() });
    Resolution { succeeded, message }
}

} // verus!
