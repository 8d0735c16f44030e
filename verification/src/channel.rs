//! The bounded channel over which a sandbox reports to the running state.

use tokio::sync::mpsc::{Receiver, Sender};
use vstd::prelude::*;

verus! {

/// The sending end of a bounded channel of `tokio`.
#[verifier::external_type_specification]
#[verifier::external_body]
#[verifier::reject_recursive_types(T)]
pub struct ExSender<T>(Sender<T>);

/// The receiving end of a bounded channel of `tokio`.
#[verifier::external_type_specification]
#[verifier::external_body]
#[verifier::reject_recursive_types(T)]
pub struct ExReceiver<T>(Receiver<T>);

/// How many messages the status channel holds before the sandbox has to wait.
/// A full channel holds the sender back and drops nothing, so that messages
/// and the exit status arrive in the order in which they were sent.
pub const STATUS_CHANNEL_CAPACITY: usize = 8;

/// Calls `tokio::sync::mpsc::channel`, which panics on a capacity of zero and
/// on one above an eighth of `usize::MAX`: the contract leaves those out. It
/// claims nothing of the two ends that come back.
#[verifier::external_body]
pub(crate) fn bounded_channel<M>(capacity: usize) -> (ends: (Sender<M>, Receiver<M>))
    requires
        0 < capacity <= usize::MAX / 8,
{
    tokio::sync::mpsc::channel(capacity)
}

} // verus!
