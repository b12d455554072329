use vstd::prelude::*;

pub mod api;
pub mod manager;
pub mod session;
pub mod signal;

verus! {

/// Final outcome of one dispatched request: success carries the
/// accumulated answer, failure carries a human-readable reason.
#[derive(Debug)]
pub struct SocketCompletionResponse {
    pub succeeded: bool,
    pub message: String,
}

} // verus!
