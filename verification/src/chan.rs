//! The per-session output channel: an unbounded sender/receiver pair from
//! the async runtime, carried through the session state as opaque values.

use vstd::prelude::*;

verus! {

#[verifier::external_type_specification]
#[verifier::external_body]
#[verifier::reject_recursive_types(T)]
pub struct ExUnboundedSender<T>(tokio::sync::mpsc::UnboundedSender<T>);

#[verifier::external_type_specification]
#[verifier::external_body]
#[verifier::reject_recursive_types(T)]
pub struct ExUnboundedReceiver<T>(tokio::sync::mpsc::UnboundedReceiver<T>);

/// Relies on tokio::sync::mpsc::unbounded_channel: a fresh connected
/// sender/receiver pair.
#[verifier::external_body]
pub fn new_output_channel() -> (r: (
    tokio::sync::mpsc::UnboundedSender<Vec<u8>>,
    tokio::sync::mpsc::UnboundedReceiver<Vec<u8>>,
)) {
    tokio::sync::mpsc::unbounded_channel()
}

/// Relies on UnboundedSender::send: delivery succeeds unless the receiver
/// has gone away; which of the two happens cannot be known here, so the
/// caller must cope with either answer.
#[verifier::external_body]
pub fn channel_send(tx: &tokio::sync::mpsc::UnboundedSender<Vec<u8>>, data: Vec<u8>) -> (ok:
    bool) {
    tx.send(data).is_ok()
}

} // verus!
