//! Verified marshalling core for a small PostgreSQL browser: type-to-decoder
//! dispatch, null-tolerant value conversion, result-set assembly, schema-tree
//! folding, and the JSON wire encoding of both results.
use vstd::prelude::*;

pub mod decode;
pub mod query;
pub mod schema;
pub mod text;
pub mod value;

verus! {

/// A connection probe collapses every failure mode to `false`: the verdict is
/// `true` exactly when the handshake succeeded.
pub enum ConnectOutcome {
    Connected,
    Refused,
}

pub fn probe_verdict(outcome: &ConnectOutcome) -> (r: bool)
    ensures
        r == (outcome is Connected),
{
    match outcome {
        ConnectOutcome::Connected => true,
        ConnectOutcome::Refused => false,
    }
}

} // verus!
