//! A DNS resolution pipeline: a list of hostnames is resolved against every
//! configured nameserver independently, the raw answers are classified into
//! structured records, deduplicated into a keyed store, and exported as JSON
//! or CSV.  This crate holds the verified core of that pipeline: task
//! planning, answer classification, the batched store writer, the keyed
//! store itself, and the serializers.  The network calls and the async
//! plumbing around them live outside the library and hand it plain values.

use vstd::prelude::*;

pub mod data;
pub mod error;
pub mod input;
pub mod resolver;
pub mod serialize;
pub mod strutil;

verus! {

/// The output format the caller selects for the serialized store.
#[derive(Clone, Copy, Debug, PartialEq, Eq, Structural)]
pub enum OutputFormat {
    Csv,
    Json,
}

} // verus!
