//! The error taxonomy of a resolution run.  Every fatal failure of the
//! pipeline is reported as one of these variants; per-lookup DNS failures are
//! never fatal and are classified into records instead (see `data`).

use vstd::prelude::*;

verus! {

/// A fatal error of a resolution run.  Each variant carries a human-readable
/// description of the underlying failure.
#[derive(Debug)]
pub enum ReeError {
    /// Serializing the results store failed.
    Serde(String),
    /// Writing CSV output failed.
    CsvErr(String),
    /// An input or output file could not be read or written.
    Io(String),
    /// An inter-stage channel send failed because the receiver terminated.
    SendErr(String),
    /// A spawned concurrent unit terminated abnormally.
    JoinErr(String),
    /// A numeric command-line argument could not be parsed.
    ParseInt(String),
}

impl ReeError {
    /// The description carried by the variant.
    pub fn message(&self) -> (r: &String)
        ensures
            r@ == self.message_spec(),
    {
        match self {
            ReeError::Serde(m) => m,
            ReeError::CsvErr(m) => m,
            ReeError::Io(m) => m,
            ReeError::SendErr(m) => m,
            ReeError::JoinErr(m) => m,
            ReeError::ParseInt(m) => m,
        }
    }

    /// The characters of the description carried by the variant.
    pub open spec fn message_spec(&self) -> Seq<char> {
        match self {
            ReeError::Serde(m) => m@,
            ReeError::CsvErr(m) => m@,
            ReeError::Io(m) => m@,
            ReeError::SendErr(m) => m@,
            ReeError::JoinErr(m) => m@,
            ReeError::ParseInt(m) => m@,
        }
    }
}

} // verus!
