//! The error taxonomy of the crate: I/O failures, subprocess failures,
//! semantic absences and malformed content, each carrying a message.

use vstd::prelude::*;

verus! {

/// What can go wrong while gathering a fact.
#[derive(Debug, Clone, PartialEq, Eq)]
pub enum SwiftfetchError {
    /// A file could not be opened or read.
    Io(String),
    /// Content did not have the expected shape.
    Parse(String),
    /// The configuration was unusable.
    Config(String),
    /// The fact is absent on this host.
    Detection(String),
}

impl SwiftfetchError {
    /// A human-readable description, with the category named first.
    pub fn message(&self) -> (r: String)
        ensures
            match self {
                SwiftfetchError::Io(m) => r@ == "I/O error: "@ + m@,
                SwiftfetchError::Parse(m) => r@ == "Parse error: "@ + m@,
                SwiftfetchError::Config(m) => r@ == "Config error: "@ + m@,
                SwiftfetchError::Detection(m) => r@ == "Detection error: "@ + m@,
            },
    {
        let mut r = String::new();
        match self {
            SwiftfetchError::Io(m) => {
                r.append("I/O error: ");
                r.append(m.as_str());
            },
            SwiftfetchError::Parse(m) => {
                r.append("Parse error: ");
                r.append(m.as_str());
            },
            SwiftfetchError::Config(m) => {
                r.append("Config error: ");
                r.append(m.as_str());
            },
            SwiftfetchError::Detection(m) => {
                r.append("Detection error: ");
                r.append(m.as_str());
            },
        }
        proof {
            match self {
                SwiftfetchError::Io(m) => assert(r@ =~= "I/O error: "@ + m@),
                SwiftfetchError::Parse(m) => assert(r@ =~= "Parse error: "@ + m@),
                SwiftfetchError::Config(m) => assert(r@ =~= "Config error: "@ + m@),
                SwiftfetchError::Detection(m) => assert(r@ =~= "Detection error: "@ + m@),
            }
        }
        r
    }
}

} // verus!
