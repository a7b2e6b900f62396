//! Errors produced while executing a command against the catalog.

use vstd::prelude::*;

verus! {

/// Why a command failed on the worker side.
#[derive(Debug, Clone, PartialEq)]
pub enum EngineError {
    /// The named dataset is not registered in the catalog.
    NotFound(String),
    /// The underlying engine rejected a query (planning or execution).
    Query(String),
    /// The requested capability is not implemented (Postgres connections).
    Unsupported,
}

/// The mathematical content of an [`EngineError`].
pub enum EngineErrorV {
    NotFound(Seq<char>),
    Query(Seq<char>),
    Unsupported,
}

impl View for EngineError {
    type V = EngineErrorV;

    open spec fn view(&self) -> EngineErrorV {
        match self {
            EngineError::NotFound(s) => EngineErrorV::NotFound(s@),
            EngineError::Query(s) => EngineErrorV::Query(s@),
            EngineError::Unsupported => EngineErrorV::Unsupported,
        }
    }
}

pub open spec fn spec_engine_error_message(e: EngineErrorV) -> Seq<char> {
    match e {
        EngineErrorV::NotFound(s) => "dataset not found: "@ + s,
        EngineErrorV::Query(s) => "query failed: "@ + s,
        EngineErrorV::Unsupported => "Postgres connection is not supported yet"@,
    }
}

impl EngineError {
    /// The message delivered back to the user as the request's result.
    pub fn message(&self) -> (r: String)
        ensures
            r@ == spec_engine_error_message(self@),
    {
        match self {
            EngineError::NotFound(s) => {
                let mut m = String::from_str("dataset not found: ");
                m.append(s.as_str());
                m
            },
            EngineError::Query(s) => {
                let mut m = String::from_str("query failed: ");
                m.append(s.as_str());
                m
            },
            EngineError::Unsupported => String::from_str(
                "Postgres connection is not supported yet",
            ),
        }
    }
}

} // verus!
