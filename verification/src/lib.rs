//! A multi-tenant compute worker core: sessions hold a compiled guest
//! module and an epoch-versioned key-value state; a streaming orchestrator
//! bounds concurrent sandbox executions; a columnar codec moves tabular
//! results between wire and internal form.

use vstd::prelude::*;

pub mod backend;
pub mod bridge;
pub mod codec;
pub mod deadline;
pub mod engine;
pub mod kv;
pub mod orchestrator;
pub mod session;
pub mod storage;
pub mod strfmt;
pub mod value;

verus! {

/// Error taxonomy of the worker, one variant per failure family.
#[derive(Clone, PartialEq, Eq, Structural, Debug)]
pub enum WorkerError {
    /// A malformed or out-of-order client message; aborts the stream.
    ProtocolError,
    /// The guest module failed to validate or compile.
    CompileError,
    /// The guest module could not be instantiated against the host imports.
    InstantiateError,
    /// A guest fault during execution, including a deadline trap.
    Trap,
    /// A specific host import call failed.
    HostImportError,
    /// The backing store could not serve a request.
    BackendError,
}

impl WorkerError {
    /// The short description of each failure family.
    pub open spec fn spec_message(self) -> Seq<char> {
        match self {
            WorkerError::ProtocolError => "protocol error"@,
            WorkerError::CompileError => "compile error"@,
            WorkerError::InstantiateError => "instantiate error"@,
            WorkerError::Trap => "trap"@,
            WorkerError::HostImportError => "host import error"@,
            WorkerError::BackendError => "backend error"@,
        }
    }

    /// Renders the short description, for error payloads sent to clients.
    pub fn message(&self) -> (r: String)
        ensures
            r@ == self.spec_message(),
    {
        match self {
            WorkerError::ProtocolError => String::from_str("protocol error"),
            WorkerError::CompileError => String::from_str("compile error"),
            WorkerError::InstantiateError => String::from_str("instantiate error"),
            WorkerError::Trap => String::from_str("trap"),
            WorkerError::HostImportError => String::from_str("host import error"),
            WorkerError::BackendError => String::from_str("backend error"),
        }
    }
}

} // verus!
