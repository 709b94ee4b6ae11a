//! The library's error taxonomy and its mapping to HTTP-style status classes.
//!
//! Client-fault errors (malformed parameters, nonexistent addresses) map to a
//! bad request; an unimplemented feature is surfaced distinctly from
//! not-found; a protocol violation or a proof that fails verification is
//! fatal to the operation that met it and maps to a server-side fault.

use vstd::prelude::*;
use crate::segment::RequestError;

verus! {

/// Status classes the API layer answers with.
#[derive(Clone, Copy, PartialEq, Eq, Structural, Debug)]
pub enum StatusCode {
    Success,
    BadRequest,
    NotImplemented,
    UnsupportedMediaType,
    InternalServerError,
}

/// Every failure the synchronization layer can report.
#[derive(Clone, Copy, PartialEq, Eq, Structural, Debug)]
pub enum LedgerError {
    /// Malformed client input: a parameter that does not decode against its
    /// declared segment type, or one that is missing.
    Request { source: RequestError },
    /// The client referenced a block the authority does not know.
    InvalidBlockId { block_id: u64 },
    /// The client named a block by a content hash the authority cannot
    /// resolve.
    UnknownBlockHash { hash: u64 },
    /// The transaction index is out of range for its block.
    InvalidTransactionId { block_id: u64, txn_id: u64 },
    /// The output index is out of range for its transaction.
    InvalidOutputIndex { output_index: u64, output_count: u64 },
    /// The feature exists in the interface but has no implementation yet.
    Unimplemented,
    /// The authority's response broke one of its own invariants
    /// (mismatched parallel sequence lengths, a repeated or skipped event).
    ProtocolViolation,
    /// A connection, send or receive failure; retry policy belongs to the
    /// caller.
    Transport,
    /// A fetched nullifier proof failed verification against the current
    /// root; the requesting operation must abort.
    InvalidNullifierProof,
    /// Proving keys whose arities do not match the validator's verifier keys:
    /// a fatal configuration error at bootstrap.
    KeyArityMismatch,
    /// The client asked for a response encoding the server does not offer.
    UnsupportedContentType,
}

impl LedgerError {
    /// The status class this error is surfaced as.
    pub open spec fn spec_status(self) -> StatusCode {
        match self {
            LedgerError::Request { .. } => StatusCode::BadRequest,
            LedgerError::InvalidBlockId { .. } => StatusCode::BadRequest,
            LedgerError::UnknownBlockHash { .. } => StatusCode::BadRequest,
            LedgerError::InvalidTransactionId { .. } => StatusCode::BadRequest,
            LedgerError::InvalidOutputIndex { .. } => StatusCode::BadRequest,
            LedgerError::Unimplemented => StatusCode::NotImplemented,
            LedgerError::ProtocolViolation => StatusCode::InternalServerError,
            LedgerError::Transport => StatusCode::InternalServerError,
            LedgerError::InvalidNullifierProof => StatusCode::InternalServerError,
            LedgerError::KeyArityMismatch => StatusCode::InternalServerError,
            LedgerError::UnsupportedContentType => StatusCode::UnsupportedMediaType,
        }
    }

    pub fn status(&self) -> (r: StatusCode)
        ensures
            r == self.spec_status(),
    {
        match self {
            LedgerError::Request { .. } => StatusCode::BadRequest,
            LedgerError::InvalidBlockId { .. } => StatusCode::BadRequest,
            LedgerError::UnknownBlockHash { .. } => StatusCode::BadRequest,
            LedgerError::InvalidTransactionId { .. } => StatusCode::BadRequest,
            LedgerError::InvalidOutputIndex { .. } => StatusCode::BadRequest,
            LedgerError::Unimplemented => StatusCode::NotImplemented,
            LedgerError::ProtocolViolation => StatusCode::InternalServerError,
            LedgerError::Transport => StatusCode::InternalServerError,
            LedgerError::InvalidNullifierProof => StatusCode::InternalServerError,
            LedgerError::KeyArityMismatch => StatusCode::InternalServerError,
            LedgerError::UnsupportedContentType => StatusCode::UnsupportedMediaType,
        }
    }
}

} // verus!
