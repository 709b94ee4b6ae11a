//! The metastate API: the nullifier-check endpoint and its error surface.

use vstd::prelude::*;
use crate::errors::StatusCode;
use crate::nullifier::SetMerkleProof;
use crate::segment::RequestError;

verus! {

/// Failures of the metastate API.
#[derive(Clone, Copy, PartialEq, Eq, Structural, Debug)]
pub enum MetastateApiError {
    Request { source: RequestError },
    InvalidBlockId { block_id: u64 },
}

impl vstd::std_specs::convert::FromSpecImpl<RequestError> for MetastateApiError {
    open spec fn obeys_from_spec() -> bool {
        true
    }

    open spec fn from_spec(source: RequestError) -> Self {
        MetastateApiError::Request { source }
    }
}

impl From<RequestError> for MetastateApiError {
    fn from(source: RequestError) -> Self {
        MetastateApiError::Request { source }
    }
}

impl MetastateApiError {
    /// Both failures are the client's fault.
    pub fn status(&self) -> (r: StatusCode)
        ensures
            r == StatusCode::BadRequest,
    {
        match self {
            MetastateApiError::Request { .. } => StatusCode::BadRequest,
            MetastateApiError::InvalidBlockId { .. } => StatusCode::BadRequest,
        }
    }
}

/// The nullifier-check answer: whether the nullifier is spent, with the path
/// that proves it against the requested block's root.
#[derive(Clone, PartialEq, Eq, Debug)]
pub struct NullifierCheck {
    pub spent: bool,
    pub merkle_proof: SetMerkleProof,
}

/// The nullifier-check endpoint: the authority's lookup answer for the
/// requested block and nullifier becomes the response; a block id the
/// authority does not know is the client's fault.
pub fn check_nullifier(lookup: Option<(bool, SetMerkleProof)>, block_id: u64) -> (r: Result<
    NullifierCheck,
    MetastateApiError,
>)
    ensures
        match lookup {
            Some((spent, pf)) => r matches Ok(c) && c.spent == spent && c.merkle_proof == pf,
            None => r matches Err(e) && e == MetastateApiError::InvalidBlockId { block_id },
        },
{
    match lookup {
        Some((spent, pf)) => Ok(NullifierCheck { spent, merkle_proof: pf }),
        None => Err(MetastateApiError::InvalidBlockId { block_id }),
    }
}

} // verus!
