//! The statically typed route registry.
//!
//! Each endpoint is one key of a closed enum; a configuration is complete
//! only if it defines every key, checked once at startup. A matched route's
//! raw parameters are decoded once into a typed request value; handlers
//! consume only typed requests. Resolution of "latest" happens at request
//! time against the block count the authority reports at that moment.

use vstd::prelude::*;
use crate::address::{BlockId, TransactionId};
use crate::errors::LedgerError;
use crate::segment::{RequestError, UrlSegmentType, UrlSegmentValue};
use crate::tagged::{
    block_from_parts, hash_from_parts, spec_block_from_parts, spec_hash_from_parts,
    spec_txn_from_parts, txn_from_parts,
};

verus! {

/// Index entries for the API's route table.
#[allow(non_camel_case_types)]
#[derive(Clone, Copy, PartialEq, Eq, Structural, Debug)]
pub enum ApiRouteKey {
    getblock,
    getblockcount,
    getblockhash,
    getblockid,
    getinfo,
    getmempool,
    gettransaction,
    getunspentrecord,
    getunspentrecordsetinfo,
    subscribe,
}

fn has_key(defined: &Vec<ApiRouteKey>, k: ApiRouteKey) -> (r: bool)
    ensures
        r == defined@.contains(k),
{
    let mut i: usize = 0;
    while i < defined.len()
        invariant
            0 <= i <= defined@.len(),
            forall|j: int| 0 <= j < i ==> defined@[j] != k,
        decreases defined@.len() - i,
    {
        if defined[i] == k {
            return true;
        }
        i += 1;
    }
    false
}

/// Completeness check of a route configuration: it passes exactly when every
/// key the dispatcher knows is defined.
pub fn check_api(defined: &Vec<ApiRouteKey>) -> (r: bool)
    ensures
        r == (forall|k: ApiRouteKey| defined@.contains(k)),
{
    let ok = has_key(defined, ApiRouteKey::getblock) && has_key(defined, ApiRouteKey::getblockcount)
        && has_key(defined, ApiRouteKey::getblockhash) && has_key(defined, ApiRouteKey::getblockid)
        && has_key(defined, ApiRouteKey::getinfo) && has_key(defined, ApiRouteKey::getmempool)
        && has_key(defined, ApiRouteKey::gettransaction) && has_key(
        defined,
        ApiRouteKey::getunspentrecord,
    ) && has_key(defined, ApiRouteKey::getunspentrecordsetinfo) && has_key(
        defined,
        ApiRouteKey::subscribe,
    );
    proof {
        if ok {
            assert forall|k: ApiRouteKey| defined@.contains(k) by {
                match k {
                    ApiRouteKey::getblock => assert(defined@.contains(ApiRouteKey::getblock)),
                    ApiRouteKey::getblockcount => assert(defined@.contains(
                        ApiRouteKey::getblockcount,
                    )),
                    ApiRouteKey::getblockhash => assert(defined@.contains(
                        ApiRouteKey::getblockhash,
                    )),
                    ApiRouteKey::getblockid => assert(defined@.contains(ApiRouteKey::getblockid)),
                    ApiRouteKey::getinfo => assert(defined@.contains(ApiRouteKey::getinfo)),
                    ApiRouteKey::getmempool => assert(defined@.contains(ApiRouteKey::getmempool)),
                    ApiRouteKey::gettransaction => assert(defined@.contains(
                        ApiRouteKey::gettransaction,
                    )),
                    ApiRouteKey::getunspentrecord => assert(defined@.contains(
                        ApiRouteKey::getunspentrecord,
                    )),
                    ApiRouteKey::getunspentrecordsetinfo => assert(defined@.contains(
                        ApiRouteKey::getunspentrecordsetinfo,
                    )),
                    ApiRouteKey::subscribe => assert(defined@.contains(ApiRouteKey::subscribe)),
                }
            }
        }
    }
    ok
}

/// The named parameters a matched route pattern may bind, each already
/// decoded against its declared segment type.
pub struct Bindings {
    pub index: Option<UrlSegmentValue>,
    pub bkid: Option<UrlSegmentValue>,
    pub hash: Option<UrlSegmentValue>,
    pub txid: Option<UrlSegmentValue>,
    pub mempool: Option<UrlSegmentValue>,
    pub output_index: Option<UrlSegmentValue>,
}

impl Bindings {
    /// A request that binds no parameters.
    pub fn none() -> (r: Bindings)
        ensures
            r.index is None && r.bkid is None && r.hash is None && r.txid is None && r.mempool
                is None && r.output_index is None,
    {
        Bindings {
            index: None,
            bkid: None,
            hash: None,
            txid: None,
            mempool: None,
            output_index: None,
        }
    }
}

/// How a block request names its block: an explicit index, a block id, a
/// content hash to be resolved by the authority, or nothing — the latest
/// committed block at the moment of the request.
#[derive(Clone, Copy, PartialEq, Eq, Structural, Debug)]
pub enum BlockAddress {
    ByIndex(u64),
    ById(BlockId),
    ByHash(u64),
    Latest,
}

/// Which block a request's bindings name, trying the explicit index first,
/// then a block id, then a hash, and falling back to "latest".
pub open spec fn spec_block_address(b: Bindings) -> Result<BlockAddress, LedgerError> {
    match b.index {
        Some(v) => match v {
            UrlSegmentValue::Integer(n) => Ok(BlockAddress::ByIndex(n)),
            _ => Err(
                LedgerError::Request {
                    source: RequestError::WrongValueType { expected: UrlSegmentType::Integer },
                },
            ),
        },
        None => match b.bkid {
            Some(v) => match v {
                UrlSegmentValue::Identifier { tag, value } => match spec_block_from_parts(
                    tag@,
                    value@,
                ) {
                    Some(bid) => Ok(BlockAddress::ById(bid)),
                    None => Err(
                        LedgerError::Request {
                            source: RequestError::ParseFailed {
                                expected: UrlSegmentType::TaggedBase64,
                            },
                        },
                    ),
                },
                _ => Err(
                    LedgerError::Request {
                        source: RequestError::WrongValueType {
                            expected: UrlSegmentType::TaggedBase64,
                        },
                    },
                ),
            },
            None => match b.hash {
                Some(v) => match v {
                    UrlSegmentValue::Identifier { tag, value } => match spec_hash_from_parts(
                        tag@,
                        value@,
                    ) {
                        Some(h) => Ok(BlockAddress::ByHash(h)),
                        None => Err(
                            LedgerError::Request {
                                source: RequestError::ParseFailed {
                                    expected: UrlSegmentType::TaggedBase64,
                                },
                            },
                        ),
                    },
                    _ => Err(
                        LedgerError::Request {
                            source: RequestError::WrongValueType {
                                expected: UrlSegmentType::TaggedBase64,
                            },
                        },
                    ),
                },
                None => Ok(BlockAddress::Latest),
            },
        },
    }
}

/// Decode the block naming of a request.
pub fn block_address(b: &Bindings) -> (r: Result<BlockAddress, LedgerError>)
    ensures
        r == spec_block_address(*b),
{
    match &b.index {
        Some(v) => match v {
            UrlSegmentValue::Integer(n) => Ok(BlockAddress::ByIndex(*n)),
            _ => Err(
                LedgerError::Request {
                    source: RequestError::WrongValueType { expected: UrlSegmentType::Integer },
                },
            ),
        },
        None => match &b.bkid {
            Some(v) => match v {
                UrlSegmentValue::Identifier { tag, value } => match block_from_parts(tag, value) {
                    Some(bid) => Ok(BlockAddress::ById(bid)),
                    None => Err(
                        LedgerError::Request {
                            source: RequestError::ParseFailed {
                                expected: UrlSegmentType::TaggedBase64,
                            },
                        },
                    ),
                },
                _ => Err(
                    LedgerError::Request {
                        source: RequestError::WrongValueType {
                            expected: UrlSegmentType::TaggedBase64,
                        },
                    },
                ),
            },
            None => match &b.hash {
                Some(v) => match v {
                    UrlSegmentValue::Identifier { tag, value } => match hash_from_parts(
                        tag,
                        value,
                    ) {
                        Some(h) => Ok(BlockAddress::ByHash(h)),
                        None => Err(
                            LedgerError::Request {
                                source: RequestError::ParseFailed {
                                    expected: UrlSegmentType::TaggedBase64,
                                },
                            },
                        ),
                    },
                    _ => Err(
                        LedgerError::Request {
                            source: RequestError::WrongValueType {
                                expected: UrlSegmentType::TaggedBase64,
                            },
                        },
                    ),
                },
                None => Ok(BlockAddress::Latest),
            },
        },
    }
}

/// What resolving a block address against the authority must yield. The
/// caller supplies the authority's answer for a hash lookup (`None` where the
/// hash is unknown) and its current block count; "latest" is the highest
/// committed index, and resolving it fails — rather than wrapping around —
/// while no block is committed.
pub open spec fn spec_resolve_block_index(
    addr: BlockAddress,
    num_blocks: u64,
    hash_lookup: Option<u64>,
) -> Result<u64, LedgerError> {
    match addr {
        BlockAddress::ByIndex(i) => Ok(i),
        BlockAddress::ById(b) => Ok(b.0),
        BlockAddress::ByHash(h) => match hash_lookup {
            Some(i) => Ok(i),
            None => Err(LedgerError::UnknownBlockHash { hash: h }),
        },
        BlockAddress::Latest => if num_blocks > 0 {
            Ok((num_blocks - 1) as u64)
        } else {
            Err(LedgerError::InvalidBlockId { block_id: 0 })
        },
    }
}

/// Resolve a block address to a concrete index.
pub fn resolve_block_index(addr: &BlockAddress, num_blocks: u64, hash_lookup: Option<u64>) -> (r:
    Result<u64, LedgerError>)
    ensures
        r == spec_resolve_block_index(*addr, num_blocks, hash_lookup),
{
    match addr {
        BlockAddress::ByIndex(i) => Ok(*i),
        BlockAddress::ById(b) => Ok(b.0),
        BlockAddress::ByHash(h) => match hash_lookup {
            Some(i) => Ok(i),
            None => Err(LedgerError::UnknownBlockHash { hash: *h }),
        },
        BlockAddress::Latest => {
            if num_blocks > 0 {
                Ok(num_blocks - 1)
            } else {
                Err(LedgerError::InvalidBlockId { block_id: 0 })
            }
        },
    }
}

/// A request decoded whole: the endpoint plus its typed parameters.
pub enum ApiRequest {
    GetBlock(BlockAddress),
    GetBlockCount,
    GetBlockHash(BlockAddress),
    GetBlockId(BlockAddress),
    GetInfo,
    GetMempool,
    GetTransaction(TransactionId),
    GetUnspentRecord { mempool: bool, txid: TransactionId, output_index: u64 },
    GetUnspentRecordSetInfo,
    Subscribe(u64),
}

/// The transaction id a request's bindings name.
pub open spec fn spec_txid_binding(b: Bindings) -> Result<TransactionId, LedgerError> {
    match b.txid {
        Some(v) => match v {
            UrlSegmentValue::Identifier { tag, value } => match spec_txn_from_parts(
                tag@,
                value@,
            ) {
                Some(t) => Ok(t),
                None => Err(
                    LedgerError::Request {
                        source: RequestError::ParseFailed {
                            expected: UrlSegmentType::TaggedBase64,
                        },
                    },
                ),
            },
            _ => Err(
                LedgerError::Request {
                    source: RequestError::WrongValueType {
                        expected: UrlSegmentType::TaggedBase64,
                    },
                },
            ),
        },
        None => Err(LedgerError::Request { source: RequestError::MissingParam }),
    }
}

fn txid_binding(b: &Bindings) -> (r: Result<TransactionId, LedgerError>)
    ensures
        r == spec_txid_binding(*b),
{
    match &b.txid {
        Some(v) => match v {
            UrlSegmentValue::Identifier { tag, value } => match txn_from_parts(tag, value) {
                Some(t) => Ok(t),
                None => Err(
                    LedgerError::Request {
                        source: RequestError::ParseFailed {
                            expected: UrlSegmentType::TaggedBase64,
                        },
                    },
                ),
            },
            _ => Err(
                LedgerError::Request {
                    source: RequestError::WrongValueType {
                        expected: UrlSegmentType::TaggedBase64,
                    },
                },
            ),
        },
        None => Err(LedgerError::Request { source: RequestError::MissingParam }),
    }
}

/// What binding a whole request must yield for each route key.
pub open spec fn spec_bind_request(key: ApiRouteKey, b: Bindings) -> Result<
    ApiRequest,
    LedgerError,
> {
    match key {
        ApiRouteKey::getblock => match spec_block_address(b) {
            Ok(a) => Ok(ApiRequest::GetBlock(a)),
            Err(e) => Err(e),
        },
        ApiRouteKey::getblockcount => Ok(ApiRequest::GetBlockCount),
        ApiRouteKey::getblockhash => match spec_block_address(b) {
            Ok(a) => Ok(ApiRequest::GetBlockHash(a)),
            Err(e) => Err(e),
        },
        ApiRouteKey::getblockid => match spec_block_address(b) {
            Ok(a) => Ok(ApiRequest::GetBlockId(a)),
            Err(e) => Err(e),
        },
        ApiRouteKey::getinfo => Ok(ApiRequest::GetInfo),
        ApiRouteKey::getmempool => Ok(ApiRequest::GetMempool),
        ApiRouteKey::gettransaction => match spec_txid_binding(b) {
            Ok(t) => Ok(ApiRequest::GetTransaction(t)),
            Err(e) => Err(e),
        },
        ApiRouteKey::getunspentrecord => match b.mempool {
            Some(UrlSegmentValue::Boolean(mp)) => match spec_txid_binding(b) {
                Ok(t) => match b.output_index {
                    Some(UrlSegmentValue::Integer(oi)) => Ok(
                        ApiRequest::GetUnspentRecord { mempool: mp, txid: t, output_index: oi },
                    ),
                    Some(_) => Err(
                        LedgerError::Request {
                            source: RequestError::WrongValueType {
                                expected: UrlSegmentType::Integer,
                            },
                        },
                    ),
                    None => Err(LedgerError::Request { source: RequestError::MissingParam }),
                },
                Err(e) => Err(e),
            },
            Some(_) => Err(
                LedgerError::Request {
                    source: RequestError::WrongValueType { expected: UrlSegmentType::Boolean },
                },
            ),
            None => Err(LedgerError::Request { source: RequestError::MissingParam }),
        },
        ApiRouteKey::getunspentrecordsetinfo => Ok(ApiRequest::GetUnspentRecordSetInfo),
        ApiRouteKey::subscribe => match b.index {
            Some(UrlSegmentValue::Integer(n)) => Ok(ApiRequest::Subscribe(n)),
            Some(_) => Err(
                LedgerError::Request {
                    source: RequestError::WrongValueType { expected: UrlSegmentType::Integer },
                },
            ),
            None => Err(LedgerError::Request { source: RequestError::MissingParam }),
        },
    }
}

/// Decode a matched route's bindings into one typed request.
pub fn bind_request(key: ApiRouteKey, b: &Bindings) -> (r: Result<ApiRequest, LedgerError>)
    ensures
        r == spec_bind_request(key, *b),
{
    match key {
        ApiRouteKey::getblock => match block_address(b) {
            Ok(a) => Ok(ApiRequest::GetBlock(a)),
            Err(e) => Err(e),
        },
        ApiRouteKey::getblockcount => Ok(ApiRequest::GetBlockCount),
        ApiRouteKey::getblockhash => match block_address(b) {
            Ok(a) => Ok(ApiRequest::GetBlockHash(a)),
            Err(e) => Err(e),
        },
        ApiRouteKey::getblockid => match block_address(b) {
            Ok(a) => Ok(ApiRequest::GetBlockId(a)),
            Err(e) => Err(e),
        },
        ApiRouteKey::getinfo => Ok(ApiRequest::GetInfo),
        ApiRouteKey::getmempool => Ok(ApiRequest::GetMempool),
        ApiRouteKey::gettransaction => match txid_binding(b) {
            Ok(t) => Ok(ApiRequest::GetTransaction(t)),
            Err(e) => Err(e),
        },
        ApiRouteKey::getunspentrecord => match &b.mempool {
            Some(UrlSegmentValue::Boolean(mp)) => match txid_binding(b) {
                Ok(t) => match &b.output_index {
                    Some(UrlSegmentValue::Integer(oi)) => Ok(
                        ApiRequest::GetUnspentRecord {
                            mempool: *mp,
                            txid: t,
                            output_index: *oi,
                        },
                    ),
                    Some(_) => Err(
                        LedgerError::Request {
                            source: RequestError::WrongValueType {
                                expected: UrlSegmentType::Integer,
                            },
                        },
                    ),
                    None => Err(LedgerError::Request { source: RequestError::MissingParam }),
                },
                Err(e) => Err(e),
            },
            Some(_) => Err(
                LedgerError::Request {
                    source: RequestError::WrongValueType { expected: UrlSegmentType::Boolean },
                },
            ),
            None => Err(LedgerError::Request { source: RequestError::MissingParam }),
        },
        ApiRouteKey::getunspentrecordsetinfo => Ok(ApiRequest::GetUnspentRecordSetInfo),
        ApiRouteKey::subscribe => match &b.index {
            Some(UrlSegmentValue::Integer(n)) => Ok(ApiRequest::Subscribe(*n)),
            Some(_) => Err(
                LedgerError::Request {
                    source: RequestError::WrongValueType { expected: UrlSegmentType::Integer },
                },
            ),
            None => Err(LedgerError::Request { source: RequestError::MissingParam }),
        },
    }
}

/// The response encodings the server can produce.
#[derive(Clone, Copy, PartialEq, Eq, Structural, Debug)]
pub enum MediaKind {
    Json,
    ByteStream,
    Html,
    Other,
}

/// Content negotiation: only the structured-data encoding is guaranteed;
/// any other requested kind is answered with `UnsupportedContentType`.
pub fn response_media(requested: MediaKind) -> (r: Result<MediaKind, LedgerError>)
    ensures
        requested == MediaKind::Json ==> r == Ok::<MediaKind, LedgerError>(MediaKind::Json),
        requested != MediaKind::Json ==> r == Err::<MediaKind, LedgerError>(
            LedgerError::UnsupportedContentType,
        ),
{
    match requested {
        MediaKind::Json => Ok(MediaKind::Json),
        _ => Err(LedgerError::UnsupportedContentType),
    }
}

} // verus!
