//! The resolution of the lending pool of an asset.

use vstd::prelude::*;
use crate::types::{Address, BlendPool};

verus! {

/// What to ask of the lending service once it has been asked for the pool of
/// an asset.
#[derive(Debug)]
pub enum PoolAction {
    /// There is no pool yet: have one created.
    CreatePool,
    /// There is a pool: ask it for its reserve token.
    AskReserveToken(Address),
}

/// Decides between the pool that the lending service found and a new one.
pub fn get_or_create_blend_pool(found: Option<Address>) -> (r: PoolAction)
    ensures
        r == match found {
            Some(pool_id) => PoolAction::AskReserveToken(pool_id),
            None => PoolAction::CreatePool,
        },
{
    match found {
        Some(pool_id) => PoolAction::AskReserveToken(pool_id),
        None => PoolAction::CreatePool,
    }
}

impl BlendPool {
    /// The pool of `asset`, as resolved for one call.
    pub fn resolved(pool_id: Address, asset: &Address, reserve_asset: Address) -> (r: BlendPool)
        ensures
            r.pool_id == pool_id,
            r.underlying_asset == *asset,
            r.reserve_asset == reserve_asset,
    {
        BlendPool { pool_id, underlying_asset: asset.clone(), reserve_asset }
    }
}

} // verus!
