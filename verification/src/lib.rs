//! Identifiers for shards of a tenant's data: compact values with a
//! human-readable hex text form and a packed binary form, ordered for use
//! as storage and routing keys.
use vstd::prelude::*;

pub mod decimal;
pub mod hexcode;
pub mod serial;
pub mod shard;
pub mod tenant_id;

pub use hexcode::ParseError;
pub use serial::{DecodeError, Encoded};
pub use shard::{ShardCount, ShardIndex, ShardNumber, ShardSlug, ShardStripeSize, TenantShardId};
pub use tenant_id::TenantId;

verus! {

} // verus!
