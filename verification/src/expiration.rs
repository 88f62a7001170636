//! Grants that lapse: an expiry is a block height, a block time, or never, and
//! is held against the clock of the block in which a call runs.

use vstd::prelude::*;

verus! {

/// The clock of the block in which a call runs.
#[derive(Clone, Copy, Debug, PartialEq, Eq, Structural)]
pub struct BlockInfo {
    pub height: u64,
    /// Seconds since the epoch.
    pub time: u64,
}

/// The surroundings of a call.
#[derive(Clone, Copy, Debug, PartialEq, Eq, Structural)]
pub struct Env {
    pub block: BlockInfo,
}

/// The point at which a grant lapses.
#[derive(Clone, Copy, Debug, PartialEq, Eq, Structural)]
pub enum Expiration {
    /// Lapses once the block height has reached the given height.
    AtHeight(u64),
    /// Lapses once the block time has reached the given time.
    AtTime(u64),
    /// Never lapses.
    Never,
}

impl Expiration {
    /// Whether the grant has lapsed at `block`: the height or time named has
    /// been reached. A grant without end never has.
    pub open spec fn expired_at(self, block: BlockInfo) -> bool {
        match self {
            Expiration::AtHeight(height) => block.height >= height,
            Expiration::AtTime(time) => block.time >= time,
            Expiration::Never => false,
        }
    }

    /// Whether the grant has lapsed at `block`.
    pub fn is_expired(&self, block: &BlockInfo) -> (expired: bool)
        ensures
            expired == self.expired_at(*block),
    {
        match self {
            Expiration::AtHeight(height) => block.height >= *height,
            Expiration::AtTime(time) => block.time >= *time,
            Expiration::Never => false,
        }
    }
}

impl Default for Expiration {
    /// A grant for which no expiry is given never lapses.
    fn default() -> (e: Self)
        ensures
            e == Expiration::Never,
    {
        Expiration::Never
    }
}

/// The expiry that a caller gave, or never where none was given.
pub open spec fn expiry_or_never(expires: Option<Expiration>) -> Expiration {
    match expires {
        Some(e) => e,
        None => Expiration::Never,
    }
}

/// A grant without end has not lapsed at any block.
pub proof fn lemma_never_does_not_expire(block: BlockInfo)
    ensures
        !Expiration::Never.expired_at(block),
        !expiry_or_never(None).expired_at(block),
{
}

/// Once a grant has lapsed it stays lapsed: a later block, in height and in
/// time, finds it lapsed too.
pub proof fn lemma_expired_stays_expired(e: Expiration, earlier: BlockInfo, later: BlockInfo)
    requires
        e.expired_at(earlier),
        earlier.height <= later.height,
        earlier.time <= later.time,
    ensures
        e.expired_at(later),
{
}

/// A grant that lapses at a height holds in the block before it and has lapsed
/// in that block and in every later one; likewise for a time.
pub proof fn lemma_expiry_boundary(at: u64, block: BlockInfo)
    ensures
        Expiration::AtHeight(at).expired_at(block) <==> block.height >= at,
        Expiration::AtTime(at).expired_at(block) <==> block.time >= at,
        block.height + 1 == at ==> !Expiration::AtHeight(at).expired_at(block),
        block.time + 1 == at ==> !Expiration::AtTime(at).expired_at(block),
{
}

} // verus!
