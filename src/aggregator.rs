use vstd::prelude::*;
use crate::resource::{ConfigError, ResourceKind};

verus! {

/// The slot of a tier in a table of per-tier counts.
pub open spec fn kind_index(k: ResourceKind) -> int {
    match k {
        ResourceKind::COAL => 0,
        ResourceKind::IRON => 1,
        ResourceKind::GOLD => 2,
        ResourceKind::DIAMOND => 3,
    }
}

/// One more, stopping at the largest `u128`.
pub open spec fn bump(n: u128) -> u128 {
    if n < u128::MAX {
        (n + 1) as u128
    } else {
        n
    }
}

impl ResourceKind {
    /// This tier's slot in a table of counts.
    pub fn index(&self) -> (r: usize)
        ensures
            r == kind_index(*self),
    {
        match self {
            ResourceKind::COAL => 0,
            ResourceKind::IRON => 1,
            ResourceKind::GOLD => 2,
            ResourceKind::DIAMOND => 3,
        }
    }

    /// The tier's name as it appears in records and status lines.
    pub fn name(&self) -> (r: &'static str)
        ensures
            *self == ResourceKind::COAL ==> r@ == "COAL"@,
            *self == ResourceKind::IRON ==> r@ == "IRON"@,
            *self == ResourceKind::GOLD ==> r@ == "GOLD"@,
            *self == ResourceKind::DIAMOND ==> r@ == "DIAMOND"@,
    {
        match self {
            ResourceKind::COAL => "COAL",
            ResourceKind::IRON => "IRON",
            ResourceKind::GOLD => "GOLD",
            ResourceKind::DIAMOND => "DIAMOND",
        }
    }
}

/// The single consumer of discoveries: running counts per tier and the
/// number of records handed on to be persisted.
pub struct Aggregator {
    pub counts: [u128; 4],
    pub recorded: u128,
}

impl Aggregator {
    /// An aggregator that has seen nothing.
    pub fn new() -> (a: Aggregator)
        ensures
            forall|i: int| 0 <= i < 4 ==> a.counts@[i] == 0,
            a.recorded == 0,
    {
        Aggregator { counts: [0u128; 4], recorded: 0 }
    }

    /// Takes in one discovery of tier `kind`: its tier's count and the
    /// record count each go up by one (saturating); the other counts stay.
    pub fn receive(&mut self, kind: ResourceKind)
        ensures
            final(self).counts@ == old(self).counts@.update(
                kind_index(kind),
                bump(old(self).counts@[kind_index(kind)]),
            ),
            final(self).recorded == bump(old(self).recorded),
    {
        let i = kind.index();
        let c = self.counts[i];
        if c < u128::MAX {
            self.counts[i] = c + 1;
        }
        if self.recorded < u128::MAX {
            self.recorded = self.recorded + 1;
        }
        assert(self.counts@ =~= old(self).counts@.update(kind_index(kind), bump(c)));
    }

    /// How many discoveries of tier `kind` have been taken in.
    pub fn count(&self, kind: ResourceKind) -> (r: u128)
        ensures
            r == self.counts@[kind_index(kind)],
    {
        self.counts[kind.index()]
    }
}

/// The worker-pool size: the requested count when one is given, else the
/// machine's physical core count; zero is refused.
pub fn thread_count(requested: Option<usize>, physical: usize) -> (r: Result<usize, ConfigError>)
    ensures
        requested matches Some(n) ==> r == if n > 0 {
            Ok::<usize, ConfigError>(n)
        } else {
            Err(ConfigError::InvalidThreadCount)
        },
        requested is None ==> r == if physical > 0 {
            Ok::<usize, ConfigError>(physical)
        } else {
            Err(ConfigError::InvalidThreadCount)
        },
{
    let n = match requested {
        Some(n) => n,
        None => physical,
    };
    if n == 0 {
        Err(ConfigError::InvalidThreadCount)
    } else {
        Ok(n)
    }
}

} // verus!
