//! How the instances of a model animate.

use vstd::prelude::*;

verus! {

/// Whether the frames of a model's instances animate in step or at random offsets.
#[derive(Copy, Clone, Debug, PartialEq, Eq, Structural)]
pub enum SyncType {
    Sync,
    Rand,
}

impl SyncType {
    /// The number of this value.
    pub open spec fn spec_code(self) -> u32 {
        match self {
            SyncType::Sync => 0,
            SyncType::Rand => 1,
        }
    }

    /// The value with the given number, if there is one.
    pub open spec fn spec_from_u32(v: u32) -> Option<SyncType> {
        match v {
            0 => Some(SyncType::Sync),
            1 => Some(SyncType::Rand),
            _ => None,
        }
    }

    /// The number of this value.
    pub fn code(self) -> (r: u32)
        ensures
            r == self.spec_code(),
    {
        match self {
            SyncType::Sync => 0,
            SyncType::Rand => 1,
        }
    }

    /// The value with the given number, if there is one.
    pub fn from_u32(v: u32) -> (r: Option<SyncType>)
        ensures
            r == SyncType::spec_from_u32(v),
    {
        match v {
            0 => Some(SyncType::Sync),
            1 => Some(SyncType::Rand),
            _ => None,
        }
    }

    /// Reading back the number of a value gives the value.
    pub proof fn lemma_code_roundtrip(self)
        ensures
            SyncType::spec_from_u32(self.spec_code()) == Some(self),
    {
    }
}
} // verus!
