use vstd::prelude::*;

verus! {

use crate::types::{AccountId, Balance, BlockNumber, DispatchError};

/// What a random draw of the pallet is for; each subject seeds the runtime's randomness
/// with its own text.
#[derive(Clone, Copy, Debug, PartialEq, Eq, Structural)]
pub enum RandomSubject {
    Gender,
    DotLogoOvalPosition,
    DotLogoOvalPositionBoost,
    RandomDeathNumber,
    RandomResult,
}

/// The text that seeds the runtime's randomness for a subject.
pub open spec fn subject_text(subject: RandomSubject) -> Seq<char> {
    match subject {
        RandomSubject::Gender => "Gender"@,
        RandomSubject::DotLogoOvalPosition => "DotLogoOvalPosition"@,
        RandomSubject::DotLogoOvalPositionBoost => "DotLogoOvalPositionBoost"@,
        RandomSubject::RandomDeathNumber => "randomDeathNumber"@,
        RandomSubject::RandomResult => "randomResult"@,
    }
}

impl RandomSubject {
    /// The text that seeds the runtime's randomness for this subject.
    pub fn seed(&self) -> (text: &'static str)
        ensures
            text@ == subject_text(*self),
    {
        match self {
            RandomSubject::Gender => "Gender",
            RandomSubject::DotLogoOvalPosition => "DotLogoOvalPosition",
            RandomSubject::DotLogoOvalPositionBoost => "DotLogoOvalPositionBoost",
            RandomSubject::RandomDeathNumber => "randomDeathNumber",
            RandomSubject::RandomResult => "randomResult",
        }
    }
}

/// What the runtime provides to the pallet: the current block, randomness and a currency.
/// Nothing is assumed of what these methods return.
pub trait Config {
    /// The current block number.
    fn block_number(&self) -> BlockNumber;

    /// The index of the extrinsic being applied, if one is.
    fn extrinsic_index(&self) -> Option<u32>;

    /// A random seed for a subject; the pallet reads it once per subject in each of its calls
    /// and tells its draws apart by mixing in the pet count and a draw index.
    fn random(&self, subject: RandomSubject) -> [u8; 32];

    /// Moves `value` from `from` to `to`, keeping both accounts alive.
    fn transfer(&mut self, from: AccountId, to: AccountId, value: Balance) -> Result<
        (),
        DispatchError,
    >;
}

/// An extrinsic index as the random draws mix it in: `0` outside any extrinsic.
pub open spec fn or_zero(index: Option<u32>) -> u32 {
    match index {
        Some(i) => i,
        None => 0,
    }
}

/// An extrinsic index as the random draws mix it in: `0` outside any extrinsic.
pub fn index_or_zero(index: Option<u32>) -> (r: u32)
    ensures
        r == or_zero(index),
{
    match index {
        Some(i) => i,
        None => 0,
    }
}

} // verus!
