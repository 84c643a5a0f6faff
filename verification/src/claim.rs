//! The unit of work and the stream events that carry it.

use vstd::prelude::*;

verus! {

/// The chain and the contract that one pipeline instance serves.
#[derive(Clone, Copy, Debug, PartialEq, Eq)]
pub struct DAppMetadata {
    pub chain_id: u64,
    pub dapp_address: [u8; 20],
}

/// The summary of one epoch, to be submitted on chain. Claims of one dapp are
/// ordered by `epoch_index`; `epoch_hash` is never interpreted here.
#[derive(Clone, Copy, Debug, PartialEq, Eq)]
pub struct RollupsClaim {
    pub epoch_index: u64,
    pub epoch_hash: [u8; 32],
}

/// A claim as the stream delivers it, under the id the stream gave it.
#[derive(Clone, Debug, PartialEq, Eq)]
pub struct Event {
    pub id: String,
    pub payload: RollupsClaim,
}

/// The cursor that stands before the first event of a stream.
pub open spec fn initial_id() -> Seq<char> {
    seq!['0']
}

/// The cursor a listener starts from.
pub fn initial_cursor() -> (id: String)
    ensures
        id@ == initial_id(),
{
    proof {
        reveal_strlit("0");
    }
    let id = "0".to_string();
    assert(id@ =~= initial_id());
    id
}

/// The hash of a claim that has none yet: 32 zero bytes.
pub open spec fn zero_hash() -> Seq<u8> {
    Seq::new(32, |i: int| 0u8)
}

impl Default for RollupsClaim {
    /// The claim of epoch 0 with the zero hash.
    fn default() -> (claim: Self)
        ensures
            claim.epoch_index == 0,
            claim.epoch_hash@ == zero_hash(),
    {
        let claim = RollupsClaim { epoch_index: 0, epoch_hash: [0u8; 32] };
        assert(claim.epoch_hash@ =~= zero_hash());
        claim
    }
}

} // verus!
