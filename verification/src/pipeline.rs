use vstd::prelude::*;
use crate::coinbase::{CoinbaseTransaction, block_merkle_root, create_coinbase, scriptable};
use crate::error::MinerError;
use crate::header::{BlockTemplate, HeaderTemplate, assemble, clamped_time};
use crate::merkle::{byte_views, merkle_root_of};
use crate::search::{WonBlock, first_win_from, search, wins};
use crate::target::{Target256, compact_fits, compact_value, decode_target};

verus! {

/// Everything that is fixed before the search begins.
#[derive(Clone, Debug)]
pub struct Candidate {
    pub coinbase: CoinbaseTransaction,
    pub header: HeaderTemplate,
    pub target: Target256,
    pub nonce_bound: u32,
}

/// Why no candidate can be made of these inputs, if none can: the script
/// first, then the target, then the time.
pub open spec fn candidate_fault(
    template: BlockTemplate,
    payout_pubkey_hash: Seq<u8>,
    miner_tag: Seq<u8>,
    observed_time: u64,
) -> Option<MinerError> {
    if !scriptable(payout_pubkey_hash, miner_tag) {
        Some(MinerError::InvalidScript)
    } else if !compact_fits(template.bits) {
        Some(MinerError::MalformedTarget)
    } else if clamped_time(observed_time, template.mintime) > u32::MAX {
        Some(MinerError::TimeBeforeMinimum)
    } else {
        None
    }
}

/// Whether `candidate` is the block candidate of a template: the coinbase
/// pays the template's reward at its height, the Merkle root commits to the
/// coinbase followed by the template's transactions, and the header and the
/// target are the template's.
pub open spec fn candidate_of(
    template: BlockTemplate,
    payout_pubkey_hash: Seq<u8>,
    miner_tag: Seq<u8>,
    observed_time: u64,
    candidate: Candidate,
) -> bool {
    &&& candidate.coinbase.pays(
        payout_pubkey_hash,
        template.height,
        template.coinbase_value,
        miner_tag,
    )
    &&& candidate.header.merkle_root@ == merkle_root_of(
        seq![candidate.coinbase.encoding()] + byte_views(template.transactions@),
    )
    &&& candidate.header.version == template.version
    &&& candidate.header.prev_blockhash == template.prev_blockhash
    &&& candidate.header.bits == template.bits
    &&& candidate.header.time == clamped_time(observed_time, template.mintime)
    &&& candidate.target@ == compact_value(template.bits)
    &&& candidate.nonce_bound == template.nonce_bound
}

/// Makes the block candidate of a template: builds the coinbase, computes
/// the Merkle root with the coinbase as first leaf, assembles the header and
/// decodes the target.
pub fn prepare(
    template: &BlockTemplate,
    payout_pubkey_hash: &[u8],
    miner_tag: &[u8],
    observed_time: u64,
) -> (prepared: Result<Candidate, MinerError>)
    ensures
        match prepared {
            Ok(candidate) => candidate_fault(
                *template,
                payout_pubkey_hash@,
                miner_tag@,
                observed_time,
            ) is None && candidate_of(
                *template,
                payout_pubkey_hash@,
                miner_tag@,
                observed_time,
                candidate,
            ),
            Err(e) => candidate_fault(*template, payout_pubkey_hash@, miner_tag@, observed_time)
                == Some(e),
        },
{
    let coinbase = match create_coinbase(
        payout_pubkey_hash,
        template.height,
        template.coinbase_value,
        miner_tag,
    ) {
        Ok(tx) => tx,
        Err(e) => {
            return Err(e);
        },
    };
    let target = match decode_target(template.bits) {
        Ok(t) => t,
        Err(e) => {
            return Err(e);
        },
    };
    let merkle_root = block_merkle_root(&coinbase, &template.transactions);
    let header = match assemble(template, merkle_root, observed_time) {
        Ok(h) => h,
        Err(e) => {
            return Err(e);
        },
    };
    Ok(Candidate { coinbase, header, target, nonce_bound: template.nonce_bound })
}

/// Searches a candidate's nonces on one thread, range by range: the least
/// solving nonce below the bound, or `NoSolutionInRange` where there is none.
pub fn mine(candidate: &Candidate, worker_count: u32) -> (outcome: Result<WonBlock, MinerError>)
    requires
        worker_count > 0,
    ensures
        match outcome {
            Ok(won) => won.nonce < candidate.nonce_bound && first_win_from(
                candidate.header,
                candidate.target,
                0,
                won,
            ),
            Err(e) => e == MinerError::NoSolutionInRange && forall|n: u32|
                n < candidate.nonce_bound ==> !wins(candidate.header, candidate.target, n),
        },
{
    search(&candidate.header, &candidate.target, candidate.nonce_bound, worker_count)
}

} // verus!
