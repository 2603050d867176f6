use vstd::prelude::*;
use crate::error::MinerError;

verus! {

/// What the search needs of a block template, as plain values.
#[derive(Clone, Debug)]
pub struct BlockTemplate {
    pub version: i32,
    /// Hash of the previous block, in the byte order of the header.
    pub prev_blockhash: [u8; 32],
    /// The target, as compact bits.
    pub bits: u32,
    /// Exclusive upper bound of the nonces to try.
    pub nonce_bound: u32,
    pub curtime: u64,
    pub mintime: u64,
    pub height: u64,
    pub coinbase_value: u64,
    /// The raw encoding of each candidate transaction, in block order.
    pub transactions: Vec<Vec<u8>>,
}

/// A block header with every field fixed but the nonce.
#[derive(Clone, Copy, Debug)]
pub struct HeaderTemplate {
    pub version: i32,
    pub prev_blockhash: [u8; 32],
    pub merkle_root: [u8; 32],
    pub time: u32,
    pub bits: u32,
}

/// The double SHA-256 of the 80-byte consensus encoding of a header.
pub uninterp spec fn header_digest(
    version: i32,
    prev_blockhash: Seq<u8>,
    merkle_root: Seq<u8>,
    time: u32,
    bits: u32,
    nonce: u32,
) -> Seq<u8>;

impl HeaderTemplate {
    /// The hash of this header once `nonce` is put in.
    pub open spec fn digest(&self, nonce: u32) -> Seq<u8> {
        header_digest(
            self.version,
            self.prev_blockhash@,
            self.merkle_root@,
            self.time,
            self.bits,
            nonce,
        )
    }
}

/// The header time for a clock reading: never below the template's minimum.
pub open spec fn clamped_time(observed_time: u64, mintime: u64) -> u64 {
    if observed_time >= mintime {
        observed_time
    } else {
        mintime
    }
}

/// Fixes every header field but the nonce. Version, previous hash and bits
/// come from the template as they are; the time is the observed time raised
/// to the template's minimum. A time that the header's 32 bits cannot hold
/// is refused, since cut to 32 bits it would fall below the minimum.
pub fn assemble(template: &BlockTemplate, merkle_root: [u8; 32], observed_time: u64) -> (assembled:
    Result<HeaderTemplate, MinerError>)
    ensures
        clamped_time(observed_time, template.mintime) <= u32::MAX ==> assembled is Ok && ({
            let h = assembled->Ok_0;
            &&& h.version == template.version
            &&& h.prev_blockhash == template.prev_blockhash
            &&& h.merkle_root == merkle_root
            &&& h.bits == template.bits
            &&& h.time == clamped_time(observed_time, template.mintime)
        }),
        clamped_time(observed_time, template.mintime) > u32::MAX ==> assembled == Err::<
            HeaderTemplate,
            MinerError,
        >(MinerError::TimeBeforeMinimum),
{
    let time: u64 = if observed_time >= template.mintime {
        observed_time
    } else {
        template.mintime
    };
    if time > 0xFFFF_FFFF {
        return Err(MinerError::TimeBeforeMinimum);
    }
    Ok(
        HeaderTemplate {
            version: template.version,
            prev_blockhash: template.prev_blockhash,
            merkle_root,
            time: time as u32,
            bits: template.bits,
        },
    )
}

/// Builds a `bitcoin::BlockHeader` from the template's fields and the nonce
/// and calls its `block_hash`, then `into_inner` for the 32 bytes. Claimed:
/// the bytes are a function of the six header fields alone.
#[verifier::external_body]
fn block_hash(header: &HeaderTemplate, nonce: u32) -> (hash: [u8; 32])
    ensures
        hash@ == header_digest(
            header.version,
            header.prev_blockhash@,
            header.merkle_root@,
            header.time,
            header.bits,
            nonce,
        ),
{
    let full = bitcoin::BlockHeader {
        version: header.version,
        prev_blockhash: <bitcoin::BlockHash as bitcoin::hashes::Hash>::from_inner(header.prev_blockhash),
        merkle_root: <bitcoin::TxMerkleNode as bitcoin::hashes::Hash>::from_inner(header.merkle_root),
        time: header.time,
        bits: header.bits,
        nonce,
    };
    bitcoin::hashes::Hash::into_inner(full.block_hash())
}

/// The hash of the header with `nonce` put in.
pub fn hash_with_nonce(header: &HeaderTemplate, nonce: u32) -> (hash: [u8; 32])
    ensures
        hash@ == header.digest(nonce),
{
    block_hash(header, nonce)
}

} // verus!
