use vstd::prelude::*;
use vstd::slice::slice_to_vec;
use crate::error::MinerError;
use crate::merkle::{byte_views, merkle_root_of, root_of_nonempty};

verus! {

/// The transaction that claims the block reward: one input that spends
/// nothing, one output that pays the reward.
#[derive(Clone, Debug)]
pub struct CoinbaseTransaction {
    pub version: i32,
    /// The spent transaction's id: all zero, since nothing is spent.
    pub prev_txid: [u8; 32],
    /// The spent output's index: all ones.
    pub prev_vout: u32,
    pub script_sig: Vec<u8>,
    pub sequence: u32,
    pub value: u64,
    pub script_pubkey: Vec<u8>,
    pub lock_time: u32,
}

/// A block height as a script number: little-endian, as few bytes as
/// possible, with a zero byte added where the top bit would read as a sign.
pub open spec fn height_bytes(height: nat) -> Seq<u8>
    decreases height,
{
    if height == 0 {
        Seq::<u8>::empty()
    } else if height < 0x80 {
        seq![height as u8]
    } else if height < 0x100 {
        seq![height as u8, 0u8]
    } else {
        seq![(height % 256) as u8] + height_bytes(height / 256)
    }
}

/// The opcodes that push `len` bytes of data: the length itself below 76,
/// else the marker 0x4c, 0x4d or 0x4e and the length in one, two or four
/// little-endian bytes.
pub open spec fn push_prefix(len: nat) -> Seq<u8> {
    if len < 0x4c {
        seq![len as u8]
    } else if len <= 0xff {
        seq![0x4cu8, len as u8]
    } else if len <= 0xffff {
        seq![0x4du8, (len % 256) as u8, (len / 256) as u8]
    } else {
        seq![
            0x4eu8,
            (len % 256) as u8,
            (len / 0x100 % 256) as u8,
            (len / 0x1_0000 % 256) as u8,
            (len / 0x100_0000 % 256) as u8,
        ]
    }
}

/// The input script: the pushed height, then the pushed tag.
pub open spec fn script_sig_of(height: u64, tag: Seq<u8>) -> Seq<u8> {
    let h = height_bytes(height as nat);
    push_prefix(h.len()) + h + push_prefix(tag.len()) + tag
}

/// The output script that pays to a public-key hash:
/// `OP_DUP OP_HASH160 <hash> OP_EQUALVERIFY OP_CHECKSIG`.
pub open spec fn script_pubkey_of(hash: Seq<u8>) -> Seq<u8> {
    seq![0x76u8, 0xa9u8, 0x14u8] + hash + seq![0x88u8, 0xacu8]
}

/// Whether a payout hash and a tag can be put into scripts: the hash has 20
/// bytes and the tag's length fits the widest push.
pub open spec fn scriptable(hash: Seq<u8>, tag: Seq<u8>) -> bool {
    hash.len() == 20 && tag.len() <= 0xffff_ffff
}

/// The consensus encoding of a transaction with one input, one output and
/// no witness.
pub uninterp spec fn transaction_encoding(
    version: i32,
    prev_txid: Seq<u8>,
    prev_vout: u32,
    script_sig: Seq<u8>,
    sequence: u32,
    value: u64,
    script_pubkey: Seq<u8>,
    lock_time: u32,
) -> Seq<u8>;

/// Builds a `bitcoin::Transaction` with one input and one output from the
/// fields and calls `bitcoin::consensus::serialize` on it. Claimed: the
/// bytes are a function of the eight fields alone.
#[verifier::external_body]
fn consensus_bytes(tx: &CoinbaseTransaction) -> (bytes: Vec<u8>)
    ensures
        bytes@ == transaction_encoding(
            tx.version,
            tx.prev_txid@,
            tx.prev_vout,
            tx.script_sig@,
            tx.sequence,
            tx.value,
            tx.script_pubkey@,
            tx.lock_time,
        ),
{
    let txid = <bitcoin::Txid as bitcoin::hashes::Hash>::from_inner(tx.prev_txid);
    let input = bitcoin::TxIn {
        previous_output: bitcoin::OutPoint { txid, vout: tx.prev_vout },
        script_sig: bitcoin::Script::from(tx.script_sig.clone()),
        sequence: tx.sequence,
        witness: bitcoin::Witness::default(),
    };
    let script_pubkey = bitcoin::Script::from(tx.script_pubkey.clone());
    let output = bitcoin::TxOut { value: tx.value, script_pubkey };
    let (version, lock_time) = (tx.version, tx.lock_time);
    bitcoin::consensus::serialize(&bitcoin::Transaction { version, lock_time, input: vec![input], output: vec![output] })
}

impl CoinbaseTransaction {
    /// The bytes that stand for this transaction in a block.
    pub open spec fn encoding(&self) -> Seq<u8> {
        transaction_encoding(
            self.version,
            self.prev_txid@,
            self.prev_vout,
            self.script_sig@,
            self.sequence,
            self.value,
            self.script_pubkey@,
            self.lock_time,
        )
    }

    /// Whether this is the coinbase that pays `value` to `hash` in the block
    /// at `height`, tagged with `tag`: every field is fixed by the four.
    pub open spec fn pays(&self, hash: Seq<u8>, height: u64, value: u64, tag: Seq<u8>) -> bool {
        &&& self.version == 1
        &&& self.prev_txid@ == Seq::new(32, |i: int| 0u8)
        &&& self.prev_vout == 0xffff_ffff
        &&& self.script_sig@ == script_sig_of(height, tag)
        &&& self.sequence == 0xffff_ffff
        &&& self.value == value
        &&& self.script_pubkey@ == script_pubkey_of(hash)
        &&& self.lock_time == 0
    }

    /// Encodes the transaction for hashing and for the block.
    pub fn encode(&self) -> (bytes: Vec<u8>)
        ensures
            bytes@ == self.encoding(),
    {
        consensus_bytes(self)
    }
}

/// A 64-bit height takes at most nine bytes.
proof fn lemma_height_width(height: u64)
    ensures
        height_bytes(height as nat).len() <= 9,
{
    reveal_with_fuel(height_bytes, 10);
}

fn push_height(script: &mut Vec<u8>, height: u64)
    ensures
        final(script)@ == old(script)@ + push_prefix(height_bytes(height as nat).len())
            + height_bytes(height as nat),
{
    let mut digits: Vec<u8> = Vec::new();
    let mut rest: u64 = height;
    while rest >= 0x100
        invariant
            digits@ + height_bytes(rest as nat) == height_bytes(height as nat),
        decreases rest,
    {
        let ghost before = digits@;
        digits.push((rest % 256) as u8);
        assert(digits@ + height_bytes((rest / 256) as nat) =~= before + height_bytes(rest as nat));
        rest = rest / 256;
    }
    let ghost before = digits@;
    if rest >= 0x80 {
        digits.push(rest as u8);
        digits.push(0);
    } else if rest > 0 {
        digits.push(rest as u8);
    }
    assert(digits@ =~= before + height_bytes(rest as nat));
    proof {
        lemma_height_width(height);
    }
    let ghost start = script@;
    script.push(digits.len() as u8);
    let mut i: usize = 0;
    while i < digits.len()
        invariant
            i <= digits@.len(),
            script@ == start + push_prefix(digits@.len()) + digits@.subrange(0, i as int),
            digits@.len() <= 9,
        decreases digits@.len() - i,
    {
        script.push(digits[i]);
        assert(script@ =~= start + push_prefix(digits@.len()) + digits@.subrange(0, i + 1));
        i = i + 1;
    }
    assert(digits@.subrange(0, digits@.len() as int) =~= digits@);
}

fn push_data(script: &mut Vec<u8>, data: &[u8])
    requires
        data@.len() <= 0xffff_ffff,
    ensures
        final(script)@ == old(script)@ + push_prefix(data@.len()) + data@,
{
    let ghost start = script@;
    let len: usize = data.len();
    if len < 0x4c {
        script.push(len as u8);
    } else if len <= 0xff {
        script.push(0x4c);
        script.push(len as u8);
    } else if len <= 0xffff {
        script.push(0x4d);
        script.push((len % 256) as u8);
        script.push((len / 256) as u8);
    } else {
        script.push(0x4e);
        script.push((len % 256) as u8);
        script.push((len / 0x100 % 256) as u8);
        script.push((len / 0x1_0000 % 256) as u8);
        script.push((len / 0x100_0000 % 256) as u8);
    }
    assert(script@ =~= start + push_prefix(data@.len()));
    let mut i: usize = 0;
    while i < len
        invariant
            len == data@.len(),
            i <= len,
            script@ == start + push_prefix(data@.len()) + data@.subrange(0, i as int),
        decreases len - i,
    {
        script.push(data[i]);
        assert(script@ =~= start + push_prefix(data@.len()) + data@.subrange(0, i + 1));
        i = i + 1;
    }
    assert(data@.subrange(0, len as int) =~= data@);
}

/// Two coinbases built from the same four inputs have the same encoding,
/// byte for byte.
pub proof fn lemma_coinbase_reproducible(
    first: CoinbaseTransaction,
    second: CoinbaseTransaction,
    hash: Seq<u8>,
    height: u64,
    value: u64,
    tag: Seq<u8>,
)
    requires
        first.pays(hash, height, value, tag),
        second.pays(hash, height, value, tag),
    ensures
        first.encoding() == second.encoding(),
{
}

/// Builds the coinbase transaction for a block: the input script carries the
/// height and the miner's tag, each pushed as data; the single output pays
/// `value` to the public-key hash. The same arguments give the same
/// transaction, byte for byte. A payout hash that is not 20 bytes long, or a
/// tag too long for any push, is refused.
pub fn create_coinbase(
    payout_pubkey_hash: &[u8],
    block_height: u64,
    value: u64,
    miner_tag: &[u8],
) -> (built: Result<CoinbaseTransaction, MinerError>)
    ensures
        scriptable(payout_pubkey_hash@, miner_tag@) ==> built is Ok && built->Ok_0.pays(
            payout_pubkey_hash@,
            block_height,
            value,
            miner_tag@,
        ),
        !scriptable(payout_pubkey_hash@, miner_tag@) ==> built is Err && built->Err_0
            == MinerError::InvalidScript,
{
    if payout_pubkey_hash.len() != 20 || miner_tag.len() > 0xffff_ffff {
        return Err(MinerError::InvalidScript);
    }
    let mut script_sig: Vec<u8> = Vec::new();
    push_height(&mut script_sig, block_height);
    push_data(&mut script_sig, miner_tag);
    let mut script_pubkey: Vec<u8> = Vec::new();
    script_pubkey.push(0x76);
    script_pubkey.push(0xa9);
    push_data(&mut script_pubkey, payout_pubkey_hash);
    script_pubkey.push(0x88);
    script_pubkey.push(0xac);
    let prev_txid: [u8; 32] = [0u8; 32];
    proof {
        assert(script_sig@ =~= script_sig_of(block_height, miner_tag@));
        assert(script_pubkey@ =~= script_pubkey_of(payout_pubkey_hash@));
        assert(prev_txid@ =~= Seq::new(32, |i: int| 0u8));
    }
    Ok(
        CoinbaseTransaction {
            version: 1,
            prev_txid,
            prev_vout: 0xffff_ffff,
            script_sig,
            sequence: 0xffff_ffff,
            value,
            script_pubkey,
            lock_time: 0,
        },
    )
}

/// The transactions of a block in order: the coinbase first, then the
/// template's.
pub fn block_transactions(coinbase: &CoinbaseTransaction, others: &Vec<Vec<u8>>) -> (all: Vec<
    Vec<u8>,
>)
    ensures
        byte_views(all@) == seq![coinbase.encoding()] + byte_views(others@),
{
    let mut all: Vec<Vec<u8>> = Vec::new();
    all.push(coinbase.encode());
    let mut i: usize = 0;
    while i < others.len()
        invariant
            i <= others@.len(),
            all@.len() == i + 1,
            all@[0]@ == coinbase.encoding(),
            forall|k: int| 1 <= k <= i ==> (#[trigger] all@[k])@ == others@[k - 1]@,
        decreases others@.len() - i,
    {
        all.push(slice_to_vec(others[i].as_slice()));
        i = i + 1;
    }
    assert(byte_views(all@) =~= seq![coinbase.encoding()] + byte_views(others@));
    all
}

/// The Merkle root of a block whose first transaction is the coinbase.
pub fn block_merkle_root(coinbase: &CoinbaseTransaction, others: &Vec<Vec<u8>>) -> (root: [u8; 32])
    ensures
        root@ == merkle_root_of(seq![coinbase.encoding()] + byte_views(others@)),
{
    let all = block_transactions(coinbase, others);
    assert(byte_views(all@).len() == 1 + others@.len());
    root_of_nonempty(&all)
}

} // verus!
