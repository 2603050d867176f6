use vstd::prelude::*;
use crate::error::MinerError;
use crate::header::BlockTemplate;

verus! {

#[verifier::external_type_specification]
#[verifier::external_body]
pub struct ExFromHexError(hex::FromHexError);

#[verifier::external_type_specification]
#[verifier::external_body]
pub struct ExParseIntError(core::num::ParseIntError);

/// A soft-fork deployment that the node announces.
#[derive(Clone, Debug)]
pub struct VbAvailable {
    pub rulename: Option<i32>,
}

/// One candidate transaction of a template, as the node sends it.
#[derive(Clone, Debug)]
pub struct Tx {
    /// The raw transaction, in hex.
    pub data: String,
    pub txid: String,
    pub hash: String,
    pub depends: Vec<i32>,
    pub fee: i32,
    pub sigops: i32,
    pub weight: i32,
}

/// Data that the node asks to see in the coinbase.
#[derive(Clone, Debug)]
pub struct CoinbaseAuxValues {
    pub key: Option<String>,
}

/// The node's answer to `getblocktemplate`, field by field.
#[derive(Clone, Debug)]
pub struct GetBlockTemplateReturn {
    pub capabilities: Vec<String>,
    pub version: i32,
    pub rules: Vec<String>,
    pub vbavailable: Option<VbAvailable>,
    pub vbrequired: i32,
    /// Hash of the previous block, in hex, as it is displayed.
    pub previousblockhash: String,
    pub transactions: Vec<Tx>,
    pub coinbaseaux: Option<CoinbaseAuxValues>,
    pub coinbasevalue: u64,
    pub longpollid: String,
    pub target: String,
    pub mintime: i128,
    pub mutable: Vec<String>,
    /// Exclusive upper bound of the nonces, in hex.
    pub noncerange: String,
    pub sigoplimit: i32,
    pub sizelimit: i32,
    pub weightlimit: i32,
    pub curtime: i128,
    /// The compact target, in hex.
    pub bits: String,
    pub height: u64,
    pub default_witness_commitment: String,
}

/// The value of a hex digit, of either case.
pub open spec fn hex_digit(c: char) -> Option<u8> {
    let code = c as u32;
    if 0x30 <= code <= 0x39 {
        Some((code - 0x30) as u8)
    } else if 0x61 <= code <= 0x66 {
        Some((code - 0x61 + 10) as u8)
    } else if 0x41 <= code <= 0x46 {
        Some((code - 0x41 + 10) as u8)
    } else {
        None
    }
}

/// The bytes that a hex text spells, two digits each; none where the text
/// has an odd length or holds anything but hex digits.
pub open spec fn hex_bytes(text: Seq<char>) -> Option<Seq<u8>> {
    if text.len() % 2 == 0 && (forall|i: int| 0 <= i < text.len() ==> hex_digit(text[i]) is Some) {
        Some(
            Seq::new(
                text.len() / 2,
                |i: int| (hex_digit(text[2 * i])->0 * 16 + hex_digit(text[2 * i + 1])->0) as u8,
            ),
        )
    } else {
        None
    }
}

/// The number that a text spells in base 16, as `u32::from_str_radix` reads
/// it; none where it refuses the text.
pub uninterp spec fn radix16_value(text: Seq<char>) -> Option<u32>;

/// Calls `hex::decode`. Claimed: it succeeds exactly on texts of even length
/// made of hex digits of either case, and then gives the byte of each pair,
/// the first digit being the high half.
#[verifier::external_body]
fn decode_hex(text: &str) -> (decoded: Result<Vec<u8>, hex::FromHexError>)
    ensures
        match decoded {
            Ok(bytes) => hex_bytes(text@) == Some(bytes@),
            Err(_) => hex_bytes(text@) is None,
        },
{
    hex::decode(text)
}

/// Calls `u32::from_str_radix` with radix 16. Claimed: whether it succeeds,
/// and the number it gives, depend on the text alone.
#[verifier::external_body]
fn parse_radix16(text: &str) -> (parsed: Result<u32, core::num::ParseIntError>)
    ensures
        match parsed {
            Ok(value) => radix16_value(text@) == Some(value),
            Err(_) => radix16_value(text@) is None,
        },
{
    u32::from_str_radix(text, 16)
}

/// A displayed hash turned into the byte order of the header: the 32 bytes
/// in reverse.
pub open spec fn header_order(displayed: Seq<u8>) -> Seq<u8> {
    Seq::new(32, |i: int| displayed[31 - i])
}

/// The previous block's hash of a template in header order; none where the
/// text is not the hex of 32 bytes.
pub open spec fn prev_hash_of(text: Seq<char>) -> Option<Seq<u8>> {
    match hex_bytes(text) {
        Some(bytes) => if bytes.len() == 32 {
            Some(header_order(bytes))
        } else {
            None
        },
        None => None,
    }
}

/// Whether a time of the template is a number of seconds that 64 bits hold.
pub open spec fn time_in_range(t: i128) -> bool {
    0 <= t <= u64::MAX
}

/// Why a template cannot be read, if it cannot: the bits first, then the
/// previous hash, the nonce range and the two times, then the transactions.
pub open spec fn template_fault(raw: GetBlockTemplateReturn) -> Option<MinerError> {
    if radix16_value(raw.bits@) is None {
        Some(MinerError::MalformedTarget)
    } else if prev_hash_of(raw.previousblockhash@) is None || radix16_value(raw.noncerange@)
        is None || !time_in_range(raw.mintime) || !time_in_range(raw.curtime) {
        Some(MinerError::TemplateFetchFailed)
    } else if exists|i: int|
        0 <= i < raw.transactions@.len() && hex_bytes(#[trigger] raw.transactions@[i].data@)
            is None {
        Some(MinerError::MalformedTransactionEncoding)
    } else {
        None
    }
}

/// Whether `template` holds what `raw` says, every hex field decoded.
pub open spec fn reads_as(raw: GetBlockTemplateReturn, template: BlockTemplate) -> bool {
    &&& template.version == raw.version
    &&& Some(template.prev_blockhash@) == prev_hash_of(raw.previousblockhash@)
    &&& Some(template.bits) == radix16_value(raw.bits@)
    &&& Some(template.nonce_bound) == radix16_value(raw.noncerange@)
    &&& template.curtime == raw.curtime
    &&& template.mintime == raw.mintime
    &&& template.height == raw.height
    &&& template.coinbase_value == raw.coinbasevalue
    &&& template.transactions@.len() == raw.transactions@.len()
    &&& forall|i: int|
        0 <= i < raw.transactions@.len() ==> Some((#[trigger] template.transactions@[i])@)
            == hex_bytes(raw.transactions@[i].data@)
}

fn decode_prev_hash(text: &str) -> (hash: Option<[u8; 32]>)
    ensures
        match hash {
            Some(h) => prev_hash_of(text@) == Some(h@),
            None => prev_hash_of(text@) is None,
        },
{
    match decode_hex(text) {
        Ok(bytes) => {
            if bytes.len() != 32 {
                return None;
            }
            let mut out: [u8; 32] = [0u8; 32];
            let mut i: usize = 0;
            while i < 32
                invariant
                    i <= 32,
                    bytes@.len() == 32,
                    forall|k: int| 0 <= k < i ==> out@[k] == bytes@[31 - k],
                decreases 32 - i,
            {
                out[i] = bytes[31 - i];
                i = i + 1;
            }
            assert(out@ =~= header_order(bytes@));
            Some(out)
        },
        Err(_) => None,
    }
}

/// Decodes the raw transactions of a template, in order.
pub fn decode_transactions(transactions: &Vec<Tx>) -> (decoded: Result<Vec<Vec<u8>>, MinerError>)
    ensures
        match decoded {
            Ok(list) => list@.len() == transactions@.len() && forall|i: int|
                0 <= i < transactions@.len() ==> Some((#[trigger] list@[i])@) == hex_bytes(
                    transactions@[i].data@,
                ),
            Err(e) => e == MinerError::MalformedTransactionEncoding && exists|i: int|
                0 <= i < transactions@.len() && hex_bytes(#[trigger] transactions@[i].data@)
                    is None,
        },
{
    let mut list: Vec<Vec<u8>> = Vec::new();
    let mut i: usize = 0;
    while i < transactions.len()
        invariant
            i <= transactions@.len(),
            list@.len() == i,
            forall|k: int|
                0 <= k < i ==> Some((#[trigger] list@[k])@) == hex_bytes(transactions@[k].data@),
        decreases transactions@.len() - i,
    {
        match decode_hex(transactions[i].data.as_str()) {
            Ok(bytes) => {
                list.push(bytes);
            },
            Err(_) => {
                assert(hex_bytes(transactions@[i as int].data@) is None);
                return Err(MinerError::MalformedTransactionEncoding);
            },
        }
        i = i + 1;
    }
    Ok(list)
}

/// Reads a template as the node sent it: decodes the hex fields and keeps
/// what the search needs. A field that cannot be read fails the whole
/// template, with the error that `template_fault` names.
pub fn parse_template(raw: &GetBlockTemplateReturn) -> (parsed: Result<BlockTemplate, MinerError>)
    ensures
        match parsed {
            Ok(template) => template_fault(*raw) is None && reads_as(*raw, template),
            Err(e) => template_fault(*raw) == Some(e),
        },
{
    let bits: u32 = match parse_radix16(raw.bits.as_str()) {
        Ok(value) => value,
        Err(_) => {
            return Err(MinerError::MalformedTarget);
        },
    };
    let prev_blockhash: [u8; 32] = match decode_prev_hash(raw.previousblockhash.as_str()) {
        Some(hash) => hash,
        None => {
            return Err(MinerError::TemplateFetchFailed);
        },
    };
    let nonce_bound: u32 = match parse_radix16(raw.noncerange.as_str()) {
        Ok(value) => value,
        Err(_) => {
            return Err(MinerError::TemplateFetchFailed);
        },
    };
    if raw.mintime < 0 || raw.mintime > 0xFFFF_FFFF_FFFF_FFFF || raw.curtime < 0 || raw.curtime
        > 0xFFFF_FFFF_FFFF_FFFF {
        return Err(MinerError::TemplateFetchFailed);
    }
    let transactions: Vec<Vec<u8>> = match decode_transactions(&raw.transactions) {
        Ok(list) => list,
        Err(e) => {
            return Err(e);
        },
    };
    assert forall|i: int| 0 <= i < raw.transactions@.len() implies hex_bytes(
        #[trigger] raw.transactions@[i].data@,
    ) is Some by {
        assert(Some(transactions@[i]@) == hex_bytes(raw.transactions@[i].data@));
    }
    Ok(
        BlockTemplate {
            version: raw.version,
            prev_blockhash,
            bits,
            nonce_bound,
            curtime: raw.curtime as u64,
            mintime: raw.mintime as u64,
            height: raw.height,
            coinbase_value: raw.coinbasevalue,
            transactions,
        },
    )
}

} // verus!
