use vstd::prelude::*;
use vstd::arithmetic::power::{pow, lemma_pow0, lemma_pow1, lemma_pow_adds, lemma_pow_positive, lemma_pow_increases};
use crate::error::MinerError;

verus! {

/// The number that a byte string spells when read big-endian.
pub open spec fn be_value(s: Seq<u8>) -> nat
    decreases s.len(),
{
    if s.len() == 0 {
        0
    } else {
        be_value(s.drop_last()) * 256 + s.last() as nat
    }
}

/// 2^256, one more than the largest target.
pub open spec fn target_limit() -> int {
    pow(256, 32)
}

/// The exponent byte of compact bits.
pub open spec fn compact_exponent(bits: u32) -> nat {
    (bits / 0x100_0000) as nat
}

/// The mantissa of compact bits, already shifted down where the exponent is
/// below three.
pub open spec fn compact_mantissa(bits: u32) -> nat {
    let field = bits % 0x100_0000;
    let e = compact_exponent(bits);
    if e == 0 {
        0
    } else if e == 1 {
        (field / 0x1_0000) as nat
    } else if e == 2 {
        (field / 0x100) as nat
    } else {
        field as nat
    }
}

/// The number that compact bits stand for, before any limit of width: the
/// mantissa times 256^(exponent - 3), and zero where the mantissa's sign bit
/// is set.
pub open spec fn compact_value(bits: u32) -> nat {
    let e = compact_exponent(bits);
    let m = compact_mantissa(bits);
    if m > 0x7F_FFFF {
        0
    } else if e <= 3 {
        m
    } else {
        (m * pow(256, (e - 3) as nat)) as nat
    }
}

/// A 256-bit threshold, kept as 32 big-endian bytes.
#[derive(Clone, Copy, Debug)]
pub struct Target256 {
    pub bytes: [u8; 32],
}

impl View for Target256 {
    type V = nat;

    open spec fn view(&self) -> nat {
        be_value(self.bytes@)
    }
}

/// Calls `bitcoin::BlockHeader::u256_from_compact_target` and then
/// `Uint256::to_be_bytes`. Claimed: the 32 bytes spell, big-endian, the
/// compact value cut to its low 256 bits (the left shift of the 256-bit
/// integer drops what leaves the top), and zero for a set sign bit.
#[verifier::external_body]
fn compact_to_be_bytes(bits: u32) -> (bytes: [u8; 32])
    ensures
        be_value(bytes@) == compact_value(bits) % (target_limit() as nat),
{
    bitcoin::BlockHeader::u256_from_compact_target(bits).to_be_bytes()
}

/// Calls `num_bigint::BigUint::from_bytes_be` on both arrays and compares
/// the two numbers with `<`. Claimed: the answer is the strict order of the
/// two big-endian values.
#[verifier::external_body]
fn be_less(a: &[u8; 32], b: &[u8; 32]) -> (less: bool)
    ensures
        less == (be_value(a@) < be_value(b@)),
{
    num_bigint::BigUint::from_bytes_be(a) < num_bigint::BigUint::from_bytes_be(b)
}

/// Whether compact bits describe a number that fits 256 bits.
pub open spec fn compact_fits(bits: u32) -> bool {
    compact_value(bits) < target_limit()
}

/// Whether `decoded` is what compact bits decode to: the target of their
/// value where it fits 256 bits, and `MalformedTarget` where it does not.
pub open spec fn decodes_to(bits: u32, decoded: Result<Target256, MinerError>) -> bool {
    match decoded {
        Ok(target) => compact_fits(bits) && target@ == compact_value(bits),
        Err(e) => !compact_fits(bits) && e == MinerError::MalformedTarget,
    }
}

/// Decoding is a function of the compact bits: two decodings of the same
/// bits succeed or fail together, with the same 256-bit value or the same
/// error.
pub proof fn lemma_decode_deterministic(
    bits: u32,
    first: Result<Target256, MinerError>,
    second: Result<Target256, MinerError>,
)
    requires
        decodes_to(bits, first),
        decodes_to(bits, second),
    ensures
        first is Ok <==> second is Ok,
        first is Ok ==> first->Ok_0@ == second->Ok_0@,
        first is Err ==> first->Err_0 == second->Err_0,
{
}

/// A byte string of `n` bytes spells a number below 256^n.
pub proof fn lemma_be_value_bound(s: Seq<u8>)
    ensures
        be_value(s) < pow(256, s.len()),
    decreases s.len(),
{
    if s.len() == 0 {
        lemma_pow0(256);
    } else {
        lemma_be_value_bound(s.drop_last());
        lemma_pow_adds(256, (s.len() - 1) as nat, 1);
        lemma_pow1(256);
    }
}

proof fn lemma_be_value_zero(s: Seq<u8>)
    requires
        forall|i: int| 0 <= i < s.len() ==> s[i] == 0,
    ensures
        be_value(s) == 0,
    decreases s.len(),
{
    if s.len() > 0 {
        lemma_be_value_zero(s.drop_last());
    }
}

proof fn lemma_be_value_full(s: Seq<u8>)
    requires
        forall|i: int| 0 <= i < s.len() ==> s[i] == 0xFF,
    ensures
        be_value(s) + 1 == pow(256, s.len()),
    decreases s.len(),
{
    if s.len() == 0 {
        lemma_pow0(256);
    } else {
        lemma_be_value_full(s.drop_last());
        lemma_pow_adds(256, (s.len() - 1) as nat, 1);
        lemma_pow1(256);
    }
}

/// Every target lies below 2^256.
pub proof fn lemma_target_below_limit(target: Target256)
    ensures
        target@ < target_limit(),
{
    lemma_be_value_bound(target.bytes@);
}

/// A hash of zero bytes only is below every target but zero.
pub proof fn lemma_zero_hash_below_positive(hash: [u8; 32], target: Target256)
    requires
        forall|i: int| 0 <= i < 32 ==> hash@[i] == 0,
        target@ > 0,
    ensures
        be_value(hash@) < target@,
{
    lemma_be_value_zero(hash@);
}

/// A hash of 0xFF bytes only is the largest 256-bit number, so it is below
/// no target at all, the largest one included.
pub proof fn lemma_full_hash_below_none(hash: [u8; 32], target: Target256)
    requires
        forall|i: int| 0 <= i < 32 ==> hash@[i] == 0xFF,
    ensures
        be_value(hash@) + 1 == target_limit(),
        !(be_value(hash@) < target@),
{
    lemma_be_value_full(hash@);
    lemma_be_value_bound(target.bytes@);
}

proof fn lemma_pow256_facts()
    ensures
        pow(256, 0) == 1,
        pow(256, 1) == 256,
        pow(256, 2) == 0x1_0000,
        pow(256, 3) == 0x100_0000,
{
    lemma_pow0(256);
    lemma_pow1(256);
    lemma_pow_adds(256, 1, 1);
    lemma_pow_adds(256, 2, 1);
}

/// A mantissa of `width` bytes shifted up by `shift` bytes fits 256 bits
/// exactly when `width + shift <= 32`.
proof fn lemma_shifted_fits(m: nat, width: nat, shift: nat)
    requires
        1 <= width <= 3,
        pow(256, (width - 1) as nat) <= m < pow(256, width),
    ensures
        (m * pow(256, shift) < pow(256, 32)) <==> width + shift <= 32,
{
    lemma_pow_positive(256, shift);
    lemma_pow_adds(256, width, shift);
    lemma_pow_adds(256, (width - 1) as nat, shift);
    let p = pow(256, shift);
    if width + shift <= 32 {
        lemma_pow_increases(256, width + shift, 32);
        assert(m * p < pow(256, width) * p) by (nonlinear_arith)
            requires
                m < pow(256, width),
                p > 0,
        ;
    } else {
        lemma_pow_increases(256, 32, (width - 1 + shift) as nat);
        assert(m * p >= pow(256, (width - 1) as nat) * p) by (nonlinear_arith)
            requires
                m >= pow(256, (width - 1) as nat),
                p > 0,
        ;
    }
}

/// The number of bytes that a mantissa field takes.
pub open spec fn mantissa_width(field: u32) -> nat {
    if field < 0x100 {
        1
    } else if field < 0x1_0000 {
        2
    } else {
        3
    }
}

/// Whether compact bits fit 256 bits, read off their two fields: a small
/// exponent, a zero or negative mantissa, or a mantissa whose bytes end at
/// or below the 32nd byte.
pub open spec fn fits_by_shape(bits: u32) -> bool {
    let exponent = bits / 0x100_0000;
    let field = bits % 0x100_0000;
    exponent <= 3 || field == 0 || field > 0x7F_FFFF || mantissa_width(field) + (exponent - 3)
        <= 32
}

/// The value of compact bits fits 256 bits exactly when their shape says so.
pub proof fn lemma_fits_by_shape(bits: u32)
    ensures
        compact_fits(bits) == fits_by_shape(bits),
{
    let exponent = bits / 0x100_0000;
    let field = bits % 0x100_0000;
    lemma_pow256_facts();
    lemma_pow_positive(256, 32);
    lemma_pow_increases(256, 3, 32);
    if exponent > 3 {
        let shifted = pow(256, (exponent - 3) as nat);
        lemma_pow_positive(256, (exponent - 3) as nat);
        assert(field * shifted >= 0) by (nonlinear_arith)
            requires
                field >= 0,
                shifted > 0,
        ;
        if 0 < field <= 0x7F_FFFF {
            lemma_shifted_fits(field as nat, mantissa_width(field), (exponent - 3) as nat);
        }
        if field == 0 {
            assert(0 * shifted == 0);
        }
    }
}

/// Decodes compact difficulty bits into the 256-bit threshold they stand for.
/// Bits whose value needs more than 256 bits are refused; a mantissa with the
/// sign bit set decodes to zero.
pub fn decode_target(compact_bits: u32) -> (decoded: Result<Target256, MinerError>)
    ensures
        decodes_to(compact_bits, decoded),
{
    let exponent: u32 = compact_bits / 0x100_0000;
    let field: u32 = compact_bits % 0x100_0000;
    let width: u32 = if field < 0x100 {
        1
    } else if field < 0x1_0000 {
        2
    } else {
        3
    };
    proof {
        lemma_fits_by_shape(compact_bits);
    }
    if exponent > 3 && 0 < field && field <= 0x7F_FFFF && width + (exponent - 3) > 32 {
        return Err(MinerError::MalformedTarget);
    }
    let bytes = compact_to_be_bytes(compact_bits);
    proof {
        vstd::arithmetic::div_mod::lemma_small_mod(
            compact_value(compact_bits),
            target_limit() as nat,
        );
    }
    Ok(Target256 { bytes })
}

/// Whether a hash, read as a big-endian number, lies strictly below the
/// target.
pub fn hash_below_target(hash_bytes: &[u8; 32], target: &Target256) -> (below: bool)
    ensures
        below == (be_value(hash_bytes@) < target@),
{
    be_less(hash_bytes, &target.bytes)
}

} // verus!
