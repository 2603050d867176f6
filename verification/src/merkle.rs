use vstd::prelude::*;
use crate::error::MinerError;

verus! {

/// The SHA-256 digest of a byte string.
pub uninterp spec fn sha256_digest(data: Seq<u8>) -> Seq<u8>;

/// Calls `rs_merkle::algorithms::Sha256::hash`, the crate's SHA-256 hasher.
/// Claimed: the 32 bytes are a function of the input bytes alone.
#[verifier::external_body]
fn sha256(data: &[u8]) -> (digest: [u8; 32])
    ensures
        digest@ == sha256_digest(data@),
{
    <rs_merkle::algorithms::Sha256 as rs_merkle::Hasher>::hash(data)
}

/// The hash of the hash.
pub open spec fn sha256d(data: Seq<u8>) -> Seq<u8> {
    sha256_digest(sha256_digest(data))
}

/// The node above position `i` of a level: the double hash of the pair at
/// `2i` and `2i + 1`, the last node standing in for its missing partner.
pub open spec fn parent_of(level: Seq<Seq<u8>>, i: int) -> Seq<u8> {
    let left = level[2 * i];
    let right = if 2 * i + 1 < level.len() {
        level[2 * i + 1]
    } else {
        left
    };
    sha256d(left + right)
}

/// The level above a level: half as many nodes, rounded up.
pub open spec fn level_above(level: Seq<Seq<u8>>) -> Seq<Seq<u8>> {
    Seq::new(((level.len() + 1) / 2) as nat, |i: int| parent_of(level, i))
}

/// The single node that remains when a level is reduced again and again.
pub open spec fn root_of_level(level: Seq<Seq<u8>>) -> Seq<u8>
    decreases level.len(),
{
    if level.len() <= 1 {
        level[0]
    } else {
        root_of_level(level_above(level))
    }
}

/// The leaves of a transaction list: the double hash of each encoding.
pub open spec fn leaves_of(transactions: Seq<Seq<u8>>) -> Seq<Seq<u8>> {
    Seq::new(transactions.len(), |i: int| sha256d(transactions[i]))
}

/// The Merkle root of an ordered list of encoded transactions.
pub open spec fn merkle_root_of(transactions: Seq<Seq<u8>>) -> Seq<u8> {
    root_of_level(leaves_of(transactions))
}

/// The byte strings that a list of vectors holds.
pub open spec fn byte_views(items: Seq<Vec<u8>>) -> Seq<Seq<u8>> {
    Seq::new(items.len(), |i: int| items[i]@)
}

/// The byte strings that a list of digests holds.
pub open spec fn digest_views(items: Seq<[u8; 32]>) -> Seq<Seq<u8>> {
    Seq::new(items.len(), |i: int| items[i]@)
}

/// SHA-256 applied twice.
pub fn double_hash(data: &[u8]) -> (digest: [u8; 32])
    ensures
        digest@ == sha256d(data@),
{
    let first = sha256(data);
    sha256(first.as_slice())
}

fn join(left: &[u8; 32], right: &[u8; 32]) -> (joined: Vec<u8>)
    ensures
        joined@ == left@ + right@,
{
    let mut joined: Vec<u8> = Vec::new();
    let mut i: usize = 0;
    while i < 32
        invariant
            i <= 32,
            joined@ == left@.subrange(0, i as int),
        decreases 32 - i,
    {
        joined.push(left[i]);
        assert(joined@ =~= left@.subrange(0, i + 1));
        i = i + 1;
    }
    assert(joined@ =~= left@);
    let mut j: usize = 0;
    while j < 32
        invariant
            j <= 32,
            joined@ == left@ + right@.subrange(0, j as int),
        decreases 32 - j,
    {
        joined.push(right[j]);
        assert(joined@ =~= left@ + right@.subrange(0, j + 1));
        j = j + 1;
    }
    assert(joined@ =~= left@ + right@);
    joined
}

fn reduce(level: &Vec<[u8; 32]>) -> (above: Vec<[u8; 32]>)
    ensures
        above@.len() == (level@.len() + 1) / 2,
        digest_views(above@) == level_above(digest_views(level@)),
{
    let n: usize = level.len();
    let half: usize = n / 2 + n % 2;
    let mut above: Vec<[u8; 32]> = Vec::new();
    let mut i: usize = 0;
    while i < half
        invariant
            n == level@.len(),
            half == (n + 1) / 2,
            i <= half,
            above@.len() == i,
            forall|k: int|
                0 <= k < i ==> (#[trigger] above@[k])@ == parent_of(digest_views(level@), k),
        decreases half - i,
    {
        let left: &[u8; 32] = &level[2 * i];
        let right: &[u8; 32] = if 2 * i + 1 < n {
            &level[2 * i + 1]
        } else {
            left
        };
        let joined = join(left, right);
        let parent = double_hash(joined.as_slice());
        above.push(parent);
        i = i + 1;
    }
    assert(digest_views(above@) =~= level_above(digest_views(level@)));
    above
}

/// The root of a list that holds at least one transaction.
pub fn root_of_nonempty(transactions: &Vec<Vec<u8>>) -> (root: [u8; 32])
    requires
        transactions@.len() > 0,
    ensures
        root@ == merkle_root_of(byte_views(transactions@)),
{
    let mut level: Vec<[u8; 32]> = Vec::new();
    let mut i: usize = 0;
    while i < transactions.len()
        invariant
            i <= transactions@.len(),
            level@.len() == i,
            forall|k: int|
                0 <= k < i ==> (#[trigger] level@[k])@ == sha256d(transactions@[k]@),
        decreases transactions@.len() - i,
    {
        let leaf = double_hash(transactions[i].as_slice());
        level.push(leaf);
        i = i + 1;
    }
    assert(digest_views(level@) =~= leaves_of(byte_views(transactions@)));
    while level.len() > 1
        invariant
            level@.len() >= 1,
            root_of_level(digest_views(level@)) == merkle_root_of(byte_views(transactions@)),
        decreases level@.len(),
    {
        let above = reduce(&level);
        level = above;
    }
    level[0]
}

/// The Merkle root over an ordered list of encoded transactions, the
/// coinbase first: each is double-hashed into a leaf, and each level pairs
/// its nodes from the left, an odd last node being paired with itself.
/// An empty list has no root.
pub fn merkle_root(transactions: &Vec<Vec<u8>>) -> (root: Result<[u8; 32], MinerError>)
    ensures
        transactions@.len() == 0 ==> root == Err::<[u8; 32], MinerError>(
            MinerError::EmptyTransactionSet,
        ),
        transactions@.len() > 0 ==> root is Ok && root->Ok_0@ == merkle_root_of(
            byte_views(transactions@),
        ),
{
    if transactions.len() == 0 {
        return Err(MinerError::EmptyTransactionSet);
    }
    Ok(root_of_nonempty(transactions))
}

} // verus!
