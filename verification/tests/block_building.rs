use pickaxe::coinbase::{block_merkle_root, block_transactions, create_coinbase};
use pickaxe::error::MinerError;
use pickaxe::header::{assemble, hash_with_nonce, BlockTemplate, HeaderTemplate};
use pickaxe::merkle::{double_hash, merkle_root};
use pickaxe::target::{decode_target, hash_below_target, Target256};

fn unhex(text: &str) -> Vec<u8> {
    hex::decode(text).expect("test vector is hex")
}

fn unhex32(text: &str) -> [u8; 32] {
    let bytes: Vec<u8> = unhex(text);
    let mut out: [u8; 32] = [0u8; 32];
    out.copy_from_slice(&bytes);
    out
}

fn payout_hash() -> Vec<u8> {
    unhex("93ce48570b55c42c2af816aeaba06cfee1224fae")
}

fn first_tx() -> Vec<u8> {
    unhex("010000000111111111111111111111111111111111111111111111111111111111111111110000000000ffffffff01e8030000000000000000000000")
}

fn second_tx() -> Vec<u8> {
    unhex("010000000122222222222222222222222222222222222222222222222222222222222222220100000000ffffffff01d0070000000000000000000000")
}

const COINBASE_HEX: &str = "01000000010000000000000000000000000000000000000000000000000000000000000000ffffffff120360ae0a0d7069636b6178652d6d696e6572ffffffff0140be4025000000001976a91493ce48570b55c42c2af816aeaba06cfee1224fae88ac00000000";

fn target_bytes(bits: u32) -> [u8; 32] {
    decode_target(bits).expect("bits fit").bytes
}

#[test]
fn decode_target_known_values() {
    assert_eq!(
        target_bytes(0x1d00ffff),
        unhex32("00000000ffff0000000000000000000000000000000000000000000000000000")
    );
    assert_eq!(
        target_bytes(0x207fffff),
        unhex32("7fffff0000000000000000000000000000000000000000000000000000000000")
    );
    assert_eq!(
        target_bytes(0x2000ffff),
        unhex32("00ffff0000000000000000000000000000000000000000000000000000000000")
    );
    assert_eq!(
        target_bytes(0x03123456),
        unhex32("0000000000000000000000000000000000000000000000000000000000123456")
    );
    assert_eq!(
        target_bytes(0x02123456),
        unhex32("0000000000000000000000000000000000000000000000000000000000001234")
    );
    assert_eq!(
        target_bytes(0x01123456),
        unhex32("0000000000000000000000000000000000000000000000000000000000000012")
    );
    assert_eq!(target_bytes(0x00123456), [0u8; 32]);
    assert_eq!(target_bytes(0), [0u8; 32]);
}

#[test]
fn decode_target_widest_values_that_fit() {
    assert_eq!(
        target_bytes(0x2100ffff),
        unhex32("ffff000000000000000000000000000000000000000000000000000000000000")
    );
    assert_eq!(
        target_bytes(0x22000001),
        unhex32("0100000000000000000000000000000000000000000000000000000000000000")
    );
    assert_eq!(
        target_bytes(0x207fffff)[0],
        0x7f
    );
}

#[test]
fn decode_target_rejects_overflow() {
    assert_eq!(decode_target(0x21010000).err(), Some(MinerError::MalformedTarget));
    assert_eq!(decode_target(0x2200ffff).err(), Some(MinerError::MalformedTarget));
    assert_eq!(decode_target(0x23000001).err(), Some(MinerError::MalformedTarget));
    assert_eq!(decode_target(0xff7fffff).err(), Some(MinerError::MalformedTarget));
}

#[test]
fn decode_target_zero_mantissa_never_overflows() {
    assert_eq!(target_bytes(0xff000000), [0u8; 32]);
    assert_eq!(target_bytes(0x23000000), [0u8; 32]);
}

#[test]
fn decode_target_sign_bit_gives_zero() {
    assert_eq!(target_bytes(0x1d800000), [0u8; 32]);
    assert_eq!(target_bytes(0x04923456), [0u8; 32]);
    assert_eq!(target_bytes(0xffffffff), [0u8; 32]);
    assert_eq!(target_bytes(0x03800000), [0u8; 32]);
}

#[test]
fn decode_target_same_bits_same_value() {
    let bits: [u32; 5] = [0x1d00ffff, 0x207fffff, 0x03123456, 0x1d800000, 0x2100ffff];
    for b in bits {
        assert_eq!(target_bytes(b), target_bytes(b));
    }
    assert_eq!(decode_target(0x23000001).err(), decode_target(0x23000001).err());
}

#[test]
fn zero_hash_is_below_any_positive_target() {
    let zero: [u8; 32] = [0u8; 32];
    let mut smallest: [u8; 32] = [0u8; 32];
    smallest[31] = 1;
    assert!(hash_below_target(&zero, &Target256 { bytes: smallest }));
    assert!(hash_below_target(&zero, &Target256 { bytes: [0xffu8; 32] }));
    assert!(hash_below_target(&zero, &decode_target(0x1d00ffff).unwrap()));
    assert!(!hash_below_target(&zero, &Target256 { bytes: zero }));
}

#[test]
fn full_hash_is_below_no_target() {
    let full: [u8; 32] = [0xffu8; 32];
    assert!(!hash_below_target(&full, &Target256 { bytes: [0xffu8; 32] }));
    assert!(!hash_below_target(&full, &Target256 { bytes: [0u8; 32] }));
    assert!(!hash_below_target(&full, &decode_target(0x2100ffff).unwrap()));
}

#[test]
fn hash_below_target_is_strict_and_big_endian() {
    let target: Target256 = decode_target(0x2000ffff).unwrap();
    assert!(!hash_below_target(&target.bytes, &target));
    let mut just_below: [u8; 32] = target.bytes;
    just_below[2] = 0xfe;
    just_below[31] = 0xff;
    assert!(hash_below_target(&just_below, &target));
    let mut just_above: [u8; 32] = target.bytes;
    just_above[31] = 1;
    assert!(!hash_below_target(&just_above, &target));
    let mut low_byte_first: [u8; 32] = [0u8; 32];
    low_byte_first[0] = 1;
    let mut high_byte_last: [u8; 32] = [0u8; 32];
    high_byte_last[31] = 0xff;
    assert!(hash_below_target(&high_byte_last, &Target256 { bytes: low_byte_first }));
    assert!(!hash_below_target(&low_byte_first, &Target256 { bytes: high_byte_last }));
}

#[test]
fn double_hash_known_values() {
    assert_eq!(
        double_hash(b"abc"),
        unhex32("4f8b42c22dd3729b519ba6f68d2da7cc5b2d606d05daed5ad5128cc03e6c6358")
    );
    assert_eq!(
        double_hash(b""),
        unhex32("5df6e0e2761359d30a8275058e299fcc0381534545f55cf43e41983f5d4c9456")
    );
}

#[test]
fn merkle_root_of_three_transactions() {
    let txs: Vec<Vec<u8>> = vec![unhex(COINBASE_HEX), first_tx(), second_tx()];
    assert_eq!(
        merkle_root(&txs),
        Ok(unhex32("bbf2c8e1e17eae8df91b2bc26c7f49fc08e0830a63d271d6ec4d013df2ec96bb"))
    );
}

#[test]
fn merkle_root_of_one_and_two_transactions() {
    let one: Vec<Vec<u8>> = vec![unhex(COINBASE_HEX)];
    assert_eq!(
        merkle_root(&one),
        Ok(unhex32("68c986fd862e77e09cb7a716dd5e6574545c345ae79d02c7663932914d3d3f24"))
    );
    assert_eq!(merkle_root(&one), Ok(double_hash(&one[0])));
    let two: Vec<Vec<u8>> = vec![unhex(COINBASE_HEX), first_tx()];
    assert_eq!(
        merkle_root(&two),
        Ok(unhex32("995073db80e546c4641ea69104e6f69da60b2c2384693968e166f06f1edd3b3e"))
    );
}

#[test]
fn merkle_root_pairs_odd_last_node_with_itself() {
    let three: Vec<Vec<u8>> = vec![unhex(COINBASE_HEX), first_tx(), second_tx()];
    let four: Vec<Vec<u8>> = vec![unhex(COINBASE_HEX), first_tx(), second_tx(), second_tx()];
    assert_eq!(merkle_root(&three), merkle_root(&four));
}

#[test]
fn merkle_root_depends_on_order() {
    let a: Vec<Vec<u8>> = vec![unhex(COINBASE_HEX), first_tx(), second_tx()];
    let b: Vec<Vec<u8>> = vec![unhex(COINBASE_HEX), second_tx(), first_tx()];
    assert_ne!(merkle_root(&a), merkle_root(&b));
}

#[test]
fn merkle_root_of_nothing_is_an_error() {
    let none: Vec<Vec<u8>> = Vec::new();
    assert_eq!(merkle_root(&none), Err(MinerError::EmptyTransactionSet));
}

#[test]
fn coinbase_scripts_for_height_700000() {
    let hash: Vec<u8> = payout_hash();
    let tx = create_coinbase(&hash, 700000, 625000000, b"pickaxe-miner").unwrap();
    assert_eq!(tx.script_pubkey, unhex("76a91493ce48570b55c42c2af816aeaba06cfee1224fae88ac"));
    assert_eq!(tx.script_sig, unhex("0360ae0a0d7069636b6178652d6d696e6572"));
    assert_eq!(tx.value, 625000000);
    assert_eq!(tx.version, 1);
    assert_eq!(tx.lock_time, 0);
    assert_eq!(tx.sequence, 0xffff_ffff);
    assert_eq!(tx.prev_vout, 0xffff_ffff);
    assert_eq!(tx.prev_txid, [0u8; 32]);
}

#[test]
fn coinbase_is_the_same_for_the_same_inputs() {
    let hash: Vec<u8> = payout_hash();
    let a = create_coinbase(&hash, 700000, 625000000, b"pickaxe-miner").unwrap();
    let b = create_coinbase(&hash, 700000, 625000000, b"pickaxe-miner").unwrap();
    assert_eq!(a.encode(), b.encode());
    assert_eq!(a.script_sig, b.script_sig);
    assert_eq!(a.script_pubkey, b.script_pubkey);
}

#[test]
fn coinbase_encoding_is_the_consensus_encoding() {
    let hash: Vec<u8> = payout_hash();
    let tx = create_coinbase(&hash, 700000, 625000000, b"pickaxe-miner").unwrap();
    assert_eq!(tx.encode(), unhex(COINBASE_HEX));
}

#[test]
fn coinbase_refuses_a_payout_hash_of_wrong_length() {
    let short: Vec<u8> = vec![0u8; 19];
    let long: Vec<u8> = vec![0u8; 21];
    let empty: Vec<u8> = Vec::new();
    assert_eq!(create_coinbase(&short, 1, 1, b"x").err(), Some(MinerError::InvalidScript));
    assert_eq!(create_coinbase(&long, 1, 1, b"x").err(), Some(MinerError::InvalidScript));
    assert_eq!(create_coinbase(&empty, 1, 1, b"x").err(), Some(MinerError::InvalidScript));
}

#[test]
fn coinbase_height_is_minimally_encoded() {
    let hash: Vec<u8> = payout_hash();
    let sig = |height: u64| create_coinbase(&hash, height, 0, b"").unwrap().script_sig;
    assert_eq!(sig(0), vec![0u8, 0]);
    assert_eq!(sig(1), vec![1u8, 1, 0]);
    assert_eq!(sig(127), vec![1u8, 127, 0]);
    assert_eq!(sig(128), vec![2u8, 128, 0, 0]);
    assert_eq!(sig(255), vec![2u8, 255, 0, 0]);
    assert_eq!(sig(256), vec![2u8, 0, 1, 0]);
    assert_eq!(sig(32768), vec![3u8, 0, 128, 0, 0]);
    assert_eq!(sig(u64::MAX), vec![9u8, 255, 255, 255, 255, 255, 255, 255, 255, 0, 0]);
}

#[test]
fn coinbase_long_tag_uses_a_wider_push() {
    let hash: Vec<u8> = payout_hash();
    let tag75: Vec<u8> = vec![7u8; 75];
    let tag76: Vec<u8> = vec![7u8; 76];
    let tag300: Vec<u8> = vec![7u8; 300];
    let s75 = create_coinbase(&hash, 0, 0, &tag75).unwrap().script_sig;
    assert_eq!(s75.len(), 1 + 1 + 75);
    assert_eq!(s75[1], 75);
    let s76 = create_coinbase(&hash, 0, 0, &tag76).unwrap().script_sig;
    assert_eq!(&s76[1..3], &[0x4cu8, 76][..]);
    assert_eq!(s76.len(), 1 + 2 + 76);
    let s300 = create_coinbase(&hash, 0, 0, &tag300).unwrap().script_sig;
    assert_eq!(&s300[1..4], &[0x4du8, 0x2c, 0x01][..]);
    assert_eq!(s300.len(), 1 + 3 + 300);
}

#[test]
fn block_transactions_put_the_coinbase_first() {
    let hash: Vec<u8> = payout_hash();
    let tx = create_coinbase(&hash, 700000, 625000000, b"pickaxe-miner").unwrap();
    let others: Vec<Vec<u8>> = vec![first_tx(), second_tx()];
    let all = block_transactions(&tx, &others);
    assert_eq!(all, vec![unhex(COINBASE_HEX), first_tx(), second_tx()]);
    assert_eq!(
        block_merkle_root(&tx, &others),
        unhex32("bbf2c8e1e17eae8df91b2bc26c7f49fc08e0830a63d271d6ec4d013df2ec96bb")
    );
    let alone: Vec<Vec<u8>> = Vec::new();
    assert_eq!(
        block_merkle_root(&tx, &alone),
        unhex32("68c986fd862e77e09cb7a716dd5e6574545c345ae79d02c7663932914d3d3f24")
    );
}

fn sample_template() -> BlockTemplate {
    BlockTemplate {
        version: 0x2000_0000,
        prev_blockhash: unhex32("6f5e4d3c2b1a09f8e7d6c5b4a39281706f5e4d3c2b1a02000000000000000000"),
        bits: 0x2000ffff,
        nonce_bound: 1000,
        curtime: 1_700_000_000,
        mintime: 1_699_990_000,
        height: 700000,
        coinbase_value: 625000000,
        transactions: vec![first_tx(), second_tx()],
    }
}

#[test]
fn assemble_copies_fields_and_clamps_the_time() {
    let template: BlockTemplate = sample_template();
    let root: [u8; 32] = [9u8; 32];
    let late = assemble(&template, root, 1_700_000_123).unwrap();
    assert_eq!(late.time, 1_700_000_123);
    assert_eq!(late.version, 0x2000_0000);
    assert_eq!(late.bits, 0x2000ffff);
    assert_eq!(late.prev_blockhash, template.prev_blockhash);
    assert_eq!(late.merkle_root, root);
    let early = assemble(&template, root, 5).unwrap();
    assert_eq!(early.time, 1_699_990_000);
    let exact = assemble(&template, root, 1_699_990_000).unwrap();
    assert_eq!(exact.time, 1_699_990_000);
}

#[test]
fn assemble_refuses_a_time_beyond_32_bits() {
    let mut template: BlockTemplate = sample_template();
    let root: [u8; 32] = [9u8; 32];
    assert_eq!(
        assemble(&template, root, 0x1_0000_0000).err(),
        Some(MinerError::TimeBeforeMinimum)
    );
    assert_eq!(assemble(&template, root, 0xffff_ffff).unwrap().time, 0xffff_ffff);
    template.mintime = 0x1_0000_0000;
    assert_eq!(assemble(&template, root, 5).err(), Some(MinerError::TimeBeforeMinimum));
}

#[test]
fn header_hash_of_the_first_block() {
    let mut root: [u8; 32] =
        unhex32("4a5e1e4baab89f3a32518a88c31bc87f618f76673e2cc77ab2127b7afdeda33b");
    root.reverse();
    let header = HeaderTemplate {
        version: 1,
        prev_blockhash: [0u8; 32],
        merkle_root: root,
        time: 1231006505,
        bits: 0x1d00ffff,
    };
    assert_eq!(
        hash_with_nonce(&header, 2083236893),
        unhex32("6fe28c0ab6f1b372c1a6a246ae63f74f931e8365e15a089c68d6190000000000")
    );
    assert_ne!(hash_with_nonce(&header, 0), hash_with_nonce(&header, 1));
}

#[test]
fn error_messages_differ() {
    let all: [MinerError; 8] = [
        MinerError::MalformedTarget,
        MinerError::InvalidScript,
        MinerError::EmptyTransactionSet,
        MinerError::TimeBeforeMinimum,
        MinerError::WorkerFault,
        MinerError::NoSolutionInRange,
        MinerError::TemplateFetchFailed,
        MinerError::MalformedTransactionEncoding,
    ];
    for (i, a) in all.iter().enumerate() {
        assert!(!a.message().is_empty());
        for (j, b) in all.iter().enumerate() {
            assert_eq!(i == j, a.message() == b.message());
        }
    }
    assert_eq!(MinerError::NoSolutionInRange.message(), "nonce range exhausted without a solution");
}
