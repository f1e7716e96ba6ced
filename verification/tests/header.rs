use sha2::{Digest, Sha256};
use tendermint_lite::block::{Id, PartSetHeader};
use tendermint_lite::error::Error;
use tendermint_lite::header::{Header, Version};
use tendermint_lite::merkle::simple_hash_from_byte_slices;
use tendermint_lite::time::Time;

fn header_hex(bytes: &[u8]) -> String {
    let mut out = String::new();
    for b in bytes {
        out.push_str(&format!("{:02x}", b));
    }
    out
}

fn digest_of(byte: u8) -> tendermint_lite::hash::Hash {
    tendermint_lite::hash::Hash::Sha256([byte; 32])
}

fn sample_header() -> Header {
    Header {
        version: Version { block: 10, app: 0 },
        chain_id: String::from("test-chain"),
        height: 100,
        time: Time { seconds: 1_577_836_800, nanos: 500 },
        num_txs: 2,
        total_txs: 1000,
        last_block_id: Some(Id {
            hash: digest_of(0x11),
            parts: Some(PartSetHeader { total: 1, hash: digest_of(0x22) }),
        }),
        last_commit_hash: Some(digest_of(0x33)),
        data_hash: None,
        validators_hash: digest_of(0x44),
        next_validators_hash: digest_of(0x55),
        consensus_hash: digest_of(0x66),
        app_hash: Some(digest_of(0x77)),
        last_results_hash: None,
        evidence_hash: None,
        proposer_address: tendermint_lite::account::Id([0x88; 20]),
    }
}

fn smallest_header() -> Header {
    Header {
        version: Version { block: 0, app: 0 },
        chain_id: String::new(),
        height: 0,
        time: Time { seconds: 0, nanos: 0 },
        num_txs: 0,
        total_txs: 0,
        last_block_id: None,
        last_commit_hash: None,
        data_hash: None,
        validators_hash: digest_of(0),
        next_validators_hash: digest_of(0),
        consensus_hash: digest_of(0),
        app_hash: None,
        last_results_hash: None,
        evidence_hash: None,
        proposer_address: tendermint_lite::account::Id([0; 20]),
    }
}

fn hash_bytes(header: &Header) -> Vec<u8> {
    header.hash().unwrap().as_bytes().to_vec()
}

#[test]
fn a_header_has_sixteen_leaves_in_the_fixed_order() {
    let leaves = sample_header().byte_slices().unwrap();
    assert_eq!(leaves.len(), 16);
    let hex: Vec<String> = leaves.iter().map(|l| header_hex(l)).collect();
    assert_eq!(hex[0], "080a");
    assert_eq!(hex[1], "0a746573742d636861696e");
    assert_eq!(hex[2], "64");
    assert_eq!(hex[3], "0880c2aff00510f403");
    assert_eq!(hex[4], "02");
    assert_eq!(hex[5], "e807");
    assert_eq!(
        hex[6],
        "0a2011111111111111111111111111111111111111111111111111111111111111111224080112202222222222222222222222222222222222222222222222222222222222222222"
    );
    assert_eq!(hex[7], "203333333333333333333333333333333333333333333333333333333333333333");
    assert_eq!(hex[8], "");
    assert_eq!(hex[9], "204444444444444444444444444444444444444444444444444444444444444444");
    assert_eq!(hex[10], "205555555555555555555555555555555555555555555555555555555555555555");
    assert_eq!(hex[11], "206666666666666666666666666666666666666666666666666666666666666666");
    assert_eq!(hex[12], "207777777777777777777777777777777777777777777777777777777777777777");
    assert_eq!(hex[13], "");
    assert_eq!(hex[14], "");
    assert_eq!(hex[15], "148888888888888888888888888888888888888888");
}

#[test]
fn the_smallest_header_still_has_sixteen_leaves() {
    let leaves = smallest_header().byte_slices().unwrap();
    assert_eq!(leaves.len(), 16);
    let empty: Vec<usize> = vec![0, 3, 6, 7, 8, 12, 13, 14];
    for (i, leaf) in leaves.iter().enumerate() {
        if empty.contains(&i) {
            assert_eq!(leaf.len(), 0);
        } else {
            assert_ne!(leaf.len(), 0);
        }
    }
    assert_eq!(leaves[1], vec![0u8]);
    assert_eq!(leaves[2], vec![0u8]);
    assert_eq!(
        header_hex(&hash_bytes(&smallest_header())),
        "4a01d6c85480f725a781c190be8b51e3e30190dd194ad8cb3f0d780f36f67f75"
    );
}

#[test]
fn the_hash_of_the_sample_header() {
    assert_eq!(
        header_hex(&hash_bytes(&sample_header())),
        "1dc5448270f94b82283e14193ba232e5aeac8cddf74ca7a7b570a45e63146435"
    );
}

#[test]
fn the_hash_is_the_merkle_root_of_the_leaves() {
    let header = sample_header();
    let root = simple_hash_from_byte_slices(header.byte_slices().unwrap());
    assert_eq!(header.hash().unwrap(), tendermint_lite::hash::Hash::Sha256(root));
}

#[test]
fn hashing_twice_gives_the_same_hash() {
    let header = sample_header();
    assert_eq!(header.hash(), header.hash());
    assert_eq!(header.clone().hash(), header.hash());
}

#[test]
fn a_greater_height_changes_the_hash() {
    let header = sample_header();
    let mut next = sample_header();
    next.height = 101;
    assert_ne!(header.hash().unwrap(), next.hash().unwrap());
    assert_eq!(
        header_hex(&hash_bytes(&next)),
        "984937bcb5df99cea7acfef9ee0ddeef90575c96722aeb300a6a958d4374b660"
    );
}

#[test]
fn every_field_changes_the_hash() {
    let base = hash_bytes(&sample_header());
    let mut changed: Vec<Header> = Vec::new();
    for _ in 0..20 {
        changed.push(sample_header());
    }
    changed[0].version.block = 11;
    changed[1].version.app = 1;
    changed[2].chain_id = String::from("test-chain-2");
    changed[3].height = 101;
    changed[4].time.seconds += 1;
    changed[5].time.nanos += 1;
    changed[6].num_txs = 3;
    changed[7].total_txs = 1001;
    changed[8].last_block_id = None;
    changed[9].last_block_id =
        Some(Id { hash: digest_of(0x11), parts: None });
    changed[10].last_block_id = Some(Id {
        hash: digest_of(0x11),
        parts: Some(PartSetHeader { total: 2, hash: digest_of(0x22) }),
    });
    changed[11].last_commit_hash = None;
    changed[12].data_hash = Some(digest_of(0x99));
    changed[13].validators_hash = digest_of(0x45);
    changed[14].next_validators_hash = digest_of(0x56);
    changed[15].consensus_hash = digest_of(0x67);
    changed[16].app_hash = None;
    changed[17].last_results_hash = Some(digest_of(0x01));
    changed[18].evidence_hash = Some(digest_of(0x02));
    changed[19].proposer_address = tendermint_lite::account::Id([0x89; 20]);
    let mut seen: Vec<Vec<u8>> = vec![base];
    for header in &changed {
        let hash = hash_bytes(header);
        assert!(!seen.contains(&hash));
        seen.push(hash);
    }
}

#[test]
fn an_absent_data_hash_differs_from_the_hash_of_nothing() {
    let absent = sample_header();
    let mut present = sample_header();
    let of_nothing: [u8; 32] = Sha256::digest(b"").into();
    present.data_hash = Some(tendermint_lite::hash::Hash::Sha256(of_nothing));
    assert_eq!(absent.byte_slices().unwrap()[8].len(), 0);
    assert_eq!(present.byte_slices().unwrap()[8].len(), 33);
    assert_ne!(absent.hash().unwrap(), present.hash().unwrap());
    assert_eq!(
        header_hex(&hash_bytes(&present)),
        "b336c2ce3a096f5a54669884cf2f33b115aa25c555365a2e3f4a2562872ecb33"
    );
}

#[test]
fn an_absent_hash_differs_from_a_hash_of_zeros() {
    let absent = sample_header();
    let mut zeros = sample_header();
    zeros.evidence_hash = Some(digest_of(0));
    assert_ne!(absent.hash().unwrap(), zeros.hash().unwrap());
}

#[test]
fn a_header_from_before_the_epoch_has_no_hash() {
    let mut header = sample_header();
    header.time = Time { seconds: -1, nanos: 0 };
    assert_eq!(header.hash(), Err(Error::FatalEncoding));
    assert_eq!(header.byte_slices(), Err(Error::FatalEncoding));
}

#[test]
fn a_header_with_bad_nanoseconds_has_no_hash() {
    let mut header = sample_header();
    header.time = Time { seconds: 10, nanos: 1_000_000_000 };
    assert_eq!(header.hash(), Err(Error::FatalEncoding));
}

#[test]
fn the_getters_give_the_fields() {
    let header = sample_header();
    assert_eq!(header.height(), 100);
    assert_eq!(header.bft_time(), Time { seconds: 1_577_836_800, nanos: 500 });
    assert_eq!(header.validators_hash(), digest_of(0x44));
    assert_eq!(header.next_validators_hash(), digest_of(0x55));
}

#[test]
fn a_chain_id_of_many_bytes_gets_its_length_in_bytes() {
    let mut header = sample_header();
    header.chain_id = String::from("é");
    let leaves = header.byte_slices().unwrap();
    assert_eq!(leaves[1], vec![2u8, 0xc3, 0xa9]);
}
