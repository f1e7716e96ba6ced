use tendermint_lite::error::Error;
use tendermint_lite::header::{Header, Version};
use tendermint_lite::store::{MemStore, SignedHeader, TrustedState};
use tendermint_lite::time::Time;

fn store_digest(byte: u8) -> tendermint_lite::hash::Hash {
    tendermint_lite::hash::Hash::Sha256([byte; 32])
}

fn header_at(height: u64) -> Header {
    Header {
        version: Version { block: 10, app: 1 },
        chain_id: String::from("store-chain"),
        height,
        time: Time { seconds: 1_600_000_000 + height as i64, nanos: 0 },
        num_txs: 0,
        total_txs: height,
        last_block_id: None,
        last_commit_hash: None,
        data_hash: None,
        validators_hash: store_digest(1),
        next_validators_hash: store_digest(2),
        consensus_hash: store_digest(3),
        app_hash: None,
        last_results_hash: None,
        evidence_hash: None,
        proposer_address: tendermint_lite::account::Id([9; 20]),
    }
}

fn state_at(height: u64, commit: &[u8]) -> TrustedState {
    TrustedState::new(SignedHeader::new(header_at(height), commit.to_vec()), store_digest(2))
}

#[test]
fn insert_two_heights_and_look_them_up() {
    let mut store = MemStore::new();
    assert_eq!(store.add(state_at(100, b"commit-100")), Ok(()));
    assert_eq!(store.add(state_at(101, b"commit-101")), Ok(()));
    assert_eq!(store.get(0), Ok(state_at(101, b"commit-101")));
    assert_eq!(store.get(100), Ok(state_at(100, b"commit-100")));
    assert_eq!(store.get(101), Ok(state_at(101, b"commit-101")));
    assert_eq!(store.get(50), Err(Error::NotFound(50)));
}

#[test]
fn a_state_that_was_added_comes_back_as_it_was() {
    let mut store = MemStore::new();
    let state = state_at(7, b"some commit bytes");
    store.add(state.clone()).unwrap();
    let found = store.get(7).unwrap();
    assert_eq!(found, state);
    assert_eq!(found.last_header().header(), &header_at(7));
    assert_eq!(found.last_header().commit(), &b"some commit bytes".to_vec());
    assert_eq!(found.validators_hash(), store_digest(2));
}

#[test]
fn the_empty_store_has_no_latest_state() {
    let store = MemStore::new();
    assert_eq!(store.get(0), Err(Error::NotFound(0)));
    assert_eq!(MemStore::default().get(0), Err(Error::NotFound(0)));
}

#[test]
fn a_height_that_was_never_added_is_not_found() {
    let mut store = MemStore::new();
    assert_eq!(store.get(5), Err(Error::NotFound(5)));
    store.add(state_at(4, b"c")).unwrap();
    store.add(state_at(6, b"c")).unwrap();
    assert_eq!(store.get(5), Err(Error::NotFound(5)));
    assert_eq!(store.get(u64::MAX), Err(Error::NotFound(u64::MAX)));
}

#[test]
fn the_latest_height_is_the_one_added_last() {
    let mut store = MemStore::new();
    store.add(state_at(10, b"ten")).unwrap();
    store.add(state_at(3, b"three")).unwrap();
    assert_eq!(store.get(0), Ok(state_at(3, b"three")));
    assert_eq!(store.get(10), Ok(state_at(10, b"ten")));
}

#[test]
fn adding_at_a_height_again_replaces_the_state() {
    let mut store = MemStore::new();
    store.add(state_at(8, b"first")).unwrap();
    store.add(state_at(8, b"second")).unwrap();
    assert_eq!(store.get(8), Ok(state_at(8, b"second")));
    assert_eq!(store.get(0), Ok(state_at(8, b"second")));
}

#[test]
fn a_state_at_height_zero_is_found_while_it_is_the_latest() {
    let mut store = MemStore::new();
    store.add(state_at(0, b"zero")).unwrap();
    assert_eq!(store.get(0), Ok(state_at(0, b"zero")));
    store.add(state_at(1, b"one")).unwrap();
    assert_eq!(store.get(0), Ok(state_at(1, b"one")));
}

#[test]
fn independent_stores_do_not_share_states() {
    let mut a = MemStore::new();
    let b = MemStore::new();
    a.add(state_at(1, b"x")).unwrap();
    assert_eq!(b.get(1), Err(Error::NotFound(1)));
    assert_eq!(a.get(1), Ok(state_at(1, b"x")));
}
