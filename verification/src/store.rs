//! Trusted states and the store that keeps them by height.

use crate::block::Height;
use crate::error::Error;
use crate::header::{Header, HeaderView};
use std::collections::HashMap;
use vstd::prelude::*;

verus! {

broadcast use vstd::std_specs::hash::group_hash_axioms;

/// A header with the commit that signs it. The commit is carried as the bytes
/// it came in: this library keeps it and hands it back, it does not check
/// signatures.
#[derive(Debug, PartialEq, Eq)]
pub struct SignedHeader {
    header: Header,
    commit: Vec<u8>,
}

/// What a signed header holds.
pub struct SignedHeaderView {
    pub header: HeaderView,
    pub commit: Seq<u8>,
}

impl View for SignedHeader {
    type V = SignedHeaderView;

    closed spec fn view(&self) -> SignedHeaderView {
        SignedHeaderView { header: self.header@, commit: self.commit@ }
    }
}

impl Clone for SignedHeader {
    fn clone(&self) -> (r: Self)
        ensures
            r@ == self@,
    {
        SignedHeader { header: self.header.clone(), commit: self.commit.clone() }
    }
}

impl SignedHeader {
    /// Puts a header and its commit together.
    pub fn new(header: Header, commit: Vec<u8>) -> (r: SignedHeader)
        ensures
            r@ == (SignedHeaderView { header: header@, commit: commit@ }),
    {
        SignedHeader { header, commit }
    }

    /// The header.
    pub fn header(&self) -> (h: &Header)
        ensures
            h@ == self@.header,
    {
        &self.header
    }

    /// The commit that signs the header.
    pub fn commit(&self) -> (c: &Vec<u8>)
        ensures
            c@ == self@.commit,
    {
        &self.commit
    }
}

/// A state that a light client trusts: the last header that was verified,
/// with its commit, and the hash of the validators that are to sign the next
/// header. It is never changed once it is made: a new height gives a new
/// state.
#[derive(Debug, PartialEq, Eq)]
pub struct TrustedState {
    last_header: SignedHeader,
    validators_hash: crate::hash::Hash,
}

/// What a trusted state holds.
pub struct TrustedStateView {
    pub last_header: SignedHeaderView,
    pub validators_hash: crate::hash::Hash,
}

impl TrustedStateView {
    /// The height of the state: that of its last header.
    pub open spec fn height(self) -> Height {
        self.last_header.header.height
    }
}

impl View for TrustedState {
    type V = TrustedStateView;

    closed spec fn view(&self) -> TrustedStateView {
        TrustedStateView { last_header: self.last_header@, validators_hash: self.validators_hash }
    }
}

impl Clone for TrustedState {
    fn clone(&self) -> (r: Self)
        ensures
            r@ == self@,
    {
        TrustedState {
            last_header: self.last_header.clone(),
            validators_hash: self.validators_hash,
        }
    }
}

impl TrustedState {
    /// Makes a trusted state of a verified header and the hash of the
    /// validators of the next height.
    pub fn new(last_header: SignedHeader, validators_hash: crate::hash::Hash) -> (r: TrustedState)
        ensures
            r@ == (TrustedStateView { last_header: last_header@, validators_hash }),
    {
        TrustedState { last_header, validators_hash }
    }

    /// The last header that was verified, with its commit.
    pub fn last_header(&self) -> (h: &SignedHeader)
        ensures
            h@ == self@.last_header,
    {
        &self.last_header
    }

    /// The hash of the validators that are to sign the next header.
    pub fn validators_hash(&self) -> (h: crate::hash::Hash)
        ensures
            h == self@.validators_hash,
    {
        self.validators_hash
    }
}

/// What a store holds: the trusted states by height, and the height that was
/// added last.
pub struct StoreState {
    /// The height of the state that was added last, `0` before the first.
    pub height: Height,
    /// The states, each under the height of its last header.
    pub states: Map<Height, TrustedStateView>,
}

impl StoreState {
    /// The store that holds nothing.
    pub open spec fn empty() -> StoreState {
        StoreState { height: 0, states: Map::empty() }
    }

    /// The store after a state was added: the state stands under its height,
    /// in place of any that stood there, and its height is the latest.
    pub open spec fn add(self, trusted: TrustedStateView) -> StoreState {
        StoreState {
            height: trusted.height(),
            states: self.states.insert(trusted.height(), trusted),
        }
    }

    /// The height that a lookup of `h` goes to: the latest height for `0`,
    /// else `h` itself.
    pub open spec fn resolve(self, h: Height) -> Height {
        if h == 0 {
            self.height
        } else {
            h
        }
    }

    /// What a lookup of `h` gives: the state under the resolved height, or
    /// the error that names the resolved height.
    pub open spec fn get(self, h: Height) -> Result<TrustedStateView, Error> {
        let height = self.resolve(h);
        if self.states.contains_key(height) {
            Ok(self.states[height])
        } else {
            Err(Error::NotFound(height))
        }
    }

    /// What holds of every store that was made by adding states to the empty
    /// one: it holds finitely many states, each under its own height, and
    /// the latest height is `0` in the empty store and the height of a state
    /// in any other.
    pub open spec fn wf(self) -> bool {
        &&& self.states.dom().finite()
        &&& forall|h: u64| #[trigger]
            self.states.contains_key(h) ==> self.states[h].height() == h
        &&& if self.states.dom() =~= Set::empty() {
            self.height == 0
        } else {
            self.states.contains_key(self.height)
        }
    }
}

/// The store that the empty store becomes when states are added in order.
pub open spec fn after_adds(added: Seq<TrustedStateView>) -> StoreState
    decreases added.len(),
{
    if added.len() == 0 {
        StoreState::empty()
    } else {
        after_adds(added.drop_last()).add(added.last())
    }
}

/// A state that was added is found again under its height, as it was added.
pub proof fn lemma_get_after_add(store: StoreState, trusted: TrustedStateView)
    ensures
        store.add(trusted).get(trusted.height()) == Ok::<TrustedStateView, Error>(trusted),
{
}

/// After a state and then one of a greater height were added, a lookup of
/// `0` gives the second. A lookup of the first height still gives the first,
/// unless that height is `0`: a lookup of `0` goes to the latest height, so
/// it gives the second.
pub proof fn lemma_latest_resolution(
    store: StoreState,
    first: TrustedStateView,
    second: TrustedStateView,
)
    requires
        second.height() > first.height(),
    ensures
        store.add(first).add(second).get(0) == Ok::<TrustedStateView, Error>(second),
        first.height() != 0 ==> store.add(first).add(second).get(first.height()) == Ok::<
            TrustedStateView,
            Error,
        >(first),
        first.height() == 0 ==> store.add(first).add(second).get(first.height()) == Ok::<
            TrustedStateView,
            Error,
        >(second),
{
}

/// Every store that was made by adding states to the empty one is well
/// formed, and holds a state at a height exactly where one of that height
/// was added.
pub proof fn lemma_after_adds(added: Seq<TrustedStateView>)
    ensures
        after_adds(added).wf(),
        forall|h: u64| #[trigger]
            after_adds(added).states.contains_key(h) <==> exists|i: int|
                0 <= i < added.len() && (#[trigger] added[i]).height() == h,
        added.len() > 0 ==> after_adds(added).height == added.last().height(),
    decreases added.len(),
{
    if added.len() > 0 {
        let before = added.drop_last();
        lemma_after_adds(before);
        let store = after_adds(added);
        assert(store.states.contains_key(added.last().height()));
        assert forall|h: u64| #[trigger] store.states.contains_key(h) implies exists|i: int|
            0 <= i < added.len() && (#[trigger] added[i]).height() == h by {
            if h == added.last().height() {
                assert(added[added.len() - 1].height() == h);
            } else {
                assert(after_adds(before).states.contains_key(h));
                let i = choose|i: int| 0 <= i < before.len() && (#[trigger] before[i]).height() == h;
                assert(added[i] == before[i]);
            }
        }
        assert forall|h: u64|
            (exists|i: int| 0 <= i < added.len() && (#[trigger] added[i]).height() == h)
            implies #[trigger] store.states.contains_key(h) by {
            let i = choose|i: int| 0 <= i < added.len() && (#[trigger] added[i]).height() == h;
            if i < added.len() - 1 {
                assert(before[i] == added[i]);
                assert(after_adds(before).states.contains_key(h));
            }
        }
    } else {
        assert(after_adds(added).states.dom() =~= Set::empty());
    }
}

/// A lookup of a height other than `0` at which no state was ever added
/// fails, and the error names that height. A lookup of `0` in the empty
/// store fails, and the error names `0`.
pub proof fn lemma_missing_height(added: Seq<TrustedStateView>, h: u64)
    requires
        h != 0,
        forall|i: int| 0 <= i < added.len() ==> (#[trigger] added[i]).height() != h,
    ensures
        after_adds(added).get(h) == Err::<TrustedStateView, Error>(Error::NotFound(h)),
        StoreState::empty().get(0) == Err::<TrustedStateView, Error>(Error::NotFound(0)),
{
    lemma_after_adds(added);
}

/// A lookup of `0` in a store that is not empty gives the state that was
/// added last.
pub proof fn lemma_latest_after_adds(added: Seq<TrustedStateView>)
    requires
        added.len() > 0,
    ensures
        after_adds(added).get(0) == Ok::<TrustedStateView, Error>(added.last()),
{
}

/// A store of trusted states in memory, by height.
pub struct MemStore {
    height: Height,
    store: HashMap<Height, TrustedState>,
}

impl View for MemStore {
    type V = StoreState;

    closed spec fn view(&self) -> StoreState {
        StoreState { height: self.height, states: self.store@.map_values(|s: TrustedState| s@) }
    }
}

impl MemStore {
    /// Makes a store that holds nothing.
    pub fn new() -> (r: MemStore)
        ensures
            r@ == StoreState::empty(),
            r@.wf(),
    {
        let r = MemStore { height: 0, store: HashMap::new() };
        assert(r@.states =~= Map::empty());
        r
    }

    /// Adds a trusted state under the height of its last header, in place of
    /// any state that stood there, and makes that height the latest. It
    /// always succeeds.
    pub fn add(&mut self, trusted: TrustedState) -> (r: Result<(), Error>)
        ensures
            r == Ok::<(), Error>(()),
            final(self)@ == old(self)@.add(trusted@),
            old(self)@.wf() ==> final(self)@.wf(),
    {
        let height = trusted.last_header().header().height();
        self.height = height;
        self.store.insert(height, trusted);
        proof {
            assert(self@.states =~= old(self)@.add(trusted@).states);
            if old(self)@.wf() {
                assert(self@.states.contains_key(height));
                assert(!(self@.states.dom() =~= Set::empty()));
            }
        }
        Ok(())
    }

    /// Looks a trusted state up: the one that was added last for `0`, else
    /// the one at height `h`. Where the store holds none at that height, the
    /// error names the height that was looked up.
    pub fn get(&self, h: Height) -> (r: Result<TrustedState, Error>)
        ensures
            match r {
                Ok(trusted) => self@.get(h) == Ok::<TrustedStateView, Error>(trusted@),
                Err(e) => self@.get(h) == Err::<TrustedStateView, Error>(e),
            },
    {
        let mut height = h;
        if h == 0 {
            height = self.height
        }
        match self.store.get(&height) {
            Some(s) => Ok(s.clone()),
            None => Err(Error::NotFound(height)),
        }
    }
}

impl Default for MemStore {
    fn default() -> (r: MemStore)
        ensures
            r@ == StoreState::empty(),
    {
        MemStore::new()
    }
}

} // verus!
