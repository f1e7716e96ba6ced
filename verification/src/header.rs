//! Block headers and their canonical hash.

use crate::amino::{put_varint_field, varint_field};
use crate::encoding::{
    bytes_enc, encode_hash, encode_optional_hash, encode_varint, length_delimited,
    optional_hash_bytes, varint,
};
use crate::error::Error;
use crate::merkle::{
    byte_strings, collision_free, hashed_inputs, lemma_merkle_root_injective, merkle_root,
    simple_hash_from_byte_slices,
};
use crate::time::{time_bytes, Time};
use vstd::prelude::*;
use vstd::string::StringSliceAdditionalSpecFns;
use vstd::utf8::encode_utf8;

verus! {

/// The versions of the protocol that a block was made under.
#[derive(Clone, Copy, Debug, PartialEq, Eq, Structural)]
pub struct Version {
    /// The version of the block protocol.
    pub block: u64,
    /// The version of the application.
    pub app: u64,
}

/// The message encoding of a version: the block version as field 1, the
/// application version as field 2.
pub open spec fn version_bytes(version: Version) -> Seq<u8> {
    varint_field(1, version.block as nat) + varint_field(2, version.app as nat)
}

impl Version {
    /// Encodes the version as a message.
    pub fn bytes_vec(&self) -> (out: Vec<u8>)
        ensures
            out@ == version_bytes(*self),
    {
        let mut out: Vec<u8> = Vec::new();
        put_varint_field(&mut out, 1, self.block);
        put_varint_field(&mut out, 2, self.app);
        out
    }
}

/// The header of a block: what identifies the block and commits to its
/// content, to the block before it and to the state of the chain.
#[derive(Debug, PartialEq, Eq)]
pub struct Header {
    /// The versions of the protocol.
    pub version: Version,
    /// The identifier of the chain.
    pub chain_id: String,
    /// The height of the block.
    pub height: crate::block::Height,
    /// The time of the block.
    pub time: Time,
    /// The number of transactions in the block.
    pub num_txs: u64,
    /// The number of transactions in the chain up to this block.
    pub total_txs: u64,
    /// The identifier of the block before, absent in the first block.
    pub last_block_id: Option<crate::block::Id>,
    /// The hash of the commit of the block before.
    pub last_commit_hash: Option<crate::hash::Hash>,
    /// The Merkle root of the transactions.
    pub data_hash: Option<crate::hash::Hash>,
    /// The hash of the validators of this block.
    pub validators_hash: crate::hash::Hash,
    /// The hash of the validators of the next block.
    pub next_validators_hash: crate::hash::Hash,
    /// The hash of the consensus parameters.
    pub consensus_hash: crate::hash::Hash,
    /// The state of the application after the block before.
    pub app_hash: Option<crate::hash::Hash>,
    /// The root of the results of the transactions of the block before.
    pub last_results_hash: Option<crate::hash::Hash>,
    /// The hash of the evidence in the block.
    pub evidence_hash: Option<crate::hash::Hash>,
    /// The address of the validator that proposed the block.
    pub proposer_address: crate::account::Id,
}

/// What a header holds, the chain identifier as a sequence of characters.
pub struct HeaderView {
    pub version: Version,
    pub chain_id: Seq<char>,
    pub height: u64,
    pub time: Time,
    pub num_txs: u64,
    pub total_txs: u64,
    pub last_block_id: Option<crate::block::Id>,
    pub last_commit_hash: Option<crate::hash::Hash>,
    pub data_hash: Option<crate::hash::Hash>,
    pub validators_hash: crate::hash::Hash,
    pub next_validators_hash: crate::hash::Hash,
    pub consensus_hash: crate::hash::Hash,
    pub app_hash: Option<crate::hash::Hash>,
    pub last_results_hash: Option<crate::hash::Hash>,
    pub evidence_hash: Option<crate::hash::Hash>,
    pub proposer_address: crate::account::Id,
}

impl View for Header {
    type V = HeaderView;

    open spec fn view(&self) -> HeaderView {
        HeaderView {
            version: self.version,
            chain_id: self.chain_id@,
            height: self.height,
            time: self.time,
            num_txs: self.num_txs,
            total_txs: self.total_txs,
            last_block_id: self.last_block_id,
            last_commit_hash: self.last_commit_hash,
            data_hash: self.data_hash,
            validators_hash: self.validators_hash,
            next_validators_hash: self.next_validators_hash,
            consensus_hash: self.consensus_hash,
            app_hash: self.app_hash,
            last_results_hash: self.last_results_hash,
            evidence_hash: self.evidence_hash,
            proposer_address: self.proposer_address,
        }
    }
}

/// The number of leaves that a header is hashed from.
pub const LEAVES: usize = 16;

/// The encoding of an optional block identifier: its message encoding where
/// it is present, no bytes where it is absent.
pub open spec fn optional_block_id_bytes(id: Option<crate::block::Id>) -> Seq<u8> {
    match id {
        Some(id) => crate::block::block_id_bytes(id),
        None => Seq::empty(),
    }
}

impl HeaderView {
    /// The sixteen leaves that the header is hashed from, one for each field,
    /// in the order that is fixed for all headers.
    pub open spec fn leaves(self) -> Seq<Seq<u8>> {
        seq![
            version_bytes(self.version),
            length_delimited(encode_utf8(self.chain_id)),
            varint(self.height as nat),
            time_bytes(self.time),
            varint(self.num_txs as nat),
            varint(self.total_txs as nat),
            optional_block_id_bytes(self.last_block_id),
            optional_hash_bytes(self.last_commit_hash),
            optional_hash_bytes(self.data_hash),
            length_delimited(self.validators_hash.bytes()),
            length_delimited(self.next_validators_hash.bytes()),
            length_delimited(self.consensus_hash.bytes()),
            optional_hash_bytes(self.app_hash),
            optional_hash_bytes(self.last_results_hash),
            optional_hash_bytes(self.evidence_hash),
            length_delimited(self.proposer_address.bytes()),
        ]
    }

    /// The hash of the header: the Merkle root of its leaves.
    pub open spec fn hash(self) -> [u8; 32] {
        merkle_root(self.leaves())
    }
}

/// Headers that differ in any field differ in their leaves: two headers
/// whose times have an encoding and whose leaves are the same are the same
/// header, field by field.
pub proof fn lemma_leaves_injective(a: HeaderView, b: HeaderView)
    requires
        a.time.is_encodable(),
        b.time.is_encodable(),
        a.leaves() == b.leaves(),
    ensures
        a == b,
{
    broadcast use vstd::array::group_array_axioms;

    let la = a.leaves();
    let lb = b.leaves();
    assert(la[0] == lb[0] && la[1] == lb[1] && la[2] == lb[2] && la[3] == lb[3]);
    assert(la[4] == lb[4] && la[5] == lb[5] && la[6] == lb[6] && la[7] == lb[7]);
    assert(la[8] == lb[8] && la[9] == lb[9] && la[10] == lb[10] && la[11] == lb[11]);
    assert(la[12] == lb[12] && la[13] == lb[13] && la[14] == lb[14] && la[15] == lb[15]);
    crate::amino::lemma_varint_fields_injective(
        a.version.block as nat,
        a.version.app as nat,
        b.version.block as nat,
        b.version.app as nat,
    );
    assert(a.chain_id == b.chain_id) by {
        crate::encoding::lemma_length_delimited_injective(
            encode_utf8(a.chain_id),
            encode_utf8(b.chain_id),
        );
        vstd::utf8::encode_utf8_decode_utf8(a.chain_id);
        vstd::utf8::encode_utf8_decode_utf8(b.chain_id);
    }
    crate::encoding::lemma_varint_injective(a.height as nat, b.height as nat);
    crate::amino::lemma_varint_fields_injective(
        a.time.seconds as nat,
        a.time.nanos as nat,
        b.time.seconds as nat,
        b.time.nanos as nat,
    );
    crate::encoding::lemma_varint_injective(a.num_txs as nat, b.num_txs as nat);
    crate::encoding::lemma_varint_injective(a.total_txs as nat, b.total_txs as nat);
    assert(a.last_block_id == b.last_block_id) by {
        match (a.last_block_id, b.last_block_id) {
            (Some(x), Some(y)) => {
                crate::block::lemma_block_id_injective(x, y);
            },
            (Some(x), None) => {
                crate::block::lemma_block_id_injective(x, x);
            },
            (None, Some(y)) => {
                crate::block::lemma_block_id_injective(y, y);
            },
            (None, None) => {},
        }
    }
    crate::encoding::lemma_optional_hash_injective(a.last_commit_hash, b.last_commit_hash);
    crate::encoding::lemma_optional_hash_injective(a.data_hash, b.data_hash);
    crate::encoding::lemma_optional_hash_injective(
        Some(a.validators_hash),
        Some(b.validators_hash),
    );
    crate::encoding::lemma_optional_hash_injective(
        Some(a.next_validators_hash),
        Some(b.next_validators_hash),
    );
    crate::encoding::lemma_optional_hash_injective(
        Some(a.consensus_hash),
        Some(b.consensus_hash),
    );
    crate::encoding::lemma_optional_hash_injective(a.app_hash, b.app_hash);
    crate::encoding::lemma_optional_hash_injective(a.last_results_hash, b.last_results_hash);
    crate::encoding::lemma_optional_hash_injective(a.evidence_hash, b.evidence_hash);
    assert(a.proposer_address == b.proposer_address) by {
        crate::encoding::lemma_length_delimited_injective(
            a.proposer_address.bytes(),
            b.proposer_address.bytes(),
        );
        assert(a.proposer_address.0 =~= b.proposer_address.0);
    }
}

/// The hash of a header depends on nothing but its fields: headers that are
/// equal field by field have the same hash.
pub proof fn lemma_hash_deterministic(a: HeaderView, b: HeaderView)
    requires
        a == b,
    ensures
        a.hash() == b.hash(),
{
}

/// Headers that differ in any field have different hashes, unless two
/// different byte strings that were hashed on the way have the same SHA-256
/// digest: where the hashes of two such headers are equal, the byte strings
/// that were hashed for the two trees hold a collision.
pub proof fn lemma_hash_sensitive(a: HeaderView, b: HeaderView)
    requires
        a.time.is_encodable(),
        b.time.is_encodable(),
        a != b,
    ensures
        a.hash() != b.hash() || !collision_free(
            hashed_inputs(a.leaves()).union(hashed_inputs(b.leaves())),
        ),
{
    if a.hash() == b.hash() && collision_free(
        hashed_inputs(a.leaves()).union(hashed_inputs(b.leaves())),
    ) {
        lemma_merkle_root_injective(a.leaves(), b.leaves());
        lemma_leaves_injective(a, b);
    }
}

/// A header without a data hash and the same header with one differ in the
/// leaf of the data hash: the first has no bytes there, the second the 33
/// bytes of a digest behind its length. So the two have different hashes,
/// unless two different byte strings that were hashed on the way have the
/// same SHA-256 digest.
pub proof fn lemma_absent_differs_from_present(header: HeaderView, digest: crate::hash::Hash)
    ensures
        ({
            let absent = HeaderView { data_hash: None, ..header };
            let present = HeaderView { data_hash: Some(digest), ..header };
            &&& absent.leaves()[8].len() == 0
            &&& present.leaves()[8].len() == 33
            &&& absent.leaves() != present.leaves()
            &&& collision_free(
                hashed_inputs(absent.leaves()).union(hashed_inputs(present.leaves())),
            ) ==> absent.hash() != present.hash()
        }),
{
    let absent = HeaderView { data_hash: None, ..header };
    let present = HeaderView { data_hash: Some(digest), ..header };
    crate::encoding::lemma_optional_hash_injective(Some(digest), Some(digest));
    if collision_free(hashed_inputs(absent.leaves()).union(hashed_inputs(present.leaves())))
        && absent.hash() == present.hash() {
        lemma_merkle_root_injective(absent.leaves(), present.leaves());
    }
}

impl Clone for Header {
    fn clone(&self) -> (r: Self)
        ensures
            r@ == self@,
    {
        Header {
            version: self.version,
            chain_id: self.chain_id.clone(),
            height: self.height,
            time: self.time,
            num_txs: self.num_txs,
            total_txs: self.total_txs,
            last_block_id: self.last_block_id,
            last_commit_hash: self.last_commit_hash,
            data_hash: self.data_hash,
            validators_hash: self.validators_hash,
            next_validators_hash: self.next_validators_hash,
            consensus_hash: self.consensus_hash,
            app_hash: self.app_hash,
            last_results_hash: self.last_results_hash,
            evidence_hash: self.evidence_hash,
            proposer_address: self.proposer_address,
        }
    }
}

impl Header {
    /// The height of the block.
    pub fn height(&self) -> (h: crate::block::Height)
        ensures
            h == self.height,
    {
        self.height
    }

    /// The time of the block.
    pub fn bft_time(&self) -> (t: Time)
        ensures
            t == self.time,
    {
        self.time
    }

    /// The hash of the validators of this block.
    pub fn validators_hash(&self) -> (h: crate::hash::Hash)
        ensures
            h == self.validators_hash,
    {
        self.validators_hash
    }

    /// The hash of the validators of the next block.
    pub fn next_validators_hash(&self) -> (h: crate::hash::Hash)
        ensures
            h == self.next_validators_hash,
    {
        self.next_validators_hash
    }

    /// Encodes the fields of the header into its sixteen leaves. The only
    /// header without leaves is one whose time has no encoding.
    pub fn byte_slices(&self) -> (r: Result<Vec<Vec<u8>>, Error>)
        ensures
            match r {
                Ok(slices) => self.time.is_encodable() && byte_strings(slices@)
                    == self@.leaves(),
                Err(e) => !self.time.is_encodable() && e == Error::FatalEncoding,
            },
    {
        let time = match self.time.bytes_vec() {
            Ok(bytes) => bytes,
            Err(e) => {
                return Err(e);
            },
        };
        let chain_id = match bytes_enc(self.chain_id.as_str().as_bytes()) {
            Ok(bytes) => bytes,
            Err(e) => {
                return Err(e);
            },
        };
        let last_block_id = match &self.last_block_id {
            Some(id) => id.bytes_vec(),
            None => Vec::new(),
        };
        let last_commit_hash = match encode_optional_hash(&self.last_commit_hash) {
            Ok(bytes) => bytes,
            Err(e) => {
                return Err(e);
            },
        };
        let data_hash = match encode_optional_hash(&self.data_hash) {
            Ok(bytes) => bytes,
            Err(e) => {
                return Err(e);
            },
        };
        let validators_hash = match encode_hash(&self.validators_hash) {
            Ok(bytes) => bytes,
            Err(e) => {
                return Err(e);
            },
        };
        let next_validators_hash = match encode_hash(&self.next_validators_hash) {
            Ok(bytes) => bytes,
            Err(e) => {
                return Err(e);
            },
        };
        let consensus_hash = match encode_hash(&self.consensus_hash) {
            Ok(bytes) => bytes,
            Err(e) => {
                return Err(e);
            },
        };
        let app_hash = match encode_optional_hash(&self.app_hash) {
            Ok(bytes) => bytes,
            Err(e) => {
                return Err(e);
            },
        };
        let last_results_hash = match encode_optional_hash(&self.last_results_hash) {
            Ok(bytes) => bytes,
            Err(e) => {
                return Err(e);
            },
        };
        let evidence_hash = match encode_optional_hash(&self.evidence_hash) {
            Ok(bytes) => bytes,
            Err(e) => {
                return Err(e);
            },
        };
        let proposer_address = match bytes_enc(self.proposer_address.as_bytes()) {
            Ok(bytes) => bytes,
            Err(e) => {
                return Err(e);
            },
        };
        let mut byteslices: Vec<Vec<u8>> = Vec::with_capacity(LEAVES);
        byteslices.push(self.version.bytes_vec());
        byteslices.push(chain_id);
        byteslices.push(encode_varint(self.height));
        byteslices.push(time);
        byteslices.push(encode_varint(self.num_txs));
        byteslices.push(encode_varint(self.total_txs));
        byteslices.push(last_block_id);
        byteslices.push(last_commit_hash);
        byteslices.push(data_hash);
        byteslices.push(validators_hash);
        byteslices.push(next_validators_hash);
        byteslices.push(consensus_hash);
        byteslices.push(app_hash);
        byteslices.push(last_results_hash);
        byteslices.push(evidence_hash);
        byteslices.push(proposer_address);
        assert(byte_strings(byteslices@) =~= self@.leaves());
        Ok(byteslices)
    }

    /// Computes the hash of the header: the Merkle root of its sixteen
    /// leaves. A header whose time has no encoding has no hash.
    pub fn hash(&self) -> (r: Result<crate::hash::Hash, Error>)
        ensures
            match r {
                Ok(hash) => self.time.is_encodable() && hash == crate::hash::Hash::Sha256(
                    self@.hash(),
                ),
                Err(e) => !self.time.is_encodable() && e == Error::FatalEncoding,
            },
    {
        match self.byte_slices() {
            Ok(byteslices) => Ok(
                crate::hash::Hash::Sha256(simple_hash_from_byte_slices(byteslices)),
            ),
            Err(e) => Err(e),
        }
    }
}

} // verus!
