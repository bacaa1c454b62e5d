//! Anchors binding transition bundles to witness transactions, and the
//! consensus order of witnesses.

use core::cmp::Ordering;

use vstd::prelude::*;

use crate::codec::{
    bytes_cmp, lemma_lex_cmp_antisymmetric, lemma_lex_cmp_equal, lex_cmp, reversed, DecodeError,
};
use crate::ids::Txid;
use crate::operation::TransitionBundle;

verus! {

/// The base layer a witness transaction lives on.
#[derive(Clone, Copy, PartialEq, Eq, PartialOrd, Ord, Hash, Debug, Structural)]
pub enum Layer1 {
    Bitcoin,
    Liquid,
}

impl Layer1 {
    /// The byte that stands for the layer on the wire.
    pub open spec fn byte(self) -> u8 {
        match self {
            Layer1::Bitcoin => 0,
            Layer1::Liquid => 1,
        }
    }

    /// The layer whose wire byte is `v`, if any.
    pub open spec fn from_byte(v: u8) -> Option<Layer1> {
        if v == 0 {
            Some(Layer1::Bitcoin)
        } else if v == 1 {
            Some(Layer1::Liquid)
        } else {
            None
        }
    }

    pub fn to_u8(&self) -> (r: u8)
        ensures
            r == self.byte(),
    {
        match *self {
            Layer1::Bitcoin => 0,
            Layer1::Liquid => 1,
        }
    }

    pub fn from_u8(v: u8) -> (r: Option<Layer1>)
        ensures
            r == Layer1::from_byte(v),
    {
        match v {
            0 => Some(Layer1::Bitcoin),
            1 => Some(Layer1::Liquid),
            _ => None,
        }
    }

    pub open spec fn decoding(bytes: Seq<u8>) -> Result<Layer1, DecodeError> {
        if bytes.len() == 0 {
            Err(DecodeError::UnexpectedEof)
        } else {
            match Layer1::from_byte(bytes[0]) {
                Some(x) => Ok(x),
                None => Err(DecodeError::EnumValueNotKnown { value: bytes[0] }),
            }
        }
    }

    /// Canonical encoding: the wire byte alone.
    pub fn strict_encode(&self) -> (r: Vec<u8>)
        ensures
            r@ == seq![self.byte()],
    {
        let mut out: Vec<u8> = Vec::new();
        out.push(self.to_u8());
        out
    }

    pub fn strict_decode(bytes: &[u8]) -> (r: Result<Layer1, DecodeError>)
        ensures
            r == Layer1::decoding(bytes@),
    {
        if bytes.len() == 0 {
            return Err(DecodeError::UnexpectedEof);
        }
        match Layer1::from_u8(bytes[0]) {
            Some(x) => Ok(x),
            None => Err(DecodeError::EnumValueNotKnown { value: bytes[0] }),
        }
    }
}

/// Every layer's wire byte decodes to that layer, and a byte that decodes
/// is the wire byte of what it decodes to.
pub proof fn lemma_layer1_wire_bytes()
    ensures
        forall|x: Layer1| #[trigger] Layer1::from_byte(x.byte()) == Some(x),
        forall|v: u8| #[trigger] Layer1::from_byte(v) matches Some(x) ==> x.byte() == v,
        forall|x: Layer1| #[trigger] Layer1::decoding(seq![x.byte()]) == Ok::<Layer1, DecodeError>(x),
{
    assert forall|x: Layer1| #[trigger] Layer1::decoding(seq![x.byte()]) == Ok::<Layer1, DecodeError>(x) by {
        assert(seq![x.byte()][0] == x.byte());
    }
}

/// A witness transaction: its layer and its txid.
#[derive(Clone, Copy, PartialEq, Eq, PartialOrd, Ord, Hash, Debug)]
pub enum WitnessId {
    Bitcoin(Txid),
    Liquid(Txid),
}

impl WitnessId {
    pub open spec fn spec_layer1(self) -> Layer1 {
        match self {
            WitnessId::Bitcoin(_) => Layer1::Bitcoin,
            WitnessId::Liquid(_) => Layer1::Liquid,
        }
    }

    pub open spec fn spec_txid(self) -> Txid {
        match self {
            WitnessId::Bitcoin(t) => t,
            WitnessId::Liquid(t) => t,
        }
    }

    pub fn layer1(&self) -> (r: Layer1)
        ensures
            r == self.spec_layer1(),
    {
        match self {
            WitnessId::Bitcoin(_) => Layer1::Bitcoin,
            WitnessId::Liquid(_) => Layer1::Liquid,
        }
    }

    pub fn txid(&self) -> (r: Txid)
        ensures
            r == self.spec_txid(),
    {
        match self {
            WitnessId::Bitcoin(t) => *t,
            WitnessId::Liquid(t) => *t,
        }
    }
}

/// Position of a mined witness: block height and block time.
#[derive(Clone, Copy, PartialEq, Eq, PartialOrd, Ord, Hash, Debug, Structural)]
pub struct WitnessPos {
    pub height: u32,
    pub timestamp: i64,
}

/// Where a witness transaction stands; archived witnesses come first, then
/// mined ones by height, then those not yet mined.
#[derive(Clone, Copy, PartialEq, Eq, PartialOrd, Ord, Hash, Debug, Structural)]
pub enum WitnessOrd {
    Archived,
    Mined(WitnessPos),
    OffChain,
}

/// Three-way comparison of two integers.
pub open spec fn int_cmp(a: int, b: int) -> Ordering {
    if a < b {
        Ordering::Less
    } else if a > b {
        Ordering::Greater
    } else {
        Ordering::Equal
    }
}

/// The order of witness positions: by height, then by block time.
pub open spec fn pos_cmp(a: WitnessPos, b: WitnessPos) -> Ordering {
    match int_cmp(a.height as int, b.height as int) {
        Ordering::Equal => int_cmp(a.timestamp as int, b.timestamp as int),
        o => o,
    }
}

/// The rank of a witness state: archived, mined, off-chain.
pub open spec fn ord_rank(o: WitnessOrd) -> int {
    match o {
        WitnessOrd::Archived => 0,
        WitnessOrd::Mined(_) => 1,
        WitnessOrd::OffChain => 2,
    }
}

/// The consensus order of witness states.
pub open spec fn witness_ord_cmp(a: WitnessOrd, b: WitnessOrd) -> Ordering {
    match (a, b) {
        (WitnessOrd::Mined(p), WitnessOrd::Mined(q)) => pos_cmp(p, q),
        _ => int_cmp(ord_rank(a), ord_rank(b)),
    }
}

/// The order of witness ids: by layer, then by the txid bytes.
pub open spec fn witness_id_cmp(a: WitnessId, b: WitnessId) -> Ordering {
    match int_cmp(a.spec_layer1().byte() as int, b.spec_layer1().byte() as int) {
        Ordering::Equal => lex_cmp(a.spec_txid().bytes@, b.spec_txid().bytes@),
        o => o,
    }
}

/// Three-way comparison of two machine integers.
fn cmp_int(a: i128, b: i128) -> (r: Ordering)
    ensures
        r == int_cmp(a as int, b as int),
{
    if a < b {
        Ordering::Less
    } else if a > b {
        Ordering::Greater
    } else {
        Ordering::Equal
    }
}

impl WitnessOrd {
    pub fn compare(&self, other: &WitnessOrd) -> (r: Ordering)
        ensures
            r == witness_ord_cmp(*self, *other),
    {
        match (self, other) {
            (WitnessOrd::Mined(p), WitnessOrd::Mined(q)) => {
                match cmp_int(p.height as i128, q.height as i128) {
                    Ordering::Equal => cmp_int(p.timestamp as i128, q.timestamp as i128),
                    o => o,
                }
            },
            _ => {
                let ra: i128 = match self {
                    WitnessOrd::Archived => 0,
                    WitnessOrd::Mined(_) => 1,
                    WitnessOrd::OffChain => 2,
                };
                let rb: i128 = match other {
                    WitnessOrd::Archived => 0,
                    WitnessOrd::Mined(_) => 1,
                    WitnessOrd::OffChain => 2,
                };
                cmp_int(ra, rb)
            },
        }
    }
}

impl WitnessId {
    pub fn compare(&self, other: &WitnessId) -> (r: Ordering)
        ensures
            r == witness_id_cmp(*self, *other),
    {
        let la = self.layer1().to_u8();
        let lb = other.layer1().to_u8();
        match cmp_int(la as i128, lb as i128) {
            Ordering::Equal => {
                let ta = self.txid();
                let tb = other.txid();
                bytes_cmp(&ta.bytes, &tb.bytes)
            },
            o => o,
        }
    }
}

/// A witness id with its position, ordered by position first.
#[derive(Clone, Copy, PartialEq, Eq, Ord, Hash, Debug)]
pub struct WitnessAnchor {
    pub witness_ord: WitnessOrd,
    pub witness_id: WitnessId,
}

/// The consensus order of witness anchors: by position, then by id.
pub open spec fn witness_anchor_cmp(a: WitnessAnchor, b: WitnessAnchor) -> Ordering {
    match witness_ord_cmp(a.witness_ord, b.witness_ord) {
        Ordering::Equal => witness_id_cmp(a.witness_id, b.witness_id),
        o => o,
    }
}

/// Comparing two witness anchors the other way round gives the opposite
/// ordering, and an anchor compares equal to itself.
pub proof fn lemma_witness_anchor_cmp_antisymmetric(a: WitnessAnchor, b: WitnessAnchor)
    ensures
        witness_anchor_cmp(b, a) == reversed(witness_anchor_cmp(a, b)),
        witness_anchor_cmp(a, a) == Ordering::Equal,
{
    lemma_lex_cmp_antisymmetric(a.witness_id.spec_txid().bytes@, b.witness_id.spec_txid().bytes@);
    lemma_lex_cmp_equal(a.witness_id.spec_txid().bytes@, a.witness_id.spec_txid().bytes@);
}

impl WitnessAnchor {
    /// The anchor of a witness that is not mined yet.
    pub fn from_mempool(witness_id: WitnessId) -> (r: WitnessAnchor)
        ensures
            r.witness_ord == WitnessOrd::OffChain,
            r.witness_id == witness_id,
    {
        WitnessAnchor { witness_ord: WitnessOrd::OffChain, witness_id }
    }

    pub fn compare(&self, other: &WitnessAnchor) -> (r: Ordering)
        ensures
            r == witness_anchor_cmp(*self, *other),
    {
        match self.witness_ord.compare(&other.witness_ord) {
            Ordering::Equal => self.witness_id.compare(&other.witness_id),
            o => o,
        }
    }
}

impl PartialOrd for WitnessAnchor {
    fn partial_cmp(&self, other: &WitnessAnchor) -> (r: Option<Ordering>) {
        Some(self.compare(other))
    }
}

impl vstd::std_specs::cmp::PartialOrdSpecImpl for WitnessAnchor {
    open spec fn obeys_partial_cmp_spec() -> bool {
        true
    }

    open spec fn partial_cmp_spec(&self, other: &WitnessAnchor) -> Option<Ordering> {
        Some(witness_anchor_cmp(*self, *other))
    }
}

/// Why two anchors could not be merged.
#[derive(Clone, Copy, PartialEq, Eq, Debug, Structural)]
pub enum MergeError {
    /// The anchors do not commit to the same thing in the same way.
    ProofMismatch,
}

/// A proof that two partial reveals of one commitment can be merged into.
pub trait MergeReveal: Sized {
    /// Whether `r` is an admissible result of merging `self` with `other`.
    spec fn merges_to(self, other: Self, r: Result<Self, MergeError>) -> bool;

    fn merge_reveal(self, other: Self) -> (r: Result<Self, MergeError>)
        ensures
            self.merges_to(other, r),
    ;
}

/// A deterministic bitcoin commitment proof that can be compared.
pub trait DbcProof: Sized {
    /// Whether two proofs are the same proof.
    spec fn spec_same(&self, other: &Self) -> bool;

    fn same(&self, other: &Self) -> (r: bool)
        ensures
            r == self.spec_same(other),
    ;
}

/// A multi-protocol commitment merkle proof: the leaf position, the tree
/// cofactor and the path of sibling hashes.
#[derive(Clone, PartialEq, Eq, Debug)]
pub struct MpcProof {
    pub pos: u32,
    pub cofactor: u16,
    pub path: Vec<[u8; 32]>,
}

impl MpcProof {
    /// The path as byte strings.
    pub open spec fn path_view(&self) -> Seq<Seq<u8>> {
        self.path@.map_values(|h: [u8; 32]| h@)
    }

    /// Whether two proofs have the same position, cofactor and path.
    pub fn same(&self, other: &MpcProof) -> (r: bool)
        ensures
            r == (self.pos == other.pos && self.cofactor == other.cofactor && self.path_view()
                == other.path_view()),
    {
        if self.pos != other.pos || self.cofactor != other.cofactor || self.path.len() != other.path.len() {
            proof {
                if self.path.len() != other.path.len() {
                    assert(self.path_view().len() != other.path_view().len());
                }
            }
            return false;
        }
        let mut i: usize = 0;
        while i < self.path.len()
            invariant
                i <= self.path@.len() == other.path@.len(),
                self.path_view().subrange(0, i as int) == other.path_view().subrange(0, i as int),
            decreases self.path@.len() - i,
        {
            if !crate::ids::digest_eq(&self.path[i], &other.path[i]) {
                assert(self.path_view()[i as int] != other.path_view()[i as int]);
                return false;
            }
            assert(self.path_view().subrange(0, i + 1) =~= self.path_view().subrange(0, i as int).push(self.path_view()[i as int]));
            assert(other.path_view().subrange(0, i + 1) =~= other.path_view().subrange(0, i as int).push(other.path_view()[i as int]));
            i = i + 1;
        }
        assert(self.path_view() =~= self.path_view().subrange(0, i as int));
        assert(other.path_view() =~= other.path_view().subrange(0, i as int));
        true
    }
}

impl MergeReveal for MpcProof {
    /// A compact proof reveals a single path: two proofs of one commitment
    /// merge only when they are the same proof.
    open spec fn merges_to(self, other: Self, r: Result<Self, MergeError>) -> bool {
        r == if self.pos == other.pos && self.cofactor == other.cofactor && self.path_view()
            == other.path_view() {
            Ok(self)
        } else {
            Err(MergeError::ProofMismatch)
        }
    }

    fn merge_reveal(self, other: Self) -> (r: Result<Self, MergeError>) {
        if self.same(&other) {
            Ok(self)
        } else {
            Err(MergeError::ProofMismatch)
        }
    }
}

#[verifier::external_type_specification]
#[verifier::external_body]
pub struct ExMerkleBlock(commit_verify::mpc::MerkleBlock);

/// The commitment (merkle root id) of a partially revealed merkle block.
pub uninterp spec fn merkle_block_root(b: commit_verify::mpc::MerkleBlock) -> Seq<u8>;

/// The revealed leaves of a merkle block: protocol id and message bytes.
pub uninterp spec fn merkle_block_revealed(b: commit_verify::mpc::MerkleBlock) -> Set<(Seq<u8>, Seq<u8>)>;

/// Whether a merkle block has the shape commit_verify gives the blocks it
/// builds itself: a full cross-section of a tree, or one concealed from it,
/// or a merge of such blocks. On these, computing the commitment, concealing
/// and merging return normally.
pub uninterp spec fn merkle_block_sound(b: commit_verify::mpc::MerkleBlock) -> bool;

/// Relies on commit_verify's `MultiSource::with_static_entropy`,
/// `MerkleTree::try_commit` and `From<&MerkleTree> for MerkleBlock`: the
/// messages, keyed by protocol id (a later duplicate replaces an earlier
/// one), are placed in a tree whose empty slots hold entropy leaves, and the
/// tree becomes a block with every message revealed. `None` where the tree
/// cannot be built (too many messages, or no slot arrangement found).
#[verifier::external_body]
fn merkle_block_commit(messages: &Vec<([u8; 32], [u8; 32])>, entropy: u64) -> (r: Option<
    commit_verify::mpc::MerkleBlock,
>)
    ensures
        r matches Some(b) ==> merkle_block_sound(b),
{
    let mut source = commit_verify::mpc::MultiSource::with_static_entropy(entropy);
    for (p, m) in messages {
        let key = commit_verify::mpc::ProtocolId::from(*p);
        source.messages.insert(key, commit_verify::mpc::Message::from(*m)).ok()?;
    }
    let tree = <commit_verify::mpc::MerkleTree as commit_verify::TryCommitVerify<_, _>>::try_commit(&source).ok()?;
    Some(commit_verify::mpc::MerkleBlock::from(&tree))
}

/// Relies on commit_verify's `MerkleBlock::conceal_except`: it conceals every
/// revealed leaf but those of the given protocols and folds concealed
/// siblings together, keeping the commitment; it fails when one of the
/// protocols has no revealed leaf, and the block is then left as it was.
#[verifier::external_body]
fn merkle_block_conceal_except(
    block: &commit_verify::mpc::MerkleBlock,
    protocols: &Vec<[u8; 32]>,
) -> (r: Option<commit_verify::mpc::MerkleBlock>)
    requires
        merkle_block_sound(*block),
    ensures
        match r {
            Some(m) => merkle_block_sound(m) && merkle_block_root(m) == merkle_block_root(*block),
            None => true,
        },
{
    let ids: Vec<commit_verify::mpc::ProtocolId> =
        protocols.iter().map(|p| commit_verify::mpc::ProtocolId::from(*p)).collect();
    let mut concealed = block.clone();
    match concealed.conceal_except(ids) {
        Ok(_) => Some(concealed),
        Err(_) => None,
    }
}

/// Relies on commit_verify's `MerkleBlock::merge_reveal`: its only error is
/// for blocks whose commitment ids differ; otherwise it joins their
/// revealed parts and keeps the commitment id (it asserts so before
/// returning).
#[verifier::external_body]
fn merkle_block_merge(
    base: commit_verify::mpc::MerkleBlock,
    other: commit_verify::mpc::MerkleBlock,
) -> (r: Result<commit_verify::mpc::MerkleBlock, MergeError>)
    requires
        merkle_block_sound(base),
        merkle_block_sound(other),
    ensures
        r is Ok <==> merkle_block_root(base) == merkle_block_root(other),
        match r {
            Ok(m) => merkle_block_sound(m) && merkle_block_root(m) == merkle_block_root(base)
                && merkle_block_revealed(m) == merkle_block_revealed(base).union(
                merkle_block_revealed(other),
            ),
            Err(e) => e == MergeError::ProofMismatch,
        },
{
    let mut base = base;
    match commit_verify::mpc::MerkleBlock::merge_reveal(&mut base, other) {
        Ok(_) => Ok(base),
        Err(_) => Err(MergeError::ProofMismatch),
    }
}

/// Relies on commit_verify's `MerkleBlock::to_known_message_map`: the
/// protocol and message of every revealed leaf.
#[verifier::external_body]
fn merkle_block_known_messages(block: &commit_verify::mpc::MerkleBlock) -> (r: Vec<([u8; 32], [u8; 32])>)
    ensures
        r@.map_values(|e: ([u8; 32], [u8; 32])| (e.0@, e.1@)).to_set() == merkle_block_revealed(*block),
{
    block.to_known_message_map().iter().map(|(p, m)| (p.to_byte_array(), m.to_byte_array())).collect()
}

/// Relies on the `Clone` that `MerkleBlock` derives: a field-by-field copy.
pub assume_specification[ <commit_verify::mpc::MerkleBlock as Clone>::clone ](
    b: &commit_verify::mpc::MerkleBlock,
) -> (r: commit_verify::mpc::MerkleBlock)
    ensures
        r == *b,
;

/// A partially revealed multi-protocol commitment tree, as built by
/// commit_verify: from a full tree, by concealing leaves, or by merging.
#[derive(PartialEq, Eq, Debug)]
pub struct MpcBlock {
    block: commit_verify::mpc::MerkleBlock,
}

impl MpcBlock {
    #[verifier::type_invariant]
    spec fn inv(self) -> bool {
        merkle_block_sound(self.block)
    }

    /// The commitment of the block.
    pub closed spec fn root(self) -> Seq<u8> {
        merkle_block_root(self.block)
    }

    /// The revealed leaves of the block: protocol id and message bytes.
    pub closed spec fn revealed(self) -> Set<(Seq<u8>, Seq<u8>)> {
        merkle_block_revealed(self.block)
    }

    /// The protocol and message of every revealed leaf.
    pub fn known_messages(&self) -> (r: Vec<([u8; 32], [u8; 32])>)
        ensures
            r@.map_values(|e: ([u8; 32], [u8; 32])| (e.0@, e.1@)).to_set() == self.revealed(),
    {
        merkle_block_known_messages(&self.block)
    }

    /// Commits to the messages, keyed by protocol id, with the given
    /// entropy for empty slots; every message is revealed. `None` where
    /// commit_verify cannot build the tree.
    pub fn commit(messages: &Vec<([u8; 32], [u8; 32])>, entropy: u64) -> (r: Option<MpcBlock>) {
        match merkle_block_commit(messages, entropy) {
            Some(block) => Some(MpcBlock { block }),
            None => None,
        }
    }

    /// The block with every message concealed but those of `protocols`;
    /// `None` when one of them is not revealed in the block.
    pub fn conceal_except(&self, protocols: &Vec<[u8; 32]>) -> (r: Option<MpcBlock>)
        ensures
            r matches Some(b) ==> b.root() == self.root(),
    {
        proof {
            use_type_invariant(self);
        }
        match merkle_block_conceal_except(&self.block, protocols) {
            Some(block) => Some(MpcBlock { block }),
            None => None,
        }
    }

    /// The commit_verify block inside.
    pub fn as_merkle_block(&self) -> (r: &commit_verify::mpc::MerkleBlock)
        ensures
            merkle_block_root(*r) == self.root(),
    {
        &self.block
    }
}

impl Clone for MpcBlock {
    fn clone(&self) -> (r: MpcBlock)
        ensures
            r == *self,
    {
        proof {
            use_type_invariant(self);
        }
        MpcBlock { block: self.block.clone() }
    }
}

impl MergeReveal for MpcBlock {
    /// Blocks of one commitment merge into a block of that commitment that
    /// reveals what either revealed; blocks of different commitments do not
    /// merge.
    open spec fn merges_to(self, other: Self, r: Result<Self, MergeError>) -> bool {
        &&& (r is Ok <==> self.root() == other.root())
        &&& match r {
            Ok(m) => m.root() == self.root() && m.revealed() == self.revealed().union(other.revealed()),
            Err(e) => e == MergeError::ProofMismatch,
        }
    }

    fn merge_reveal(self, other: Self) -> (r: Result<Self, MergeError>) {
        proof {
            use_type_invariant(&self);
            use_type_invariant(&other);
        }
        match merkle_block_merge(self.block, other.block) {
            Ok(block) => Ok(MpcBlock { block }),
            Err(e) => Err(e),
        }
    }
}

/// Tapret proof: the script-path proof and the internal key of the
/// taproot output holding the commitment.
#[derive(Clone, PartialEq, Eq, Debug)]
pub struct TapretProof {
    pub path_proof: Vec<u8>,
    pub internal_pk: [u8; 32],
}

/// Opret proof: the commitment is the `OP_RETURN` output itself.
#[derive(Clone, Copy, PartialEq, Eq, Debug, Default)]
pub struct OpretProof;

impl DbcProof for TapretProof {
    open spec fn spec_same(&self, other: &Self) -> bool {
        self.path_proof@ == other.path_proof@ && self.internal_pk@ == other.internal_pk@
    }

    fn same(&self, other: &Self) -> (r: bool) {
        let same_path = matches!(bytes_cmp(self.path_proof.as_slice(), other.path_proof.as_slice()), Ordering::Equal);
        proof {
            lemma_lex_cmp_equal(self.path_proof@, other.path_proof@);
        }
        same_path && crate::ids::digest_eq(&self.internal_pk, &other.internal_pk)
    }
}

impl DbcProof for OpretProof {
    open spec fn spec_same(&self, other: &Self) -> bool {
        true
    }

    fn same(&self, other: &Self) -> (r: bool) {
        true
    }
}

/// A deterministic bitcoin commitment anchor: the witness txid, the
/// multi-protocol commitment proof and the commitment proof.
#[derive(Clone, PartialEq, Eq, Debug)]
pub struct DbcAnchor<P, D> {
    pub txid: Txid,
    pub mpc_proof: P,
    pub dbc_proof: D,
}

impl<P: MergeReveal, D: DbcProof> DbcAnchor<P, D> {
    /// Two anchors of the same witness and commitment proof merge as their
    /// multi-protocol proofs do; other anchors do not merge.
    pub open spec fn merges_to(self, other: Self, r: Result<Self, MergeError>) -> bool {
        if self.txid.bytes@ != other.txid.bytes@ || !self.dbc_proof.spec_same(&other.dbc_proof) {
            r == Err::<Self, MergeError>(MergeError::ProofMismatch)
        } else {
            match r {
                Ok(m) => m.txid == self.txid && m.dbc_proof == self.dbc_proof
                    && self.mpc_proof.merges_to(other.mpc_proof, Ok(m.mpc_proof)),
                Err(e) => self.mpc_proof.merges_to(other.mpc_proof, Err(e)),
            }
        }
    }

    pub fn merge_reveal(self, other: Self) -> (r: Result<Self, MergeError>)
        ensures
            self.merges_to(other, r),
    {
        if !(self.txid == other.txid) || !self.dbc_proof.same(&other.dbc_proof) {
            return Err(MergeError::ProofMismatch);
        }
        match self.mpc_proof.merge_reveal(other.mpc_proof) {
            Ok(p) => Ok(DbcAnchor { txid: self.txid, mpc_proof: p, dbc_proof: self.dbc_proof }),
            Err(e) => Err(e),
        }
    }
}

/// The commitments of one witness: tapret, opret or both.
#[derive(Clone, PartialEq, Eq, Debug)]
pub enum AnchorSet<P> {
    Taptet(DbcAnchor<P, TapretProof>),
    Opret(DbcAnchor<P, OpretProof>),
    Dual { tapret: DbcAnchor<P, TapretProof>, opret: DbcAnchor<P, OpretProof> },
}

/// The wire tags of the anchor set variants.
pub const ANCHOR_SET_TAPRET: u8 = 0x01;
pub const ANCHOR_SET_OPRET: u8 = 0x02;
pub const ANCHOR_SET_DUAL: u8 = 0x03;

impl<P> AnchorSet<P> {
    /// The common witness txid; `None` for a dual anchor whose two halves
    /// name different transactions.
    pub open spec fn spec_txid(self) -> Option<Txid> {
        match self {
            AnchorSet::Taptet(a) => Some(a.txid),
            AnchorSet::Opret(a) => Some(a.txid),
            AnchorSet::Dual { tapret, opret } => if tapret.txid.bytes@ == opret.txid.bytes@ {
                Some(tapret.txid)
            } else {
                None
            },
        }
    }

    pub open spec fn tag(self) -> u8 {
        match self {
            AnchorSet::Taptet(_) => ANCHOR_SET_TAPRET,
            AnchorSet::Opret(_) => ANCHOR_SET_OPRET,
            AnchorSet::Dual { .. } => ANCHOR_SET_DUAL,
        }
    }

    pub fn txid(&self) -> (r: Option<Txid>)
        ensures
            r == self.spec_txid(),
    {
        match self {
            AnchorSet::Taptet(a) => Some(a.txid),
            AnchorSet::Opret(a) => Some(a.txid),
            AnchorSet::Dual { tapret, opret } => {
                if tapret.txid == opret.txid {
                    Some(tapret.txid)
                } else {
                    None
                }
            },
        }
    }

    /// The wire tag of the variant.
    pub fn tag_byte(&self) -> (r: u8)
        ensures
            r == self.tag(),
    {
        match self {
            AnchorSet::Taptet(_) => ANCHOR_SET_TAPRET,
            AnchorSet::Opret(_) => ANCHOR_SET_OPRET,
            AnchorSet::Dual { .. } => ANCHOR_SET_DUAL,
        }
    }
}

impl<P: MergeReveal> AnchorSet<P> {
    /// Merging anchor sets: like commitments merge with each other, a
    /// tapret and an opret commitment of one witness combine into a dual set
    /// (of different witnesses they do not merge), and a dual
    /// set merges each half with its like.
    pub open spec fn merges_to(self, other: Self, r: Result<Self, MergeError>) -> bool {
        match (self, other) {
            (AnchorSet::Taptet(a), AnchorSet::Taptet(b)) => match r {
                Ok(AnchorSet::Taptet(m)) => a.merges_to(b, Ok(m)),
                Ok(_) => false,
                Err(e) => a.merges_to(b, Err(e)),
            },
            (AnchorSet::Opret(a), AnchorSet::Opret(b)) => match r {
                Ok(AnchorSet::Opret(m)) => a.merges_to(b, Ok(m)),
                Ok(_) => false,
                Err(e) => a.merges_to(b, Err(e)),
            },
            (AnchorSet::Taptet(tapret), AnchorSet::Opret(opret)) => r == if tapret.txid.bytes@
                == opret.txid.bytes@ {
                Ok::<Self, MergeError>(AnchorSet::Dual { tapret, opret })
            } else {
                Err(MergeError::ProofMismatch)
            },
            (AnchorSet::Opret(opret), AnchorSet::Taptet(tapret)) => r == if tapret.txid.bytes@
                == opret.txid.bytes@ {
                Ok::<Self, MergeError>(AnchorSet::Dual { tapret, opret })
            } else {
                Err(MergeError::ProofMismatch)
            },
            (AnchorSet::Dual { tapret, opret }, AnchorSet::Taptet(t)) => match r {
                Ok(AnchorSet::Dual { tapret: m, opret: o }) => o == opret && tapret.merges_to(t, Ok(m)),
                Ok(_) => false,
                Err(e) => tapret.merges_to(t, Err(e)),
            },
            (AnchorSet::Taptet(t), AnchorSet::Dual { tapret, opret }) => match r {
                Ok(AnchorSet::Dual { tapret: m, opret: o }) => o == opret && t.merges_to(tapret, Ok(m)),
                Ok(_) => false,
                Err(e) => t.merges_to(tapret, Err(e)),
            },
            (AnchorSet::Dual { tapret, opret }, AnchorSet::Opret(o)) => match r {
                Ok(AnchorSet::Dual { tapret: t, opret: m }) => t == tapret && opret.merges_to(o, Ok(m)),
                Ok(_) => false,
                Err(e) => opret.merges_to(o, Err(e)),
            },
            (AnchorSet::Opret(o), AnchorSet::Dual { tapret, opret }) => match r {
                Ok(AnchorSet::Dual { tapret: t, opret: m }) => t == tapret && o.merges_to(opret, Ok(m)),
                Ok(_) => false,
                Err(e) => o.merges_to(opret, Err(e)),
            },
            (AnchorSet::Dual { tapret, opret }, AnchorSet::Dual { tapret: t, opret: o }) => match r {
                Ok(AnchorSet::Dual { tapret: mt, opret: mo }) => tapret.merges_to(t, Ok(mt))
                    && opret.merges_to(o, Ok(mo)),
                Ok(_) => false,
                Err(e) => tapret.merges_to(t, Err(e)) || opret.merges_to(o, Err(e)),
            },
        }
    }

    pub fn merge_reveal(self, other: Self) -> (r: Result<Self, MergeError>)
        ensures
            self.merges_to(other, r),
    {
        match (self, other) {
            (AnchorSet::Taptet(a), AnchorSet::Taptet(b)) => match a.merge_reveal(b) {
                Ok(m) => Ok(AnchorSet::Taptet(m)),
                Err(e) => Err(e),
            },
            (AnchorSet::Opret(a), AnchorSet::Opret(b)) => match a.merge_reveal(b) {
                Ok(m) => Ok(AnchorSet::Opret(m)),
                Err(e) => Err(e),
            },
            (AnchorSet::Taptet(tapret), AnchorSet::Opret(opret)) => if tapret.txid == opret.txid {
                Ok(AnchorSet::Dual { tapret, opret })
            } else {
                Err(MergeError::ProofMismatch)
            },
            (AnchorSet::Opret(opret), AnchorSet::Taptet(tapret)) => if tapret.txid == opret.txid {
                Ok(AnchorSet::Dual { tapret, opret })
            } else {
                Err(MergeError::ProofMismatch)
            },
            (AnchorSet::Dual { tapret, opret }, AnchorSet::Taptet(t)) => match tapret.merge_reveal(t) {
                Ok(m) => Ok(AnchorSet::Dual { tapret: m, opret }),
                Err(e) => Err(e),
            },
            (AnchorSet::Taptet(t), AnchorSet::Dual { tapret, opret }) => match t.merge_reveal(tapret) {
                Ok(m) => Ok(AnchorSet::Dual { tapret: m, opret }),
                Err(e) => Err(e),
            },
            (AnchorSet::Dual { tapret, opret }, AnchorSet::Opret(o)) => match opret.merge_reveal(o) {
                Ok(m) => Ok(AnchorSet::Dual { tapret, opret: m }),
                Err(e) => Err(e),
            },
            (AnchorSet::Opret(o), AnchorSet::Dual { tapret, opret }) => match o.merge_reveal(opret) {
                Ok(m) => Ok(AnchorSet::Dual { tapret, opret: m }),
                Err(e) => Err(e),
            },
            (AnchorSet::Dual { tapret, opret }, AnchorSet::Dual { tapret: t, opret: o }) => match tapret.merge_reveal(t) {
                Ok(mt) => match opret.merge_reveal(o) {
                    Ok(mo) => Ok(AnchorSet::Dual { tapret: mt, opret: mo }),
                    Err(e) => Err(e),
                },
                Err(e) => Err(e),
            },
        }
    }
}

/// An anchor set on a given base layer.
#[derive(Clone, PartialEq, Eq, Debug)]
pub enum Anchor<P> {
    Bitcoin(AnchorSet<P>),
    Liquid(AnchorSet<P>),
}

/// The wire tags of the anchor variants.
pub const ANCHOR_BITCOIN: u8 = 0x00;
pub const ANCHOR_LIQUID: u8 = 0x01;

impl<P> Anchor<P> {
    pub open spec fn spec_layer1(self) -> Layer1 {
        match self {
            Anchor::Bitcoin(_) => Layer1::Bitcoin,
            Anchor::Liquid(_) => Layer1::Liquid,
        }
    }

    pub open spec fn spec_anchor_set(self) -> AnchorSet<P> {
        match self {
            Anchor::Bitcoin(a) => a,
            Anchor::Liquid(a) => a,
        }
    }

    /// The anchor set, whatever the layer.
    pub fn deref(&self) -> (r: &AnchorSet<P>)
        ensures
            *r == self.spec_anchor_set(),
    {
        match self {
            Anchor::Bitcoin(a) => a,
            Anchor::Liquid(a) => a,
        }
    }

    pub fn layer1(&self) -> (r: Layer1)
        ensures
            r == self.spec_layer1(),
    {
        match self {
            Anchor::Bitcoin(_) => Layer1::Bitcoin,
            Anchor::Liquid(_) => Layer1::Liquid,
        }
    }

    /// The witness of the anchor: its layer with the common txid, if the
    /// anchor set has one.
    pub fn witness_id(&self) -> (r: Option<WitnessId>)
        ensures
            r == (match self.spec_anchor_set().spec_txid() {
                Some(t) => Some(match self.spec_layer1() {
                    Layer1::Bitcoin => WitnessId::Bitcoin(t),
                    Layer1::Liquid => WitnessId::Liquid(t),
                }),
                None => None,
            }),
    {
        match self {
            Anchor::Bitcoin(a) => match a.txid() {
                Some(t) => Some(WitnessId::Bitcoin(t)),
                None => None,
            },
            Anchor::Liquid(a) => match a.txid() {
                Some(t) => Some(WitnessId::Liquid(t)),
                None => None,
            },
        }
    }

    /// The wire tag of the layer.
    pub fn tag_byte(&self) -> (r: u8)
        ensures
            r == self.spec_layer1().byte(),
    {
        self.layer1().to_u8()
    }

    /// Converts the anchor set with `f`, keeping the layer.
    pub fn map<Q, E, F: FnOnce(AnchorSet<P>) -> Result<AnchorSet<Q>, E>>(self, f: F) -> (r: Result<
        Anchor<Q>,
        E,
    >)
        requires
            f.requires((self.spec_anchor_set(),)),
        ensures
            match r {
                Ok(a) => a.spec_layer1() == self.spec_layer1() && f.ensures(
                    (self.spec_anchor_set(),),
                    Ok(a.spec_anchor_set()),
                ),
                Err(e) => f.ensures((self.spec_anchor_set(),), Err(e)),
            },
    {
        match self {
            Anchor::Bitcoin(set) => match f(set) {
                Ok(s) => Ok(Anchor::Bitcoin(s)),
                Err(e) => Err(e),
            },
            Anchor::Liquid(set) => match f(set) {
                Ok(s) => Ok(Anchor::Liquid(s)),
                Err(e) => Err(e),
            },
        }
    }
}

impl<P: MergeReveal> Anchor<P> {
    /// Anchors on different layers never merge; on one layer their anchor
    /// sets merge.
    pub open spec fn merges_to(self, other: Self, r: Result<Self, MergeError>) -> bool {
        match (self, other) {
            (Anchor::Bitcoin(a), Anchor::Bitcoin(b)) => match r {
                Ok(Anchor::Bitcoin(m)) => a.merges_to(b, Ok(m)),
                Ok(_) => false,
                Err(e) => a.merges_to(b, Err(e)),
            },
            (Anchor::Liquid(a), Anchor::Liquid(b)) => match r {
                Ok(Anchor::Liquid(m)) => a.merges_to(b, Ok(m)),
                Ok(_) => false,
                Err(e) => a.merges_to(b, Err(e)),
            },
            _ => r == Err::<Self, MergeError>(MergeError::ProofMismatch),
        }
    }

    pub fn merge_reveal(self, other: Self) -> (r: Result<Self, MergeError>)
        ensures
            self.merges_to(other, r),
            self.spec_layer1() != other.spec_layer1() ==> r == Err::<Self, MergeError>(MergeError::ProofMismatch),
    {
        match (self, other) {
            (Anchor::Bitcoin(a), Anchor::Bitcoin(b)) => match a.merge_reveal(b) {
                Ok(m) => Ok(Anchor::Bitcoin(m)),
                Err(e) => Err(e),
            },
            (Anchor::Liquid(a), Anchor::Liquid(b)) => match a.merge_reveal(b) {
                Ok(m) => Ok(Anchor::Liquid(m)),
                Err(e) => Err(e),
            },
            _ => Err(MergeError::ProofMismatch),
        }
    }
}

/// A transition bundle together with the anchor committing to it.
#[derive(Clone, PartialEq, Eq, Debug)]
pub struct AnchoredBundle {
    pub anchor: Anchor<MpcProof>,
    pub bundle: TransitionBundle,
}

} // verus!
