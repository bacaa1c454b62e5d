//! Read-only access to the operation graph of a consignment, and an
//! adaptor that re-checks the ids of what a provider hands out.

use vstd::prelude::*;

use crate::anchor::{Anchor, Layer1, MpcProof, WitnessId};
use crate::ids::{AssignmentType, BundleId, GlobalStateType, OpId, SchemaId, SecretSeal, StateType, ValencyType};
use crate::operation::{
    bundle_id, operation_id, Operation, TransitionBundle, INPUT_MAP_MAX_LEN, OPERATION_BODY_MAX_LEN,
};
use crate::schema::Occurences;

verus! {

/// The schema a contract follows: its declared state and right types.
#[derive(Clone, PartialEq, Eq, Debug)]
pub struct Schema {
    pub schema_id: SchemaId,
    pub root_id: Option<SchemaId>,
    pub global_types: Vec<(GlobalStateType, Occurences<u16>)>,
    pub owned_types: Vec<(AssignmentType, StateType)>,
    pub valency_types: Vec<ValencyType>,
}

/// Tag of a confidential asset.
#[derive(Clone, Copy, PartialEq, Eq, PartialOrd, Ord, Hash, Debug)]
pub struct AssetTag {
    pub bytes: [u8; 32],
}

/// A witness and the anchor it carries.
#[derive(Clone, PartialEq, Eq, Debug)]
pub struct Grip {
    pub witness_id: WitnessId,
    pub anchor: Anchor<MpcProof>,
}

/// An endpoint of a consignment: a bundle and a concealed seal on a layer.
#[derive(Clone, Copy, PartialEq, Eq, PartialOrd, Ord, Hash, Debug)]
pub struct Terminal {
    pub bundle_id: BundleId,
    pub layer1: Layer1,
    pub seal: SecretSeal,
}

/// Data access to the contract graph of a consignment or a stash.
///
/// An implementation does not check consistency, schema conformance or
/// validity: on absent or invalid data it returns `None` or an empty list.
pub trait ConsignmentApi {
    spec fn spec_schema(&self) -> Schema;

    spec fn spec_asset_tags(&self) -> Seq<(AssignmentType, AssetTag)>;

    spec fn spec_operation(&self, opid: OpId) -> Option<Operation>;

    spec fn spec_genesis(&self) -> Operation;

    spec fn spec_terminals(&self) -> Seq<Terminal>;

    spec fn spec_bundle_ids(&self) -> Seq<BundleId>;

    spec fn spec_bundle(&self, bundle_id: BundleId) -> Option<TransitionBundle>;

    spec fn spec_grip(&self, bundle_id: BundleId) -> Option<Grip>;

    spec fn spec_op_witness_id(&self, opid: OpId) -> Option<WitnessId>;

    /// The schema of the contract.
    fn schema(&self) -> (r: &Schema)
        ensures
            *r == self.spec_schema(),
    ;

    /// Asset tags used in confidential asset validation.
    fn asset_tags(&self) -> (r: &Vec<(AssignmentType, AssetTag)>)
        ensures
            r@ == self.spec_asset_tags(),
    ;

    /// The operation with this id, if present.
    fn operation(&self, opid: OpId) -> (r: Option<&Operation>)
        ensures
            match r {
                Some(op) => self.spec_operation(opid) == Some(*op),
                None => self.spec_operation(opid) is None,
            },
    ;

    /// The contract genesis.
    fn genesis(&self) -> (r: &Operation)
        ensures
            *r == self.spec_genesis(),
    ;

    /// The endpoints: where the receiver's state lies.
    fn terminals(&self) -> (r: Vec<Terminal>)
        ensures
            r@ == self.spec_terminals(),
    ;

    /// The ids of all bundles present.
    fn bundle_ids(&self) -> (r: Vec<BundleId>)
        ensures
            r@ == self.spec_bundle_ids(),
    ;

    /// The bundle with this id, if present.
    fn bundle(&self, bundle_id: BundleId) -> (r: Option<&TransitionBundle>)
        ensures
            match r {
                Some(b) => self.spec_bundle(bundle_id) == Some(*b),
                None => self.spec_bundle(bundle_id) is None,
            },
    ;

    /// The witness and anchor of the bundle with this id, if present.
    fn grip(&self, bundle_id: BundleId) -> (r: Option<&Grip>)
        ensures
            match r {
                Some(g) => self.spec_grip(bundle_id) == Some(*g),
                None => self.spec_grip(bundle_id) is None,
            },
    ;

    /// The witness of the operation with this id, if known.
    fn op_witness_id(&self, opid: OpId) -> (r: Option<WitnessId>)
        ensures
            r == self.spec_op_witness_id(opid),
    ;
}

/// Wraps a provider and hands out an operation or a bundle only when its
/// recomputed id is the one asked for.
pub struct CheckedConsignment<'consignment, C: ConsignmentApi> {
    pub inner: &'consignment C,
}

/// The operation a checked consignment hands out for `opid`, given what the
/// provider returned.
pub open spec fn checked_operation(provided: Option<Operation>, opid: OpId) -> Option<Operation> {
    match provided {
        Some(op) => if op.body@.len() <= OPERATION_BODY_MAX_LEN && operation_id(op@) == opid.bytes@ {
            Some(op)
        } else {
            None
        },
        None => None,
    }
}

/// The bundle a checked consignment hands out for `id`, given what the
/// provider returned.
pub open spec fn checked_bundle(provided: Option<TransitionBundle>, id: BundleId) -> Option<TransitionBundle> {
    match provided {
        Some(b) => if b.input_map@.len() <= INPUT_MAP_MAX_LEN && bundle_id(b.input_map_view()) == id.bytes@ {
            Some(b)
        } else {
            None
        },
        None => None,
    }
}

impl<'consignment, C: ConsignmentApi> CheckedConsignment<'consignment, C> {
    pub fn new(consignment: &'consignment C) -> (r: Self)
        ensures
            r.inner == consignment,
    {
        CheckedConsignment { inner: consignment }
    }
}

impl<'consignment, C: ConsignmentApi> ConsignmentApi for CheckedConsignment<'consignment, C> {
    open spec fn spec_schema(&self) -> Schema {
        self.inner.spec_schema()
    }

    open spec fn spec_asset_tags(&self) -> Seq<(AssignmentType, AssetTag)> {
        self.inner.spec_asset_tags()
    }

    open spec fn spec_operation(&self, opid: OpId) -> Option<Operation> {
        checked_operation(self.inner.spec_operation(opid), opid)
    }

    open spec fn spec_genesis(&self) -> Operation {
        self.inner.spec_genesis()
    }

    open spec fn spec_terminals(&self) -> Seq<Terminal> {
        self.inner.spec_terminals()
    }

    open spec fn spec_bundle_ids(&self) -> Seq<BundleId> {
        self.inner.spec_bundle_ids()
    }

    open spec fn spec_bundle(&self, bundle_id: BundleId) -> Option<TransitionBundle> {
        checked_bundle(self.inner.spec_bundle(bundle_id), bundle_id)
    }

    open spec fn spec_grip(&self, bundle_id: BundleId) -> Option<Grip> {
        self.inner.spec_grip(bundle_id)
    }

    open spec fn spec_op_witness_id(&self, opid: OpId) -> Option<WitnessId> {
        self.inner.spec_op_witness_id(opid)
    }

    fn schema(&self) -> (r: &Schema) {
        self.inner.schema()
    }

    fn asset_tags(&self) -> (r: &Vec<(AssignmentType, AssetTag)>) {
        self.inner.asset_tags()
    }

    fn operation(&self, opid: OpId) -> (r: Option<&Operation>) {
        match self.inner.operation(opid) {
            Some(op) => {
                if op.body.len() <= OPERATION_BODY_MAX_LEN && op.id() == opid {
                    Some(op)
                } else {
                    None
                }
            },
            None => None,
        }
    }

    fn genesis(&self) -> (r: &Operation) {
        self.inner.genesis()
    }

    fn terminals(&self) -> (r: Vec<Terminal>) {
        self.inner.terminals()
    }

    fn bundle_ids(&self) -> (r: Vec<BundleId>) {
        self.inner.bundle_ids()
    }

    fn bundle(&self, bundle_id: BundleId) -> (r: Option<&TransitionBundle>) {
        match self.inner.bundle(bundle_id) {
            Some(b) => {
                if b.input_map.len() <= INPUT_MAP_MAX_LEN && b.bundle_id() == bundle_id {
                    Some(b)
                } else {
                    None
                }
            },
            None => None,
        }
    }

    fn grip(&self, bundle_id: BundleId) -> (r: Option<&Grip>) {
        self.inner.grip(bundle_id)
    }

    fn op_witness_id(&self, opid: OpId) -> (r: Option<WitnessId>) {
        self.inner.op_witness_id(opid)
    }
}

/// The value stored under `key` in a list of keyed entries: the first
/// entry with that key.
pub open spec fn lookup<V>(s: Seq<([u8; 32], V)>, key: Seq<u8>) -> Option<V>
    decreases s.len(),
{
    if s.len() == 0 {
        None
    } else if s[0].0@ == key {
        Some(s[0].1)
    } else {
        lookup(s.drop_first(), key)
    }
}

/// Finds the first entry stored under `key`.
pub fn find_entry<'a, V>(s: &'a Vec<([u8; 32], V)>, key: &[u8; 32]) -> (r: Option<&'a V>)
    ensures
        match r {
            Some(v) => lookup(s@, key@) == Some(*v),
            None => lookup(s@, key@) is None,
        },
{
    let mut i: usize = 0;
    assert(s@.subrange(0, s@.len() as int) =~= s@);
    while i < s.len()
        invariant
            i <= s@.len(),
            lookup(s@, key@) == lookup(s@.subrange(i as int, s@.len() as int), key@),
        decreases s@.len() - i,
    {
        let entry = &s[i];
        let ghost rest = s@.subrange(i as int, s@.len() as int);
        if crate::ids::digest_eq(&entry.0, key) {
            assert(rest[0] == s@[i as int]);
            return Some(&entry.1);
        }
        assert(rest.drop_first() =~= s@.subrange(i + 1, s@.len() as int));
        i = i + 1;
    }
    None
}

/// A consignment held in memory: the schema, the genesis, and lists of
/// operations, bundles, grips and operation witnesses, each entry stored
/// under the id it is claimed to have.
pub struct Consignment {
    pub schema: Schema,
    pub asset_tags: Vec<(AssignmentType, AssetTag)>,
    pub genesis: Operation,
    pub operations: Vec<([u8; 32], Operation)>,
    pub terminals: Vec<Terminal>,
    pub bundles: Vec<([u8; 32], TransitionBundle)>,
    pub grips: Vec<([u8; 32], Grip)>,
    pub witnesses: Vec<([u8; 32], WitnessId)>,
}

impl ConsignmentApi for Consignment {
    open spec fn spec_schema(&self) -> Schema {
        self.schema
    }

    open spec fn spec_asset_tags(&self) -> Seq<(AssignmentType, AssetTag)> {
        self.asset_tags@
    }

    open spec fn spec_operation(&self, opid: OpId) -> Option<Operation> {
        lookup(self.operations@, opid.bytes@)
    }

    open spec fn spec_genesis(&self) -> Operation {
        self.genesis
    }

    open spec fn spec_terminals(&self) -> Seq<Terminal> {
        self.terminals@
    }

    open spec fn spec_bundle_ids(&self) -> Seq<BundleId> {
        self.bundles@.map_values(|e: ([u8; 32], TransitionBundle)| BundleId { bytes: e.0 })
    }

    open spec fn spec_bundle(&self, bundle_id: BundleId) -> Option<TransitionBundle> {
        lookup(self.bundles@, bundle_id.bytes@)
    }

    open spec fn spec_grip(&self, bundle_id: BundleId) -> Option<Grip> {
        lookup(self.grips@, bundle_id.bytes@)
    }

    open spec fn spec_op_witness_id(&self, opid: OpId) -> Option<WitnessId> {
        lookup(self.witnesses@, opid.bytes@)
    }

    fn schema(&self) -> (r: &Schema) {
        &self.schema
    }

    fn asset_tags(&self) -> (r: &Vec<(AssignmentType, AssetTag)>) {
        &self.asset_tags
    }

    fn operation(&self, opid: OpId) -> (r: Option<&Operation>) {
        find_entry(&self.operations, &opid.bytes)
    }

    fn genesis(&self) -> (r: &Operation) {
        &self.genesis
    }

    fn terminals(&self) -> (r: Vec<Terminal>) {
        let mut out: Vec<Terminal> = Vec::new();
        let mut i: usize = 0;
        while i < self.terminals.len()
            invariant
                i <= self.terminals@.len(),
                out@ == self.terminals@.subrange(0, i as int),
            decreases self.terminals@.len() - i,
        {
            out.push(self.terminals[i]);
            assert(out@ =~= self.terminals@.subrange(0, i + 1));
            i = i + 1;
        }
        assert(out@ =~= self.terminals@);
        out
    }

    fn bundle_ids(&self) -> (r: Vec<BundleId>) {
        let mut out: Vec<BundleId> = Vec::new();
        let mut i: usize = 0;
        while i < self.bundles.len()
            invariant
                i <= self.bundles@.len(),
                out@ == self.spec_bundle_ids().subrange(0, i as int),
            decreases self.bundles@.len() - i,
        {
            out.push(BundleId { bytes: self.bundles[i].0 });
            assert(out@ =~= self.spec_bundle_ids().subrange(0, i + 1));
            i = i + 1;
        }
        assert(out@ =~= self.spec_bundle_ids());
        out
    }

    fn bundle(&self, bundle_id: BundleId) -> (r: Option<&TransitionBundle>) {
        find_entry(&self.bundles, &bundle_id.bytes)
    }

    fn grip(&self, bundle_id: BundleId) -> (r: Option<&Grip>) {
        find_entry(&self.grips, &bundle_id.bytes)
    }

    fn op_witness_id(&self, opid: OpId) -> (r: Option<WitnessId>) {
        match find_entry(&self.witnesses, &opid.bytes) {
            Some(w) => Some(*w),
            None => None,
        }
    }
}

/// A checked consignment hands out no operation and no bundle whose
/// recomputed id differs from the one asked for, whatever the provider
/// returned; what it hands out is what the provider returned.
pub proof fn lemma_checked_consignment_ids<'a, C: ConsignmentApi>(
    c: CheckedConsignment<'a, C>,
    opid: OpId,
    id: BundleId,
)
    ensures
        c.inner.spec_operation(opid) matches Some(op) && op.body@.len() <= OPERATION_BODY_MAX_LEN
            && operation_id(op@) != opid.bytes@ ==> c.spec_operation(opid) is None,
        c.inner.spec_bundle(id) matches Some(b) && b.input_map@.len() <= INPUT_MAP_MAX_LEN
            && bundle_id(b.input_map_view()) != id.bytes@ ==> c.spec_bundle(id) is None,
        c.spec_operation(opid) matches Some(op) ==> c.inner.spec_operation(opid) == Some(op)
            && operation_id(op@) == opid.bytes@,
        c.spec_bundle(id) matches Some(b) ==> c.inner.spec_bundle(id) == Some(b) && bundle_id(
            b.input_map_view(),
        ) == id.bytes@,
{
}

} // verus!
