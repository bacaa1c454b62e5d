//! Validation status: the failures, warnings and notes collected while a
//! consignment is validated, and the validity derived from them.

use vstd::prelude::*;

use crate::data::RevealedData;
use crate::ids::{
    AssignmentType, BundleId, ExtensionType, FungibleType, GlobalStateType, OpId, OpType, Opout,
    SchemaId, SecretSeal, StateType, TransitionType, Txid, ValencyType,
};
use crate::schema::OccurrencesError;

verus! {

/// Outcome of a validation run.
#[derive(Clone, Copy, PartialEq, Eq, PartialOrd, Ord, Debug, Structural)]
pub enum Validity {
    Valid,
    ValidExceptEndpoints,
    UnresolvedTransactions,
    Invalid,
}

/// What a failed seal or anchor check reported.
#[derive(Clone, PartialEq, Eq, Debug)]
pub enum VerifyError {
    /// The witness transaction does not spend the seal's outpoint.
    WitnessMismatch,
    /// The commitment is not embedded in the witness transaction.
    CommitmentMissing,
    /// Any other reason, in words.
    Other(String),
}

/// A reason for which a consignment is invalid.
#[derive(Clone, PartialEq, Eq, Debug)]
pub enum Failure {
    SchemaUnknown(SchemaId),
    /// The schema is a subschema, so its root schema must be provided.
    SchemaRootRequired(SchemaId),
    /// The root schema has a root of its own, which is prohibited.
    SchemaRootHierarchy,
    SchemaRootNoFieldTypeMatch(GlobalStateType),
    SchemaRootNoOwnedRightTypeMatch(AssignmentType),
    SchemaRootNoPublicRightTypeMatch(ValencyType),
    SchemaRootNoTransitionTypeMatch(TransitionType),
    SchemaRootNoExtensionTypeMatch(ExtensionType),
    SchemaRootNoMetadataMatch(OpType, GlobalStateType),
    SchemaRootNoParentOwnedRightsMatch(OpType, AssignmentType),
    SchemaRootNoParentPublicRightsMatch(OpType, ValencyType),
    SchemaRootNoOwnedRightsMatch(OpType, AssignmentType),
    SchemaRootNoPublicRightsMatch(OpType, ValencyType),
    SchemaUnknownExtensionType(OpId, ExtensionType),
    SchemaUnknownTransitionType(OpId, TransitionType),
    SchemaUnknownFieldType(OpId, GlobalStateType),
    SchemaUnknownOwnedRightType(OpId, AssignmentType),
    SchemaUnknownPublicRightType(OpId, ValencyType),
    SchemaDeniedScriptExtension(OpId),
    SchemaMetaValueTooSmall(GlobalStateType),
    SchemaMetaValueTooLarge(GlobalStateType),
    SchemaStateValueTooSmall(AssignmentType),
    SchemaStateValueTooLarge(AssignmentType),
    SchemaWrongEnumValue { field_or_state_type: u16, unexpected: u8 },
    SchemaWrongDataLength { field_or_state_type: u16, max_expected: u16, found: usize },
    SchemaMismatchedDataType(u16),
    SchemaMetaOccurrencesError(OpId, GlobalStateType, OccurrencesError),
    SchemaParentOwnedRightOccurrencesError(OpId, AssignmentType, OccurrencesError),
    SchemaOwnedRightOccurrencesError(OpId, AssignmentType, OccurrencesError),
    SchemaScriptOverrideDenied,
    SchemaScriptVmChangeDenied,
    SchemaTypeSystem,
    OperationAbsent(OpId),
    TransitionAbsent(OpId),
    /// The bundle with this id is invalid.
    BundleInvalid(BundleId),
    /// The transition is not anchored.
    NotAnchored(OpId),
    /// The anchor of the transition does not commit to the transition data.
    NotInAnchor(OpId, Txid),
    /// The transition references a state type absent from the outputs of
    /// the previous operation.
    NoPrevState { opid: OpId, prev_id: OpId, state_type: AssignmentType },
    /// The transition references a previous output that does not exist.
    NoPrevOut(OpId, Opout),
    /// A seal in the history is confidential and cannot be validated.
    ConfidentialSeal(Opout),
    /// The transition is not part of the multi-protocol commitment of the witness.
    MpcInvalid(OpId, Txid),
    /// The witness transaction is not known to the resolver.
    SealNoWitnessTx(Txid),
    /// The transition does not close a seal with the witness transaction.
    SealInvalid(OpId, Txid, VerifyError),
    /// The transition is not properly anchored to the witness transaction.
    AnchorInvalid(OpId, Txid, VerifyError),
    /// A valency redeemed by a state extension references a missing operation.
    ValencyNoParent { opid: OpId, prev_id: OpId, valency: ValencyType },
    /// A state extension references a valency absent in the parent.
    NoPrevValency { opid: OpId, prev_id: OpId, valency: ValencyType },
    /// State of one type where the schema requires another.
    StateTypeMismatch {
        opid: OpId,
        state_type: AssignmentType,
        expected: StateType,
        found: StateType,
    },
    /// Fungible state of one encoding where the schema requires another.
    FungibleTypeMismatch {
        opid: OpId,
        state_type: AssignmentType,
        expected: FungibleType,
        found: FungibleType,
    },
    InvalidStateDataType(OpId, u16, RevealedData),
    InvalidStateDataValue(OpId, u16, Vec<u8>),
    /// Invalid range proofs.
    BulletproofsInvalid(OpId, u16, String),
    /// The script rejected the operation.
    ScriptFailure(OpId, String),
    /// Custom failure raised by services built on top of the core.
    Custom(String),
}

/// A finding that does not make a consignment invalid.
#[derive(Clone, PartialEq, Eq, Debug)]
pub enum Warning {
    EndpointDuplication(OpId, SecretSeal),
    EndpointTransitionSealNotFound(OpId, SecretSeal),
    ExcessiveNode(OpId),
    EndpointTransactionMissed(Txid),
    /// Custom warning raised by services built on top of the core.
    Custom(String),
}

/// A note made during validation.
#[derive(Clone, PartialEq, Eq, Debug)]
pub enum Info {
    UncheckableConfidentialState(OpId, u16),
    /// Custom note raised by services built on top of the core.
    Custom(String),
}

/// Everything collected by a validation run.
#[derive(Debug)]
pub struct Status {
    pub unresolved_txids: Vec<Txid>,
    pub unmined_endpoint_txids: Vec<Txid>,
    pub failures: Vec<Failure>,
    pub warnings: Vec<Warning>,
    pub info: Vec<Info>,
}

/// The five lists of a status, as sequences.
pub type StatusView = (Seq<Txid>, Seq<Txid>, Seq<Failure>, Seq<Warning>, Seq<Info>);

impl View for Status {
    type V = StatusView;

    open spec fn view(&self) -> StatusView {
        (
            self.unresolved_txids@,
            self.unmined_endpoint_txids@,
            self.failures@,
            self.warnings@,
            self.info@,
        )
    }
}

/// The status with nothing in it.
pub open spec fn status_empty() -> StatusView {
    (Seq::empty(), Seq::empty(), Seq::empty(), Seq::empty(), Seq::empty())
}

/// `a + b`: each list of `a` followed by the same list of `b`.
pub open spec fn status_combine(a: StatusView, b: StatusView) -> StatusView {
    (a.0 + b.0, a.1 + b.1, a.2 + b.2, a.3 + b.3, a.4 + b.4)
}

/// The validity of a status.
pub open spec fn validity_of(s: StatusView) -> Validity {
    if s.2.len() == 0 {
        if s.1.len() == 0 {
            Validity::Valid
        } else {
            Validity::ValidExceptEndpoints
        }
    } else if s.0.len() == 0 {
        Validity::Invalid
    } else {
        Validity::UnresolvedTransactions
    }
}

impl Status {
    pub fn new() -> (r: Status)
        ensures
            r@ == status_empty(),
    {
        Status {
            unresolved_txids: Vec::new(),
            unmined_endpoint_txids: Vec::new(),
            failures: Vec::new(),
            warnings: Vec::new(),
            info: Vec::new(),
        }
    }

    /// A status holding the single failure `v`.
    pub fn from_error(v: Failure) -> (r: Status)
        ensures
            r@ == (Seq::<Txid>::empty(), Seq::<Txid>::empty(), seq![v], Seq::<Warning>::empty(), Seq::<Info>::empty()),
    {
        let mut r = Status::new();
        r.failures.push(v);
        proof {
            assert(r.failures@ =~= seq![v]);
        }
        r
    }

    /// A status holding the single failure `failure`.
    pub fn with_failure(failure: Failure) -> (r: Status)
        ensures
            r@ == (Seq::<Txid>::empty(), Seq::<Txid>::empty(), seq![failure], Seq::<Warning>::empty(), Seq::<Info>::empty()),
    {
        Status::from_error(failure)
    }

    /// A status holding the given failures, in order.
    pub fn from_iter(failures: Vec<Failure>) -> (r: Status)
        ensures
            r@ == (Seq::<Txid>::empty(), Seq::<Txid>::empty(), failures@, Seq::<Warning>::empty(), Seq::<Info>::empty()),
    {
        Status {
            unresolved_txids: Vec::new(),
            unmined_endpoint_txids: Vec::new(),
            failures,
            warnings: Vec::new(),
            info: Vec::new(),
        }
    }

    /// `self += rhs`: appends each list of `rhs` to the same list of `self`.
    pub fn add_assign(&mut self, rhs: Status)
        ensures
            final(self)@ == status_combine(old(self)@, rhs@),
    {
        let mut rhs = rhs;
        self.unresolved_txids.append(&mut rhs.unresolved_txids);
        self.unmined_endpoint_txids.append(&mut rhs.unmined_endpoint_txids);
        self.failures.append(&mut rhs.failures);
        self.warnings.append(&mut rhs.warnings);
        self.info.append(&mut rhs.info);
    }

    pub fn add_failure(&mut self, failure: Failure) -> (r: &Status)
        ensures
            r@ == final(self)@,
            final(self)@ == (old(self)@.0, old(self)@.1, old(self)@.2.push(failure), old(self)@.3, old(self)@.4),
    {
        self.failures.push(failure);
        self
    }

    pub fn add_warning(&mut self, warning: Warning) -> (r: &Status)
        ensures
            r@ == final(self)@,
            final(self)@ == (old(self)@.0, old(self)@.1, old(self)@.2, old(self)@.3.push(warning), old(self)@.4),
    {
        self.warnings.push(warning);
        self
    }

    pub fn add_info(&mut self, info: Info) -> (r: &Status)
        ensures
            r@ == final(self)@,
            final(self)@ == (old(self)@.0, old(self)@.1, old(self)@.2, old(self)@.3, old(self)@.4.push(info)),
    {
        self.info.push(info);
        self
    }

    /// Validity: valid without failures (except endpoints when some
    /// endpoint witness is unmined); with failures, invalid unless some
    /// witness transaction could not be resolved.
    pub fn validity(&self) -> (r: Validity)
        ensures
            r == validity_of(self@),
    {
        if self.failures.len() == 0 {
            if self.unmined_endpoint_txids.len() == 0 {
                Validity::Valid
            } else {
                Validity::ValidExceptEndpoints
            }
        } else if self.unresolved_txids.len() == 0 {
            Validity::Invalid
        } else {
            Validity::UnresolvedTransactions
        }
    }
}

impl Default for Status {
    fn default() -> (r: Status)
        ensures
            r@ == status_empty(),
    {
        Status::new()
    }
}

/// Statuses form a monoid under `+=`: combining is associative and the
/// empty status is its identity on both sides.
pub proof fn lemma_status_monoid(a: StatusView, b: StatusView, c: StatusView)
    ensures
        status_combine(status_combine(a, b), c) == status_combine(a, status_combine(b, c)),
        status_combine(a, status_empty()) == a,
        status_combine(status_empty(), a) == a,
{
    assert(a.0 + b.0 + c.0 =~= a.0 + (b.0 + c.0));
    assert(a.1 + b.1 + c.1 =~= a.1 + (b.1 + c.1));
    assert(a.2 + b.2 + c.2 =~= a.2 + (b.2 + c.2));
    assert(a.3 + b.3 + c.3 =~= a.3 + (b.3 + c.3));
    assert(a.4 + b.4 + c.4 =~= a.4 + (b.4 + c.4));
    assert(a.0 + Seq::empty() =~= a.0);
    assert(a.1 + Seq::empty() =~= a.1);
    assert(a.2 + Seq::empty() =~= a.2);
    assert(a.3 + Seq::empty() =~= a.3);
    assert(a.4 + Seq::empty() =~= a.4);
    assert(Seq::empty() + a.0 =~= a.0);
    assert(Seq::empty() + a.1 =~= a.1);
    assert(Seq::empty() + a.2 =~= a.2);
    assert(Seq::empty() + a.3 =~= a.3);
    assert(Seq::empty() + a.4 =~= a.4);
}

/// The validity of a combined status: failures in either part make it
/// invalid or unresolved, and an unresolved transaction in either part makes
/// a failing status unresolved rather than invalid.
pub proof fn lemma_validity_of_combine(a: StatusView, b: StatusView)
    ensures
        validity_of(status_combine(a, b)) == Validity::Valid <==> (validity_of(a) == Validity::Valid
            && validity_of(b) == Validity::Valid),
        (a.2.len() > 0 || b.2.len() > 0) ==> (validity_of(status_combine(a, b)) == if a.0.len() + b.0.len() == 0 {
            Validity::Invalid
        } else {
            Validity::UnresolvedTransactions
        }),
{
}

} // verus!
