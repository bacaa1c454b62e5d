//! Identifiers and small value types shared by the contract model.
//!
//! Every identifier is a 32-byte digest; the digests themselves are
//! computed in `data` and `operation`.

use vstd::prelude::*;

verus! {

/// Byte-wise equality of two digests.
pub fn digest_eq(a: &[u8; 32], b: &[u8; 32]) -> (r: bool)
    ensures
        r == (a@ == b@),
{
    let mut i: usize = 0;
    while i < 32
        invariant
            i <= 32,
            a@.len() == 32,
            b@.len() == 32,
            a@.subrange(0, i as int) == b@.subrange(0, i as int),
        decreases 32 - i,
    {
        if a[i] != b[i] {
            assert(a@[i as int] != b@[i as int]);
            return false;
        }
        assert(a@.subrange(0, i + 1) =~= a@.subrange(0, i as int).push(a@[i as int]));
        assert(b@.subrange(0, i + 1) =~= b@.subrange(0, i as int).push(b@[i as int]));
        i = i + 1;
    }
    assert(a@ =~= a@.subrange(0, 32));
    assert(b@ =~= b@.subrange(0, 32));
    true
}

/// Identifier of a base-layer transaction.
#[derive(Clone, Copy, Eq, PartialOrd, Ord, Hash, Debug)]
pub struct Txid {
    pub bytes: [u8; 32],
}

/// Identifier of an operation (genesis, state transition or state extension).
#[derive(Clone, Copy, Eq, PartialOrd, Ord, Hash, Debug)]
pub struct OpId {
    pub bytes: [u8; 32],
}

/// Identifier of a transition bundle.
#[derive(Clone, Copy, Eq, PartialOrd, Ord, Hash, Debug)]
pub struct BundleId {
    pub bytes: [u8; 32],
}

/// Identifier of a schema.
#[derive(Clone, Copy, Eq, PartialOrd, Ord, Hash, Debug)]
pub struct SchemaId {
    pub bytes: [u8; 32],
}

/// A concealed single-use seal: the hash of the revealed seal.
#[derive(Clone, Copy, Eq, PartialOrd, Ord, Hash, Debug)]
pub struct SecretSeal {
    pub bytes: [u8; 32],
}

/// Type of a global state entry declared by a schema.
#[derive(Clone, Copy, PartialEq, Eq, PartialOrd, Ord, Hash, Debug, Structural)]
pub struct GlobalStateType(pub u16);

/// Type of an owned assignment declared by a schema.
#[derive(Clone, Copy, PartialEq, Eq, PartialOrd, Ord, Hash, Debug, Structural)]
pub struct AssignmentType(pub u16);

/// Type of a public right (valency) declared by a schema.
#[derive(Clone, Copy, PartialEq, Eq, PartialOrd, Ord, Hash, Debug, Structural)]
pub struct ValencyType(pub u16);

/// Type of a state transition declared by a schema.
#[derive(Clone, Copy, PartialEq, Eq, PartialOrd, Ord, Hash, Debug, Structural)]
pub struct TransitionType(pub u16);

/// Type of a state extension declared by a schema.
#[derive(Clone, Copy, PartialEq, Eq, PartialOrd, Ord, Hash, Debug, Structural)]
pub struct ExtensionType(pub u16);

/// The three kinds of operation.
#[derive(Clone, Copy, PartialEq, Eq, PartialOrd, Ord, Hash, Debug, Structural)]
pub enum OpType {
    Genesis,
    StateTransition,
    StateExtension,
}

/// The four kinds of state.
#[derive(Clone, Copy, PartialEq, Eq, PartialOrd, Ord, Hash, Debug, Structural)]
pub enum StateType {
    Void,
    Fungible,
    Structured,
    Attachment,
}

/// Encodings of fungible amounts.
#[derive(Clone, Copy, PartialEq, Eq, PartialOrd, Ord, Hash, Debug, Structural)]
pub enum FungibleType {
    Unsigned64Bit,
}

/// One output of one operation: `(operation, assignment type, index)`.
#[derive(Clone, Copy, PartialEq, Eq, PartialOrd, Ord, Hash, Debug)]
pub struct Opout {
    pub op: OpId,
    pub ty: AssignmentType,
    pub no: u16,
}

impl PartialEq for Txid {
    fn eq(&self, o: &Txid) -> (r: bool) {
        digest_eq(&self.bytes, &o.bytes)
    }
}

impl vstd::std_specs::cmp::PartialEqSpecImpl for Txid {
    open spec fn obeys_eq_spec() -> bool {
        true
    }

    open spec fn eq_spec(&self, o: &Txid) -> bool {
        self.bytes@ == o.bytes@
    }
}

impl PartialEq for OpId {
    fn eq(&self, o: &OpId) -> (r: bool) {
        digest_eq(&self.bytes, &o.bytes)
    }
}

impl vstd::std_specs::cmp::PartialEqSpecImpl for OpId {
    open spec fn obeys_eq_spec() -> bool {
        true
    }

    open spec fn eq_spec(&self, o: &OpId) -> bool {
        self.bytes@ == o.bytes@
    }
}

impl PartialEq for BundleId {
    fn eq(&self, o: &BundleId) -> (r: bool) {
        digest_eq(&self.bytes, &o.bytes)
    }
}

impl vstd::std_specs::cmp::PartialEqSpecImpl for BundleId {
    open spec fn obeys_eq_spec() -> bool {
        true
    }

    open spec fn eq_spec(&self, o: &BundleId) -> bool {
        self.bytes@ == o.bytes@
    }
}

impl PartialEq for SchemaId {
    fn eq(&self, o: &SchemaId) -> (r: bool) {
        digest_eq(&self.bytes, &o.bytes)
    }
}

impl vstd::std_specs::cmp::PartialEqSpecImpl for SchemaId {
    open spec fn obeys_eq_spec() -> bool {
        true
    }

    open spec fn eq_spec(&self, o: &SchemaId) -> bool {
        self.bytes@ == o.bytes@
    }
}

impl PartialEq for SecretSeal {
    fn eq(&self, o: &SecretSeal) -> (r: bool) {
        digest_eq(&self.bytes, &o.bytes)
    }
}

impl vstd::std_specs::cmp::PartialEqSpecImpl for SecretSeal {
    open spec fn obeys_eq_spec() -> bool {
        true
    }

    open spec fn eq_spec(&self, o: &SecretSeal) -> bool {
        self.bytes@ == o.bytes@
    }
}

} // verus!
