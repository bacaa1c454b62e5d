//! Operations and transition bundles with their canonical encodings and
//! commitment identifiers.

use vstd::prelude::*;

use crate::codec::{
    copy_bytes, lemma_le_bytes_len, lemma_le_bytes_of_value, lemma_le_value_of_bytes,
    lemma_pow256_values, le_bytes, le_value, push_le, read_le, DecodeError,
};
use crate::data::{tagged_hash, tagged_sha256};
use crate::ids::{BundleId, OpId, OpType, SchemaId};

verus! {

/// Commitment tag of operation ids.
pub const OPERATION_TAG: &'static str = "urn:lnp-bp:rgb:operation#2024-02-03";

/// Commitment tag of bundle ids.
pub const BUNDLE_TAG: &'static str = "urn:lnp-bp:rgb:bundle#2024-02-03";

/// Largest length of an operation body (a `u32` length prefix).
pub const OPERATION_BODY_MAX_LEN: usize = 0xFFFF_FFFF;

/// Largest number of entries of a bundle's input map (a `u16` count).
pub const INPUT_MAP_MAX_LEN: usize = 0xFFFF;

/// An operation: its kind, the schema it follows, and the canonical
/// encoding of its globals, assignments, valencies, inputs and redeemed
/// valencies.
#[derive(Clone, PartialEq, Eq, Debug)]
pub struct Operation {
    pub op_type: OpType,
    pub schema_id: SchemaId,
    pub body: Vec<u8>,
}

pub open spec fn op_type_byte(t: OpType) -> u8 {
    match t {
        OpType::Genesis => 0,
        OpType::StateTransition => 1,
        OpType::StateExtension => 2,
    }
}

pub open spec fn op_type_of_byte(v: u8) -> Option<OpType> {
    if v == 0 {
        Some(OpType::Genesis)
    } else if v == 1 {
        Some(OpType::StateTransition)
    } else if v == 2 {
        Some(OpType::StateExtension)
    } else {
        None
    }
}

/// What an operation is, as plain values: kind, schema id bytes, body.
pub type OperationView = (OpType, Seq<u8>, Seq<u8>);

/// Canonical encoding of an operation: the kind byte, the 32 schema id
/// bytes, then the body with a `u32` little-endian length prefix.
pub open spec fn operation_encoding(v: OperationView) -> Seq<u8> {
    seq![op_type_byte(v.0)] + v.1 + le_bytes(v.2.len(), 4) + v.2
}

/// The operation whose encoding begins `bytes`.
pub open spec fn operation_decoding(bytes: Seq<u8>) -> Result<OperationView, DecodeError> {
    if bytes.len() < 37 {
        Err(DecodeError::UnexpectedEof)
    } else {
        let n = le_value(bytes.subrange(33, 37)) as int;
        match op_type_of_byte(bytes[0]) {
            None => Err(DecodeError::EnumValueNotKnown { value: bytes[0] }),
            Some(t) => if bytes.len() < 37 + n {
                Err(DecodeError::UnexpectedEof)
            } else {
                Ok((t, bytes.subrange(1, 33), bytes.subrange(37, 37 + n)))
            },
        }
    }
}

/// The id of an operation: the tagged hash of its canonical encoding.
pub open spec fn operation_id(v: OperationView) -> Seq<u8> {
    tagged_sha256(OPERATION_TAG@, operation_encoding(v))
}

impl View for Operation {
    type V = OperationView;

    open spec fn view(&self) -> OperationView {
        (self.op_type, self.schema_id.bytes@, self.body@)
    }
}

impl Operation {
    /// Canonical encoding; the body must fit a `u32` length prefix.
    pub fn strict_encode(&self) -> (r: Vec<u8>)
        requires
            self.body@.len() <= OPERATION_BODY_MAX_LEN,
        ensures
            r@ == operation_encoding(self@),
    {
        let mut out: Vec<u8> = Vec::new();
        let t: u8 = match self.op_type {
            OpType::Genesis => 0,
            OpType::StateTransition => 1,
            OpType::StateExtension => 2,
        };
        out.push(t);
        out.extend_from_slice(&self.schema_id.bytes);
        let ghost a = out@;
        proof {
            assert(a =~= seq![t] + self.schema_id.bytes@) by {
                assert forall|i: int| 1 <= i < a.len() implies a[i] == self.schema_id.bytes@[i - 1] by {
                    assert(vstd::pervasive::cloned::<u8>(self.schema_id.bytes@[i - 1], a[i]));
                }
            }
            lemma_pow256_values();
        }
        push_le(&mut out, self.body.len() as u128, 4);
        let ghost b = out@;
        out.extend_from_slice(self.body.as_slice());
        proof {
            assert(out@ =~= b + self.body@) by {
                assert forall|i: int| b.len() <= i < out@.len() implies out@[i] == self.body@[i - b.len()] by {
                    assert(vstd::pervasive::cloned::<u8>(self.body@[i - b.len()], out@[i]));
                }
            }
            assert(out@ =~= operation_encoding(self@));
        }
        out
    }

    pub fn strict_decode(bytes: &[u8]) -> (r: Result<Operation, DecodeError>)
        ensures
            match (r, operation_decoding(bytes@)) {
                (Ok(op), Ok(v)) => op@ == v,
                (Err(e), Err(f)) => e == f,
                _ => false,
            },
    {
        let len = bytes.len();
        if len < 37 {
            return Err(DecodeError::UnexpectedEof);
        }
        let n = read_le(bytes, 33, 4);
        proof {
            lemma_le_bytes_of_value(bytes@.subrange(33, 37));
            lemma_pow256_values();
        }
        let op_type = match bytes[0] {
            0 => OpType::Genesis,
            1 => OpType::StateTransition,
            2 => OpType::StateExtension,
            v => {
                return Err(DecodeError::EnumValueNotKnown { value: v });
            },
        };
        let n = n as usize;
        if len - 37 < n {
            return Err(DecodeError::UnexpectedEof);
        }
        let mut id = [0u8; 32];
        let mut i: usize = 0;
        while i < 32
            invariant
                i <= 32,
                37 <= len == bytes@.len(),
                id@.len() == 32,
                forall|j: int| 0 <= j < i ==> id@[j] == bytes@[j + 1],
            decreases 32 - i,
        {
            id[i] = bytes[i + 1];
            i = i + 1;
        }
        proof {
            assert(id@ =~= bytes@.subrange(1, 33));
        }
        let body = copy_bytes(bytes, 37, 37 + n);
        Ok(Operation { op_type, schema_id: SchemaId { bytes: id }, body })
    }

    /// The operation id: the tagged hash of the canonical encoding.
    pub fn id(&self) -> (r: OpId)
        requires
            self.body@.len() <= OPERATION_BODY_MAX_LEN,
        ensures
            r.bytes@ == operation_id(self@),
    {
        let enc = self.strict_encode();
        OpId { bytes: tagged_hash(OPERATION_TAG, enc.as_slice()) }
    }
}

/// Decoding the canonical encoding of an operation gives the same
/// operation.
pub proof fn lemma_operation_round_trip(v: OperationView)
    requires
        v.1.len() == 32,
        v.2.len() <= OPERATION_BODY_MAX_LEN,
    ensures
        operation_decoding(operation_encoding(v)) == Ok::<OperationView, DecodeError>(v),
{
    let n = v.2.len();
    let enc = operation_encoding(v);
    lemma_pow256_values();
    lemma_le_bytes_len(n, 4);
    lemma_le_value_of_bytes(n, 4);
    assert(enc.subrange(33, 37) =~= le_bytes(n, 4));
    assert(enc.subrange(1, 33) =~= v.1);
    assert(enc.subrange(37, 37 + n as int) =~= v.2);
    assert(op_type_of_byte(op_type_byte(v.0)) == Some(v.0));
}

/// An operation id survives an encode/decode round trip of the operation.
pub proof fn lemma_operation_id_stable(v: OperationView)
    requires
        v.1.len() == 32,
        v.2.len() <= OPERATION_BODY_MAX_LEN,
    ensures
        operation_decoding(operation_encoding(v)) matches Ok(w) && operation_id(w) == operation_id(v),
{
    lemma_operation_round_trip(v);
}

/// Transitions sharing one witness transaction, with the map from the
/// witness's input index to the transition spending the seal at that input.
#[derive(Clone, PartialEq, Eq, Debug)]
pub struct TransitionBundle {
    pub input_map: Vec<(u32, OpId)>,
    pub known_transitions: Vec<Operation>,
}

/// One input map entry as plain values.
pub open spec fn input_entry_view(e: (u32, OpId)) -> (u32, Seq<u8>) {
    (e.0, e.1.bytes@)
}

/// Canonical encoding of input map entries: each index as a little-endian
/// `u32`, then the 32 bytes of the operation id.
pub open spec fn input_entries_encoding(s: Seq<(u32, Seq<u8>)>) -> Seq<u8>
    decreases s.len(),
{
    if s.len() == 0 {
        Seq::empty()
    } else {
        input_entries_encoding(s.drop_last()) + le_bytes(s.last().0 as nat, 4) + s.last().1
    }
}

/// Canonical encoding of a bundle: the number of input map entries as a
/// little-endian `u16`, then the entries.
pub open spec fn bundle_encoding(s: Seq<(u32, Seq<u8>)>) -> Seq<u8> {
    le_bytes(s.len(), 2) + input_entries_encoding(s)
}

/// The id of a bundle: the tagged hash of the canonical encoding of its
/// input map.
pub open spec fn bundle_id(s: Seq<(u32, Seq<u8>)>) -> Seq<u8> {
    tagged_sha256(BUNDLE_TAG@, bundle_encoding(s))
}

impl TransitionBundle {
    /// The input map as plain values.
    pub open spec fn input_map_view(&self) -> Seq<(u32, Seq<u8>)> {
        self.input_map@.map_values(|e: (u32, OpId)| input_entry_view(e))
    }

    pub fn strict_encode(&self) -> (r: Vec<u8>)
        requires
            self.input_map@.len() <= INPUT_MAP_MAX_LEN,
        ensures
            r@ == bundle_encoding(self.input_map_view()),
    {
        let mut out: Vec<u8> = Vec::new();
        proof {
            lemma_pow256_values();
        }
        push_le(&mut out, self.input_map.len() as u128, 2);
        let ghost head = out@;
        let mut i: usize = 0;
        while i < self.input_map.len()
            invariant
                i <= self.input_map@.len(),
                head == le_bytes(self.input_map@.len() as nat, 2),
                out@ == head + input_entries_encoding(self.input_map_view().subrange(0, i as int)),
            decreases self.input_map@.len() - i,
        {
            let (index, opid) = self.input_map[i];
            proof {
                lemma_pow256_values();
            }
            push_le(&mut out, index as u128, 4);
            let ghost mid = out@;
            out.extend_from_slice(&opid.bytes);
            proof {
                assert(out@ =~= mid + opid.bytes@) by {
                    assert forall|j: int| mid.len() <= j < out@.len() implies out@[j] == opid.bytes@[j - mid.len()] by {
                        assert(vstd::pervasive::cloned::<u8>(opid.bytes@[j - mid.len()], out@[j]));
                    }
                }
                let s = self.input_map_view().subrange(0, i + 1);
                assert(s.drop_last() =~= self.input_map_view().subrange(0, i as int));
                assert(s.last() == (index, opid.bytes@));
            }
            i = i + 1;
        }
        proof {
            assert(self.input_map_view().subrange(0, i as int) =~= self.input_map_view());
        }
        out
    }

    /// The bundle id: the tagged hash of the canonical encoding.
    pub fn bundle_id(&self) -> (r: BundleId)
        requires
            self.input_map@.len() <= INPUT_MAP_MAX_LEN,
        ensures
            r.bytes@ == bundle_id(self.input_map_view()),
    {
        let enc = self.strict_encode();
        BundleId { bytes: tagged_hash(BUNDLE_TAG, enc.as_slice()) }
    }
}

/// The input map entries whose encoding begins `bytes`, `n` of them.
pub open spec fn input_entries_decoding(bytes: Seq<u8>, n: nat) -> Seq<(u32, Seq<u8>)> {
    Seq::new(
        n,
        |i: int| (le_value(bytes.subrange(36 * i, 36 * i + 4)) as u32, bytes.subrange(36 * i + 4, 36 * i + 36)),
    )
}

/// The input map whose bundle encoding begins `bytes`.
pub open spec fn bundle_decoding(bytes: Seq<u8>) -> Result<Seq<(u32, Seq<u8>)>, DecodeError> {
    if bytes.len() < 2 {
        Err(DecodeError::UnexpectedEof)
    } else {
        let n = le_value(bytes.subrange(0, 2));
        if bytes.len() < 2 + 36 * n {
            Err(DecodeError::UnexpectedEof)
        } else {
            Ok(input_entries_decoding(bytes.subrange(2, 2 + 36 * n as int), n))
        }
    }
}

/// Where each entry stands in the encoding of input map entries.
pub proof fn lemma_input_entries_layout(s: Seq<(u32, Seq<u8>)>)
    requires
        forall|i: int| 0 <= i < s.len() ==> (#[trigger] s[i]).1.len() == 32,
    ensures
        input_entries_encoding(s).len() == 36 * s.len(),
        forall|i: int|
            0 <= i < s.len() ==> input_entries_encoding(s).subrange(36 * i, 36 * i + 4) == le_bytes(
                (#[trigger] s[i]).0 as nat,
                4,
            ) && input_entries_encoding(s).subrange(36 * i + 4, 36 * i + 36) == s[i].1,
    decreases s.len(),
{
    if s.len() > 0 {
        let p = s.drop_last();
        lemma_input_entries_layout(p);
        let e = input_entries_encoding(s);
        let ep = input_entries_encoding(p);
        let last = s.last();
        lemma_le_bytes_len(last.0 as nat, 4);
        assert(e == ep + le_bytes(last.0 as nat, 4) + last.1);
        assert forall|i: int|
            0 <= i < s.len() implies e.subrange(36 * i, 36 * i + 4) == le_bytes(
                (#[trigger] s[i]).0 as nat,
                4,
            ) && e.subrange(36 * i + 4, 36 * i + 36) == s[i].1 by {
            if i < p.len() {
                assert(p[i] == s[i]);
                assert(e.subrange(36 * i, 36 * i + 4) =~= ep.subrange(36 * i, 36 * i + 4));
                assert(e.subrange(36 * i + 4, 36 * i + 36) =~= ep.subrange(36 * i + 4, 36 * i + 36));
            } else {
                assert(e.subrange(36 * i, 36 * i + 4) =~= le_bytes(last.0 as nat, 4));
                assert(e.subrange(36 * i + 4, 36 * i + 36) =~= last.1);
            }
        }
    }
}

/// Decoding the canonical encoding of a bundle's input map gives the same
/// input map.
pub proof fn lemma_bundle_round_trip(s: Seq<(u32, Seq<u8>)>)
    requires
        s.len() <= INPUT_MAP_MAX_LEN,
        forall|i: int| 0 <= i < s.len() ==> (#[trigger] s[i]).1.len() == 32,
    ensures
        bundle_decoding(bundle_encoding(s)) == Ok::<Seq<(u32, Seq<u8>)>, DecodeError>(s),
{
    let enc = bundle_encoding(s);
    let n = s.len();
    lemma_pow256_values();
    lemma_le_bytes_len(n, 2);
    lemma_le_value_of_bytes(n, 2);
    lemma_input_entries_layout(s);
    let body = input_entries_encoding(s);
    assert(enc.subrange(0, 2) =~= le_bytes(n, 2));
    assert(enc.subrange(2, 2 + 36 * n as int) =~= body);
    let d = input_entries_decoding(body, n);
    assert forall|i: int| 0 <= i < n implies #[trigger] d[i] == s[i] by {
        lemma_le_value_of_bytes(s[i].0 as nat, 4);
    }
    assert(d =~= s);
}

/// A bundle id survives an encode/decode round trip of the input map.
pub proof fn lemma_bundle_id_stable(s: Seq<(u32, Seq<u8>)>)
    requires
        s.len() <= INPUT_MAP_MAX_LEN,
        forall|i: int| 0 <= i < s.len() ==> (#[trigger] s[i]).1.len() == 32,
    ensures
        bundle_decoding(bundle_encoding(s)) matches Ok(t) && bundle_id(t) == bundle_id(s),
{
    lemma_bundle_round_trip(s);
}

impl TransitionBundle {
    /// Decodes a bundle's input map; the bundle comes back with no known
    /// transitions, which its encoding does not hold.
    pub fn strict_decode(bytes: &[u8]) -> (r: Result<TransitionBundle, DecodeError>)
        ensures
            match (r, bundle_decoding(bytes@)) {
                (Ok(b), Ok(m)) => b.input_map_view() == m && b.known_transitions@.len() == 0,
                (Err(e), Err(f)) => e == f,
                _ => false,
            },
    {
        let len = bytes.len();
        if len < 2 {
            return Err(DecodeError::UnexpectedEof);
        }
        let n = read_le(bytes, 0, 2);
        proof {
            lemma_le_bytes_of_value(bytes@.subrange(0, 2));
            lemma_pow256_values();
        }
        let n = n as usize;
        if (len - 2) / 36 < n {
            return Err(DecodeError::UnexpectedEof);
        }
        let ghost body = bytes@.subrange(2, 2 + 36 * n);
        let ghost expected = input_entries_decoding(body, n as nat);
        let mut input_map: Vec<(u32, OpId)> = Vec::new();
        let mut i: usize = 0;
        while i < n
            invariant
                i <= n,
                n <= 0xFFFF,
                2 + 36 * n <= len == bytes@.len(),
                body == bytes@.subrange(2, 2 + 36 * n),
                expected == input_entries_decoding(body, n as nat),
                input_map@.len() == i,
                forall|j: int| 0 <= j < i ==> input_entry_view(#[trigger] input_map@[j]) == expected[j],
            decreases n - i,
        {
            let at = 2 + 36 * i;
            let index = read_le(bytes, at, 4);
            proof {
                lemma_le_bytes_of_value(bytes@.subrange(at as int, at + 4));
                assert(bytes@.subrange(at as int, at + 4) =~= body.subrange(36 * i, 36 * i + 4));
            }
            let mut id = [0u8; 32];
            let mut k: usize = 0;
            while k < 32
                invariant
                    k <= 32,
                    at + 36 <= len == bytes@.len(),
                    id@.len() == 32,
                    forall|j: int| 0 <= j < k ==> id@[j] == bytes@[at + 4 + j],
                decreases 32 - k,
            {
                id[k] = bytes[at + 4 + k];
                k = k + 1;
            }
            proof {
                assert(id@ =~= body.subrange(36 * i + 4, 36 * i + 36));
            }
            input_map.push((index as u32, OpId { bytes: id }));
            i = i + 1;
        }
        let b = TransitionBundle { input_map, known_transitions: Vec::new() };
        proof {
            assert(b.input_map_view() =~= expected);
        }
        Ok(b)
    }
}

} // verus!
