//! State primitives: void state and structured data state, with their
//! canonical encoding and concealment into a tagged-hash commitment.

use core::cmp::Ordering;

use commit_verify::DigestExt;
use vstd::prelude::*;

use crate::codec::{
    lemma_le_bytes_len, lemma_le_bytes_of_value, lemma_le_value_of_bytes, lemma_pow256_values,
    bytes_cmp, copy_bytes, lex_cmp, le_bytes, le_value, push_le, read_le, DecodeError,
};
use crate::ids::StateType;

verus! {

/// Commitment tag of concealed structured state.
pub const STATE_DATA_TAG: &'static str = "urn:lnp-bp:rgb:state-data#2024-02-12";

/// Largest length of a structured state blob (a `u16` length prefix).
pub const DATA_STATE_MAX_LEN: usize = 0xFFFF;

/// The SHA-256 digest of `msg` under the commitment tag `tag`.
pub uninterp spec fn tagged_sha256(tag: Seq<char>, msg: Seq<u8>) -> Seq<u8>;

/// Relies on commit_verify's `DigestExt` impl for `Sha256`: `from_tag`
/// primes an engine with the tag, `input_raw` feeds the message and
/// `finish` returns the 32-byte digest, a function of tag and message alone.
#[verifier::external_body]
pub(crate) fn tagged_hash(tag: &str, msg: &[u8]) -> (r: [u8; 32])
    ensures
        r@ == tagged_sha256(tag@, msg@),
{
    let mut engine = commit_verify::Sha256::from_tag(tag);
    engine.input_raw(msg);
    engine.finish()
}

/// Relies on rand's `random`: a value drawn from the thread-local
/// generator. Nothing is promised of it.
pub assume_specification<T>[ rand::random::<T> ]() -> (r: T)
    where
        rand::distributions::Standard: rand::distributions::Distribution<T>,
;

/// Absent state.
#[derive(Clone, Copy, PartialEq, Eq, PartialOrd, Ord, Hash, Debug, Default, Structural)]
pub struct VoidState;

impl VoidState {
    pub fn state_type(&self) -> (r: StateType)
        ensures
            r == StateType::Void,
    {
        StateType::Void
    }

    pub fn state_commitment(&self) -> (r: ConcealedState)
        ensures
            r == ConcealedState::Void,
    {
        ConcealedState::Void
    }

    pub fn state_data(&self) -> (r: RevealedState)
        ensures
            r == RevealedState::Void,
    {
        RevealedState::Void
    }

    /// Void state conceals to itself.
    pub fn conceal(&self) -> (r: VoidState)
        ensures
            r == *self,
    {
        *self
    }
}

/// A structured state value: a blob of at most `u16::MAX` bytes.
#[derive(Eq, Ord, Hash, Debug)]
pub struct DataState {
    bytes: Vec<u8>,
}

impl View for DataState {
    type V = Seq<u8>;

    closed spec fn view(&self) -> Seq<u8> {
        self.bytes@
    }
}

impl DataState {
    #[verifier::type_invariant]
    spec fn inv(self) -> bool {
        self.bytes@.len() <= DATA_STATE_MAX_LEN
    }

    /// Wraps a blob; longer than `u16::MAX` bytes is refused.
    pub fn from_bytes(bytes: Vec<u8>) -> (r: Result<DataState, DecodeError>)
        ensures
            match r {
                Ok(d) => d@ == bytes@,
                Err(e) => bytes@.len() > DATA_STATE_MAX_LEN && e == (DecodeError::LengthTooLarge {
                    max: DATA_STATE_MAX_LEN as u128,
                    found: bytes@.len() as u128,
                }),
            },
    {
        if bytes.len() > DATA_STATE_MAX_LEN {
            let found = bytes.len() as u128;
            Err(DecodeError::LengthTooLarge { max: DATA_STATE_MAX_LEN as u128, found })
        } else {
            Ok(DataState { bytes })
        }
    }

    pub fn as_slice(&self) -> (r: &[u8])
        ensures
            r@ == self@,
    {
        self.bytes.as_slice()
    }

    pub fn len(&self) -> (r: usize)
        ensures
            r == self@.len(),
            r <= DATA_STATE_MAX_LEN,
    {
        proof {
            use_type_invariant(self);
        }
        self.bytes.len()
    }

    pub fn from(data: RevealedData) -> (r: DataState)
        ensures
            r@ == data.value@,
    {
        data.value
    }
}

impl Clone for DataState {
    fn clone(&self) -> (r: DataState)
        ensures
            r@ == self@,
    {
        proof {
            use_type_invariant(self);
        }
        let bytes = copy_bytes(self.bytes.as_slice(), 0, self.bytes.len());
        proof {
            assert(bytes@ =~= self.bytes@);
        }
        DataState { bytes }
    }
}

impl PartialEq for DataState {
    fn eq(&self, o: &DataState) -> (r: bool) {
        matches!(bytes_cmp(self.bytes.as_slice(), o.bytes.as_slice()), Ordering::Equal)
    }
}

impl vstd::std_specs::cmp::PartialEqSpecImpl for DataState {
    open spec fn obeys_eq_spec() -> bool {
        true
    }

    open spec fn eq_spec(&self, o: &DataState) -> bool {
        lex_cmp(self@, o@) == Ordering::Equal
    }
}

impl PartialOrd for DataState {
    fn partial_cmp(&self, o: &DataState) -> (r: Option<Ordering>) {
        Some(bytes_cmp(self.bytes.as_slice(), o.bytes.as_slice()))
    }
}

impl vstd::std_specs::cmp::PartialOrdSpecImpl for DataState {
    open spec fn obeys_partial_cmp_spec() -> bool {
        true
    }

    open spec fn partial_cmp_spec(&self, o: &DataState) -> Option<Ordering> {
        Some(lex_cmp(self@, o@))
    }
}

/// Revealed structured state: the value and a blinding salt.
#[derive(Clone, Eq, Ord, Hash, Debug)]
pub struct RevealedData {
    pub value: DataState,
    pub salt: u128,
}

/// Canonical encoding of revealed structured state: the value with a
/// `u16` little-endian length prefix, then the salt as a little-endian `u128`.
pub open spec fn revealed_data_encoding(v: (Seq<u8>, u128)) -> Seq<u8> {
    le_bytes(v.0.len(), 2) + v.0 + le_bytes(v.1 as nat, 16)
}

/// The revealed structured state whose encoding begins `bytes`.
pub open spec fn revealed_data_decoding(bytes: Seq<u8>) -> Result<(Seq<u8>, u128), DecodeError> {
    if bytes.len() < 2 {
        Err(DecodeError::UnexpectedEof)
    } else {
        let n = le_value(bytes.subrange(0, 2)) as int;
        if bytes.len() < 2 + n + 16 {
            Err(DecodeError::UnexpectedEof)
        } else {
            Ok((bytes.subrange(2, 2 + n), le_value(bytes.subrange(2 + n, 2 + n + 16)) as u128))
        }
    }
}

/// Identifier of the concealed form of revealed structured state.
pub open spec fn concealed_data_id(v: (Seq<u8>, u128)) -> Seq<u8> {
    tagged_sha256(STATE_DATA_TAG@, revealed_data_encoding(v))
}

impl View for RevealedData {
    type V = (Seq<u8>, u128);

    open spec fn view(&self) -> (Seq<u8>, u128) {
        (self.value@, self.salt)
    }
}

impl RevealedData {
    /// Builds revealed state from a value and a salt.
    pub fn with_salt(value: DataState, salt: u128) -> (r: RevealedData)
        ensures
            r@ == (value@, salt),
    {
        RevealedData { value, salt }
    }

    /// Builds revealed state from a value and a salt drawn at random.
    pub fn new_random_salt(value: DataState) -> (r: RevealedData)
        ensures
            r.value@ == value@,
    {
        let salt: u128 = rand::random();
        RevealedData::with_salt(value, salt)
    }

    pub fn state_type(&self) -> (r: StateType)
        ensures
            r == StateType::Structured,
    {
        StateType::Structured
    }

    /// A copy of the value and salt.
    pub fn duplicate(&self) -> (r: RevealedData)
        ensures
            r@ == self@,
    {
        RevealedData { value: self.value.clone(), salt: self.salt }
    }

    pub fn state_data(&self) -> (r: RevealedState)
        ensures
            r matches RevealedState::Structured(d) && d@ == self@,
    {
        RevealedState::Structured(self.duplicate())
    }

    pub fn strict_encode(&self) -> (r: Vec<u8>)
        ensures
            r@ == revealed_data_encoding(self@),
    {
        let mut out: Vec<u8> = Vec::new();
        let n = self.value.len();
        push_le(&mut out, n as u128, 2);
        out.extend_from_slice(self.value.as_slice());
        let ghost mid = out@;
        push_le(&mut out, self.salt, 16);
        proof {
            assert(mid =~= le_bytes(n as nat, 2) + self.value@) by {
                assert forall|i: int| 0 <= i < mid.len() implies mid[i] == (le_bytes(n as nat, 2) + self.value@)[i] by {
                    lemma_le_bytes_len(n as nat, 2);
                    if i >= 2 {
                        assert(vstd::pervasive::cloned::<u8>(self.value@[i - 2], mid[i]));
                    }
                }
                lemma_le_bytes_len(n as nat, 2);
            }
            assert(out@ =~= revealed_data_encoding(self@));
        }
        out
    }

    pub fn strict_decode(bytes: &[u8]) -> (r: Result<RevealedData, DecodeError>)
        ensures
            match (r, revealed_data_decoding(bytes@)) {
                (Ok(v), Ok(w)) => v@ == w,
                (Err(e), Err(f)) => e == f,
                _ => false,
            },
    {
        let len = bytes.len();
        if len < 2 {
            return Err(DecodeError::UnexpectedEof);
        }
        let n = read_le(bytes, 0, 2);
        proof {
            lemma_le_bytes_of_value(bytes@.subrange(0, 2));
            lemma_pow256_values();
        }
        let n = n as usize;
        if len - 2 < n || len - 2 - n < 16 {
            return Err(DecodeError::UnexpectedEof);
        }
        let blob = copy_bytes(bytes, 2, 2 + n);
        let salt = read_le(bytes, 2 + n, 16);
        let value = DataState { bytes: blob };
        Ok(RevealedData { value, salt })
    }

    /// The concealed form: the tagged hash of the canonical encoding.
    pub fn conceal(&self) -> (r: ConcealedData)
        ensures
            r.bytes@ == concealed_data_id(self@),
    {
        let enc = self.strict_encode();
        ConcealedData { bytes: tagged_hash(STATE_DATA_TAG, enc.as_slice()) }
    }
}

impl PartialEq for RevealedData {
    fn eq(&self, o: &RevealedData) -> (r: bool) {
        self.value == o.value && self.salt == o.salt
    }
}

impl vstd::std_specs::cmp::PartialEqSpecImpl for RevealedData {
    open spec fn obeys_eq_spec() -> bool {
        true
    }

    open spec fn eq_spec(&self, o: &RevealedData) -> bool {
        lex_cmp(self.value@, o.value@) == Ordering::Equal && self.salt == o.salt
    }
}

impl PartialOrd for RevealedData {
    fn partial_cmp(&self, o: &RevealedData) -> (r: Option<Ordering>) {
        let by_value = bytes_cmp(self.value.as_slice(), o.value.as_slice());
        match by_value {
            Ordering::Equal => if self.salt < o.salt {
                Some(Ordering::Less)
            } else if self.salt > o.salt {
                Some(Ordering::Greater)
            } else {
                Some(Ordering::Equal)
            },
            other => Some(other),
        }
    }
}

impl vstd::std_specs::cmp::PartialOrdSpecImpl for RevealedData {
    open spec fn obeys_partial_cmp_spec() -> bool {
        true
    }

    /// By value first, then by salt.
    open spec fn partial_cmp_spec(&self, o: &RevealedData) -> Option<Ordering> {
        match lex_cmp(self.value@, o.value@) {
            Ordering::Equal => if self.salt < o.salt {
                Some(Ordering::Less)
            } else if self.salt > o.salt {
                Some(Ordering::Greater)
            } else {
                Some(Ordering::Equal)
            },
            other => Some(other),
        }
    }
}

/// Concealed structured state: a 32-byte tagged hash of the revealed form.
#[derive(Clone, Copy, Eq, PartialOrd, Ord, Hash, Debug)]
pub struct ConcealedData {
    pub bytes: [u8; 32],
}

impl ConcealedData {
    pub fn state_type(&self) -> (r: StateType)
        ensures
            r == StateType::Structured,
    {
        StateType::Structured
    }

    pub fn state_commitment(&self) -> (r: ConcealedState)
        ensures
            r == ConcealedState::Structured(*self),
    {
        ConcealedState::Structured(*self)
    }

    pub fn from(bytes: [u8; 32]) -> (r: ConcealedData)
        ensures
            r.bytes == bytes,
    {
        ConcealedData { bytes }
    }
}

impl PartialEq for ConcealedData {
    fn eq(&self, o: &ConcealedData) -> (r: bool) {
        crate::ids::digest_eq(&self.bytes, &o.bytes)
    }
}

impl vstd::std_specs::cmp::PartialEqSpecImpl for ConcealedData {
    open spec fn obeys_eq_spec() -> bool {
        true
    }

    open spec fn eq_spec(&self, o: &ConcealedData) -> bool {
        self.bytes@ == o.bytes@
    }
}

/// Revealed state of any kind.
#[derive(Clone, Debug)]
pub enum RevealedState {
    Void,
    Structured(RevealedData),
}

/// Concealed state of any kind.
#[derive(Clone, Copy, Debug)]
pub enum ConcealedState {
    Void,
    Structured(ConcealedData),
}

impl RevealedState {
    pub fn state_type(&self) -> (r: StateType)
        ensures
            r == (match self {
                RevealedState::Void => StateType::Void,
                RevealedState::Structured(_) => StateType::Structured,
            }),
    {
        match self {
            RevealedState::Void => StateType::Void,
            RevealedState::Structured(_) => StateType::Structured,
        }
    }

    /// Conceals each kind by its own rule.
    pub fn conceal(&self) -> (r: ConcealedState)
        ensures
            match (self, r) {
                (RevealedState::Void, ConcealedState::Void) => true,
                (RevealedState::Structured(d), ConcealedState::Structured(c)) => c.bytes@
                    == concealed_data_id(d@),
                _ => false,
            },
    {
        match self {
            RevealedState::Void => ConcealedState::Void,
            RevealedState::Structured(d) => ConcealedState::Structured(d.conceal()),
        }
    }
}

/// Decoding the canonical encoding of revealed structured state gives the
/// same value and salt.
pub proof fn lemma_revealed_data_round_trip(v: (Seq<u8>, u128))
    requires
        v.0.len() <= DATA_STATE_MAX_LEN,
    ensures
        revealed_data_decoding(revealed_data_encoding(v)) == Ok::<(Seq<u8>, u128), DecodeError>(v),
{
    let n = v.0.len() as int;
    let enc = revealed_data_encoding(v);
    lemma_pow256_values();
    lemma_le_bytes_len(n as nat, 2);
    lemma_le_bytes_len(v.1 as nat, 16);
    lemma_le_value_of_bytes(n as nat, 2);
    lemma_le_value_of_bytes(v.1 as nat, 16);
    assert(enc.subrange(0, 2) =~= le_bytes(n as nat, 2));
    assert(enc.subrange(2, 2 + n) =~= v.0);
    assert(enc.subrange(2 + n, 2 + n + 16) =~= le_bytes(v.1 as nat, 16));
}

/// The identifier of revealed structured state survives an encode/decode
/// round trip.
pub proof fn lemma_concealed_data_id_stable(v: (Seq<u8>, u128))
    requires
        v.0.len() <= DATA_STATE_MAX_LEN,
    ensures
        revealed_data_decoding(revealed_data_encoding(v)) matches Ok(w) && concealed_data_id(w)
            == concealed_data_id(v),
{
    lemma_revealed_data_round_trip(v);
}

} // verus!
