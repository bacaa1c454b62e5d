//! Schema type algebra: integer widths, occurrence bounds and the byte
//! values of the cryptographic algorithm enums.

use vstd::prelude::*;

use crate::codec::{
    lemma_le_bytes_len, lemma_le_bytes_of_value, lemma_le_value_of_bytes, lemma_pow256_values,
    le_bytes, le_value, push_le, read_le, DecodeError,
};

verus! {

/// Bit width of a numeric schema type.
#[derive(Clone, Copy, PartialEq, Eq, PartialOrd, Ord, Debug)]
#[non_exhaustive]
pub enum Bits {
    Bit8,
    Bit16,
    Bit32,
    Bit64,
}

impl Bits {
    /// The byte that stands for this width on the wire (its length in bytes).
    pub open spec fn byte(self) -> u8 {
        match self {
            Bits::Bit8 => 1,
            Bits::Bit16 => 2,
            Bits::Bit32 => 4,
            Bits::Bit64 => 8,
        }
    }

    pub open spec fn spec_bit_len(self) -> nat {
        8 * self.byte() as nat
    }

    /// `2^bit_len - 1`.
    pub open spec fn spec_max_value(self) -> nat {
        (vstd::arithmetic::power2::pow2(self.spec_bit_len()) - 1) as nat
    }

    pub fn max_value(&self) -> (r: u128)
        ensures
            r as nat == self.spec_max_value(),
    {
        proof {
            vstd::arithmetic::power2::lemma2_to64();
        }
        match *self {
            Bits::Bit8 => 0xFF,
            Bits::Bit16 => 0xFFFF,
            Bits::Bit32 => 0xFFFF_FFFF,
            Bits::Bit64 => 0xFFFF_FFFF_FFFF_FFFF,
        }
    }

    pub fn byte_len(&self) -> (r: usize)
        ensures
            r == self.byte() as usize,
    {
        self.to_u8() as usize
    }

    pub fn bit_len(&self) -> (r: usize)
        ensures
            r as nat == self.spec_bit_len(),
    {
        self.byte_len() * 8
    }

    pub fn to_u8(&self) -> (r: u8)
        ensures
            r == self.byte(),
    {
        match *self {
            Bits::Bit8 => 1,
            Bits::Bit16 => 2,
            Bits::Bit32 => 4,
            Bits::Bit64 => 8,
        }
    }

    pub fn from_u8(v: u8) -> (r: Option<Bits>)
        ensures
            r == Self::from_byte(v),
    {
        match v {
            1 => Some(Bits::Bit8),
            2 => Some(Bits::Bit16),
            4 => Some(Bits::Bit32),
            8 => Some(Bits::Bit64),
            _ => None,
        }
    }
}

/// An unsigned integer type that can bound occurrences.
pub trait UnsignedInteger: Copy + Sized {
    /// The value as a natural number.
    spec fn nat_value(self) -> nat;

    /// The largest value of the type.
    spec fn nat_max() -> nat;

    /// The value of the type that stands for `v` (meaningful for `v <= nat_max()`).
    spec fn of_nat(v: nat) -> Self;

    proof fn lemma_bounds(self)
        ensures
            self.nat_value() <= Self::nat_max(),
            Self::of_nat(self.nat_value()) == self,
    ;

    proof fn lemma_max()
        ensures
            1 <= Self::nat_max() <= u64::MAX,
    ;

    proof fn lemma_of_nat(v: nat)
        requires
            v <= Self::nat_max(),
        ensures
            Self::of_nat(v).nat_value() == v,
    ;

    /// The largest value of the type.
    fn upper_bound() -> (r: Self)
        ensures
            r.nat_value() == Self::nat_max(),
    ;

    fn as_u64(self) -> (r: u64)
        ensures
            r as nat == self.nat_value(),
    ;

    /// Converts a small constant into the type.
    fn from_u8(v: u8) -> (r: Self)
        ensures
            r.nat_value() == v as nat,
    ;

    /// Converts `v` into the type, where it fits.
    fn try_from_u64(v: u64) -> (r: Option<Self>)
        ensures
            match r {
                Some(x) => v as nat <= Self::nat_max() && x.nat_value() == v as nat,
                None => v as nat > Self::nat_max(),
            },
    ;

    /// The width of the type.
    fn bits() -> (r: Bits)
        ensures
            r.spec_max_value() == Self::nat_max(),
    ;
}

impl UnsignedInteger for u8 {
    open spec fn nat_value(self) -> nat {
        self as nat
    }

    open spec fn nat_max() -> nat {
        0xFF
    }

    open spec fn of_nat(v: nat) -> Self {
        v as u8
    }

    proof fn lemma_bounds(self) {
    }

    proof fn lemma_max() {
    }

    proof fn lemma_of_nat(v: nat) {
    }

    fn upper_bound() -> (r: Self) {
        u8::MAX
    }

    fn as_u64(self) -> (r: u64) {
        self as u64
    }

    fn from_u8(v: u8) -> (r: Self) {
        v
    }

    fn try_from_u64(v: u64) -> (r: Option<Self>) {
        if v <= 0xFF {
            Some(v as u8)
        } else {
            None
        }
    }

    fn bits() -> (r: Bits) {
        proof {
            vstd::arithmetic::power2::lemma2_to64();
        }
        Bits::Bit8
    }
}

impl UnsignedInteger for u16 {
    open spec fn nat_value(self) -> nat {
        self as nat
    }

    open spec fn nat_max() -> nat {
        0xFFFF
    }

    open spec fn of_nat(v: nat) -> Self {
        v as u16
    }

    proof fn lemma_bounds(self) {
    }

    proof fn lemma_max() {
    }

    proof fn lemma_of_nat(v: nat) {
    }

    fn upper_bound() -> (r: Self) {
        u16::MAX
    }

    fn as_u64(self) -> (r: u64) {
        self as u64
    }

    fn from_u8(v: u8) -> (r: Self) {
        v as u16
    }

    fn try_from_u64(v: u64) -> (r: Option<Self>) {
        if v <= 0xFFFF {
            Some(v as u16)
        } else {
            None
        }
    }

    fn bits() -> (r: Bits) {
        proof {
            vstd::arithmetic::power2::lemma2_to64();
        }
        Bits::Bit16
    }
}

impl UnsignedInteger for u32 {
    open spec fn nat_value(self) -> nat {
        self as nat
    }

    open spec fn nat_max() -> nat {
        0xFFFF_FFFF
    }

    open spec fn of_nat(v: nat) -> Self {
        v as u32
    }

    proof fn lemma_bounds(self) {
    }

    proof fn lemma_max() {
    }

    proof fn lemma_of_nat(v: nat) {
    }

    fn upper_bound() -> (r: Self) {
        u32::MAX
    }

    fn as_u64(self) -> (r: u64) {
        self as u64
    }

    fn from_u8(v: u8) -> (r: Self) {
        v as u32
    }

    fn try_from_u64(v: u64) -> (r: Option<Self>) {
        if v <= 0xFFFF_FFFF {
            Some(v as u32)
        } else {
            None
        }
    }

    fn bits() -> (r: Bits) {
        proof {
            vstd::arithmetic::power2::lemma2_to64();
        }
        Bits::Bit32
    }
}

impl UnsignedInteger for u64 {
    open spec fn nat_value(self) -> nat {
        self as nat
    }

    open spec fn nat_max() -> nat {
        0xFFFF_FFFF_FFFF_FFFF
    }

    open spec fn of_nat(v: nat) -> Self {
        v as u64
    }

    proof fn lemma_bounds(self) {
    }

    proof fn lemma_max() {
    }

    proof fn lemma_of_nat(v: nat) {
    }

    fn upper_bound() -> (r: Self) {
        u64::MAX
    }

    fn as_u64(self) -> (r: u64) {
        self
    }

    fn from_u8(v: u8) -> (r: Self) {
        v as u64
    }

    fn try_from_u64(v: u64) -> (r: Option<Self>) {
        Some(v)
    }

    fn bits() -> (r: Bits) {
        proof {
            vstd::arithmetic::power2::lemma2_to64();
        }
        Bits::Bit64
    }
}


/// A count that occurrence bounds can be checked against.
pub trait Number: Copy + Sized {
    /// The count as a natural number.
    spec fn count_value(self) -> nat;

    fn as_u128(self) -> (r: u128)
        ensures
            r as nat == self.count_value(),
    ;
}

impl Number for u8 {
    open spec fn count_value(self) -> nat {
        self as nat
    }

    fn as_u128(self) -> (r: u128) {
        self as u128
    }
}

impl Number for u16 {
    open spec fn count_value(self) -> nat {
        self as nat
    }

    fn as_u128(self) -> (r: u128) {
        self as u128
    }
}

impl Number for u32 {
    open spec fn count_value(self) -> nat {
        self as nat
    }

    fn as_u128(self) -> (r: u128) {
        self as u128
    }
}

impl Number for u64 {
    open spec fn count_value(self) -> nat {
        self as nat
    }

    fn as_u128(self) -> (r: u128) {
        self as u128
    }
}

impl Number for u128 {
    open spec fn count_value(self) -> nat {
        self as nat
    }

    fn as_u128(self) -> (r: u128) {
        self
    }
}

impl Number for usize {
    open spec fn count_value(self) -> nat {
        self as nat
    }

    fn as_u128(self) -> (r: u128) {
        self as u128
    }
}

/// How many times an item may occur; `None` as an upper bound means the
/// largest value of `I`.
#[derive(Clone, Copy, PartialEq, Eq, PartialOrd, Ord, Debug)]
#[non_exhaustive]
pub enum Occurences<I: UnsignedInteger> {
    Once,
    NoneOrOnce,
    OnceOrUpTo(Option<I>),
    NoneOrUpTo(Option<I>),
}

/// A count outside the admitted bounds, all widened to `u128`.
#[derive(Clone, Copy, PartialEq, Eq, PartialOrd, Ord, Debug)]
pub struct OccurrencesError {
    pub min: u128,
    pub max: u128,
    pub found: u128,
}

/// The tag bytes of the occurrence variants on the wire.
pub const OCCURRENCES_NONE_OR_ONCE: u8 = 0x00;
pub const OCCURRENCES_ONCE: u8 = 0x01;
pub const OCCURRENCES_NONE_OR_UP_TO: u8 = 0xFE;
pub const OCCURRENCES_ONCE_OR_UP_TO: u8 = 0xFF;

/// Length of an encoded occurrence bound: a tag byte and a `u64`.
pub const OCCURRENCES_ENCODED_LEN: usize = 9;

impl<I: UnsignedInteger> Occurences<I> {
    pub open spec fn spec_min(self) -> nat {
        match self {
            Occurences::Once => 1,
            Occurences::NoneOrOnce => 0,
            Occurences::OnceOrUpTo(_) => 1,
            Occurences::NoneOrUpTo(_) => 0,
        }
    }

    pub open spec fn spec_max(self) -> nat {
        match self {
            Occurences::Once => 1,
            Occurences::NoneOrOnce => 1,
            Occurences::OnceOrUpTo(None) => I::nat_max(),
            Occurences::NoneOrUpTo(None) => I::nat_max(),
            Occurences::OnceOrUpTo(Some(m)) => m.nat_value(),
            Occurences::NoneOrUpTo(Some(m)) => m.nat_value(),
        }
    }

    /// Whether `count` lies within `[min, max]`.
    pub open spec fn admits(self, count: nat) -> bool {
        self.spec_min() <= count <= self.spec_max()
    }

    /// The error reported for a count outside the bounds.
    pub open spec fn error_for(self, count: nat) -> OccurrencesError {
        OccurrencesError {
            min: self.spec_min() as u128,
            max: self.spec_max() as u128,
            found: count as u128,
        }
    }

    pub fn min_value(&self) -> (r: I)
        ensures
            r.nat_value() == self.spec_min(),
    {
        match self {
            Occurences::Once => I::from_u8(1),
            Occurences::NoneOrOnce => I::from_u8(0),
            Occurences::OnceOrUpTo(_) => I::from_u8(1),
            Occurences::NoneOrUpTo(_) => I::from_u8(0),
        }
    }

    pub fn max_value(&self) -> (r: I)
        ensures
            r.nat_value() == self.spec_max(),
    {
        match self {
            Occurences::Once => I::from_u8(1),
            Occurences::NoneOrOnce => I::from_u8(1),
            Occurences::OnceOrUpTo(None) => I::upper_bound(),
            Occurences::NoneOrUpTo(None) => I::upper_bound(),
            Occurences::OnceOrUpTo(Some(max)) => *max,
            Occurences::NoneOrUpTo(Some(max)) => *max,
        }
    }

    /// Checks a count against the bounds; a count above the largest value
    /// of `I` fails too, and is reported untruncated.
    pub fn check<T: Number>(&self, count: T) -> (r: Result<(), OccurrencesError>)
        ensures
            r == (if self.admits(count.count_value()) {
                Ok(())
            } else {
                Err(self.error_for(count.count_value()))
            }),
    {
        let min = self.min_value().as_u64() as u128;
        let max = self.max_value().as_u64() as u128;
        let found = count.as_u128();
        if min <= found && found <= max {
            Ok(())
        } else {
            Err(OccurrencesError { min, max, found })
        }
    }
}

impl<I: UnsignedInteger> Occurences<I> {
    pub open spec fn tag(self) -> u8 {
        match self {
            Occurences::NoneOrOnce => OCCURRENCES_NONE_OR_ONCE,
            Occurences::Once => OCCURRENCES_ONCE,
            Occurences::NoneOrUpTo(_) => OCCURRENCES_NONE_OR_UP_TO,
            Occurences::OnceOrUpTo(_) => OCCURRENCES_ONCE_OR_UP_TO,
        }
    }

    /// The `u64` written after the tag: zero for the fixed variants, else
    /// the upper bound.
    pub open spec fn wire_max(self) -> nat {
        match self {
            Occurences::NoneOrOnce => 0,
            Occurences::Once => 0,
            _ => self.spec_max(),
        }
    }

    /// Canonical encoding: the tag byte, then the bound as a little-endian `u64`.
    pub open spec fn encoding(self) -> Seq<u8> {
        seq![self.tag()] + le_bytes(self.wire_max(), 8)
    }

    /// An explicit bound equal to the largest value of `I` written as `None`,
    /// which is how it comes back from the wire.
    pub open spec fn normalized(self) -> Self {
        match self {
            Occurences::OnceOrUpTo(Some(m)) => if m.nat_value() == I::nat_max() {
                Occurences::OnceOrUpTo(None)
            } else {
                self
            },
            Occurences::NoneOrUpTo(Some(m)) => if m.nat_value() == I::nat_max() {
                Occurences::NoneOrUpTo(None)
            } else {
                self
            },
            _ => self,
        }
    }

    /// The value that the first nine bytes of `bytes` encode.
    pub open spec fn decoding(bytes: Seq<u8>) -> Result<Self, DecodeError> {
        if bytes.len() < 9 {
            Err(DecodeError::UnexpectedEof)
        } else {
            let m = le_value(bytes.subrange(1, 9));
            if m > I::nat_max() {
                Err(DecodeError::ValueOutOfRange { max: I::nat_max() as u128, found: m as u128 })
            } else {
                let bound = if m == I::nat_max() {
                    None
                } else {
                    Some(I::of_nat(m))
                };
                if bytes[0] == OCCURRENCES_NONE_OR_ONCE {
                    Ok(Occurences::NoneOrOnce)
                } else if bytes[0] == OCCURRENCES_ONCE {
                    Ok(Occurences::Once)
                } else if bytes[0] == OCCURRENCES_NONE_OR_UP_TO {
                    Ok(Occurences::NoneOrUpTo(bound))
                } else if bytes[0] == OCCURRENCES_ONCE_OR_UP_TO {
                    Ok(Occurences::OnceOrUpTo(bound))
                } else {
                    Err(DecodeError::EnumValueNotKnown { value: bytes[0] })
                }
            }
        }
    }

    pub fn strict_encode(&self) -> (r: Vec<u8>)
        ensures
            r@ == self.encoding(),
    {
        let tag = match self {
            Occurences::NoneOrOnce => OCCURRENCES_NONE_OR_ONCE,
            Occurences::Once => OCCURRENCES_ONCE,
            Occurences::NoneOrUpTo(_) => OCCURRENCES_NONE_OR_UP_TO,
            Occurences::OnceOrUpTo(_) => OCCURRENCES_ONCE_OR_UP_TO,
        };
        let max: u64 = match self {
            Occurences::NoneOrOnce => 0,
            Occurences::Once => 0,
            _ => self.max_value().as_u64(),
        };
        let mut out: Vec<u8> = Vec::new();
        out.push(tag);
        push_le(&mut out, max as u128, 8);
        proof {
            assert(seq![tag] + le_bytes(max as nat, 8) =~= self.encoding());
        }
        out
    }

    pub fn strict_decode(bytes: &[u8]) -> (r: Result<Self, DecodeError>)
        ensures
            r == Self::decoding(bytes@),
    {
        if bytes.len() < OCCURRENCES_ENCODED_LEN {
            return Err(DecodeError::UnexpectedEof);
        }
        let tag = bytes[0];
        let wide = read_le(bytes, 1, 8);
        proof {
            lemma_le_bytes_of_value(bytes@.subrange(1, 9));
            lemma_pow256_values();
            I::lemma_max();
        }
        let max = wide as u64;
        let type_max = I::upper_bound().as_u64();
        if max > type_max {
            return Err(DecodeError::ValueOutOfRange { max: type_max as u128, found: max as u128 });
        }
        let bound: Option<I> = if max == type_max {
            None
        } else {
            I::try_from_u64(max)
        };
        proof {
            if max != type_max {
                let x = bound.unwrap();
                x.lemma_bounds();
            }
        }
        if tag == OCCURRENCES_NONE_OR_ONCE {
            Ok(Occurences::NoneOrOnce)
        } else if tag == OCCURRENCES_ONCE {
            Ok(Occurences::Once)
        } else if tag == OCCURRENCES_NONE_OR_UP_TO {
            Ok(Occurences::NoneOrUpTo(bound))
        } else if tag == OCCURRENCES_ONCE_OR_UP_TO {
            Ok(Occurences::OnceOrUpTo(bound))
        } else {
            Err(DecodeError::EnumValueNotKnown { value: tag })
        }
    }
}

/// Decoding the canonical encoding of an occurrence bound gives the bound
/// back, with an explicit maximum of the type written as `None`.
pub proof fn lemma_occurrences_round_trip<I: UnsignedInteger>(x: Occurences<I>)
    ensures
        Occurences::<I>::decoding(x.encoding()) == Ok::<Occurences<I>, DecodeError>(x.normalized()),
{
    I::lemma_of_nat(0);
    I::lemma_max();
    let m = x.wire_max();
    assert(m <= I::nat_max()) by {
        match x {
            Occurences::OnceOrUpTo(Some(v)) => v.lemma_bounds(),
            Occurences::NoneOrUpTo(Some(v)) => v.lemma_bounds(),
            _ => {},
        }
    }
    let enc = x.encoding();
    lemma_le_bytes_len(m, 8);
    lemma_pow256_values();
    I::lemma_max();
    lemma_le_value_of_bytes(m, 8);
    assert(enc.subrange(1, 9) =~= le_bytes(m, 8));
    match x {
        Occurences::OnceOrUpTo(Some(v)) => v.lemma_bounds(),
        Occurences::NoneOrUpTo(Some(v)) => v.lemma_bounds(),
        _ => {},
    }
}

impl Bits {
    /// The variant whose wire byte is `v`, if any.
    pub open spec fn from_byte(v: u8) -> Option<Self> {
        if v == 1 {
            Some(Bits::Bit8)
        } else if v == 2 {
            Some(Bits::Bit16)
        } else if v == 4 {
            Some(Bits::Bit32)
        } else if v == 8 {
            Some(Bits::Bit64)
        } else {
            None
        }
    }

    /// Canonical encoding: the wire byte alone.
    pub fn strict_encode(&self) -> (r: Vec<u8>)
        ensures
            r@ == seq![self.byte()],
    {
        let mut out: Vec<u8> = Vec::new();
        out.push(self.to_u8());
        out
    }

    pub open spec fn decoding(bytes: Seq<u8>) -> Result<Self, DecodeError> {
        if bytes.len() == 0 {
            Err(DecodeError::UnexpectedEof)
        } else {
            match Self::from_byte(bytes[0]) {
                Some(x) => Ok(x),
                None => Err(DecodeError::EnumValueNotKnown { value: bytes[0] }),
            }
        }
    }

    pub fn strict_decode(bytes: &[u8]) -> (r: Result<Self, DecodeError>)
        ensures
            r == Self::decoding(bytes@),
    {
        if bytes.len() == 0 {
            return Err(DecodeError::UnexpectedEof);
        }
        match Self::from_u8(bytes[0]) {
            Some(x) => Ok(x),
            None => Err(DecodeError::EnumValueNotKnown { value: bytes[0] }),
        }
    }
}

/// Every variant's wire byte decodes to that variant, and a byte that
/// decodes is the wire byte of what it decodes to.
pub proof fn lemma_bits_wire_bytes()
    ensures
        forall|x: Bits| #[trigger] Bits::from_byte(x.byte()) == Some(x),
        forall|v: u8| #[trigger] Bits::from_byte(v) matches Some(x) ==> x.byte() == v,
        forall|x: Bits| #[trigger] Bits::decoding(seq![x.byte()]) == Ok::<Bits, DecodeError>(x),
{
    assert forall|x: Bits| #[trigger] Bits::decoding(seq![x.byte()]) == Ok::<Bits, DecodeError>(x) by {
        assert(seq![x.byte()][0] == x.byte());
    }
}

/// Hash function identifiers.
#[derive(Clone, Copy, PartialEq, Eq, PartialOrd, Ord, Debug)]
#[non_exhaustive]
pub enum DigestAlgorithm {
    Sha256,
    Sha512,
    Bitcoin160,
    Bitcoin256,
}

impl DigestAlgorithm {
    /// The byte that stands for the variant on the wire.
    pub open spec fn byte(self) -> u8 {
        match self {
            DigestAlgorithm::Sha256 => 0x11,
            DigestAlgorithm::Sha512 => 0x12,
            DigestAlgorithm::Bitcoin160 => 0x48,
            DigestAlgorithm::Bitcoin256 => 0x51,
        }
    }

    /// The variant whose wire byte is `v`, if any.
    pub open spec fn from_byte(v: u8) -> Option<Self> {
        if v == 0x11 {
            Some(DigestAlgorithm::Sha256)
        } else if v == 0x12 {
            Some(DigestAlgorithm::Sha512)
        } else if v == 0x48 {
            Some(DigestAlgorithm::Bitcoin160)
        } else if v == 0x51 {
            Some(DigestAlgorithm::Bitcoin256)
        } else {
            None
        }
    }

    pub fn to_u8(&self) -> (r: u8)
        ensures
            r == self.byte(),
    {
        match *self {
            DigestAlgorithm::Sha256 => 0x11,
            DigestAlgorithm::Sha512 => 0x12,
            DigestAlgorithm::Bitcoin160 => 0x48,
            DigestAlgorithm::Bitcoin256 => 0x51,
        }
    }

    pub fn from_u8(v: u8) -> (r: Option<Self>)
        ensures
            r == Self::from_byte(v),
    {
        match v {
            0x11 => Some(DigestAlgorithm::Sha256),
            0x12 => Some(DigestAlgorithm::Sha512),
            0x48 => Some(DigestAlgorithm::Bitcoin160),
            0x51 => Some(DigestAlgorithm::Bitcoin256),
            _ => None,
        }
    }

    /// Canonical encoding: the wire byte alone.
    pub fn strict_encode(&self) -> (r: Vec<u8>)
        ensures
            r@ == seq![self.byte()],
    {
        let mut out: Vec<u8> = Vec::new();
        out.push(self.to_u8());
        out
    }

    pub open spec fn decoding(bytes: Seq<u8>) -> Result<Self, DecodeError> {
        if bytes.len() == 0 {
            Err(DecodeError::UnexpectedEof)
        } else {
            match Self::from_byte(bytes[0]) {
                Some(x) => Ok(x),
                None => Err(DecodeError::EnumValueNotKnown { value: bytes[0] }),
            }
        }
    }

    pub fn strict_decode(bytes: &[u8]) -> (r: Result<Self, DecodeError>)
        ensures
            r == Self::decoding(bytes@),
    {
        if bytes.len() == 0 {
            return Err(DecodeError::UnexpectedEof);
        }
        match Self::from_u8(bytes[0]) {
            Some(x) => Ok(x),
            None => Err(DecodeError::EnumValueNotKnown { value: bytes[0] }),
        }
    }
}

/// Every variant's wire byte decodes to that variant, and a byte that
/// decodes is the wire byte of what it decodes to.
pub proof fn lemma_digest_algorithm_wire_bytes()
    ensures
        forall|x: DigestAlgorithm| #[trigger] DigestAlgorithm::from_byte(x.byte()) == Some(x),
        forall|v: u8| #[trigger] DigestAlgorithm::from_byte(v) matches Some(x) ==> x.byte() == v,
        forall|x: DigestAlgorithm| #[trigger] DigestAlgorithm::decoding(seq![x.byte()]) == Ok::<DigestAlgorithm, DecodeError>(x),
{
    assert forall|x: DigestAlgorithm| #[trigger] DigestAlgorithm::decoding(seq![x.byte()]) == Ok::<DigestAlgorithm, DecodeError>(x) by {
        assert(seq![x.byte()][0] == x.byte());
    }
}

/// Elliptic curves.
#[derive(Clone, Copy, PartialEq, Eq, PartialOrd, Ord, Debug)]
#[non_exhaustive]
pub enum EllipticCurve {
    Secp256k1,
    Curve25519,
}

impl EllipticCurve {
    /// The byte that stands for the variant on the wire.
    pub open spec fn byte(self) -> u8 {
        match self {
            EllipticCurve::Secp256k1 => 0x00,
            EllipticCurve::Curve25519 => 0x10,
        }
    }

    /// The variant whose wire byte is `v`, if any.
    pub open spec fn from_byte(v: u8) -> Option<Self> {
        if v == 0x00 {
            Some(EllipticCurve::Secp256k1)
        } else if v == 0x10 {
            Some(EllipticCurve::Curve25519)
        } else {
            None
        }
    }

    pub fn to_u8(&self) -> (r: u8)
        ensures
            r == self.byte(),
    {
        match *self {
            EllipticCurve::Secp256k1 => 0x00,
            EllipticCurve::Curve25519 => 0x10,
        }
    }

    pub fn from_u8(v: u8) -> (r: Option<Self>)
        ensures
            r == Self::from_byte(v),
    {
        match v {
            0x00 => Some(EllipticCurve::Secp256k1),
            0x10 => Some(EllipticCurve::Curve25519),
            _ => None,
        }
    }

    /// Canonical encoding: the wire byte alone.
    pub fn strict_encode(&self) -> (r: Vec<u8>)
        ensures
            r@ == seq![self.byte()],
    {
        let mut out: Vec<u8> = Vec::new();
        out.push(self.to_u8());
        out
    }

    pub open spec fn decoding(bytes: Seq<u8>) -> Result<Self, DecodeError> {
        if bytes.len() == 0 {
            Err(DecodeError::UnexpectedEof)
        } else {
            match Self::from_byte(bytes[0]) {
                Some(x) => Ok(x),
                None => Err(DecodeError::EnumValueNotKnown { value: bytes[0] }),
            }
        }
    }

    pub fn strict_decode(bytes: &[u8]) -> (r: Result<Self, DecodeError>)
        ensures
            r == Self::decoding(bytes@),
    {
        if bytes.len() == 0 {
            return Err(DecodeError::UnexpectedEof);
        }
        match Self::from_u8(bytes[0]) {
            Some(x) => Ok(x),
            None => Err(DecodeError::EnumValueNotKnown { value: bytes[0] }),
        }
    }
}

/// Every variant's wire byte decodes to that variant, and a byte that
/// decodes is the wire byte of what it decodes to.
pub proof fn lemma_elliptic_curve_wire_bytes()
    ensures
        forall|x: EllipticCurve| #[trigger] EllipticCurve::from_byte(x.byte()) == Some(x),
        forall|v: u8| #[trigger] EllipticCurve::from_byte(v) matches Some(x) ==> x.byte() == v,
        forall|x: EllipticCurve| #[trigger] EllipticCurve::decoding(seq![x.byte()]) == Ok::<EllipticCurve, DecodeError>(x),
{
    assert forall|x: EllipticCurve| #[trigger] EllipticCurve::decoding(seq![x.byte()]) == Ok::<EllipticCurve, DecodeError>(x) by {
        assert(seq![x.byte()][0] == x.byte());
    }
}

/// Signature schemes.
#[derive(Clone, Copy, PartialEq, Eq, PartialOrd, Ord, Debug)]
#[non_exhaustive]
pub enum SignatureAlgorithm {
    Ecdsa,
    Schnorr,
    Ed25519,
}

impl SignatureAlgorithm {
    /// The byte that stands for the variant on the wire.
    pub open spec fn byte(self) -> u8 {
        match self {
            SignatureAlgorithm::Ecdsa => 0,
            SignatureAlgorithm::Schnorr => 1,
            SignatureAlgorithm::Ed25519 => 2,
        }
    }

    /// The variant whose wire byte is `v`, if any.
    pub open spec fn from_byte(v: u8) -> Option<Self> {
        if v == 0 {
            Some(SignatureAlgorithm::Ecdsa)
        } else if v == 1 {
            Some(SignatureAlgorithm::Schnorr)
        } else if v == 2 {
            Some(SignatureAlgorithm::Ed25519)
        } else {
            None
        }
    }

    pub fn to_u8(&self) -> (r: u8)
        ensures
            r == self.byte(),
    {
        match *self {
            SignatureAlgorithm::Ecdsa => 0,
            SignatureAlgorithm::Schnorr => 1,
            SignatureAlgorithm::Ed25519 => 2,
        }
    }

    pub fn from_u8(v: u8) -> (r: Option<Self>)
        ensures
            r == Self::from_byte(v),
    {
        match v {
            0 => Some(SignatureAlgorithm::Ecdsa),
            1 => Some(SignatureAlgorithm::Schnorr),
            2 => Some(SignatureAlgorithm::Ed25519),
            _ => None,
        }
    }

    /// Canonical encoding: the wire byte alone.
    pub fn strict_encode(&self) -> (r: Vec<u8>)
        ensures
            r@ == seq![self.byte()],
    {
        let mut out: Vec<u8> = Vec::new();
        out.push(self.to_u8());
        out
    }

    pub open spec fn decoding(bytes: Seq<u8>) -> Result<Self, DecodeError> {
        if bytes.len() == 0 {
            Err(DecodeError::UnexpectedEof)
        } else {
            match Self::from_byte(bytes[0]) {
                Some(x) => Ok(x),
                None => Err(DecodeError::EnumValueNotKnown { value: bytes[0] }),
            }
        }
    }

    pub fn strict_decode(bytes: &[u8]) -> (r: Result<Self, DecodeError>)
        ensures
            r == Self::decoding(bytes@),
    {
        if bytes.len() == 0 {
            return Err(DecodeError::UnexpectedEof);
        }
        match Self::from_u8(bytes[0]) {
            Some(x) => Ok(x),
            None => Err(DecodeError::EnumValueNotKnown { value: bytes[0] }),
        }
    }
}

/// Every variant's wire byte decodes to that variant, and a byte that
/// decodes is the wire byte of what it decodes to.
pub proof fn lemma_signature_algorithm_wire_bytes()
    ensures
        forall|x: SignatureAlgorithm| #[trigger] SignatureAlgorithm::from_byte(x.byte()) == Some(x),
        forall|v: u8| #[trigger] SignatureAlgorithm::from_byte(v) matches Some(x) ==> x.byte() == v,
        forall|x: SignatureAlgorithm| #[trigger] SignatureAlgorithm::decoding(seq![x.byte()]) == Ok::<SignatureAlgorithm, DecodeError>(x),
{
    assert forall|x: SignatureAlgorithm| #[trigger] SignatureAlgorithm::decoding(seq![x.byte()]) == Ok::<SignatureAlgorithm, DecodeError>(x) by {
        assert(seq![x.byte()][0] == x.byte());
    }
}

/// Serialisation forms of a curve point.
#[derive(Clone, Copy, PartialEq, Eq, PartialOrd, Ord, Debug)]
#[non_exhaustive]
pub enum PointSerialization {
    Uncompressed,
    Compressed,
    SchnorrBip,
}

impl PointSerialization {
    /// The byte that stands for the variant on the wire.
    pub open spec fn byte(self) -> u8 {
        match self {
            PointSerialization::Uncompressed => 0,
            PointSerialization::Compressed => 1,
            PointSerialization::SchnorrBip => 2,
        }
    }

    /// The variant whose wire byte is `v`, if any.
    pub open spec fn from_byte(v: u8) -> Option<Self> {
        if v == 0 {
            Some(PointSerialization::Uncompressed)
        } else if v == 1 {
            Some(PointSerialization::Compressed)
        } else if v == 2 {
            Some(PointSerialization::SchnorrBip)
        } else {
            None
        }
    }

    pub fn to_u8(&self) -> (r: u8)
        ensures
            r == self.byte(),
    {
        match *self {
            PointSerialization::Uncompressed => 0,
            PointSerialization::Compressed => 1,
            PointSerialization::SchnorrBip => 2,
        }
    }

    pub fn from_u8(v: u8) -> (r: Option<Self>)
        ensures
            r == Self::from_byte(v),
    {
        match v {
            0 => Some(PointSerialization::Uncompressed),
            1 => Some(PointSerialization::Compressed),
            2 => Some(PointSerialization::SchnorrBip),
            _ => None,
        }
    }

    /// Canonical encoding: the wire byte alone.
    pub fn strict_encode(&self) -> (r: Vec<u8>)
        ensures
            r@ == seq![self.byte()],
    {
        let mut out: Vec<u8> = Vec::new();
        out.push(self.to_u8());
        out
    }

    pub open spec fn decoding(bytes: Seq<u8>) -> Result<Self, DecodeError> {
        if bytes.len() == 0 {
            Err(DecodeError::UnexpectedEof)
        } else {
            match Self::from_byte(bytes[0]) {
                Some(x) => Ok(x),
                None => Err(DecodeError::EnumValueNotKnown { value: bytes[0] }),
            }
        }
    }

    pub fn strict_decode(bytes: &[u8]) -> (r: Result<Self, DecodeError>)
        ensures
            r == Self::decoding(bytes@),
    {
        if bytes.len() == 0 {
            return Err(DecodeError::UnexpectedEof);
        }
        match Self::from_u8(bytes[0]) {
            Some(x) => Ok(x),
            None => Err(DecodeError::EnumValueNotKnown { value: bytes[0] }),
        }
    }
}

/// Every variant's wire byte decodes to that variant, and a byte that
/// decodes is the wire byte of what it decodes to.
pub proof fn lemma_point_serialization_wire_bytes()
    ensures
        forall|x: PointSerialization| #[trigger] PointSerialization::from_byte(x.byte()) == Some(x),
        forall|v: u8| #[trigger] PointSerialization::from_byte(v) matches Some(x) ==> x.byte() == v,
        forall|x: PointSerialization| #[trigger] PointSerialization::decoding(seq![x.byte()]) == Ok::<PointSerialization, DecodeError>(x),
{
    assert forall|x: PointSerialization| #[trigger] PointSerialization::decoding(seq![x.byte()]) == Ok::<PointSerialization, DecodeError>(x) by {
        assert(seq![x.byte()][0] == x.byte());
    }
}

} // verus!
