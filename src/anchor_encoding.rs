//! Canonical encoding of anchors: the anchor's layer tag, the anchor set's
//! tag, then each commitment as its witness txid, its multi-protocol proof
//! and its commitment proof.

use vstd::prelude::*;

use crate::anchor::{Anchor, AnchorSet, DbcAnchor, Layer1, MpcProof, OpretProof, TapretProof};
use crate::codec::{
    lemma_le_bytes_len, lemma_le_bytes_of_value, lemma_le_value_of_bytes, lemma_pow256_values,
    le_bytes, le_value, push_bytes, push_le, read_array32, read_le, DecodeError,
};
use crate::ids::Txid;

verus! {

/// Largest number of hashes on a multi-protocol proof path.
pub const MPC_PATH_MAX_LEN: usize = 32;

/// Largest length of a tapret script-path proof (a `u16` length prefix).
pub const TAPRET_PATH_MAX_LEN: usize = 0xFFFF;

/// A multi-protocol proof as plain values: position, cofactor, path.
pub type MpcView = (u32, u16, Seq<Seq<u8>>);

/// A tapret proof as plain values: path proof and internal key.
pub type TapretView = (Seq<u8>, Seq<u8>);

/// A tapret commitment as plain values: txid, proof, tapret proof.
pub type TapretAnchorView = (Seq<u8>, MpcView, TapretView);

/// An opret commitment as plain values: txid and proof.
pub type OpretAnchorView = (Seq<u8>, MpcView);

/// An anchor set as plain values.
pub enum AnchorSetView {
    Taptet(TapretAnchorView),
    Opret(OpretAnchorView),
    Dual(TapretAnchorView, OpretAnchorView),
}

/// An anchor as plain values: its layer and its anchor set.
pub type AnchorView = (Layer1, AnchorSetView);

pub open spec fn mpc_view(p: MpcProof) -> MpcView {
    (p.pos, p.cofactor, p.path_view())
}

pub open spec fn tapret_view(t: TapretProof) -> TapretView {
    (t.path_proof@, t.internal_pk@)
}

pub open spec fn tapret_anchor_view(a: DbcAnchor<MpcProof, TapretProof>) -> TapretAnchorView {
    (a.txid.bytes@, mpc_view(a.mpc_proof), tapret_view(a.dbc_proof))
}

pub open spec fn opret_anchor_view(a: DbcAnchor<MpcProof, OpretProof>) -> OpretAnchorView {
    (a.txid.bytes@, mpc_view(a.mpc_proof))
}

pub open spec fn anchor_set_view(s: AnchorSet<MpcProof>) -> AnchorSetView {
    match s {
        AnchorSet::Taptet(a) => AnchorSetView::Taptet(tapret_anchor_view(a)),
        AnchorSet::Opret(a) => AnchorSetView::Opret(opret_anchor_view(a)),
        AnchorSet::Dual { tapret, opret } => AnchorSetView::Dual(
            tapret_anchor_view(tapret),
            opret_anchor_view(opret),
        ),
    }
}

pub open spec fn anchor_view(a: Anchor<MpcProof>) -> AnchorView {
    (a.spec_layer1(), anchor_set_view(a.spec_anchor_set()))
}

/// Whether a proof fits its encoding: at most 32 hashes of 32 bytes.
pub open spec fn mpc_wf(v: MpcView) -> bool {
    v.2.len() <= MPC_PATH_MAX_LEN && forall|i: int| 0 <= i < v.2.len() ==> (#[trigger] v.2[i]).len() == 32
}

pub open spec fn tapret_wf(v: TapretView) -> bool {
    v.0.len() <= TAPRET_PATH_MAX_LEN && v.1.len() == 32
}

pub open spec fn tapret_anchor_wf(v: TapretAnchorView) -> bool {
    v.0.len() == 32 && mpc_wf(v.1) && tapret_wf(v.2)
}

pub open spec fn opret_anchor_wf(v: OpretAnchorView) -> bool {
    v.0.len() == 32 && mpc_wf(v.1)
}

pub open spec fn anchor_set_wf(v: AnchorSetView) -> bool {
    match v {
        AnchorSetView::Taptet(a) => tapret_anchor_wf(a),
        AnchorSetView::Opret(a) => opret_anchor_wf(a),
        AnchorSetView::Dual(a, b) => tapret_anchor_wf(a) && opret_anchor_wf(b),
    }
}

/// The hashes of a path, one after the other.
pub open spec fn path_encoding(s: Seq<Seq<u8>>) -> Seq<u8>
    decreases s.len(),
{
    if s.len() == 0 {
        Seq::empty()
    } else {
        path_encoding(s.drop_last()) + s.last()
    }
}

/// Position (`u32`), cofactor (`u16`), path length (one byte), path.
pub open spec fn mpc_encoding(v: MpcView) -> Seq<u8> {
    le_bytes(v.0 as nat, 4) + le_bytes(v.1 as nat, 2) + seq![v.2.len() as u8] + path_encoding(v.2)
}

/// Path proof with a `u16` length prefix, then the 32-byte internal key.
pub open spec fn tapret_encoding(v: TapretView) -> Seq<u8> {
    le_bytes(v.0.len(), 2) + v.0 + v.1
}

pub open spec fn tapret_anchor_encoding(v: TapretAnchorView) -> Seq<u8> {
    v.0 + mpc_encoding(v.1) + tapret_encoding(v.2)
}

/// An opret proof holds no data, so the commitment ends with its proof.
pub open spec fn opret_anchor_encoding(v: OpretAnchorView) -> Seq<u8> {
    v.0 + mpc_encoding(v.1)
}

pub open spec fn anchor_set_encoding(v: AnchorSetView) -> Seq<u8> {
    match v {
        AnchorSetView::Taptet(a) => seq![0x01u8] + tapret_anchor_encoding(a),
        AnchorSetView::Opret(a) => seq![0x02u8] + opret_anchor_encoding(a),
        AnchorSetView::Dual(a, b) => seq![0x03u8] + tapret_anchor_encoding(a) + opret_anchor_encoding(b),
    }
}

pub open spec fn anchor_encoding(v: AnchorView) -> Seq<u8> {
    seq![v.0.byte()] + anchor_set_encoding(v.1)
}

/// A proof read from the front of `s`, with what follows it.
pub open spec fn mpc_decoding(s: Seq<u8>) -> Result<(MpcView, Seq<u8>), DecodeError> {
    if s.len() < 7 {
        Err(DecodeError::UnexpectedEof)
    } else {
        let n = s[6] as int;
        if n > MPC_PATH_MAX_LEN {
            Err(DecodeError::ValueOutOfRange { max: MPC_PATH_MAX_LEN as u128, found: n as u128 })
        } else if s.len() < 7 + 32 * n {
            Err(DecodeError::UnexpectedEof)
        } else {
            Ok((
                (
                    le_value(s.subrange(0, 4)) as u32,
                    le_value(s.subrange(4, 6)) as u16,
                    Seq::new(n as nat, |i: int| s.subrange(7 + 32 * i, 39 + 32 * i)),
                ),
                s.subrange(7 + 32 * n, s.len() as int),
            ))
        }
    }
}

pub open spec fn tapret_decoding(s: Seq<u8>) -> Result<(TapretView, Seq<u8>), DecodeError> {
    if s.len() < 2 {
        Err(DecodeError::UnexpectedEof)
    } else {
        let n = le_value(s.subrange(0, 2)) as int;
        if s.len() < 34 + n {
            Err(DecodeError::UnexpectedEof)
        } else {
            Ok(((s.subrange(2, 2 + n), s.subrange(2 + n, 34 + n)), s.subrange(34 + n, s.len() as int)))
        }
    }
}

pub open spec fn tapret_anchor_decoding(s: Seq<u8>) -> Result<(TapretAnchorView, Seq<u8>), DecodeError> {
    if s.len() < 32 {
        Err(DecodeError::UnexpectedEof)
    } else {
        match mpc_decoding(s.subrange(32, s.len() as int)) {
            Err(e) => Err(e),
            Ok((m, r1)) => match tapret_decoding(r1) {
                Err(e) => Err(e),
                Ok((t, r2)) => Ok(((s.subrange(0, 32), m, t), r2)),
            },
        }
    }
}

pub open spec fn opret_anchor_decoding(s: Seq<u8>) -> Result<(OpretAnchorView, Seq<u8>), DecodeError> {
    if s.len() < 32 {
        Err(DecodeError::UnexpectedEof)
    } else {
        match mpc_decoding(s.subrange(32, s.len() as int)) {
            Err(e) => Err(e),
            Ok((m, r1)) => Ok(((s.subrange(0, 32), m), r1)),
        }
    }
}

pub open spec fn anchor_set_decoding(s: Seq<u8>) -> Result<(AnchorSetView, Seq<u8>), DecodeError> {
    if s.len() == 0 {
        Err(DecodeError::UnexpectedEof)
    } else {
        let rest = s.subrange(1, s.len() as int);
        if s[0] == 0x01 {
            match tapret_anchor_decoding(rest) {
                Err(e) => Err(e),
                Ok((a, r)) => Ok((AnchorSetView::Taptet(a), r)),
            }
        } else if s[0] == 0x02 {
            match opret_anchor_decoding(rest) {
                Err(e) => Err(e),
                Ok((a, r)) => Ok((AnchorSetView::Opret(a), r)),
            }
        } else if s[0] == 0x03 {
            match tapret_anchor_decoding(rest) {
                Err(e) => Err(e),
                Ok((a, r1)) => match opret_anchor_decoding(r1) {
                    Err(e) => Err(e),
                    Ok((b, r2)) => Ok((AnchorSetView::Dual(a, b), r2)),
                },
            }
        } else {
            Err(DecodeError::EnumValueNotKnown { value: s[0] })
        }
    }
}

pub open spec fn anchor_decoding(s: Seq<u8>) -> Result<(AnchorView, Seq<u8>), DecodeError> {
    if s.len() == 0 {
        Err(DecodeError::UnexpectedEof)
    } else {
        match Layer1::from_byte(s[0]) {
            None => Err(DecodeError::EnumValueNotKnown { value: s[0] }),
            Some(layer) => match anchor_set_decoding(s.subrange(1, s.len() as int)) {
                Err(e) => Err(e),
                Ok((a, r)) => Ok(((layer, a), r)),
            },
        }
    }
}

pub proof fn lemma_path_layout(s: Seq<Seq<u8>>)
    requires
        forall|i: int| 0 <= i < s.len() ==> (#[trigger] s[i]).len() == 32,
    ensures
        path_encoding(s).len() == 32 * s.len(),
        forall|i: int|
            0 <= i < s.len() ==> path_encoding(s).subrange(32 * i, 32 * i + 32) == #[trigger] s[i],
    decreases s.len(),
{
    if s.len() > 0 {
        let p = s.drop_last();
        lemma_path_layout(p);
        let e = path_encoding(s);
        let ep = path_encoding(p);
        assert forall|i: int| 0 <= i < s.len() implies e.subrange(32 * i, 32 * i + 32) == #[trigger] s[i] by {
            if i < p.len() {
                assert(p[i] == s[i]);
                assert(e.subrange(32 * i, 32 * i + 32) =~= ep.subrange(32 * i, 32 * i + 32));
            } else {
                assert(e.subrange(32 * i, 32 * i + 32) =~= s.last());
            }
        }
    }
}

pub proof fn lemma_mpc_round_trip(v: MpcView, rest: Seq<u8>)
    requires
        mpc_wf(v),
    ensures
        mpc_decoding(mpc_encoding(v) + rest) == Ok::<(MpcView, Seq<u8>), DecodeError>((v, rest)),
{
    let s = mpc_encoding(v) + rest;
    let n = v.2.len() as int;
    lemma_pow256_values();
    lemma_le_bytes_len(v.0 as nat, 4);
    lemma_le_bytes_len(v.1 as nat, 2);
    lemma_le_value_of_bytes(v.0 as nat, 4);
    lemma_le_value_of_bytes(v.1 as nat, 2);
    lemma_path_layout(v.2);
    let pe = path_encoding(v.2);
    assert(s.subrange(0, 4) =~= le_bytes(v.0 as nat, 4));
    assert(s.subrange(4, 6) =~= le_bytes(v.1 as nat, 2));
    assert(s[6] == v.2.len() as u8);
    assert(s.subrange(7, 7 + 32 * n) =~= pe);
    let d = Seq::new(n as nat, |i: int| s.subrange(7 + 32 * i, 39 + 32 * i));
    assert forall|i: int| 0 <= i < n implies #[trigger] d[i] == v.2[i] by {
        assert(s.subrange(7 + 32 * i, 39 + 32 * i) =~= pe.subrange(32 * i, 32 * i + 32));
    }
    assert(d =~= v.2);
    assert(s.subrange(7 + 32 * n, s.len() as int) =~= rest);
}

pub proof fn lemma_tapret_round_trip(v: TapretView, rest: Seq<u8>)
    requires
        tapret_wf(v),
    ensures
        tapret_decoding(tapret_encoding(v) + rest) == Ok::<(TapretView, Seq<u8>), DecodeError>((v, rest)),
{
    let s = tapret_encoding(v) + rest;
    let n = v.0.len() as int;
    lemma_pow256_values();
    lemma_le_bytes_len(n as nat, 2);
    lemma_le_value_of_bytes(n as nat, 2);
    assert(s.subrange(0, 2) =~= le_bytes(n as nat, 2));
    assert(s.subrange(2, 2 + n) =~= v.0);
    assert(s.subrange(2 + n, 34 + n) =~= v.1);
    assert(s.subrange(34 + n, s.len() as int) =~= rest);
}

pub proof fn lemma_tapret_anchor_round_trip(v: TapretAnchorView, rest: Seq<u8>)
    requires
        tapret_anchor_wf(v),
    ensures
        tapret_anchor_decoding(tapret_anchor_encoding(v) + rest) == Ok::<
            (TapretAnchorView, Seq<u8>),
            DecodeError,
        >((v, rest)),
{
    let s = tapret_anchor_encoding(v) + rest;
    let tail = tapret_encoding(v.2) + rest;
    lemma_mpc_round_trip(v.1, tail);
    lemma_tapret_round_trip(v.2, rest);
    assert(s.subrange(0, 32) =~= v.0);
    assert(s.subrange(32, s.len() as int) =~= mpc_encoding(v.1) + tail);
}

pub proof fn lemma_opret_anchor_round_trip(v: OpretAnchorView, rest: Seq<u8>)
    requires
        opret_anchor_wf(v),
    ensures
        opret_anchor_decoding(opret_anchor_encoding(v) + rest) == Ok::<
            (OpretAnchorView, Seq<u8>),
            DecodeError,
        >((v, rest)),
{
    let s = opret_anchor_encoding(v) + rest;
    lemma_mpc_round_trip(v.1, rest);
    assert(s.subrange(0, 32) =~= v.0);
    assert(s.subrange(32, s.len() as int) =~= mpc_encoding(v.1) + rest);
}

pub proof fn lemma_anchor_set_round_trip(v: AnchorSetView, rest: Seq<u8>)
    requires
        anchor_set_wf(v),
    ensures
        anchor_set_decoding(anchor_set_encoding(v) + rest) == Ok::<(AnchorSetView, Seq<u8>), DecodeError>(
            (v, rest),
        ),
{
    let s = anchor_set_encoding(v) + rest;
    match v {
        AnchorSetView::Taptet(a) => {
            lemma_tapret_anchor_round_trip(a, rest);
            assert(s.subrange(1, s.len() as int) =~= tapret_anchor_encoding(a) + rest);
        },
        AnchorSetView::Opret(a) => {
            lemma_opret_anchor_round_trip(a, rest);
            assert(s.subrange(1, s.len() as int) =~= opret_anchor_encoding(a) + rest);
        },
        AnchorSetView::Dual(a, b) => {
            let tail = opret_anchor_encoding(b) + rest;
            lemma_tapret_anchor_round_trip(a, tail);
            lemma_opret_anchor_round_trip(b, rest);
            assert(s.subrange(1, s.len() as int) =~= tapret_anchor_encoding(a) + tail);
        },
    }
}

/// Decoding the canonical encoding of an anchor gives the same anchor and
/// consumes exactly its encoding.
pub proof fn lemma_anchor_round_trip(v: AnchorView, rest: Seq<u8>)
    requires
        anchor_set_wf(v.1),
    ensures
        anchor_decoding(anchor_encoding(v) + rest) == Ok::<(AnchorView, Seq<u8>), DecodeError>((v, rest)),
{
    let s = anchor_encoding(v) + rest;
    lemma_anchor_set_round_trip(v.1, rest);
    assert(s.subrange(1, s.len() as int) =~= anchor_set_encoding(v.1) + rest);
    assert(Layer1::from_byte(v.0.byte()) == Some(v.0));
}

impl MpcProof {
    pub fn encode_into(&self, out: &mut Vec<u8>)
        requires
            self.path@.len() <= MPC_PATH_MAX_LEN,
        ensures
            final(out)@ == old(out)@ + mpc_encoding(mpc_view(*self)),
    {
        let ghost start = out@;
        proof {
            lemma_pow256_values();
        }
        push_le(out, self.pos as u128, 4);
        push_le(out, self.cofactor as u128, 2);
        out.push(self.path.len() as u8);
        let ghost head = out@;
        let mut i: usize = 0;
        while i < self.path.len()
            invariant
                i <= self.path@.len(),
                out@ == head + path_encoding(self.path_view().subrange(0, i as int)),
            decreases self.path@.len() - i,
        {
            push_bytes(out, &self.path[i]);
            proof {
                let s = self.path_view().subrange(0, i + 1);
                assert(s.drop_last() =~= self.path_view().subrange(0, i as int));
                assert(s.last() == self.path@[i as int]@);
            }
            i = i + 1;
        }
        proof {
            assert(self.path_view().subrange(0, i as int) =~= self.path_view());
            assert(out@ =~= start + mpc_encoding(mpc_view(*self)));
        }
    }

    /// Reads a proof at `at`; returns it with the position after it.
    pub fn decode_from(bytes: &[u8], at: usize) -> (r: Result<(MpcProof, usize), DecodeError>)
        requires
            at <= bytes@.len(),
        ensures
            match (r, mpc_decoding(bytes@.subrange(at as int, bytes@.len() as int))) {
                (Ok((p, next)), Ok((v, rest))) => mpc_view(p) == v && at <= next <= bytes@.len()
                    && bytes@.subrange(next as int, bytes@.len() as int) == rest,
                (Err(e), Err(f)) => e == f,
                _ => false,
            },
    {
        let len = bytes.len();
        let ghost s = bytes@.subrange(at as int, len as int);
        if len - at < 7 {
            return Err(DecodeError::UnexpectedEof);
        }
        let pos = read_le(bytes, at, 4);
        let cofactor = read_le(bytes, at + 4, 2);
        let n = bytes[at + 6] as usize;
        proof {
            lemma_pow256_values();
            assert(s.subrange(0, 4) =~= bytes@.subrange(at as int, at + 4));
            assert(s.subrange(4, 6) =~= bytes@.subrange(at + 4, at + 6));
            lemma_le_bytes_of_value(s.subrange(0, 4));
            lemma_le_bytes_of_value(s.subrange(4, 6));
        }
        if n > MPC_PATH_MAX_LEN {
            return Err(DecodeError::ValueOutOfRange { max: MPC_PATH_MAX_LEN as u128, found: n as u128 });
        }
        if len - at - 7 < 32 * n {
            return Err(DecodeError::UnexpectedEof);
        }
        let ghost expected = Seq::new(n as nat, |i: int| s.subrange(7 + 32 * i, 39 + 32 * i));
        let mut path: Vec<[u8; 32]> = Vec::new();
        let mut i: usize = 0;
        while i < n
            invariant
                i <= n <= MPC_PATH_MAX_LEN,
                at + 7 + 32 * n <= len == bytes@.len(),
                s == bytes@.subrange(at as int, len as int),
                expected == Seq::new(n as nat, |i: int| s.subrange(7 + 32 * i, 39 + 32 * i)),
                path@.len() == i,
                forall|j: int| 0 <= j < i ==> (#[trigger] path@[j])@ == expected[j],
            decreases n - i,
        {
            let h = read_array32(bytes, at + 7 + 32 * i);
            proof {
                assert(h@ =~= s.subrange(7 + 32 * i, 39 + 32 * i));
            }
            path.push(h);
            i = i + 1;
        }
        let p = MpcProof { pos: pos as u32, cofactor: cofactor as u16, path };
        proof {
            assert(p.path_view() =~= expected);
            assert(bytes@.subrange(at + 7 + 32 * n, len as int) =~= s.subrange(7 + 32 * n, s.len() as int));
        }
        Ok((p, at + 7 + 32 * n))
    }
}

impl TapretProof {
    pub fn encode_into(&self, out: &mut Vec<u8>)
        requires
            self.path_proof@.len() <= TAPRET_PATH_MAX_LEN,
        ensures
            final(out)@ == old(out)@ + tapret_encoding(tapret_view(*self)),
    {
        let ghost start = out@;
        proof {
            lemma_pow256_values();
        }
        push_le(out, self.path_proof.len() as u128, 2);
        push_bytes(out, self.path_proof.as_slice());
        push_bytes(out, &self.internal_pk);
        proof {
            assert(out@ =~= start + tapret_encoding(tapret_view(*self)));
        }
    }

    /// Reads a tapret proof at `at`; returns it with the position after it.
    pub fn decode_from(bytes: &[u8], at: usize) -> (r: Result<(TapretProof, usize), DecodeError>)
        requires
            at <= bytes@.len(),
        ensures
            match (r, tapret_decoding(bytes@.subrange(at as int, bytes@.len() as int))) {
                (Ok((t, next)), Ok((v, rest))) => tapret_view(t) == v && at <= next <= bytes@.len()
                    && bytes@.subrange(next as int, bytes@.len() as int) == rest,
                (Err(e), Err(f)) => e == f,
                _ => false,
            },
    {
        let len = bytes.len();
        let ghost s = bytes@.subrange(at as int, len as int);
        if len - at < 2 {
            return Err(DecodeError::UnexpectedEof);
        }
        let n = read_le(bytes, at, 2);
        proof {
            lemma_pow256_values();
            assert(s.subrange(0, 2) =~= bytes@.subrange(at as int, at + 2));
            lemma_le_bytes_of_value(s.subrange(0, 2));
        }
        let n = n as usize;
        if len - at - 2 < n || len - at - 2 - n < 32 {
            return Err(DecodeError::UnexpectedEof);
        }
        let path_proof = crate::codec::copy_bytes(bytes, at + 2, at + 2 + n);
        let internal_pk = read_array32(bytes, at + 2 + n);
        let t = TapretProof { path_proof, internal_pk };
        proof {
            assert(path_proof@ =~= s.subrange(2, 2 + n as int));
            assert(internal_pk@ =~= s.subrange(2 + n as int, 34 + n as int));
            assert(bytes@.subrange(at + 34 + n, len as int) =~= s.subrange(34 + n as int, s.len() as int));
        }
        Ok((t, at + 34 + n))
    }
}

impl DbcAnchor<MpcProof, TapretProof> {
    pub fn encode_into(&self, out: &mut Vec<u8>)
        requires
            tapret_anchor_wf(tapret_anchor_view(*self)),
        ensures
            final(out)@ == old(out)@ + tapret_anchor_encoding(tapret_anchor_view(*self)),
    {
        let ghost start = out@;
        push_bytes(out, &self.txid.bytes);
        self.mpc_proof.encode_into(out);
        self.dbc_proof.encode_into(out);
        proof {
            assert(out@ =~= start + tapret_anchor_encoding(tapret_anchor_view(*self)));
        }
    }

    pub fn decode_from(bytes: &[u8], at: usize) -> (r: Result<(DbcAnchor<MpcProof, TapretProof>, usize), DecodeError>)
        requires
            at <= bytes@.len(),
        ensures
            match (r, tapret_anchor_decoding(bytes@.subrange(at as int, bytes@.len() as int))) {
                (Ok((a, next)), Ok((v, rest))) => tapret_anchor_view(a) == v && at <= next <= bytes@.len()
                    && bytes@.subrange(next as int, bytes@.len() as int) == rest,
                (Err(e), Err(f)) => e == f,
                _ => false,
            },
    {
        let len = bytes.len();
        let ghost s = bytes@.subrange(at as int, len as int);
        if len - at < 32 {
            return Err(DecodeError::UnexpectedEof);
        }
        let txid = Txid { bytes: read_array32(bytes, at) };
        proof {
            assert(s.subrange(32, s.len() as int) =~= bytes@.subrange(at + 32, len as int));
            assert(s.subrange(0, 32) =~= bytes@.subrange(at as int, at + 32));
        }
        let (mpc_proof, next) = match MpcProof::decode_from(bytes, at + 32) {
            Ok(x) => x,
            Err(e) => {
                return Err(e);
            },
        };
        let (dbc_proof, end) = match TapretProof::decode_from(bytes, next) {
            Ok(x) => x,
            Err(e) => {
                return Err(e);
            },
        };
        Ok((DbcAnchor { txid, mpc_proof, dbc_proof }, end))
    }
}

impl DbcAnchor<MpcProof, OpretProof> {
    pub fn encode_into(&self, out: &mut Vec<u8>)
        requires
            opret_anchor_wf(opret_anchor_view(*self)),
        ensures
            final(out)@ == old(out)@ + opret_anchor_encoding(opret_anchor_view(*self)),
    {
        let ghost start = out@;
        push_bytes(out, &self.txid.bytes);
        self.mpc_proof.encode_into(out);
        proof {
            assert(out@ =~= start + opret_anchor_encoding(opret_anchor_view(*self)));
        }
    }

    pub fn decode_from(bytes: &[u8], at: usize) -> (r: Result<(DbcAnchor<MpcProof, OpretProof>, usize), DecodeError>)
        requires
            at <= bytes@.len(),
        ensures
            match (r, opret_anchor_decoding(bytes@.subrange(at as int, bytes@.len() as int))) {
                (Ok((a, next)), Ok((v, rest))) => opret_anchor_view(a) == v && at <= next <= bytes@.len()
                    && bytes@.subrange(next as int, bytes@.len() as int) == rest,
                (Err(e), Err(f)) => e == f,
                _ => false,
            },
    {
        let len = bytes.len();
        let ghost s = bytes@.subrange(at as int, len as int);
        if len - at < 32 {
            return Err(DecodeError::UnexpectedEof);
        }
        let txid = Txid { bytes: read_array32(bytes, at) };
        proof {
            assert(s.subrange(32, s.len() as int) =~= bytes@.subrange(at + 32, len as int));
            assert(s.subrange(0, 32) =~= bytes@.subrange(at as int, at + 32));
        }
        let (mpc_proof, next) = match MpcProof::decode_from(bytes, at + 32) {
            Ok(x) => x,
            Err(e) => {
                return Err(e);
            },
        };
        Ok((DbcAnchor { txid, mpc_proof, dbc_proof: OpretProof }, next))
    }
}

impl AnchorSet<MpcProof> {
    pub fn encode_into(&self, out: &mut Vec<u8>)
        requires
            anchor_set_wf(anchor_set_view(*self)),
        ensures
            final(out)@ == old(out)@ + anchor_set_encoding(anchor_set_view(*self)),
    {
        let ghost start = out@;
        match self {
            AnchorSet::Taptet(a) => {
                out.push(0x01);
                a.encode_into(out);
            },
            AnchorSet::Opret(a) => {
                out.push(0x02);
                a.encode_into(out);
            },
            AnchorSet::Dual { tapret, opret } => {
                out.push(0x03);
                tapret.encode_into(out);
                opret.encode_into(out);
            },
        }
        proof {
            assert(out@ =~= start + anchor_set_encoding(anchor_set_view(*self)));
        }
    }

    pub fn decode_from(bytes: &[u8], at: usize) -> (r: Result<(AnchorSet<MpcProof>, usize), DecodeError>)
        requires
            at <= bytes@.len(),
        ensures
            match (r, anchor_set_decoding(bytes@.subrange(at as int, bytes@.len() as int))) {
                (Ok((a, next)), Ok((v, rest))) => anchor_set_view(a) == v && at <= next <= bytes@.len()
                    && bytes@.subrange(next as int, bytes@.len() as int) == rest,
                (Err(e), Err(f)) => e == f,
                _ => false,
            },
    {
        let len = bytes.len();
        let ghost s = bytes@.subrange(at as int, len as int);
        if at == len {
            return Err(DecodeError::UnexpectedEof);
        }
        let tag = bytes[at];
        proof {
            assert(s.subrange(1, s.len() as int) =~= bytes@.subrange(at + 1, len as int));
            assert(s[0] == tag);
        }
        if tag == 0x01 {
            match DbcAnchor::<MpcProof, TapretProof>::decode_from(bytes, at + 1) {
                Ok((a, next)) => Ok((AnchorSet::Taptet(a), next)),
                Err(e) => Err(e),
            }
        } else if tag == 0x02 {
            match DbcAnchor::<MpcProof, OpretProof>::decode_from(bytes, at + 1) {
                Ok((a, next)) => Ok((AnchorSet::Opret(a), next)),
                Err(e) => Err(e),
            }
        } else if tag == 0x03 {
            let (tapret, next) = match DbcAnchor::<MpcProof, TapretProof>::decode_from(bytes, at + 1) {
                Ok(x) => x,
                Err(e) => {
                    return Err(e);
                },
            };
            match DbcAnchor::<MpcProof, OpretProof>::decode_from(bytes, next) {
                Ok((opret, end)) => Ok((AnchorSet::Dual { tapret, opret }, end)),
                Err(e) => Err(e),
            }
        } else {
            Err(DecodeError::EnumValueNotKnown { value: tag })
        }
    }

    /// Canonical encoding of the anchor set.
    pub fn strict_encode(&self) -> (r: Vec<u8>)
        requires
            anchor_set_wf(anchor_set_view(*self)),
        ensures
            r@ == anchor_set_encoding(anchor_set_view(*self)),
    {
        let mut out: Vec<u8> = Vec::new();
        self.encode_into(&mut out);
        proof {
            assert(out@ =~= anchor_set_encoding(anchor_set_view(*self)));
        }
        out
    }

    /// Decodes an anchor set from the front of `bytes`.
    pub fn strict_decode(bytes: &[u8]) -> (r: Result<AnchorSet<MpcProof>, DecodeError>)
        ensures
            match (r, anchor_set_decoding(bytes@)) {
                (Ok(a), Ok((v, _))) => anchor_set_view(a) == v,
                (Err(e), Err(f)) => e == f,
                _ => false,
            },
    {
        proof {
            assert(bytes@.subrange(0, bytes@.len() as int) =~= bytes@);
        }
        match AnchorSet::<MpcProof>::decode_from(bytes, 0) {
            Ok((a, _)) => Ok(a),
            Err(e) => Err(e),
        }
    }
}

impl Anchor<MpcProof> {
    /// Canonical encoding: the layer byte, then the anchor set.
    pub fn strict_encode(&self) -> (r: Vec<u8>)
        requires
            anchor_set_wf(anchor_set_view(self.spec_anchor_set())),
        ensures
            r@ == anchor_encoding(anchor_view(*self)),
    {
        let mut out: Vec<u8> = Vec::new();
        out.push(self.layer1().to_u8());
        self.deref().encode_into(&mut out);
        proof {
            assert(out@ =~= anchor_encoding(anchor_view(*self)));
        }
        out
    }

    /// Decodes an anchor from the front of `bytes`.
    pub fn strict_decode(bytes: &[u8]) -> (r: Result<Anchor<MpcProof>, DecodeError>)
        ensures
            match (r, anchor_decoding(bytes@)) {
                (Ok(a), Ok((v, _))) => anchor_view(a) == v,
                (Err(e), Err(f)) => e == f,
                _ => false,
            },
    {
        if bytes.len() == 0 {
            return Err(DecodeError::UnexpectedEof);
        }
        let layer = match Layer1::from_u8(bytes[0]) {
            Some(l) => l,
            None => {
                return Err(DecodeError::EnumValueNotKnown { value: bytes[0] });
            },
        };
        match AnchorSet::<MpcProof>::decode_from(bytes, 1) {
            Ok((set, _)) => match layer {
                Layer1::Bitcoin => Ok(Anchor::Bitcoin(set)),
                Layer1::Liquid => Ok(Anchor::Liquid(set)),
            },
            Err(e) => Err(e),
        }
    }
}

} // verus!
