use std::cmp::Ordering;

use rgb_core::anchor::{
    Anchor, AnchorSet, DbcAnchor, Layer1, MergeError, MpcProof, OpretProof, TapretProof,
    WitnessAnchor, WitnessId, WitnessOrd, WitnessPos,
};
use rgb_core::ids::Txid;
use rgb_core::DecodeError;

fn txid(b: u8) -> Txid {
    Txid { bytes: [b; 32] }
}

fn tapret(t: Txid) -> DbcAnchor<u8, TapretProof> {
    DbcAnchor {
        txid: t,
        mpc_proof: 0,
        dbc_proof: TapretProof { path_proof: vec![1, 2], internal_pk: [3; 32] },
    }
}

fn opret(t: Txid) -> DbcAnchor<u8, OpretProof> {
    DbcAnchor { txid: t, mpc_proof: 0, dbc_proof: OpretProof }
}

#[test]
fn anchor_set_txid_of_each_variant() {
    assert_eq!(AnchorSet::Taptet(tapret(txid(1))).txid(), Some(txid(1)));
    assert_eq!(AnchorSet::Opret(opret(txid(2))).txid(), Some(txid(2)));
    let dual = AnchorSet::Dual { tapret: tapret(txid(3)), opret: opret(txid(3)) };
    assert_eq!(dual.txid(), Some(txid(3)));
    let bad = AnchorSet::Dual { tapret: tapret(txid(3)), opret: opret(txid(4)) };
    assert_eq!(bad.txid(), None);
}

#[test]
fn anchor_layer_and_witness() {
    let a = Anchor::Liquid(AnchorSet::Opret(opret(txid(7))));
    assert_eq!(a.layer1(), Layer1::Liquid);
    assert_eq!(a.witness_id(), Some(WitnessId::Liquid(txid(7))));
    assert_eq!(a.tag_byte(), 0x01);
    assert_eq!(a.deref().tag_byte(), 0x02);
    let b = Anchor::Bitcoin(AnchorSet::Dual { tapret: tapret(txid(1)), opret: opret(txid(2)) });
    assert_eq!(b.layer1(), Layer1::Bitcoin);
    assert_eq!(b.witness_id(), None);
    assert_eq!(b.tag_byte(), 0x00);
    assert_eq!(b.deref().tag_byte(), 0x03);
}

#[test]
fn layer1_wire_bytes() {
    assert_eq!(Layer1::Bitcoin.strict_encode(), vec![0]);
    assert_eq!(Layer1::Liquid.strict_encode(), vec![1]);
    assert_eq!(Layer1::strict_decode(&[0]), Ok(Layer1::Bitcoin));
    assert_eq!(Layer1::strict_decode(&[1]), Ok(Layer1::Liquid));
    assert_eq!(Layer1::strict_decode(&[2]), Err(DecodeError::EnumValueNotKnown { value: 2 }));
}

#[test]
fn witness_from_mempool_is_off_chain() {
    let id = WitnessId::Bitcoin(txid(5));
    let a = WitnessAnchor::from_mempool(id);
    assert_eq!(a.witness_ord, WitnessOrd::OffChain);
    assert_eq!(a.witness_id, id);
}

#[test]
fn witness_anchor_order() {
    let id = WitnessId::Bitcoin(txid(5));
    let archived = WitnessAnchor { witness_ord: WitnessOrd::Archived, witness_id: id };
    let low = WitnessAnchor {
        witness_ord: WitnessOrd::Mined(WitnessPos { height: 100, timestamp: 9 }),
        witness_id: id,
    };
    let high = WitnessAnchor {
        witness_ord: WitnessOrd::Mined(WitnessPos { height: 200, timestamp: 1 }),
        witness_id: id,
    };
    let off = WitnessAnchor::from_mempool(id);
    let ordered = [archived, low, high, off];
    for i in 0..ordered.len() {
        for j in 0..ordered.len() {
            assert_eq!(ordered[i].compare(&ordered[j]), i.cmp(&j));
            assert_eq!(ordered[i].partial_cmp(&ordered[j]), Some(i.cmp(&j)));
            assert_eq!(ordered[i].cmp(&ordered[j]), i.cmp(&j));
        }
    }
    let other = WitnessAnchor { witness_ord: WitnessOrd::OffChain, witness_id: WitnessId::Bitcoin(txid(6)) };
    assert_eq!(off.compare(&other), Ordering::Less);
    let liquid = WitnessAnchor { witness_ord: WitnessOrd::OffChain, witness_id: WitnessId::Liquid(txid(0)) };
    assert_eq!(other.compare(&liquid), Ordering::Less);
    assert_eq!(other.cmp(&liquid), Ordering::Less);
}

fn mpc(pos: u32) -> MpcProof {
    MpcProof { pos, cofactor: 0, path: vec![[pos as u8; 32]] }
}

fn tapret_mpc(t: Txid, pos: u32) -> DbcAnchor<MpcProof, TapretProof> {
    DbcAnchor {
        txid: t,
        mpc_proof: mpc(pos),
        dbc_proof: TapretProof { path_proof: vec![1, 2], internal_pk: [3; 32] },
    }
}

fn opret_mpc(t: Txid, pos: u32) -> DbcAnchor<MpcProof, OpretProof> {
    DbcAnchor { txid: t, mpc_proof: mpc(pos), dbc_proof: OpretProof }
}

#[test]
fn merge_reveal_rejects_other_layer() {
    let a = Anchor::Bitcoin(AnchorSet::Opret(opret_mpc(txid(1), 0)));
    let b = Anchor::Liquid(AnchorSet::Opret(opret_mpc(txid(1), 0)));
    assert_eq!(a.merge_reveal(b), Err(MergeError::ProofMismatch));
}

#[test]
fn merge_reveal_same_commitment() {
    let a = Anchor::Bitcoin(AnchorSet::Taptet(tapret_mpc(txid(1), 0)));
    let b = a.clone();
    assert_eq!(a.clone().merge_reveal(b), Ok(a));
}

#[test]
fn merge_reveal_rejects_other_txid_or_proof() {
    let a = Anchor::Bitcoin(AnchorSet::Taptet(tapret_mpc(txid(1), 0)));
    let b = Anchor::Bitcoin(AnchorSet::Taptet(tapret_mpc(txid(2), 0)));
    assert_eq!(a.clone().merge_reveal(b), Err(MergeError::ProofMismatch));
    let mut other_proof = tapret_mpc(txid(1), 0);
    other_proof.dbc_proof.path_proof = vec![9];
    let c = Anchor::Bitcoin(AnchorSet::Taptet(other_proof));
    assert_eq!(a.merge_reveal(c), Err(MergeError::ProofMismatch));
}

#[test]
fn merge_reveal_tapret_and_opret_make_dual() {
    let a = Anchor::Liquid(AnchorSet::Taptet(tapret_mpc(txid(1), 0)));
    let b = Anchor::Liquid(AnchorSet::Opret(opret_mpc(txid(1), 0)));
    let merged = a.merge_reveal(b).unwrap();
    assert_eq!(
        merged,
        Anchor::Liquid(AnchorSet::Dual { tapret: tapret_mpc(txid(1), 0), opret: opret_mpc(txid(1), 0) })
    );
    assert_eq!(merged.witness_id(), Some(WitnessId::Liquid(txid(1))));
}

#[test]
fn map_keeps_layer() {
    let a: Anchor<u8> = Anchor::Liquid(AnchorSet::Opret(opret(txid(7))));
    let mapped: Result<Anchor<u16>, ()> = a.map(|set| match set {
        AnchorSet::Opret(o) => Ok(AnchorSet::Opret(DbcAnchor {
            txid: o.txid,
            mpc_proof: o.mpc_proof as u16 + 1,
            dbc_proof: o.dbc_proof,
        })),
        _ => Err(()),
    });
    let mapped = mapped.unwrap();
    assert_eq!(mapped.layer1(), Layer1::Liquid);
    assert_eq!(mapped.deref().txid(), Some(txid(7)));
    let b: Anchor<u8> = Anchor::Bitcoin(AnchorSet::Taptet(tapret(txid(7))));
    assert_eq!(b.map(|_| -> Result<AnchorSet<u16>, u8> { Err(4) }), Err(4));
}

#[test]
fn merge_reveal_tapret_and_opret_of_other_witnesses_fail() {
    let a = Anchor::Liquid(AnchorSet::Taptet(tapret_mpc(txid(1), 0)));
    let b = Anchor::Liquid(AnchorSet::Opret(opret_mpc(txid(2), 0)));
    assert_eq!(a.clone().merge_reveal(b.clone()), Err(MergeError::ProofMismatch));
    assert_eq!(b.merge_reveal(a), Err(MergeError::ProofMismatch));
}
