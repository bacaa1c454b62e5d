use rgb_core::anchor::{Anchor, AnchorSet, DbcAnchor, MergeError, MpcBlock, OpretProof, TapretProof};
use rgb_core::ids::Txid;

fn tree(seed: u8) -> (MpcBlock, Vec<[u8; 32]>) {
    let mut messages = vec![];
    let mut ids = vec![];
    for i in 0..3u8 {
        let id = [seed + i + 1; 32];
        messages.push((id, [100 + i; 32]));
        ids.push(id);
    }
    (MpcBlock::commit(&messages, 7).unwrap(), ids)
}

fn opret_anchor(block: MpcBlock) -> Anchor<MpcBlock> {
    Anchor::Bitcoin(AnchorSet::Opret(DbcAnchor {
        txid: Txid { bytes: [1; 32] },
        mpc_proof: block,
        dbc_proof: OpretProof,
    }))
}

#[test]
fn merge_reveal_joins_partial_merkle_blocks() {
    let (full, ids) = tree(0);
    let a = full.conceal_except(&vec![ids[0]]).unwrap();
    let b = full.conceal_except(&vec![ids[1]]).unwrap();
    assert_ne!(a, b);

    let merged = opret_anchor(a).merge_reveal(opret_anchor(b)).unwrap();

    let expected = full.conceal_except(&vec![ids[0], ids[1]]).unwrap();
    assert_eq!(merged, opret_anchor(expected));

    let mut revealed = match merged {
        Anchor::Bitcoin(AnchorSet::Opret(a)) => a.mpc_proof.known_messages(),
        _ => unreachable!(),
    };
    revealed.sort();
    assert_eq!(revealed, vec![(ids[0], [100; 32]), (ids[1], [101; 32])]);
}

#[test]
fn merge_reveal_rejects_blocks_of_other_commitments() {
    let (full, ids) = tree(0);
    let (other, other_ids) = tree(50);
    let a = full.conceal_except(&vec![ids[0]]).unwrap();
    let d = other.conceal_except(&vec![other_ids[0]]).unwrap();
    assert_eq!(
        opret_anchor(a).merge_reveal(opret_anchor(d)),
        Err(MergeError::ProofMismatch)
    );
}

#[test]
fn conceal_except_unknown_protocol_is_none() {
    let (full, ids) = tree(0);
    let a = full.conceal_except(&vec![ids[0]]).unwrap();
    assert!(a.conceal_except(&vec![ids[1]]).is_none());
    assert!(full.conceal_except(&vec![[200; 32]]).is_none());
}

#[test]
fn merge_reveal_dual_merkle_anchor() {
    let (full, ids) = tree(0);
    let txid = Txid { bytes: [2; 32] };
    let tapret = DbcAnchor {
        txid,
        mpc_proof: full.conceal_except(&vec![ids[0]]).unwrap(),
        dbc_proof: TapretProof { path_proof: vec![], internal_pk: [5; 32] },
    };
    let opret = DbcAnchor { txid, mpc_proof: full.conceal_except(&vec![ids[2]]).unwrap(), dbc_proof: OpretProof };
    let merged = Anchor::Liquid(AnchorSet::Taptet(tapret.clone()))
        .merge_reveal(Anchor::Liquid(AnchorSet::Opret(opret.clone())))
        .unwrap();
    assert_eq!(merged, Anchor::Liquid(AnchorSet::Dual { tapret, opret }));
}

#[test]
fn commit_reveals_every_message() {
    let (full, ids) = tree(0);
    let mut known = full.known_messages();
    known.sort();
    assert_eq!(known, vec![(ids[0], [100; 32]), (ids[1], [101; 32]), (ids[2], [102; 32])]);
    assert!(MpcBlock::commit(&vec![], 7).is_some());
}
