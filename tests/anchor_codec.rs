use rgb_core::anchor::{
    Anchor, AnchorSet, AnchoredBundle, DbcAnchor, MpcProof, OpretProof, TapretProof,
};
use rgb_core::ids::{OpId, Txid};
use rgb_core::operation::TransitionBundle;
use rgb_core::DecodeError;

fn mpc() -> MpcProof {
    MpcProof { pos: 1, cofactor: 2, path: vec![[7; 32]] }
}

fn opret() -> DbcAnchor<MpcProof, OpretProof> {
    DbcAnchor { txid: Txid { bytes: [4; 32] }, mpc_proof: mpc(), dbc_proof: OpretProof }
}

fn tapret() -> DbcAnchor<MpcProof, TapretProof> {
    DbcAnchor {
        txid: Txid { bytes: [4; 32] },
        mpc_proof: MpcProof { pos: 0x0102_0304, cofactor: 9, path: vec![[1; 32], [2; 32]] },
        dbc_proof: TapretProof { path_proof: vec![0xAA, 0xBB, 0xCC], internal_pk: [5; 32] },
    }
}

#[test]
fn anchor_opret_encoding_bytes() {
    let a = Anchor::Liquid(AnchorSet::Opret(opret()));
    let mut expected = vec![0x01, 0x02];
    expected.extend_from_slice(&[4; 32]);
    expected.extend_from_slice(&[1, 0, 0, 0, 2, 0, 1]);
    expected.extend_from_slice(&[7; 32]);
    assert_eq!(a.strict_encode(), expected);
    assert_eq!(Anchor::strict_decode(&expected), Ok(a));
}

#[test]
fn anchor_round_trip_each_set() {
    let sets = vec![
        AnchorSet::Taptet(tapret()),
        AnchorSet::Opret(opret()),
        AnchorSet::Dual { tapret: tapret(), opret: opret() },
    ];
    for set in sets {
        let enc = set.strict_encode();
        assert_eq!(AnchorSet::strict_decode(&enc), Ok(set.clone()));
        let a = Anchor::Bitcoin(set);
        let enc = a.strict_encode();
        assert_eq!(enc[0], 0x00);
        assert_eq!(Anchor::strict_decode(&enc), Ok(a));
    }
}

#[test]
fn anchor_set_tags_on_the_wire() {
    assert_eq!(AnchorSet::Taptet(tapret()).strict_encode()[0], 0x01);
    assert_eq!(AnchorSet::Opret(opret()).strict_encode()[0], 0x02);
    assert_eq!(AnchorSet::Dual { tapret: tapret(), opret: opret() }.strict_encode()[0], 0x03);
}

#[test]
fn anchor_decode_errors() {
    assert_eq!(Anchor::strict_decode(&[]), Err(DecodeError::UnexpectedEof));
    assert_eq!(Anchor::strict_decode(&[2, 1]), Err(DecodeError::EnumValueNotKnown { value: 2 }));
    assert_eq!(Anchor::strict_decode(&[0, 4]), Err(DecodeError::EnumValueNotKnown { value: 4 }));
    let mut too_long = vec![0x00, 0x02];
    too_long.extend_from_slice(&[4; 32]);
    too_long.extend_from_slice(&[0, 0, 0, 0, 0, 0, 33]);
    assert_eq!(
        Anchor::strict_decode(&too_long),
        Err(DecodeError::ValueOutOfRange { max: 32, found: 33 })
    );
    let enc = Anchor::Bitcoin(AnchorSet::Taptet(tapret())).strict_encode();
    assert_eq!(Anchor::strict_decode(&enc[..enc.len() - 1]), Err(DecodeError::UnexpectedEof));
}

#[test]
fn anchored_bundle_holds_anchor_and_bundle() {
    let bundle = TransitionBundle { input_map: vec![(0, OpId { bytes: [3; 32] })], known_transitions: vec![] };
    let ab = AnchoredBundle { anchor: Anchor::Bitcoin(AnchorSet::Opret(opret())), bundle: bundle.clone() };
    assert_eq!(ab.bundle, bundle);
    assert_eq!(ab.anchor.deref().txid(), Some(Txid { bytes: [4; 32] }));
}
