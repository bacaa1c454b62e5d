use rgb_core::anchor::{Anchor, AnchorSet, DbcAnchor, Layer1, MpcProof, OpretProof, WitnessId};
use rgb_core::consignment::{Consignment, Grip, Schema, Terminal};
use rgb_core::ids::{BundleId, OpId, OpType, SchemaId, SecretSeal, Txid};
use rgb_core::operation::Operation;
use rgb_core::status::{Failure, Validity, VerifyError};
use rgb_core::validation::{check_witness, check_witnesses, endpoint_witnesses, TxInfo, WitnessCheck};

fn txid(b: u8) -> Txid {
    Txid { bytes: [b; 32] }
}

fn mined(confirmations: u32) -> Option<TxInfo> {
    Some(TxInfo { block_height: 800_000, block_time: 1_700_000_000, confirmations })
}

#[test]
fn unknown_witness_is_unresolved_and_fails() {
    let s = check_witness(&WitnessCheck { txid: txid(1), endpoint: false, resolved: None });
    assert_eq!(s.unresolved_txids, vec![txid(1)]);
    assert_eq!(s.failures, vec![Failure::SealNoWitnessTx(txid(1))]);
    assert_eq!(s.validity(), Validity::UnresolvedTransactions);
}

#[test]
fn unconfirmed_endpoint_is_unmined() {
    let s = check_witness(&WitnessCheck { txid: txid(2), endpoint: true, resolved: mined(0) });
    assert_eq!(s.unmined_endpoint_txids, vec![txid(2)]);
    assert!(s.failures.is_empty());
    assert_eq!(s.validity(), Validity::ValidExceptEndpoints);
    let inner = check_witness(&WitnessCheck { txid: txid(2), endpoint: false, resolved: mined(0) });
    assert_eq!(inner.validity(), Validity::Valid);
    assert!(inner.unmined_endpoint_txids.is_empty());
}

#[test]
fn validator_verdicts_for_one_genesis() {
    let confirmed = vec![
        WitnessCheck { txid: txid(1), endpoint: false, resolved: mined(6) },
        WitnessCheck { txid: txid(2), endpoint: true, resolved: mined(3) },
    ];
    assert_eq!(check_witnesses(&confirmed).validity(), Validity::Valid);

    let mut unconfirmed = confirmed.clone();
    unconfirmed[1].resolved = mined(0);
    assert_eq!(check_witnesses(&unconfirmed).validity(), Validity::ValidExceptEndpoints);

    let mut failing = check_witnesses(&confirmed);
    failing.add_failure(Failure::NoPrevOut(
        OpId { bytes: [5; 32] },
        rgb_core::ids::Opout { op: OpId { bytes: [6; 32] }, ty: rgb_core::ids::AssignmentType(1), no: 0 },
    ));
    assert_eq!(failing.validity(), Validity::Invalid);

    let mut unresolved = confirmed.clone();
    unresolved[0].resolved = None;
    let mut status = check_witnesses(&unresolved);
    status.add_failure(Failure::AnchorInvalid(OpId { bytes: [5; 32] }, txid(2), VerifyError::CommitmentMissing));
    assert_eq!(status.unresolved_txids, vec![txid(1)]);
    assert_eq!(status.validity(), Validity::UnresolvedTransactions);
}

#[test]
fn endpoint_witnesses_follow_terminals() {
    let b = BundleId { bytes: [1; 32] };
    let lost = BundleId { bytes: [2; 32] };
    let t = txid(4);
    let c = Consignment {
        schema: Schema {
            schema_id: SchemaId { bytes: [7; 32] },
            root_id: None,
            global_types: vec![],
            owned_types: vec![],
            valency_types: vec![],
        },
        asset_tags: vec![],
        genesis: Operation { op_type: OpType::Genesis, schema_id: SchemaId { bytes: [7; 32] }, body: vec![] },
        operations: vec![],
        terminals: vec![
            Terminal { bundle_id: b, layer1: Layer1::Bitcoin, seal: SecretSeal { bytes: [2; 32] } },
            Terminal { bundle_id: lost, layer1: Layer1::Bitcoin, seal: SecretSeal { bytes: [3; 32] } },
        ],
        bundles: vec![],
        grips: vec![(
            b.bytes,
            Grip {
                witness_id: WitnessId::Bitcoin(t),
                anchor: Anchor::Bitcoin(AnchorSet::Opret(DbcAnchor {
                    txid: t,
                    mpc_proof: MpcProof { pos: 0, cofactor: 0, path: vec![] },
                    dbc_proof: OpretProof,
                })),
            },
        )],
        witnesses: vec![],
    };
    assert_eq!(endpoint_witnesses(&c), vec![t]);
}
