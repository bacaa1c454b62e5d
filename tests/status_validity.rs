use rgb_core::ids::{OpId, Opout, AssignmentType, Txid};
use rgb_core::status::{Failure, Info, Status, Validity, VerifyError, Warning};

fn txid(b: u8) -> Txid {
    Txid { bytes: [b; 32] }
}

fn opid(b: u8) -> OpId {
    OpId { bytes: [b; 32] }
}

#[test]
fn validity_valid_when_nothing_failed() {
    let status = Status::new();
    assert_eq!(status.validity(), Validity::Valid);
}

#[test]
fn validity_except_endpoints_when_terminal_unmined() {
    let mut status = Status::new();
    status.unmined_endpoint_txids.push(txid(1));
    assert_eq!(status.validity(), Validity::ValidExceptEndpoints);
}

#[test]
fn validity_invalid_on_failure_with_all_resolved() {
    let failure = Failure::NoPrevOut(
        opid(2),
        Opout { op: opid(1), ty: AssignmentType(3), no: 0 },
    );
    let status = Status::with_failure(failure);
    assert_eq!(status.validity(), Validity::Invalid);
}

#[test]
fn validity_unresolved_on_failure_with_unresolved_tx() {
    let failure = Failure::AnchorInvalid(opid(2), txid(5), VerifyError::CommitmentMissing);
    let mut status = Status::from_error(failure);
    status.unresolved_txids.push(txid(5));
    assert_eq!(status.validity(), Validity::UnresolvedTransactions);
}

#[test]
fn validity_failures_outweigh_unmined_endpoints() {
    let mut status = Status::new();
    status.unmined_endpoint_txids.push(txid(1));
    status.add_failure(Failure::OperationAbsent(opid(4)));
    assert_eq!(status.validity(), Validity::Invalid);
}

#[test]
fn status_add_assign_appends_each_list() {
    let mut a = Status::from_error(Failure::SchemaRootHierarchy);
    a.add_warning(Warning::ExcessiveNode(opid(1)));
    let mut b = Status::from_iter(vec![Failure::OperationAbsent(opid(2)), Failure::Custom("x".to_string())]);
    b.add_info(Info::UncheckableConfidentialState(opid(3), 7));
    b.unresolved_txids.push(txid(9));
    a.add_assign(b);
    assert_eq!(
        a.failures,
        vec![
            Failure::SchemaRootHierarchy,
            Failure::OperationAbsent(opid(2)),
            Failure::Custom("x".to_string())
        ]
    );
    assert_eq!(a.warnings, vec![Warning::ExcessiveNode(opid(1))]);
    assert_eq!(a.info, vec![Info::UncheckableConfidentialState(opid(3), 7)]);
    assert_eq!(a.unresolved_txids, vec![txid(9)]);
    assert_eq!(a.validity(), Validity::UnresolvedTransactions);
}

fn sample(n: u8) -> Status {
    let mut s = Status::new();
    s.add_failure(Failure::OperationAbsent(opid(n)));
    s.add_warning(Warning::EndpointTransactionMissed(txid(n)));
    s.unmined_endpoint_txids.push(txid(n + 1));
    s
}

#[test]
fn status_combination_is_associative_with_empty_identity() {
    let mut left = sample(1);
    left.add_assign(sample(2));
    left.add_assign(sample(3));

    let mut bc = sample(2);
    bc.add_assign(sample(3));
    let mut right = sample(1);
    right.add_assign(bc);

    assert_eq!(left.failures, right.failures);
    assert_eq!(left.warnings, right.warnings);
    assert_eq!(left.unmined_endpoint_txids, right.unmined_endpoint_txids);
    assert_eq!(left.unresolved_txids, right.unresolved_txids);
    assert_eq!(left.info, right.info);

    let mut with_empty = sample(4);
    with_empty.add_assign(Status::new());
    let plain = sample(4);
    assert_eq!(with_empty.failures, plain.failures);
    assert_eq!(with_empty.warnings, plain.warnings);
    assert_eq!(with_empty.unmined_endpoint_txids, plain.unmined_endpoint_txids);
}

#[test]
fn add_methods_return_the_updated_status() {
    let mut status = Status::new();
    assert_eq!(status.add_failure(Failure::OperationAbsent(opid(1))).failures.len(), 1);
    assert_eq!(status.add_warning(Warning::ExcessiveNode(opid(2))).warnings.len(), 1);
    let after = status.add_info(Info::Custom("note".to_string()));
    assert_eq!(after.info, vec![Info::Custom("note".to_string())]);
    assert_eq!(after.failures, vec![Failure::OperationAbsent(opid(1))]);
}
