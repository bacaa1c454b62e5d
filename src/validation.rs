//! Witness resolution: how what the transaction resolver says about each
//! witness transaction enters the validation status.
//!
//! The resolver itself is an outside service; callers query it and hand the
//! answers in.

use vstd::prelude::*;

use crate::consignment::{ConsignmentApi, Terminal};
use crate::ids::Txid;
use crate::status::{
    status_combine, status_empty, validity_of, Failure, Status, StatusView,
    Validity,
};

verus! {

/// What the resolver knows of a transaction.
#[derive(Clone, Copy, PartialEq, Eq, Debug, Structural)]
pub struct TxInfo {
    pub block_height: u32,
    pub block_time: i64,
    pub confirmations: u32,
}

/// A witness transaction to check: its txid, whether it closes the seals
/// of an endpoint, and the resolver's answer (`None`: unknown).
#[derive(Clone, Copy, PartialEq, Eq, Debug)]
pub struct WitnessCheck {
    pub txid: Txid,
    pub endpoint: bool,
    pub resolved: Option<TxInfo>,
}

/// What one witness adds to the status: an unknown witness is unresolved
/// and fails its seals; an endpoint witness with no confirmation is unmined.
pub open spec fn witness_status(w: WitnessCheck) -> StatusView {
    match w.resolved {
        None => (
            seq![w.txid],
            Seq::empty(),
            seq![Failure::SealNoWitnessTx(w.txid)],
            Seq::empty(),
            Seq::empty(),
        ),
        Some(info) => if w.endpoint && info.confirmations == 0 {
            (Seq::empty(), seq![w.txid], Seq::empty(), Seq::empty(), Seq::empty())
        } else {
            status_empty()
        },
    }
}

/// What a list of witnesses adds to the status, in order.
pub open spec fn witnesses_status(ws: Seq<WitnessCheck>) -> StatusView
    decreases ws.len(),
{
    if ws.len() == 0 {
        status_empty()
    } else {
        status_combine(witnesses_status(ws.drop_last()), witness_status(ws.last()))
    }
}

/// The status contributed by one witness.
pub fn check_witness(w: &WitnessCheck) -> (r: Status)
    ensures
        r@ == witness_status(*w),
{
    let mut status = Status::new();
    match w.resolved {
        None => {
            status.unresolved_txids.push(w.txid);
            status.add_failure(Failure::SealNoWitnessTx(w.txid));
            proof {
                assert(status@.0 =~= seq![w.txid]);
                assert(status@.2 =~= seq![Failure::SealNoWitnessTx(w.txid)]);
            }
        },
        Some(info) => {
            if w.endpoint && info.confirmations == 0 {
                status.unmined_endpoint_txids.push(w.txid);
                proof {
                    assert(status@.1 =~= seq![w.txid]);
                }
            }
        },
    }
    status
}

/// The status contributed by all witnesses, in order.
pub fn check_witnesses(ws: &Vec<WitnessCheck>) -> (r: Status)
    ensures
        r@ == witnesses_status(ws@),
{
    let mut status = Status::new();
    let mut i: usize = 0;
    while i < ws.len()
        invariant
            i <= ws@.len(),
            status@ == witnesses_status(ws@.subrange(0, i as int)),
        decreases ws@.len() - i,
    {
        let one = check_witness(&ws[i]);
        status.add_assign(one);
        proof {
            let s = ws@.subrange(0, i + 1);
            assert(s.drop_last() =~= ws@.subrange(0, i as int));
            assert(s.last() == ws@[i as int]);
        }
        i = i + 1;
    }
    proof {
        assert(ws@.subrange(0, i as int) =~= ws@);
    }
    status
}

/// The witness txids of the given terminals, in order, skipping a terminal
/// whose bundle has no grip.
pub open spec fn terminal_witnesses<C: ConsignmentApi>(c: &C, ts: Seq<Terminal>) -> Seq<Txid>
    decreases ts.len(),
{
    if ts.len() == 0 {
        Seq::empty()
    } else {
        let rest = terminal_witnesses(c, ts.drop_last());
        match c.spec_grip(ts.last().bundle_id) {
            Some(g) => rest.push(g.witness_id.spec_txid()),
            None => rest,
        }
    }
}

/// The witness txids of the consignment's endpoints.
pub fn endpoint_witnesses<C: ConsignmentApi>(c: &C) -> (r: Vec<Txid>)
    ensures
        r@ == terminal_witnesses(c, c.spec_terminals()),
{
    let ts = c.terminals();
    let mut out: Vec<Txid> = Vec::new();
    let mut i: usize = 0;
    while i < ts.len()
        invariant
            i <= ts@.len(),
            ts@ == c.spec_terminals(),
            out@ == terminal_witnesses(c, ts@.subrange(0, i as int)),
        decreases ts@.len() - i,
    {
        let t = ts[i];
        proof {
            let s = ts@.subrange(0, i + 1);
            assert(s.drop_last() =~= ts@.subrange(0, i as int));
            assert(s.last() == t);
        }
        match c.grip(t.bundle_id) {
            Some(g) => {
                out.push(g.witness_id.txid());
            },
            None => {},
        }
        i = i + 1;
    }
    proof {
        assert(ts@.subrange(0, i as int) =~= ts@);
    }
    out
}

/// Whether a witness is known and, for an endpoint, confirmed.
pub open spec fn settled(w: WitnessCheck) -> bool {
    match w.resolved {
        Some(info) => !w.endpoint || info.confirmations > 0,
        None => false,
    }
}

/// Whether every witness is settled.
pub open spec fn all_settled(ws: Seq<WitnessCheck>) -> bool {
    forall|i: int| 0 <= i < ws.len() ==> settled(#[trigger] ws[i])
}

/// Whether some witness is unknown to the resolver.
pub open spec fn any_unknown(ws: Seq<WitnessCheck>) -> bool {
    exists|i: int| 0 <= i < ws.len() && (#[trigger] ws[i]).resolved is None
}

/// Witness resolution alone leaves a status valid exactly when every
/// witness is known and every endpoint witness is confirmed; with an
/// unknown witness it is unresolved, never plainly invalid; with every
/// witness known it holds no failure.
pub proof fn lemma_witnesses_validity(ws: Seq<WitnessCheck>)
    ensures
        (validity_of(witnesses_status(ws)) == Validity::Valid) == all_settled(ws),
        any_unknown(ws) ==> validity_of(witnesses_status(ws)) == Validity::UnresolvedTransactions,
        !any_unknown(ws) ==> witnesses_status(ws).2.len() == 0,
        !any_unknown(ws) ==> witnesses_status(ws).0.len() == 0,
    decreases ws.len(),
{
    if ws.len() > 0 {
        let p = ws.drop_last();
        let w = ws.last();
        lemma_witnesses_validity(p);
        assert(forall|i: int| 0 <= i < p.len() ==> p[i] == ws[i]);
        assert(ws[ws.len() - 1] == w);
        if any_unknown(p) {
            let i = choose|i: int| 0 <= i < p.len() && (#[trigger] p[i]).resolved is None;
            assert(ws[i].resolved is None);
        }
        if any_unknown(ws) && !any_unknown(p) {
            let i = choose|i: int| 0 <= i < ws.len() && (#[trigger] ws[i]).resolved is None;
            if i < p.len() {
                assert(p[i].resolved is None);
            }
        }
        if !any_unknown(ws) {
            assert forall|i: int| 0 <= i < p.len() implies !((#[trigger] p[i]).resolved is None) by {
                assert(p[i] == ws[i]);
            }
            assert(!(w.resolved is None));
        }
        if all_settled(ws) {
            assert(settled(w));
            assert forall|i: int| 0 <= i < p.len() implies settled(#[trigger] p[i]) by {
                assert(p[i] == ws[i]);
            }
        }
        if all_settled(p) && settled(w) {
            assert forall|i: int| 0 <= i < ws.len() implies settled(#[trigger] ws[i]) by {
                if i < p.len() {
                    assert(p[i] == ws[i]);
                }
            }
        }
    }
}

} // verus!
