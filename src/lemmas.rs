//! Facts about the marker log and the grouping of its markers into calls.
use vstd::prelude::*;

use crate::callstack::{
    empty_chain, is_relevant, merge_from, merge_step, named_by,
    spec_group_by_calls, spec_span_of, truncated, CallChain, CallDescr, StackElem,
};
use crate::position::TermPos;

verus! {

/// The position by which a marker is attributed to a file.
pub open spec fn attributing_pos(e: StackElem) -> TermPos {
    match e {
        StackElem::Fun(pos) => pos,
        StackElem::App(pos) => pos,
        StackElem::Var { pos, .. } => pos,
        StackElem::Field { pos_access, .. } => pos_access,
    }
}

/// The marker is attributed to file `file_id`.
pub open spec fn attributed_to(e: StackElem, file_id: codespan::FileId) -> bool {
    match spec_span_of(attributing_pos(e)) {
        Some(s) => s.src_id == file_id,
        None => false,
    }
}

/// No field marker of `log` carries a generated name. (Grouping drops generated variables, but
/// not field markers.)
pub open spec fn fields_user_written(log: Seq<StackElem>) -> bool {
    forall|i: int| 0 <= i < log.len() ==> (#[trigger] log[i] matches StackElem::Field { id, .. } ==> !id.generated)
}

/// No call of `calls` is named by a generated identifier.
pub open spec fn heads_user_written(calls: Seq<CallDescr>) -> bool {
    forall|j: int|
        0 <= j < calls.len() && (#[trigger] calls[j]).head is Some ==> !calls[j].head->0.generated
}

/// Truncating at `n` keeps the first `n` markers (all of them if there are fewer), so markers
/// logged afterwards only come after those; truncating at the current length changes nothing.
pub proof fn lemma_truncate_keeps_prefix(log: Seq<StackElem>, n: nat, more: Seq<StackElem>)
    ensures
        truncated(log, n as int).len() == if n < log.len() { n as int } else { log.len() as int },
        truncated(log, n as int).is_prefix_of(log),
        truncated(log, n as int).is_prefix_of(truncated(log, n as int) + more),
        (truncated(log, n as int) + more).len() >= if n < log.len() { n as int } else { log.len() as int },
        truncated(log, log.len() as int) == log,
{
    assert(truncated(log, n as int).is_prefix_of(log));
    assert((truncated(log, n as int) + more).take(truncated(log, n as int).len() as int) =~= truncated(log, n as int));
}

/// Grouping a log whose markers are all attributed to the file `contract_id` gives no call and
/// no open call.
pub proof fn lemma_contract_markers_are_silent(log: Seq<StackElem>, contract_id: codespan::FileId)
    requires
        forall|i: int| 0 <= i < log.len() ==> attributed_to(#[trigger] log[i], contract_id),
    ensures
        spec_group_by_calls(log, contract_id).0 == Seq::<CallDescr>::empty(),
        spec_group_by_calls(log, contract_id).1 is None,
{
    lemma_irrelevant_log_keeps_state(empty_chain(), log, contract_id);
    assert(Seq::<CallDescr>::empty().reverse() =~= Seq::<CallDescr>::empty());
}

proof fn lemma_irrelevant_log_keeps_state(st: CallChain, log: Seq<StackElem>, contract_id: codespan::FileId)
    requires
        forall|i: int| 0 <= i < log.len() ==> attributed_to(#[trigger] log[i], contract_id),
    ensures
        merge_from(st, log, contract_id) == st,
    decreases log.len(),
{
    if log.len() > 0 {
        let prefix = log.drop_last();
        assert forall|i: int| 0 <= i < prefix.len() implies attributed_to(#[trigger] prefix[i], contract_id) by {
            assert(prefix[i] == log[i]);
        }
        lemma_irrelevant_log_keeps_state(st, prefix, contract_id);
        assert(attributed_to(log[log.len() - 1], contract_id));
    }
}

/// Grouping the markers of `l1 + l2` from `st` is grouping those of `l1`, then those of `l2`.
pub proof fn lemma_merge_concat(st: CallChain, l1: Seq<StackElem>, l2: Seq<StackElem>, contract_id: codespan::FileId)
    ensures
        merge_from(st, l1 + l2, contract_id) == merge_from(merge_from(st, l1, contract_id), l2, contract_id),
    decreases l2.len(),
{
    if l2.len() == 0 {
        assert(l1 + l2 =~= l1);
    } else {
        assert((l1 + l2).drop_last() =~= l1 + l2.drop_last());
        assert((l1 + l2).last() == l2.last());
        lemma_merge_concat(st, l1, l2.drop_last(), contract_id);
    }
}

/// The calls already closed stay closed, in order, and do not influence the rest of the grouping.
pub proof fn lemma_merge_closed_calls_kept(pending: Seq<CallDescr>, closed: Seq<CallDescr>, log: Seq<StackElem>, contract_id: codespan::FileId)
    ensures
        merge_from(CallChain { pending, entered: closed }, log, contract_id) == (CallChain {
            pending: merge_from(CallChain { pending, entered: Seq::empty() }, log, contract_id).pending,
            entered: closed + merge_from(CallChain { pending, entered: Seq::empty() }, log, contract_id).entered,
        }),
    decreases log.len(),
{
    let fresh = CallChain { pending, entered: Seq::empty() };
    if log.len() == 0 {
        assert(closed + Seq::<CallDescr>::empty() =~= closed);
    } else {
        lemma_merge_closed_calls_kept(pending, closed, log.drop_last(), contract_id);
        let prev = merge_from(fresh, log.drop_last(), contract_id);
        let e = log.last();
        if is_relevant(e, contract_id) {
            match e {
                StackElem::Fun(pos) => {
                    match spec_span_of(pos) {
                        Some(s) => {
                            if prev.pending.len() > 0 && prev.pending.last().span == s {
                                assert(closed + prev.entered.push(prev.pending.last()) =~= (closed + prev.entered).push(prev.pending.last()));
                            }
                        },
                        None => {},
                    }
                },
                _ => {},
            }
        }
    }
}

/// When every call of `l1` is closed, the calls of `l1 + l2` are those of `l2`, then those of
/// `l1`: calls closed later come first. The open call is the one of `l2`.
pub proof fn lemma_sequential_calls(l1: Seq<StackElem>, l2: Seq<StackElem>, contract_id: codespan::FileId)
    requires
        merge_from(empty_chain(), l1, contract_id).pending.len() == 0,
    ensures
        spec_group_by_calls(l1 + l2, contract_id).0
            == spec_group_by_calls(l2, contract_id).0 + spec_group_by_calls(l1, contract_id).0,
        spec_group_by_calls(l1 + l2, contract_id).1 == spec_group_by_calls(l2, contract_id).1,
{
    let st1 = merge_from(empty_chain(), l1, contract_id);
    lemma_merge_concat(empty_chain(), l1, l2, contract_id);
    assert(st1.pending =~= Seq::<CallDescr>::empty());
    lemma_merge_closed_calls_kept(st1.pending, st1.entered, l2, contract_id);
    let e1 = st1.entered;
    let e2 = merge_from(empty_chain(), l2, contract_id).entered;
    assert((e1 + e2).reverse() =~= e2.reverse() + e1.reverse());
}

/// Grouping depends on the log and the contract file alone: the same log groups the same way.
pub proof fn lemma_group_by_calls_deterministic(log1: Seq<StackElem>, log2: Seq<StackElem>, contract_id: codespan::FileId)
    requires
        log1 == log2,
    ensures
        spec_group_by_calls(log1, contract_id) == spec_group_by_calls(log2, contract_id),
{
}

proof fn lemma_merge_heads_user_written(log: Seq<StackElem>, contract_id: codespan::FileId)
    requires
        fields_user_written(log),
    ensures
        heads_user_written(merge_from(empty_chain(), log, contract_id).pending),
        heads_user_written(merge_from(empty_chain(), log, contract_id).entered),
    decreases log.len(),
{
    if log.len() > 0 {
        assert forall|i: int| 0 <= i < log.drop_last().len() implies
            (#[trigger] log.drop_last()[i] matches StackElem::Field { id, .. } ==> !id.generated) by {
            assert(log.drop_last()[i] == log[i]);
        }
        lemma_merge_heads_user_written(log.drop_last(), contract_id);
        assert(log[log.len() - 1] == log.last());
        let prev = merge_from(empty_chain(), log.drop_last(), contract_id);
        let next = merge_from(empty_chain(), log, contract_id);
        let e = log.last();
        if is_relevant(e, contract_id) {
            assert(next == merge_step(prev, e));
            match e {
                StackElem::Fun(pos) => {
                    assert forall|j: int| 0 <= j < next.entered.len() && (#[trigger] next.entered[j]).head is Some
                        implies !next.entered[j].head->0.generated by {
                        if j < prev.entered.len() {
                            assert(next.entered[j] == prev.entered[j]);
                        } else {
                            assert(prev.pending[prev.pending.len() - 1] == prev.pending.last());
                        }
                    }
                    assert forall|j: int| 0 <= j < next.pending.len() && (#[trigger] next.pending[j]).head is Some
                        implies !next.pending[j].head->0.generated by {
                        if next.pending.len() < prev.pending.len() {
                            assert(next.pending[j] == prev.pending[j]);
                        }
                    }
                },
                StackElem::App(pos) => {
                    assert forall|j: int| 0 <= j < next.pending.len() && (#[trigger] next.pending[j]).head is Some
                        implies !next.pending[j].head->0.generated by {
                        if j < prev.pending.len() {
                            assert(next.pending[j] == prev.pending[j]);
                        }
                    }
                },
                StackElem::Var { id, pos, .. } => {
                    assert(!id.generated);
                    assert forall|j: int| 0 <= j < next.pending.len() && (#[trigger] next.pending[j]).head is Some
                        implies !next.pending[j].head->0.generated by {
                        if next.pending[j] != prev.pending[j] {
                            assert(next.pending[j].head == Some(id));
                        }
                    }
                },
                StackElem::Field { id, pos_access, .. } => {
                    assert forall|j: int| 0 <= j < next.pending.len() && (#[trigger] next.pending[j]).head is Some
                        implies !next.pending[j].head->0.generated by {
                        if next.pending[j] != prev.pending[j] {
                            assert(next.pending[j].head == Some(id));
                        }
                    }
                },
            }
        }
    }
}

/// Where no field marker carries a generated name, no call found by grouping, closed or open, is
/// named by a generated identifier.
pub proof fn lemma_generated_never_head(log: Seq<StackElem>, contract_id: codespan::FileId)
    requires
        fields_user_written(log),
    ensures
        heads_user_written(spec_group_by_calls(log, contract_id).0),
        spec_group_by_calls(log, contract_id).1 matches Some(c) ==> (c.head matches Some(id) ==> !id.generated),
{
    lemma_merge_heads_user_written(log, contract_id);
    let st = merge_from(empty_chain(), log, contract_id);
    let calls = st.entered.reverse();
    assert forall|j: int| 0 <= j < calls.len() && (#[trigger] calls[j]).head is Some
        implies !calls[j].head->0.generated by {
        assert(calls[j] == st.entered[st.entered.len() - 1 - j]);
    }
    if st.pending.len() > 0 {
        assert(st.pending[st.pending.len() - 1] == st.pending.last());
    }
}

} // verus!
