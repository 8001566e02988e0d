//! The log of evaluation markers, and the grouping of its markers into calls.
//!
//! In a lazy language there are no well delimited stack frames, so the history of function calls
//! is recorded as markers, solely for better error reporting.
use vstd::prelude::*;

use crate::identifier::{Ident, IdentKind};
use crate::position::{same_file, spec_contained_in, RawSpan, TermPos};

verus! {

/// A call stack: the markers logged so far, oldest first.
#[derive(Debug, Clone, Default, PartialEq)]
pub struct CallStack(pub Vec<StackElem>);

/// Basic description of a function call, used for error reporting.
#[derive(Debug, PartialEq, Eq)]
pub struct CallDescr {
    /// The name of the called function, if one was found.
    pub head: Option<Ident>,
    /// The position of the application.
    pub span: RawSpan,
}

/// A call stack element.
#[derive(Debug, Clone, PartialEq, Eq)]
pub enum StackElem {
    /// A function body was entered. The position is the one of the original application.
    Fun(TermPos),
    /// An application was evaluated.
    App(TermPos),
    /// A variable was entered.
    Var { kind: IdentKind, id: Ident, pos: TermPos },
    /// A record field was entered.
    Field { id: Ident, pos_record: TermPos, pos_field: TermPos, pos_access: TermPos },
}

/// The log once truncated at `n`: markers from index `n` on are gone.
pub open spec fn truncated(log: Seq<StackElem>, n: int) -> Seq<StackElem> {
    if n < log.len() {
        log.take(n)
    } else {
        log
    }
}

/// The log once a marker guarded by a definedness check on `pos` was offered.
pub open spec fn pushed_if_def(log: Seq<StackElem>, pos: TermPos, e: StackElem) -> Seq<StackElem> {
    if pos.spec_is_def() {
        log.push(e)
    } else {
        log
    }
}

/// The span of a defined position.
pub open spec fn spec_span_of(pos: TermPos) -> Option<RawSpan> {
    match pos {
        TermPos::Original(s) => Some(s),
        TermPos::Inherited(s) => Some(s),
        TermPos::Undefined => None,
    }
}

/// `pos` is defined, lies outside file `contract_id`, and is original unless `inherited_ok`.
pub open spec fn attributed_outside(pos: TermPos, contract_id: codespan::FileId, inherited_ok: bool) -> bool {
    match pos {
        TermPos::Original(s) => s.src_id != contract_id,
        TermPos::Inherited(s) => inherited_ok && s.src_id != contract_id,
        TermPos::Undefined => false,
    }
}

/// Whether a marker takes part in grouping. Dropped are generated variables, markers of the
/// file `contract_id`, and applications or function entries whose position is not original.
pub open spec fn is_relevant(e: StackElem, contract_id: codespan::FileId) -> bool {
    match e {
        StackElem::Var { id, pos, .. } => !id.generated && attributed_outside(pos, contract_id, true),
        StackElem::Field { pos_access, .. } => attributed_outside(pos_access, contract_id, true),
        StackElem::App(pos) => attributed_outside(pos, contract_id, false),
        StackElem::Fun(pos) => attributed_outside(pos, contract_id, false),
    }
}

/// The state of the grouping: the calls still open (innermost last) and the calls closed so far
/// (in closing order).
pub struct CallChain {
    pub pending: Seq<CallDescr>,
    pub entered: Seq<CallDescr>,
}

/// The open calls once the identifier `id` at `pos` was met: it names the innermost open call
/// if that call has no name yet and `pos` lies within its span.
pub open spec fn named_by(pending: Seq<CallDescr>, id: Ident, pos: TermPos) -> Seq<CallDescr> {
    match spec_span_of(pos) {
        Some(s) => if pending.len() > 0 && pending.last().head is None
            && spec_contained_in(s, pending.last().span) {
            pending.update(pending.len() - 1, CallDescr { head: Some(id), span: pending.last().span })
        } else {
            pending
        },
        None => pending,
    }
}

/// One step of the grouping, on a relevant marker.
pub open spec fn merge_step(st: CallChain, e: StackElem) -> CallChain {
    match e {
        StackElem::Var { id, pos, .. } => CallChain { pending: named_by(st.pending, id, pos), entered: st.entered },
        StackElem::Field { id, pos_access, .. } => CallChain {
            pending: named_by(st.pending, id, pos_access),
            entered: st.entered,
        },
        StackElem::App(pos) => match spec_span_of(pos) {
            // A curried sub-application of the innermost open call belongs to that call.
            Some(s) => if st.pending.len() > 0 && spec_contained_in(s, st.pending.last().span)
                && s.start == st.pending.last().span.start {
                st
            } else {
                CallChain { pending: st.pending.push(CallDescr { head: None, span: s }), entered: st.entered }
            },
            None => st,
        },
        StackElem::Fun(pos) => match spec_span_of(pos) {
            Some(s) => if st.pending.len() > 0 && st.pending.last().span == s {
                CallChain { pending: st.pending.drop_last(), entered: st.entered.push(st.pending.last()) }
            } else {
                st
            },
            None => st,
        },
    }
}

/// The state reached from `st` once the markers of `log` were grouped, in order.
pub open spec fn merge_from(st: CallChain, log: Seq<StackElem>, contract_id: codespan::FileId) -> CallChain
    decreases log.len(),
{
    if log.len() == 0 {
        st
    } else {
        let prev = merge_from(st, log.drop_last(), contract_id);
        if is_relevant(log.last(), contract_id) {
            merge_step(prev, log.last())
        } else {
            prev
        }
    }
}

pub open spec fn empty_chain() -> CallChain {
    CallChain { pending: Seq::empty(), entered: Seq::empty() }
}

/// The calls of `log`, most recently closed first, and the innermost call still open.
pub open spec fn spec_group_by_calls(log: Seq<StackElem>, contract_id: codespan::FileId) -> (Seq<CallDescr>, Option<CallDescr>) {
    let st = merge_from(empty_chain(), log, contract_id);
    (st.entered.reverse(), if st.pending.len() > 0 { Some(st.pending.last()) } else { None })
}

fn span_of(pos: &TermPos) -> (r: Option<RawSpan>)
    ensures
        r == spec_span_of(*pos),
{
    match pos {
        TermPos::Original(s) => Some(*s),
        TermPos::Inherited(s) => Some(*s),
        TermPos::Undefined => None,
    }
}

fn is_attributed_outside(pos: &TermPos, contract_id: &codespan::FileId, inherited_ok: bool) -> (r: bool)
    ensures
        r == attributed_outside(*pos, *contract_id, inherited_ok),
{
    match pos {
        TermPos::Original(s) => !same_file(&s.src_id, contract_id),
        TermPos::Inherited(s) => inherited_ok && !same_file(&s.src_id, contract_id),
        TermPos::Undefined => false,
    }
}

fn is_relevant_elem(e: &StackElem, contract_id: &codespan::FileId) -> (r: bool)
    ensures
        r == is_relevant(*e, *contract_id),
{
    match e {
        StackElem::Var { id, pos, .. } => !id.is_generated() && is_attributed_outside(pos, contract_id, true),
        StackElem::Field { pos_access, .. } => is_attributed_outside(pos_access, contract_id, true),
        StackElem::App(pos) => is_attributed_outside(pos, contract_id, false),
        StackElem::Fun(pos) => is_attributed_outside(pos, contract_id, false),
    }
}

fn name_pending_call(pending: &mut Vec<CallDescr>, id: &Ident, pos: &TermPos)
    ensures
        final(pending)@ == named_by(old(pending)@, *id, *pos),
{
    if let Some(span) = span_of(pos) {
        let k = pending.len();
        if k > 0 {
            let top = k - 1;
            if pending[top].head.is_none() && span.contained_in(&pending[top].span) {
                let call_span = pending[top].span;
                pending.set(top, CallDescr { head: Some(id.clone()), span: call_span });
            }
        }
    }
}

impl CallStack {
    pub fn new() -> (r: CallStack)
        ensures
            r.0@ == Seq::<StackElem>::empty(),
    {
        CallStack(Vec::new())
    }

    /// Push a marker to indicate that a variable was entered.
    pub fn enter_var(&mut self, kind: IdentKind, id: Ident, pos: TermPos)
        ensures
            final(self).0@ == old(self).0@.push(StackElem::Var { kind, id, pos }),
    {
        self.0.push(StackElem::Var { kind, id, pos });
    }

    /// Push a marker to indicate that an application was entered. Applications without a
    /// position were generated by the interpreter and are ignored.
    pub fn enter_app(&mut self, pos: TermPos)
        ensures
            final(self).0@ == pushed_if_def(old(self).0@, pos, StackElem::App(pos)),
    {
        if pos.is_def() {
            self.0.push(StackElem::App(pos));
        }
    }

    /// Push a marker to indicate that, during the evaluation of an application, the function part
    /// was evaluated to a function and its body was entered. `pos` is the position of the
    /// application. Applications without a position are ignored.
    pub fn enter_fun(&mut self, pos: TermPos)
        ensures
            final(self).0@ == pushed_if_def(old(self).0@, pos, StackElem::Fun(pos)),
    {
        if pos.is_def() {
            self.0.push(StackElem::Fun(pos));
        }
    }

    /// Push a marker to indicate that a record field was entered.
    pub fn enter_field(&mut self, id: Ident, pos_record: TermPos, pos_field: TermPos, pos_access: TermPos)
        ensures
            final(self).0@ == old(self).0@.push(
                StackElem::Field { id, pos_record, pos_field, pos_access },
            ),
    {
        self.0.push(StackElem::Field { id, pos_record, pos_field, pos_access });
    }

    /// Group the markers of the log into calls. Returns the calls from the most recently closed
    /// to the least, together with the innermost call still open, if any.
    ///
    /// One call spans several markers: its application, the identifiers met while its function
    /// part is evaluated, and the entry into the function body. A curried application `f a b`
    /// spans nested applications that start at the same offset; they are reported as one call.
    /// Markers of the file `contract_id`, which holds the builtin contracts, are left out.
    pub fn group_by_calls(&self, contract_id: codespan::FileId) -> (r: (Vec<CallDescr>, Option<CallDescr>))
        ensures
            (r.0@, r.1) == spec_group_by_calls(self.0@, contract_id),
    {
        let mut pending: Vec<CallDescr> = Vec::new();
        let mut entered: Vec<CallDescr> = Vec::new();
        let n = self.0.len();
        let mut i: usize = 0;
        while i < n
            invariant
                n == self.0@.len(),
                i <= n,
                pending@ == merge_from(empty_chain(), self.0@.take(i as int), contract_id).pending,
                entered@ == merge_from(empty_chain(), self.0@.take(i as int), contract_id).entered,
            decreases n - i,
        {
            proof {
                assert(self.0@.take(i + 1).drop_last() =~= self.0@.take(i as int));
            }
            let elt = &self.0[i];
            if is_relevant_elem(elt, &contract_id) {
                match elt {
                    StackElem::Var { id, pos, .. } => name_pending_call(&mut pending, id, pos),
                    StackElem::Field { id, pos_access, .. } => name_pending_call(&mut pending, id, pos_access),
                    StackElem::App(pos) => {
                        if let Some(span) = span_of(pos) {
                            let k = pending.len();
                            if !(k > 0 && span.is_prefix_of(&pending[k - 1].span)) {
                                pending.push(CallDescr { head: None, span });
                            }
                        }
                    },
                    StackElem::Fun(pos) => {
                        if let Some(span) = span_of(pos) {
                            let k = pending.len();
                            if k > 0 && pending[k - 1].span.same_span(&span) {
                                if let Some(call) = pending.pop() {
                                    entered.push(call);
                                }
                            }
                        }
                    },
                }
            }
            i += 1;
        }
        proof {
            assert(self.0@.take(n as int) =~= self.0@);
        }
        let ghost closed = entered@;
        let mut calls: Vec<CallDescr> = Vec::new();
        while entered.len() > 0
            invariant
                calls@.len() + entered@.len() == closed.len(),
                entered@ == closed.take(entered@.len() as int),
                forall|j: int| 0 <= j < calls@.len() ==> calls@[j] == closed[closed.len() - 1 - j],
            decreases entered@.len(),
        {
            if let Some(call) = entered.pop() {
                calls.push(call);
            }
        }
        assert(calls@ =~= closed.reverse());
        (calls, pending.pop())
    }

    /// The number of markers in the log.
    pub fn len(&self) -> (r: usize)
        ensures
            r == self.0@.len(),
    {
        self.0.len()
    }

    /// Truncate the log at `len` markers. Used e.g. to drop the markers logged during the strict
    /// evaluation of the operand of a primitive operator.
    pub fn truncate(&mut self, len: usize)
        ensures
            final(self).0@ == truncated(old(self).0@, len as int),
    {
        self.0.truncate(len)
    }
}

impl From<CallStack> for Vec<StackElem> {
    fn from(cs: CallStack) -> (r: Vec<StackElem>) {
        cs.0
    }
}

impl vstd::std_specs::convert::FromSpecImpl<CallStack> for Vec<StackElem> {
    open spec fn obeys_from_spec() -> bool {
        true
    }

    open spec fn from_spec(cs: CallStack) -> Vec<StackElem> {
        cs.0
    }
}

} // verus!
