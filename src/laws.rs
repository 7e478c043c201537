use vstd::prelude::*;

use crate::ir::{predicate_holds, well_formed, Instr, LaneOrder, ValueId};
use crate::lower::{
    lemma_lowering, lowered_payload, lowering, predicate_of, OperatorType,
};
use crate::semantics::{num_form, num_payload, Term};

verus! {

/// Whatever the operator (other than the refused `Power`) and whatever the
/// right operand, the result carries the left operand's form tag.
pub proof fn law_form_propagation(s: Seq<Instr>, op: OperatorType, lp: ValueId, rp: ValueId)
    requires
        well_formed(s),
        lp < s.len(),
        rp < s.len(),
        op != OperatorType::Power,
        (s + lowering(op, lp, rp, s.len() as int)).len() <= usize::MAX,
    ensures
        num_form(s + lowering(op, lp, rp, s.len() as int), s.len() as int) == num_form(s, lp as int),
{
    lemma_lowering(s, op, lp, rp);
}

/// `Identity` yields the left operand's payload; the right operand's payload
/// does not matter.
pub proof fn law_identity(s: Seq<Instr>, lp: ValueId, rp: ValueId)
    requires
        well_formed(s),
        lp < s.len(),
        rp < s.len(),
        (s + lowering(OperatorType::Identity, lp, rp, s.len() as int)).len() <= usize::MAX,
    ensures
        num_payload(s + lowering(OperatorType::Identity, lp, rp, s.len() as int), s.len() as int)
            == num_payload(s, lp as int),
{
    lemma_lowering(s, OperatorType::Identity, lp, rp);
}

/// Every comparison operator lowers to an ordered comparison whose mask is
/// converted to floats, so a lane holding NaN on either side compares false,
/// `LogicalNotEqual` included.
pub proof fn law_comparisons_are_ordered(op: OperatorType, l: Term, r: Term)
    requires
        predicate_of(op) is Some,
    ensures
        lowered_payload(op, l, r) == Term::ToFloat(
            Box::new(Term::Compare(predicate_of(op)->Some_0, Box::new(l), Box::new(r))),
        ),
        !predicate_holds(predicate_of(op)->Some_0, LaneOrder::Unordered),
{
}

/// How many instructions one lowering of `Identity` emits.
pub const IDENTITY_LEN: usize = 6;

/// The stream and result handle after lowering `Identity` `n` times, each time
/// with the previous result on the left, starting from numeric value `p`; the
/// right operand of step `i` is `rights[i]`.
pub open spec fn repeat_identity(s: Seq<Instr>, p: ValueId, rights: Seq<ValueId>, n: nat) -> (Seq<Instr>, ValueId)
    decreases n,
{
    if n == 0 {
        (s, p)
    } else {
        let (s1, q) = repeat_identity(s, p, rights, (n - 1) as nat);
        (s1 + lowering(OperatorType::Identity, q, rights[n - 1], s1.len() as int), s1.len() as ValueId)
    }
}

/// Lowering `Identity` any number of times in a row, with any right operands,
/// leaves the payload, and the form tag, exactly as they were.
pub proof fn law_identity_idempotent(s: Seq<Instr>, p: ValueId, rights: Seq<ValueId>, n: nat)
    requires
        well_formed(s),
        p < s.len(),
        n <= rights.len(),
        forall|i: int| 0 <= i < rights.len() ==> #[trigger] rights[i] < s.len(),
        repeat_identity(s, p, rights, n).0.len() <= usize::MAX,
    ensures
        ({
            let (t, q) = repeat_identity(s, p, rights, n);
            &&& num_payload(t, q as int) == num_payload(s, p as int)
            &&& num_form(t, q as int) == num_form(s, p as int)
        }),
{
    lemma_repeat_identity_len(s, p, rights, n);
    lemma_repeat_identity(s, p, rights, n);
}

proof fn lemma_repeat_identity_len(s: Seq<Instr>, p: ValueId, rights: Seq<ValueId>, n: nat)
    ensures
        repeat_identity(s, p, rights, n).0.len() == s.len() + n * IDENTITY_LEN,
    decreases n,
{
    if n > 0 {
        let m = (n - 1) as nat;
        lemma_repeat_identity_len(s, p, rights, m);
        let (s1, q) = repeat_identity(s, p, rights, m);
        assert(lowering(OperatorType::Identity, q, rights[m as int], s1.len() as int).len() == IDENTITY_LEN);
        assert(s.len() + m * IDENTITY_LEN + IDENTITY_LEN == s.len() + n * IDENTITY_LEN) by (nonlinear_arith)
            requires m + 1 == n;
    }
}

proof fn lemma_repeat_identity(s: Seq<Instr>, p: ValueId, rights: Seq<ValueId>, n: nat)
    requires
        well_formed(s),
        p < s.len(),
        n <= rights.len(),
        forall|i: int| 0 <= i < rights.len() ==> #[trigger] rights[i] < s.len(),
        s.len() + n * IDENTITY_LEN <= usize::MAX,
    ensures
        ({
            let (t, q) = repeat_identity(s, p, rights, n);
            &&& well_formed(t)
            &&& q < t.len()
            &&& s.len() <= t.len()
            &&& t.len() == s.len() + n * IDENTITY_LEN
            &&& num_payload(t, q as int) == num_payload(s, p as int)
            &&& num_form(t, q as int) == num_form(s, p as int)
        }),
    decreases n,
{
    if n > 0 {
        let m = (n - 1) as nat;
        assert(s.len() + m * IDENTITY_LEN <= s.len() + n * IDENTITY_LEN) by (nonlinear_arith)
            requires m + 1 == n;
        lemma_repeat_identity(s, p, rights, m);
        let (s1, q) = repeat_identity(s, p, rights, m);
        let r = rights[m as int];
        assert(r < s.len());
        assert(lowering(OperatorType::Identity, q, r, s1.len() as int).len() == IDENTITY_LEN);
        assert(s.len() + m * IDENTITY_LEN + IDENTITY_LEN == s.len() + n * IDENTITY_LEN) by (nonlinear_arith)
            requires m + 1 == n;
        lemma_lowering(s1, OperatorType::Identity, q, r);
    }
}

} // verus!
