use vstd::prelude::*;

use crate::ir::{
    refs_before, well_formed, FloatBinOp, Comparison, Instr, IntBinOp, IntWidth, ValueId,
};
use crate::semantics::{
    form_at, keeps_form, keeps_payload, lemma_form_kept, lemma_payload_kept, lemma_prefix,
    num_form, num_payload, payload_at, value_of, Term,
};

verus! {

/// The binary operators on numeric values.
#[derive(Clone, Copy, Debug, PartialEq, Eq, Structural)]
pub enum OperatorType {
    Identity,
    Add,
    Subtract,
    Multiply,
    Divide,
    Modulo,
    Power,
    BitwiseAnd,
    BitwiseOr,
    BitwiseXor,
    LogicalAnd,
    LogicalOr,
    LogicalEqual,
    LogicalNotEqual,
    LogicalGt,
    LogicalLt,
    LogicalGte,
    LogicalLte,
}

/// Why an operator could not be lowered.
#[derive(Clone, Copy, Debug, PartialEq, Eq, Structural)]
pub enum LowerError {
    /// No lowering exists for this operator; nothing was emitted.
    UnsupportedOperator(OperatorType),
}

/// The float arithmetic an operator lowers to, if it is one.
pub open spec fn arith_of(op: OperatorType) -> Option<FloatBinOp> {
    match op {
        OperatorType::Add => Some(FloatBinOp::Add),
        OperatorType::Subtract => Some(FloatBinOp::Sub),
        OperatorType::Multiply => Some(FloatBinOp::Mul),
        OperatorType::Divide => Some(FloatBinOp::Div),
        OperatorType::Modulo => Some(FloatBinOp::Rem),
        _ => None,
    }
}

/// The integer operation and lane width an operator lowers to, if it is a
/// bitwise or logical one.
pub open spec fn bits_of(op: OperatorType) -> Option<(IntBinOp, IntWidth)> {
    match op {
        OperatorType::BitwiseAnd => Some((IntBinOp::And, IntWidth::I32)),
        OperatorType::BitwiseOr => Some((IntBinOp::Or, IntWidth::I32)),
        OperatorType::BitwiseXor => Some((IntBinOp::Xor, IntWidth::I32)),
        OperatorType::LogicalAnd => Some((IntBinOp::And, IntWidth::Bool)),
        OperatorType::LogicalOr => Some((IntBinOp::Or, IntWidth::Bool)),
        _ => None,
    }
}

/// The ordered comparison an operator lowers to, if it is a comparison.
pub open spec fn predicate_of(op: OperatorType) -> Option<Comparison> {
    match op {
        OperatorType::LogicalEqual => Some(Comparison::OrderedEqual),
        OperatorType::LogicalNotEqual => Some(Comparison::OrderedNotEqual),
        OperatorType::LogicalGt => Some(Comparison::OrderedGreater),
        OperatorType::LogicalLt => Some(Comparison::OrderedLess),
        OperatorType::LogicalGte => Some(Comparison::OrderedGreaterEqual),
        OperatorType::LogicalLte => Some(Comparison::OrderedLessEqual),
        _ => None,
    }
}

/// The payload of `op` applied to payloads `l` and `r`: every path reads both
/// as floats and yields a float vector.
pub open spec fn lowered_payload(op: OperatorType, l: Term, r: Term) -> Term {
    if op == OperatorType::Identity {
        l
    } else if let Some(f) = arith_of(op) {
        Term::Arith(f, Box::new(l), Box::new(r))
    } else if let Some((b, w)) = bits_of(op) {
        Term::ToFloat(
            Box::new(Term::Bits(b, Box::new(Term::ToInt(w, Box::new(l))), Box::new(Term::ToInt(w, Box::new(r))))),
        )
    } else if let Some(p) = predicate_of(op) {
        Term::ToFloat(Box::new(Term::Compare(p, Box::new(l), Box::new(r))))
    } else {
        Term::Unset
    }
}

/// The instructions that compute the payload of `op` from the float vectors
/// `lv` and `rv`, the first of them placed at `at`.
pub open spec fn payload_steps(op: OperatorType, lv: ValueId, rv: ValueId, at: int) -> Seq<Instr> {
    if let Some(f) = arith_of(op) {
        seq![Instr::FloatBin { op: f, lhs: lv, rhs: rv }]
    } else if let Some((b, w)) = bits_of(op) {
        seq![
            Instr::FloatToInt { vec: lv, width: w },
            Instr::FloatToInt { vec: rv, width: w },
            Instr::IntBin { op: b, lhs: at as usize, rhs: (at + 1) as usize },
            Instr::IntToFloat { vec: (at + 2) as usize },
        ]
    } else if let Some(p) = predicate_of(op) {
        seq![
            Instr::FloatCompare { pred: p, lhs: lv, rhs: rv },
            Instr::IntToFloat { vec: at as usize },
        ]
    } else {
        seq![]
    }
}

/// The value among `payload_steps` that holds the result payload.
pub open spec fn payload_value(op: OperatorType, lv: ValueId, at: int) -> ValueId {
    if arith_of(op) is Some {
        at as usize
    } else if bits_of(op) is Some {
        (at + 3) as usize
    } else if predicate_of(op) is Some {
        (at + 1) as usize
    } else {
        lv
    }
}

/// The instructions that lower `op` on the numeric values `lp` and `rp`, the
/// first of them placed at `base`, which is also the result's handle.
pub open spec fn lowering(op: OperatorType, lp: ValueId, rp: ValueId, base: int) -> Seq<Instr> {
    let lv = (base + 3) as usize;
    let rv = (base + 4) as usize;
    seq![
        Instr::AllocNum,
        Instr::GetForm { num: lp },
        Instr::SetForm { num: base as usize, form: (base + 1) as usize },
        Instr::GetVec { num: lp },
        Instr::GetVec { num: rp },
    ] + payload_steps(op, lv, rv, base + 5) + seq![
        Instr::SetVec { num: base as usize, vec: payload_value(op, lv, base + 5) },
    ]
}

/// The most instructions one lowering emits.
pub const LOWERING_MAX_LEN: usize = 10;

/// Lowering `op` appends to a well-formed stream a well-formed stream whose
/// result has the left operand's form and the payload the operator prescribes,
/// and which leaves every earlier numeric value as it was.
pub proof fn lemma_lowering(s: Seq<Instr>, op: OperatorType, lp: ValueId, rp: ValueId)
    requires
        well_formed(s),
        lp < s.len(),
        rp < s.len(),
        op != OperatorType::Power,
        s.len() + lowering(op, lp, rp, s.len() as int).len() <= usize::MAX,
    ensures
        ({
            let t = s + lowering(op, lp, rp, s.len() as int);
            &&& well_formed(t)
            &&& t.len() <= s.len() + LOWERING_MAX_LEN
            &&& num_form(t, s.len() as int) == num_form(s, lp as int)
            &&& num_payload(t, s.len() as int) == lowered_payload(
                op,
                num_payload(s, lp as int),
                num_payload(s, rp as int),
            )
            &&& forall|p: int| 0 <= p < s.len() ==> #[trigger] num_form(t, p) == num_form(s, p)
            &&& forall|p: int| 0 <= p < s.len() ==> #[trigger] num_payload(t, p) == num_payload(s, p)
        }),
{
    let base = s.len() as int;
    let t = s + lowering(op, lp, rp, base);
    let lv = (base + 3) as usize;
    let rv = (base + 4) as usize;
    let c = base + 5;
    let n = t.len() as int;
    assert(t.len() == s.len() + 6 + payload_steps(op, lv, rv, c).len());
    assert(t[base] == Instr::AllocNum);
    assert(t[base + 1] == Instr::GetForm { num: lp });
    assert(t[base + 2] == Instr::SetForm { num: base as usize, form: (base + 1) as usize });
    assert(t[base + 3] == Instr::GetVec { num: lp });
    assert(t[base + 4] == Instr::GetVec { num: rp });
    assert(t[n - 1] == Instr::SetVec { num: base as usize, vec: payload_value(op, lv, c) });
    assert forall|i: int| 0 <= i < payload_steps(op, lv, rv, c).len() implies t[c + i]
        == payload_steps(op, lv, rv, c)[i] by {}
    // well-formedness
    assert forall|k: int| 0 <= k < t.len() implies #[trigger] refs_before(t[k], k) by {
        if k < base {
            assert(t[k] == s[k]);
            assert(refs_before(s[k], k));
        } else if k >= c && k < n - 1 {
            assert(t[k] == payload_steps(op, lv, rv, c)[k - c]);
        }
    }
    // the part of `t` taken from `s` computes what `s` does
    lemma_prefix(s, t, base);
    // nothing after `base` writes an operand
    assert forall|a: int| base <= a < n implies (forall|p: int| 0 <= p < base ==> keeps_form_and_payload(#[trigger] t[a], a, p)) by {
        if a >= c && a < n - 1 {
            assert(t[a] == payload_steps(op, lv, rv, c)[a - c]);
        }
    }
    assert forall|p: int| 0 <= p < base implies #[trigger] num_form(t, p) == num_form(s, p) by {
        assert forall|a: int| base <= a < n implies keeps_form(#[trigger] t[a], a, p) by {
            assert(keeps_form_and_payload(t[a], a, p));
        }
        lemma_form_kept(t, base, n, p);
    }
    assert forall|p: int| 0 <= p < base implies #[trigger] num_payload(t, p) == num_payload(s, p) by {
        assert forall|a: int| base <= a < n implies keeps_payload(#[trigger] t[a], a, p) by {
            assert(keeps_form_and_payload(t[a], a, p));
        }
        lemma_payload_kept(t, base, n, p);
    }
    // the result's form
    assert forall|a: int| base + 3 <= a < n implies keeps_form(#[trigger] t[a], a, base) by {
        if a >= c && a < n - 1 {
            assert(t[a] == payload_steps(op, lv, rv, c)[a - c]);
        }
    }
    lemma_form_kept(t, base + 3, n, base);
    assert(form_at(t, base + 3, base) == value_of(t, base + 1));
    assert(value_of(t, base + 1) == form_at(t, base + 1, lp as int));
    assert(form_at(t, base + 1, lp as int) == form_at(t, base, lp as int));
    // the operands' payloads
    assert forall|a: int| base <= a < base + 4 implies keeps_payload(#[trigger] t[a], a, lp as int) by {}
    assert forall|a: int| base <= a < base + 4 implies keeps_payload(#[trigger] t[a], a, rp as int) by {}
    lemma_payload_kept(t, base, base + 3, lp as int);
    lemma_payload_kept(t, base, base + 4, rp as int);
    let l = num_payload(s, lp as int);
    let r = num_payload(s, rp as int);
    assert(value_of(t, base + 3) == payload_at(t, base + 3, lp as int));
    assert(value_of(t, base + 4) == payload_at(t, base + 4, rp as int));
    assert(value_of(t, base + 3) == l);
    assert(value_of(t, base + 4) == r);
    // the result's payload
    assert(num_payload(t, base) == value_of(t, payload_value(op, lv, c) as int));
    if let Some(f) = arith_of(op) {
        assert(value_of(t, c) == Term::Arith(f, Box::new(l), Box::new(r)));
    } else if let Some((b, w)) = bits_of(op) {
        assert(value_of(t, c) == Term::ToInt(w, Box::new(l)));
        assert(value_of(t, c + 1) == Term::ToInt(w, Box::new(r)));
        assert(value_of(t, c + 2) == Term::Bits(b, Box::new(value_of(t, c)), Box::new(value_of(t, c + 1))));
        assert(value_of(t, c + 3) == Term::ToFloat(Box::new(value_of(t, c + 2))));
    } else if let Some(p) = predicate_of(op) {
        assert(value_of(t, c) == Term::Compare(p, Box::new(l), Box::new(r)));
        assert(value_of(t, c + 1) == Term::ToFloat(Box::new(value_of(t, c))));
    }
}

/// The instruction at `at` writes neither the form nor the payload of `p`.
pub open spec fn keeps_form_and_payload(i: Instr, at: int, p: int) -> bool {
    keeps_form(i, at, p) && keeps_payload(i, at, p)
}

/// The code generation state of one node: the instruction stream emitted so
/// far, and the handles of the statements generated so far, by index.
pub struct NodeContext {
    pub instrs: Vec<Instr>,
    pub statements: Vec<ValueId>,
}

impl NodeContext {
    /// The stream is well formed and every statement names a value of it.
    pub open spec fn wf(&self) -> bool {
        &&& well_formed(self.instrs@)
        &&& forall|i: int| 0 <= i < self.statements@.len() ==> #[trigger] self.statements@[i] < self.instrs@.len()
    }

    pub fn new() -> (r: NodeContext)
        ensures
            r.wf(),
            r.instrs@ == Seq::<Instr>::empty(),
            r.statements@ == Seq::<ValueId>::empty(),
    {
        NodeContext { instrs: Vec::new(), statements: Vec::new() }
    }

    /// Appends one instruction and returns the value it defines.
    pub fn emit(&mut self, i: Instr) -> (r: ValueId)
        requires
            old(self).wf(),
            refs_before(i, old(self).instrs@.len() as int),
        ensures
            final(self).wf(),
            final(self).instrs@ == old(self).instrs@.push(i),
            final(self).statements@ == old(self).statements@,
            r == old(self).instrs@.len(),
    {
        let r = self.instrs.len();
        self.instrs.push(i);
        proof {
            let s = self.instrs@;
            assert forall|k: int| 0 <= k < s.len() implies #[trigger] refs_before(s[k], k) by {
                if k < r {
                    assert(s[k] == old(self).instrs@[k]);
                    assert(refs_before(old(self).instrs@[k], k));
                }
            }
            assert forall|j: int| 0 <= j < self.statements@.len() implies #[trigger] self.statements@[j] < s.len() by {
                assert(old(self).statements@[j] < old(self).instrs@.len());
            }
        }
        r
    }

    /// Records `v` as the next statement and returns its index.
    pub fn push_statement(&mut self, v: ValueId) -> (r: usize)
        requires
            old(self).wf(),
            v < old(self).instrs@.len(),
        ensures
            final(self).wf(),
            final(self).instrs@ == old(self).instrs@,
            final(self).statements@ == old(self).statements@.push(v),
            r == old(self).statements@.len(),
    {
        let r = self.statements.len();
        self.statements.push(v);
        proof {
            assert forall|j: int| 0 <= j < self.statements@.len() implies #[trigger] self.statements@[j] < self.instrs@.len() by {
                if j < r {
                    assert(self.statements@[j] == old(self).statements@[j]);
                }
            }
        }
        r
    }

    /// Adds a numeric value supplied from outside as the next statement, and
    /// returns that statement's index, which is also the input's slot.
    pub fn add_input(&mut self) -> (r: usize)
        requires
            old(self).wf(),
        ensures
            final(self).wf(),
            final(self).instrs@ == old(self).instrs@.push(Instr::Input { slot: r }),
            final(self).statements@ == old(self).statements@.push(old(self).instrs@.len() as usize),
            r == old(self).statements@.len(),
    {
        let slot = self.statements.len();
        let v = self.emit(Instr::Input { slot });
        self.push_statement(v)
    }

    /// The handle of statement `i`.
    pub fn get_statement(&self, i: usize) -> (r: ValueId)
        requires
            i < self.statements@.len(),
        ensures
            r == self.statements@[i as int],
    {
        self.statements[i]
    }
}

/// A handle to a numeric value: a form tag and a two-lane float payload.
#[derive(Clone, Copy, Debug, PartialEq, Eq, Structural)]
pub struct NumValue {
    pub val: ValueId,
}

impl NumValue {
    pub fn new(val: ValueId) -> (r: NumValue)
        ensures
            r.val == val,
    {
        NumValue { val }
    }

    /// Reserves a fresh numeric value with unspecified contents.
    pub fn new_undef(node: &mut NodeContext) -> (r: NumValue)
        requires
            old(node).wf(),
        ensures
            final(node).wf(),
            final(node).instrs@ == old(node).instrs@.push(Instr::AllocNum),
            final(node).statements@ == old(node).statements@,
            r.val == old(node).instrs@.len(),
    {
        NumValue { val: node.emit(Instr::AllocNum) }
    }

    /// Reads the form tag.
    pub fn get_form(&self, node: &mut NodeContext) -> (r: ValueId)
        requires
            old(node).wf(),
            self.val < old(node).instrs@.len(),
        ensures
            final(node).wf(),
            final(node).instrs@ == old(node).instrs@.push(Instr::GetForm { num: self.val }),
            final(node).statements@ == old(node).statements@,
            r == old(node).instrs@.len(),
    {
        node.emit(Instr::GetForm { num: self.val })
    }

    /// Overwrites the form tag.
    pub fn set_form(&self, node: &mut NodeContext, form: ValueId)
        requires
            old(node).wf(),
            self.val < old(node).instrs@.len(),
            form < old(node).instrs@.len(),
        ensures
            final(node).wf(),
            final(node).instrs@ == old(node).instrs@.push(Instr::SetForm { num: self.val, form }),
            final(node).statements@ == old(node).statements@,
    {
        node.emit(Instr::SetForm { num: self.val, form });
    }

    /// Reads the payload as a two-lane float vector.
    pub fn get_vec(&self, node: &mut NodeContext) -> (r: ValueId)
        requires
            old(node).wf(),
            self.val < old(node).instrs@.len(),
        ensures
            final(node).wf(),
            final(node).instrs@ == old(node).instrs@.push(Instr::GetVec { num: self.val }),
            final(node).statements@ == old(node).statements@,
            r == old(node).instrs@.len(),
    {
        node.emit(Instr::GetVec { num: self.val })
    }

    /// Overwrites the payload with a two-lane float vector.
    pub fn set_vec(&self, node: &mut NodeContext, vec: ValueId)
        requires
            old(node).wf(),
            self.val < old(node).instrs@.len(),
            vec < old(node).instrs@.len(),
        ensures
            final(node).wf(),
            final(node).instrs@ == old(node).instrs@.push(Instr::SetVec { num: self.val, vec }),
            final(node).statements@ == old(node).statements@,
    {
        node.emit(Instr::SetVec { num: self.val, vec });
    }
}

/// Converts each float lane of `vec` to a signed integer of `width`, truncating.
pub fn float_vec_to_int(node: &mut NodeContext, vec: ValueId, width: IntWidth) -> (r: ValueId)
    requires
        old(node).wf(),
        vec < old(node).instrs@.len(),
    ensures
        final(node).wf(),
        final(node).instrs@ == old(node).instrs@.push(Instr::FloatToInt { vec, width }),
        final(node).statements@ == old(node).statements@,
        r == old(node).instrs@.len(),
{
    node.emit(Instr::FloatToInt { vec, width })
}

/// Converts each signed integer lane of `ints` to a float.
pub fn int_to_float_vec(node: &mut NodeContext, ints: ValueId) -> (r: ValueId)
    requires
        old(node).wf(),
        ints < old(node).instrs@.len(),
    ensures
        final(node).wf(),
        final(node).instrs@ == old(node).instrs@.push(Instr::IntToFloat { vec: ints }),
        final(node).statements@ == old(node).statements@,
        r == old(node).instrs@.len(),
{
    node.emit(Instr::IntToFloat { vec: ints })
}

/// Applies `op` to the float vectors `lhs` and `rhs` read as integers of
/// `width`: converts the left, then the right, applies the operation, and
/// converts the result back to floats.
pub fn apply_int_op(
    node: &mut NodeContext,
    lhs: ValueId,
    rhs: ValueId,
    width: IntWidth,
    op: IntBinOp,
) -> (r: ValueId)
    requires
        old(node).wf(),
        lhs < old(node).instrs@.len(),
        rhs < old(node).instrs@.len(),
    ensures
        final(node).wf(),
        final(node).instrs@ == old(node).instrs@ + seq![
            Instr::FloatToInt { vec: lhs, width },
            Instr::FloatToInt { vec: rhs, width },
            Instr::IntBin { op, lhs: old(node).instrs@.len() as usize, rhs: (old(node).instrs@.len() + 1) as usize },
            Instr::IntToFloat { vec: (old(node).instrs@.len() + 2) as usize },
        ],
        final(node).statements@ == old(node).statements@,
        r == old(node).instrs@.len() + 3,
{
    let left_int = float_vec_to_int(node, lhs, width);
    let right_int = float_vec_to_int(node, rhs, width);
    let result_int = node.emit(Instr::IntBin { op, lhs: left_int, rhs: right_int });
    let r = int_to_float_vec(node, result_int);
    assert(node.instrs@ =~= old(node).instrs@ + seq![
        Instr::FloatToInt { vec: lhs, width },
        Instr::FloatToInt { vec: rhs, width },
        Instr::IntBin { op, lhs: left_int, rhs: right_int },
        Instr::IntToFloat { vec: result_int },
    ]);
    r
}

/// Compares `lhs` with `rhs` lane by lane and converts the mask to floats.
fn compare_to_float(node: &mut NodeContext, pred: Comparison, lhs: ValueId, rhs: ValueId) -> (r: ValueId)
    requires
        old(node).wf(),
        lhs < old(node).instrs@.len(),
        rhs < old(node).instrs@.len(),
    ensures
        final(node).wf(),
        final(node).instrs@ == old(node).instrs@ + seq![
            Instr::FloatCompare { pred, lhs, rhs },
            Instr::IntToFloat { vec: old(node).instrs@.len() as usize },
        ],
        final(node).statements@ == old(node).statements@,
        r == old(node).instrs@.len() + 1,
{
    let mask = node.emit(Instr::FloatCompare { pred, lhs, rhs });
    let r = int_to_float_vec(node, mask);
    assert(node.instrs@ =~= old(node).instrs@ + seq![
        Instr::FloatCompare { pred, lhs, rhs },
        Instr::IntToFloat { vec: mask },
    ]);
    r
}

/// Lane-wise float arithmetic on `lhs` and `rhs`.
fn float_arith(node: &mut NodeContext, op: FloatBinOp, lhs: ValueId, rhs: ValueId) -> (r: ValueId)
    requires
        old(node).wf(),
        lhs < old(node).instrs@.len(),
        rhs < old(node).instrs@.len(),
    ensures
        final(node).wf(),
        final(node).instrs@ == old(node).instrs@.push(Instr::FloatBin { op, lhs, rhs }),
        final(node).statements@ == old(node).statements@,
        r == old(node).instrs@.len(),
{
    node.emit(Instr::FloatBin { op, lhs, rhs })
}

/// Emits the instructions that compute the payload of `op` from the float
/// vectors `lhs` and `rhs`, and returns the value holding it.
fn lower_payload(op: OperatorType, node: &mut NodeContext, lhs: ValueId, rhs: ValueId) -> (r: ValueId)
    requires
        old(node).wf(),
        lhs < old(node).instrs@.len(),
        rhs < old(node).instrs@.len(),
        op != OperatorType::Power,
    ensures
        final(node).wf(),
        final(node).instrs@ == old(node).instrs@ + payload_steps(op, lhs, rhs, old(node).instrs@.len() as int),
        final(node).statements@ == old(node).statements@,
        r == payload_value(op, lhs, old(node).instrs@.len() as int),
{
    let ghost at = old(node).instrs@.len() as int;
    match op {
        OperatorType::Identity => {
            assert(node.instrs@ =~= old(node).instrs@ + payload_steps(op, lhs, rhs, at));
            lhs
        },
        OperatorType::Add => float_arith(node, FloatBinOp::Add, lhs, rhs),
        OperatorType::Subtract => float_arith(node, FloatBinOp::Sub, lhs, rhs),
        OperatorType::Multiply => float_arith(node, FloatBinOp::Mul, lhs, rhs),
        OperatorType::Divide => float_arith(node, FloatBinOp::Div, lhs, rhs),
        OperatorType::Modulo => float_arith(node, FloatBinOp::Rem, lhs, rhs),
        // Excluded by the precondition: there is no lowering to emit.
        OperatorType::Power => lhs,
        OperatorType::BitwiseAnd => apply_int_op(node, lhs, rhs, IntWidth::I32, IntBinOp::And),
        OperatorType::BitwiseOr => apply_int_op(node, lhs, rhs, IntWidth::I32, IntBinOp::Or),
        OperatorType::BitwiseXor => apply_int_op(node, lhs, rhs, IntWidth::I32, IntBinOp::Xor),
        OperatorType::LogicalAnd => apply_int_op(node, lhs, rhs, IntWidth::Bool, IntBinOp::And),
        OperatorType::LogicalOr => apply_int_op(node, lhs, rhs, IntWidth::Bool, IntBinOp::Or),
        OperatorType::LogicalEqual => compare_to_float(node, Comparison::OrderedEqual, lhs, rhs),
        OperatorType::LogicalNotEqual => compare_to_float(node, Comparison::OrderedNotEqual, lhs, rhs),
        OperatorType::LogicalGt => compare_to_float(node, Comparison::OrderedGreater, lhs, rhs),
        OperatorType::LogicalLt => compare_to_float(node, Comparison::OrderedLess, lhs, rhs),
        OperatorType::LogicalGte => compare_to_float(node, Comparison::OrderedGreaterEqual, lhs, rhs),
        OperatorType::LogicalLte => compare_to_float(node, Comparison::OrderedLessEqual, lhs, rhs),
    }
}

/// Lowers `op` applied to statements `lhs` and `rhs` into a fresh numeric
/// value and returns its handle. The result takes the left operand's form; its
/// payload is the operator's float-domain result. `Power` has no lowering: it
/// is refused and nothing is emitted.
pub fn gen_math_op_statement(op: &OperatorType, lhs: usize, rhs: usize, node: &mut NodeContext) -> (r: Result<ValueId, LowerError>)
    requires
        old(node).wf(),
        lhs < old(node).statements@.len(),
        rhs < old(node).statements@.len(),
    ensures
        final(node).wf(),
        final(node).statements@ == old(node).statements@,
        *op == OperatorType::Power ==> r == Err::<ValueId, LowerError>(LowerError::UnsupportedOperator(*op))
            && final(node).instrs@ == old(node).instrs@,
        *op != OperatorType::Power ==> r == Ok::<ValueId, LowerError>(old(node).instrs@.len() as usize),
        *op != OperatorType::Power ==> final(node).instrs@ == old(node).instrs@ + lowering(
            *op,
            old(node).statements@[lhs as int],
            old(node).statements@[rhs as int],
            old(node).instrs@.len() as int,
        ),
        r is Ok ==> num_form(final(node).instrs@, r->Ok_0 as int) == num_form(
            old(node).instrs@,
            old(node).statements@[lhs as int] as int,
        ),
        r is Ok ==> num_payload(final(node).instrs@, r->Ok_0 as int) == lowered_payload(
            *op,
            num_payload(old(node).instrs@, old(node).statements@[lhs as int] as int),
            num_payload(old(node).instrs@, old(node).statements@[rhs as int] as int),
        ),
{
    if let OperatorType::Power = op {
        return Err(LowerError::UnsupportedOperator(*op));
    }
    let ghost s = old(node).instrs@;
    let left_num = NumValue::new(node.get_statement(lhs));
    let right_num = NumValue::new(node.get_statement(rhs));
    let result_num = NumValue::new_undef(node);
    let left_form = left_num.get_form(node);
    result_num.set_form(node, left_form);
    let left_vec = left_num.get_vec(node);
    let right_vec = right_num.get_vec(node);
    let result_vec = lower_payload(*op, node, left_vec, right_vec);
    result_num.set_vec(node, result_vec);
    proof {
        broadcast use vstd::std_specs::vec::axiom_spec_len;
        assert(node.instrs@.len() == node.instrs.len());
        assert(node.instrs@ =~= s + lowering(*op, left_num.val, right_num.val, s.len() as int));
        lemma_lowering(s, *op, left_num.val, right_num.val);
    }
    Ok(result_num.val)
}

} // verus!
