use vstd::prelude::*;

verus! {

/// Names the value that an instruction defines: the instruction's index in its stream.
pub type ValueId = usize;

/// The lane type of an integer vector: 32-bit signed integers, or 1-bit booleans.
#[derive(Clone, Copy, Debug, PartialEq, Eq, Structural)]
pub enum IntWidth {
    I32,
    Bool,
}

/// Lane-wise IEEE-754 arithmetic on two-lane float vectors.
#[derive(Clone, Copy, Debug, PartialEq, Eq, Structural)]
pub enum FloatBinOp {
    Add,
    Sub,
    Mul,
    Div,
    Rem,
}

/// Lane-wise bit operations on integer vectors.
#[derive(Clone, Copy, Debug, PartialEq, Eq, Structural)]
pub enum IntBinOp {
    And,
    Or,
    Xor,
}

/// Ordered float comparisons: each one is false on a lane where either side is NaN.
#[derive(Clone, Copy, Debug, PartialEq, Eq, Structural)]
pub enum Comparison {
    OrderedEqual,
    OrderedNotEqual,
    OrderedGreater,
    OrderedLess,
    OrderedGreaterEqual,
    OrderedLessEqual,
}

/// How the two floats of one lane relate; `Unordered` when either is NaN.
#[derive(Clone, Copy, Debug, PartialEq, Eq, Structural)]
pub enum LaneOrder {
    Less,
    Equal,
    Greater,
    Unordered,
}

/// One target-independent instruction. A numeric value is a handle to storage
/// holding a form tag and a two-lane float payload; the other instructions
/// define plain vector or scalar values.
#[derive(Clone, Copy, Debug, PartialEq, Eq, Structural)]
pub enum Instr {
    /// A numeric value supplied from outside the stream, in the given slot.
    Input { slot: usize },
    /// Fresh numeric value storage with unspecified contents.
    AllocNum,
    GetForm { num: ValueId },
    SetForm { num: ValueId, form: ValueId },
    GetVec { num: ValueId },
    SetVec { num: ValueId, vec: ValueId },
    FloatBin { op: FloatBinOp, lhs: ValueId, rhs: ValueId },
    /// Truncating signed conversion of each float lane to an integer of `width`.
    /// A lane that is NaN, infinite or out of the width's range is left to the
    /// target's conversion, which gives no defined value; `Bool` lanes hold 0
    /// and -1, so the in-range floats are 0.0 and -1.0.
    FloatToInt { vec: ValueId, width: IntWidth },
    IntBin { op: IntBinOp, lhs: ValueId, rhs: ValueId },
    /// Lane-wise comparison yielding a boolean mask.
    FloatCompare { pred: Comparison, lhs: ValueId, rhs: ValueId },
    /// Signed conversion of each integer lane to a 32-bit float; a true
    /// `Bool` lane, and so a true comparison, becomes -1.0.
    IntToFloat { vec: ValueId },
}

/// Every value the instruction uses is defined before position `k`.
pub open spec fn refs_before(i: Instr, k: int) -> bool {
    match i {
        Instr::Input { .. } => true,
        Instr::AllocNum => true,
        Instr::GetForm { num } => num < k,
        Instr::SetForm { num, form } => num < k && form < k,
        Instr::GetVec { num } => num < k,
        Instr::SetVec { num, vec } => num < k && vec < k,
        Instr::FloatBin { lhs, rhs, .. } => lhs < k && rhs < k,
        Instr::FloatToInt { vec, .. } => vec < k,
        Instr::IntBin { lhs, rhs, .. } => lhs < k && rhs < k,
        Instr::FloatCompare { lhs, rhs, .. } => lhs < k && rhs < k,
        Instr::IntToFloat { vec } => vec < k,
    }
}

/// A stream in which each instruction only uses values defined before it.
pub open spec fn well_formed(s: Seq<Instr>) -> bool {
    forall|k: int| 0 <= k < s.len() ==> #[trigger] refs_before(s[k], k)
}

/// Whether an ordered comparison holds on a lane whose floats relate as `o`.
pub open spec fn predicate_holds(p: Comparison, o: LaneOrder) -> bool {
    match p {
        Comparison::OrderedEqual => o == LaneOrder::Equal,
        Comparison::OrderedNotEqual => o == LaneOrder::Less || o == LaneOrder::Greater,
        Comparison::OrderedGreater => o == LaneOrder::Greater,
        Comparison::OrderedLess => o == LaneOrder::Less,
        Comparison::OrderedGreaterEqual => o == LaneOrder::Greater || o == LaneOrder::Equal,
        Comparison::OrderedLessEqual => o == LaneOrder::Less || o == LaneOrder::Equal,
    }
}

/// The result of a bit operation on one integer lane.
pub open spec fn int_op_result(op: IntBinOp, a: i32, b: i32) -> i32 {
    match op {
        IntBinOp::And => a & b,
        IntBinOp::Or => a | b,
        IntBinOp::Xor => a ^ b,
    }
}

impl Comparison {
    /// Evaluates the predicate on one lane.
    pub fn holds(&self, order: LaneOrder) -> (r: bool)
        ensures
            r == predicate_holds(*self, order),
    {
        match self {
            Comparison::OrderedEqual => matches!(order, LaneOrder::Equal),
            Comparison::OrderedNotEqual => matches!(order, LaneOrder::Less | LaneOrder::Greater),
            Comparison::OrderedGreater => matches!(order, LaneOrder::Greater),
            Comparison::OrderedLess => matches!(order, LaneOrder::Less),
            Comparison::OrderedGreaterEqual => matches!(order, LaneOrder::Greater | LaneOrder::Equal),
            Comparison::OrderedLessEqual => matches!(order, LaneOrder::Less | LaneOrder::Equal),
        }
    }
}

impl IntBinOp {
    /// Applies the operation to one integer lane.
    pub fn apply(&self, a: i32, b: i32) -> (r: i32)
        ensures
            r == int_op_result(*self, a, b),
    {
        match self {
            IntBinOp::And => a & b,
            IntBinOp::Or => a | b,
            IntBinOp::Xor => a ^ b,
        }
    }
}

} // verus!
