use vstd::prelude::*;

use crate::ir::{FloatBinOp, Comparison, Instr, IntBinOp, IntWidth};

verus! {

/// The value an instruction stream computes, as a term over the inputs it reads.
/// Two equal terms denote the same bit pattern.
pub enum Term {
    /// Storage that nothing has written.
    Unset,
    /// The form tag of the input in a slot.
    InputForm(usize),
    /// The payload of the input in a slot.
    InputPayload(usize),
    Arith(FloatBinOp, Box<Term>, Box<Term>),
    ToInt(IntWidth, Box<Term>),
    Bits(IntBinOp, Box<Term>, Box<Term>),
    Compare(Comparison, Box<Term>, Box<Term>),
    ToFloat(Box<Term>),
}

/// The value defined by the instruction at `v`.
pub open spec fn value_of(s: Seq<Instr>, v: int) -> Term
    decreases v, 1int,
{
    if 0 <= v < s.len() {
        match s[v] {
            Instr::GetForm { num } => form_at(s, v, num as int),
            Instr::GetVec { num } => payload_at(s, v, num as int),
            Instr::FloatBin { op, lhs, rhs } => if lhs < v && rhs < v {
                Term::Arith(op, Box::new(value_of(s, lhs as int)), Box::new(value_of(s, rhs as int)))
            } else {
                Term::Unset
            },
            Instr::FloatToInt { vec, width } => if vec < v {
                Term::ToInt(width, Box::new(value_of(s, vec as int)))
            } else {
                Term::Unset
            },
            Instr::IntBin { op, lhs, rhs } => if lhs < v && rhs < v {
                Term::Bits(op, Box::new(value_of(s, lhs as int)), Box::new(value_of(s, rhs as int)))
            } else {
                Term::Unset
            },
            Instr::FloatCompare { pred, lhs, rhs } => if lhs < v && rhs < v {
                Term::Compare(pred, Box::new(value_of(s, lhs as int)), Box::new(value_of(s, rhs as int)))
            } else {
                Term::Unset
            },
            Instr::IntToFloat { vec } => if vec < v {
                Term::ToFloat(Box::new(value_of(s, vec as int)))
            } else {
                Term::Unset
            },
            _ => Term::Unset,
        }
    } else {
        Term::Unset
    }
}

/// The form tag that numeric value `p` holds once the first `k` instructions have run.
pub open spec fn form_at(s: Seq<Instr>, k: int, p: int) -> Term
    decreases k, 0int,
{
    if 0 < k <= s.len() {
        let at = k - 1;
        match s[at] {
            Instr::Input { slot } => if at == p {
                Term::InputForm(slot)
            } else {
                form_at(s, at, p)
            },
            Instr::AllocNum => if at == p {
                Term::Unset
            } else {
                form_at(s, at, p)
            },
            Instr::SetForm { num, form } => if num == p {
                if form < at {
                    value_of(s, form as int)
                } else {
                    Term::Unset
                }
            } else {
                form_at(s, at, p)
            },
            _ => form_at(s, at, p),
        }
    } else {
        Term::Unset
    }
}

/// The payload that numeric value `p` holds once the first `k` instructions have run.
pub open spec fn payload_at(s: Seq<Instr>, k: int, p: int) -> Term
    decreases k, 0int,
{
    if 0 < k <= s.len() {
        let at = k - 1;
        match s[at] {
            Instr::Input { slot } => if at == p {
                Term::InputPayload(slot)
            } else {
                payload_at(s, at, p)
            },
            Instr::AllocNum => if at == p {
                Term::Unset
            } else {
                payload_at(s, at, p)
            },
            Instr::SetVec { num, vec } => if num == p {
                if vec < at {
                    value_of(s, vec as int)
                } else {
                    Term::Unset
                }
            } else {
                payload_at(s, at, p)
            },
            _ => payload_at(s, at, p),
        }
    } else {
        Term::Unset
    }
}

/// The form tag of numeric value `p` after the whole stream has run.
pub open spec fn num_form(s: Seq<Instr>, p: int) -> Term {
    form_at(s, s.len() as int, p)
}

/// The payload of numeric value `p` after the whole stream has run.
pub open spec fn num_payload(s: Seq<Instr>, p: int) -> Term {
    payload_at(s, s.len() as int, p)
}

/// The instruction at `at` leaves the form of `p` as it was.
pub open spec fn keeps_form(i: Instr, at: int, p: int) -> bool {
    match i {
        Instr::Input { .. } => at != p,
        Instr::AllocNum => at != p,
        Instr::SetForm { num, .. } => num != p,
        _ => true,
    }
}

/// The instruction at `at` leaves the payload of `p` as it was.
pub open spec fn keeps_payload(i: Instr, at: int, p: int) -> bool {
    match i {
        Instr::Input { .. } => at != p,
        Instr::AllocNum => at != p,
        Instr::SetVec { num, .. } => num != p,
        _ => true,
    }
}

pub proof fn lemma_form_kept(s: Seq<Instr>, j: int, k: int, p: int)
    requires
        0 <= j <= k <= s.len(),
        forall|a: int| j <= a < k ==> keeps_form(#[trigger] s[a], a, p),
    ensures
        form_at(s, k, p) == form_at(s, j, p),
    decreases k - j,
{
    if j < k {
        lemma_form_kept(s, j, k - 1, p);
        assert(keeps_form(s[k - 1], k - 1, p));
    }
}

pub proof fn lemma_payload_kept(s: Seq<Instr>, j: int, k: int, p: int)
    requires
        0 <= j <= k <= s.len(),
        forall|a: int| j <= a < k ==> keeps_payload(#[trigger] s[a], a, p),
    ensures
        payload_at(s, k, p) == payload_at(s, j, p),
    decreases k - j,
{
    if j < k {
        lemma_payload_kept(s, j, k - 1, p);
        assert(keeps_payload(s[k - 1], k - 1, p));
    }
}

/// What the first `k` instructions compute does not depend on what follows them.
pub proof fn lemma_prefix(s: Seq<Instr>, t: Seq<Instr>, k: int)
    requires
        0 <= k <= s.len() <= t.len(),
        forall|i: int| 0 <= i < s.len() ==> t[i] == s[i],
    ensures
        forall|v: int| 0 <= v < k ==> #[trigger] value_of(t, v) == value_of(s, v),
        forall|p: int| #[trigger] form_at(t, k, p) == form_at(s, k, p),
        forall|p: int| #[trigger] payload_at(t, k, p) == payload_at(s, k, p),
    decreases k,
{
    if k > 0 {
        lemma_prefix(s, t, k - 1);
        let v = k - 1;
        assert(t[v] == s[v]);
        match s[v] {
            Instr::GetForm { num } => {
                assert(form_at(t, v, num as int) == form_at(s, v, num as int));
            },
            Instr::GetVec { num } => {
                assert(payload_at(t, v, num as int) == payload_at(s, v, num as int));
            },
            Instr::FloatBin { lhs, rhs, .. } => {
                if lhs < v && rhs < v {
                    assert(value_of(t, lhs as int) == value_of(s, lhs as int));
                    assert(value_of(t, rhs as int) == value_of(s, rhs as int));
                }
            },
            Instr::FloatToInt { vec, .. } => {
                if vec < v {
                    assert(value_of(t, vec as int) == value_of(s, vec as int));
                }
            },
            Instr::IntBin { lhs, rhs, .. } => {
                if lhs < v && rhs < v {
                    assert(value_of(t, lhs as int) == value_of(s, lhs as int));
                    assert(value_of(t, rhs as int) == value_of(s, rhs as int));
                }
            },
            Instr::FloatCompare { lhs, rhs, .. } => {
                if lhs < v && rhs < v {
                    assert(value_of(t, lhs as int) == value_of(s, lhs as int));
                    assert(value_of(t, rhs as int) == value_of(s, rhs as int));
                }
            },
            Instr::IntToFloat { vec } => {
                if vec < v {
                    assert(value_of(t, vec as int) == value_of(s, vec as int));
                }
            },
            _ => {},
        }
        assert(value_of(t, v) == value_of(s, v));
        assert forall|v: int| 0 <= v < k implies #[trigger] value_of(t, v) == value_of(s, v) by {
            if v < k - 1 {
            }
        }
        assert forall|p: int| #[trigger] form_at(t, k, p) == form_at(s, k, p) by {
            assert(form_at(t, v, p) == form_at(s, v, p));
            if let Instr::SetForm { num, form } = s[v] {
                if form < v {
                    assert(value_of(t, form as int) == value_of(s, form as int));
                }
            }
        }
        assert forall|p: int| #[trigger] payload_at(t, k, p) == payload_at(s, k, p) by {
            assert(payload_at(t, v, p) == payload_at(s, v, p));
            if let Instr::SetVec { num, vec } = s[v] {
                if vec < v {
                    assert(value_of(t, vec as int) == value_of(s, vec as int));
                }
            }
        }
    }
}

} // verus!
