use math_op_lowering::ir::{Comparison, Instr, IntBinOp, IntWidth, LaneOrder};
use math_op_lowering::lower::{gen_math_op_statement, LowerError, NodeContext, OperatorType};

/// A value computed while running a stream.
#[derive(Clone, Copy, Debug)]
enum Val {
    Num(usize),
    Form(i8),
    Floats([f32; 2]),
    Ints([i32; 2]),
    Nothing,
}

/// Storage of one numeric value: form tag and payload.
#[derive(Clone, Copy, Debug, PartialEq)]
struct Cell {
    form: i8,
    payload: [f32; 2],
}

fn order_of(a: f32, b: f32) -> LaneOrder {
    match a.partial_cmp(&b) {
        Some(std::cmp::Ordering::Less) => LaneOrder::Less,
        Some(std::cmp::Ordering::Equal) => LaneOrder::Equal,
        Some(std::cmp::Ordering::Greater) => LaneOrder::Greater,
        None => LaneOrder::Unordered,
    }
}

/// Runs `instrs` with the given inputs by slot and returns the storage of
/// every numeric value, by the handle that defines it. A 1-bit lane is held
/// sign-extended (true is -1), as a signed conversion reads it.
fn run(instrs: &[Instr], inputs: &[Cell]) -> Vec<Option<Cell>> {
    let mut vals: Vec<Val> = Vec::new();
    let mut cells: Vec<Option<Cell>> = vec![None; instrs.len()];
    let floats = |vals: &Vec<Val>, v: usize| match vals[v] {
        Val::Floats(f) => f,
        other => panic!("not a float vector: {:?}", other),
    };
    let ints = |vals: &Vec<Val>, v: usize| match vals[v] {
        Val::Ints(i) => i,
        other => panic!("not an integer vector: {:?}", other),
    };
    let handle = |vals: &Vec<Val>, v: usize| match vals[v] {
        Val::Num(h) => h,
        other => panic!("not a numeric value: {:?}", other),
    };
    for (k, ins) in instrs.iter().enumerate() {
        let v = match *ins {
            Instr::Input { slot } => {
                cells[k] = Some(inputs[slot]);
                Val::Num(k)
            }
            Instr::AllocNum => {
                cells[k] = Some(Cell { form: 0, payload: [0.0, 0.0] });
                Val::Num(k)
            }
            Instr::GetForm { num } => Val::Form(cells[handle(&vals, num)].unwrap().form),
            Instr::SetForm { num, form } => {
                let h = handle(&vals, num);
                match vals[form] {
                    Val::Form(f) => cells[h].as_mut().unwrap().form = f,
                    other => panic!("not a form: {:?}", other),
                }
                Val::Nothing
            }
            Instr::GetVec { num } => Val::Floats(cells[handle(&vals, num)].unwrap().payload),
            Instr::SetVec { num, vec } => {
                let h = handle(&vals, num);
                cells[h].as_mut().unwrap().payload = floats(&vals, vec);
                Val::Nothing
            }
            Instr::FloatBin { op, lhs, rhs } => {
                let (a, b) = (floats(&vals, lhs), floats(&vals, rhs));
                let f = |x: f32, y: f32| match op {
                    math_op_lowering::ir::FloatBinOp::Add => x + y,
                    math_op_lowering::ir::FloatBinOp::Sub => x - y,
                    math_op_lowering::ir::FloatBinOp::Mul => x * y,
                    math_op_lowering::ir::FloatBinOp::Div => x / y,
                    math_op_lowering::ir::FloatBinOp::Rem => x % y,
                };
                Val::Floats([f(a[0], b[0]), f(a[1], b[1])])
            }
            Instr::FloatToInt { vec, width } => {
                let a = floats(&vals, vec);
                let conv = |x: f32| match width {
                    IntWidth::I32 => x as i32,
                    IntWidth::Bool => -((x as i32) & 1),
                };
                Val::Ints([conv(a[0]), conv(a[1])])
            }
            Instr::IntBin { op, lhs, rhs } => {
                let (a, b) = (ints(&vals, lhs), ints(&vals, rhs));
                Val::Ints([op.apply(a[0], b[0]), op.apply(a[1], b[1])])
            }
            Instr::FloatCompare { pred, lhs, rhs } => {
                let (a, b) = (floats(&vals, lhs), floats(&vals, rhs));
                let lane = |x: f32, y: f32| if pred.holds(order_of(x, y)) { -1 } else { 0 };
                Val::Ints([lane(a[0], b[0]), lane(a[1], b[1])])
            }
            Instr::IntToFloat { vec } => {
                let a = ints(&vals, vec);
                Val::Floats([a[0] as f32, a[1] as f32])
            }
        };
        vals.push(v);
    }
    cells
}

/// Lowers `op` on two inputs and runs the stream; returns the result's storage.
fn lower_and_run(op: OperatorType, left: Cell, right: Cell) -> Cell {
    let mut node = NodeContext::new();
    let a = node.add_input();
    let b = node.add_input();
    let r = gen_math_op_statement(&op, a, b, &mut node).unwrap();
    run(&node.instrs, &[left, right])[r].unwrap()
}

fn cell(form: i8, a: f32, b: f32) -> Cell {
    Cell { form, payload: [a, b] }
}

const ALL_BUT_POWER: [OperatorType; 17] = [
    OperatorType::Identity,
    OperatorType::Add,
    OperatorType::Subtract,
    OperatorType::Multiply,
    OperatorType::Divide,
    OperatorType::Modulo,
    OperatorType::BitwiseAnd,
    OperatorType::BitwiseOr,
    OperatorType::BitwiseXor,
    OperatorType::LogicalAnd,
    OperatorType::LogicalOr,
    OperatorType::LogicalEqual,
    OperatorType::LogicalNotEqual,
    OperatorType::LogicalGt,
    OperatorType::LogicalLt,
    OperatorType::LogicalGte,
    OperatorType::LogicalLte,
];

#[test]
fn form_comes_from_left_operand() {
    for op in ALL_BUT_POWER {
        let r = lower_and_run(op, cell(3, 1.0, 2.0), cell(7, 4.0, 5.0));
        assert_eq!(r.form, 3, "{:?}", op);
        let r = lower_and_run(op, cell(1, 1.0, 2.0), cell(2, 4.0, 5.0));
        assert_eq!(r.form, 1, "{:?}", op);
    }
}

#[test]
fn identity_returns_left_payload() {
    let r = lower_and_run(OperatorType::Identity, cell(0, 2.5, -7.0), cell(0, 100.0, f32::NAN));
    assert_eq!(r.payload, [2.5, -7.0]);
}

#[test]
fn arithmetic_on_two_lanes() {
    let l = cell(0, 2.0, 4.0);
    let r = cell(0, 1.0, 2.0);
    assert_eq!(lower_and_run(OperatorType::Add, l, r).payload, [3.0, 6.0]);
    assert_eq!(lower_and_run(OperatorType::Subtract, l, r).payload, [1.0, 2.0]);
    assert_eq!(lower_and_run(OperatorType::Multiply, l, r).payload, [2.0, 8.0]);
    assert_eq!(lower_and_run(OperatorType::Divide, l, r).payload, [2.0, 2.0]);
    assert_eq!(lower_and_run(OperatorType::Modulo, l, r).payload, [0.0, 0.0]);
}

#[test]
fn modulo_keeps_sign_of_dividend() {
    let r = lower_and_run(OperatorType::Modulo, cell(0, 7.0, -7.0), cell(0, 3.0, 3.0));
    assert_eq!(r.payload, [1.0, -1.0]);
}

#[test]
fn bitwise_and_through_integers() {
    let r = lower_and_run(OperatorType::BitwiseAnd, cell(0, 6.0, 6.0), cell(0, 3.0, 3.0));
    assert_eq!(r.payload, [2.0, 2.0]);
}

#[test]
fn bitwise_or_and_xor() {
    let l = cell(0, 6.0, 12.0);
    let r = cell(0, 3.0, 10.0);
    assert_eq!(lower_and_run(OperatorType::BitwiseOr, l, r).payload, [7.0, 14.0]);
    assert_eq!(lower_and_run(OperatorType::BitwiseXor, l, r).payload, [5.0, 6.0]);
}

#[test]
fn bitwise_truncates_toward_zero() {
    let r = lower_and_run(OperatorType::BitwiseOr, cell(0, 2.9, -2.9), cell(0, 0.0, 0.0));
    assert_eq!(r.payload, [2.0, -2.0]);
}

#[test]
fn greater_than_encodes_truth_per_lane() {
    let r = lower_and_run(OperatorType::LogicalGt, cell(0, 5.0, 1.0), cell(0, 3.0, 3.0));
    // A true 1-bit lane converts, signed, to -1.0; a false one to 0.0.
    assert_ne!(r.payload[0], 0.0);
    assert_eq!(r.payload, [-1.0, 0.0]);
}

#[test]
fn every_comparison_is_false_on_nan() {
    let ops = [
        OperatorType::LogicalEqual,
        OperatorType::LogicalNotEqual,
        OperatorType::LogicalGt,
        OperatorType::LogicalLt,
        OperatorType::LogicalGte,
        OperatorType::LogicalLte,
    ];
    for op in ops {
        let r = lower_and_run(op, cell(0, f32::NAN, 1.0), cell(0, 1.0, f32::NAN));
        assert_eq!(r.payload, [0.0, 0.0], "{:?}", op);
    }
}

#[test]
fn comparisons_on_ordered_lanes() {
    let l = cell(0, 1.0, 2.0);
    let r = cell(0, 1.0, 3.0);
    assert_eq!(lower_and_run(OperatorType::LogicalEqual, l, r).payload, [-1.0, 0.0]);
    assert_eq!(lower_and_run(OperatorType::LogicalNotEqual, l, r).payload, [0.0, -1.0]);
    assert_eq!(lower_and_run(OperatorType::LogicalLt, l, r).payload, [0.0, -1.0]);
    assert_eq!(lower_and_run(OperatorType::LogicalGte, l, r).payload, [-1.0, 0.0]);
    assert_eq!(lower_and_run(OperatorType::LogicalLte, l, r).payload, [-1.0, -1.0]);
}

#[test]
fn logical_ops_on_comparison_results() {
    let t = -1.0;
    let l = cell(0, t, t);
    let r = cell(0, t, 0.0);
    assert_eq!(lower_and_run(OperatorType::LogicalAnd, l, r).payload, [t, 0.0]);
    assert_eq!(lower_and_run(OperatorType::LogicalOr, cell(0, 0.0, 0.0), r).payload, [t, 0.0]);
}

#[test]
fn power_is_refused_and_emits_nothing() {
    let mut node = NodeContext::new();
    let a = node.add_input();
    let b = node.add_input();
    let before = node.instrs.clone();
    let r = gen_math_op_statement(&OperatorType::Power, a, b, &mut node);
    assert_eq!(r, Err(LowerError::UnsupportedOperator(OperatorType::Power)));
    assert_eq!(node.instrs, before);
}

#[test]
fn identity_repeated_keeps_bits() {
    let mut node = NodeContext::new();
    let a = node.add_input();
    let other = node.add_input();
    let mut s = a;
    for i in 0..10 {
        let right = if i % 2 == 0 { other } else { s };
        let r = gen_math_op_statement(&OperatorType::Identity, s, right, &mut node).unwrap();
        s = node.push_statement(r);
    }
    let input = cell(4, -0.0, f32::from_bits(0x7fc0_1234));
    let last = node.statements[s];
    let out = run(&node.instrs, &[input, cell(9, f32::NAN, 3.0)])[last].unwrap();
    assert_eq!(out.form, 4);
    assert_eq!(out.payload[0].to_bits(), (-0.0f32).to_bits());
    assert_eq!(out.payload[1].to_bits(), 0x7fc0_1234);
}

#[test]
fn lowering_emits_in_order() {
    let mut node = NodeContext::new();
    let a = node.add_input();
    let b = node.add_input();
    let r = gen_math_op_statement(&OperatorType::BitwiseXor, a, b, &mut node).unwrap();
    assert_eq!(r, 2);
    assert_eq!(
        node.instrs[2..].to_vec(),
        vec![
            Instr::AllocNum,
            Instr::GetForm { num: 0 },
            Instr::SetForm { num: 2, form: 3 },
            Instr::GetVec { num: 0 },
            Instr::GetVec { num: 1 },
            Instr::FloatToInt { vec: 5, width: IntWidth::I32 },
            Instr::FloatToInt { vec: 6, width: IntWidth::I32 },
            Instr::IntBin { op: IntBinOp::Xor, lhs: 7, rhs: 8 },
            Instr::IntToFloat { vec: 9 },
            Instr::SetVec { num: 2, vec: 10 },
        ]
    );
    assert_eq!(node.statements, vec![0, 1]);
}

#[test]
fn comparison_lowers_to_ordered_not_equal() {
    let mut node = NodeContext::new();
    let a = node.add_input();
    let r = gen_math_op_statement(&OperatorType::LogicalNotEqual, a, a, &mut node).unwrap();
    assert_eq!(node.instrs[r + 5], Instr::FloatCompare { pred: Comparison::OrderedNotEqual, lhs: 4, rhs: 5 });
}

#[test]
fn operands_are_left_unchanged() {
    let mut node = NodeContext::new();
    let a = node.add_input();
    let b = node.add_input();
    gen_math_op_statement(&OperatorType::Add, a, b, &mut node).unwrap();
    let cells = run(&node.instrs, &[cell(1, 1.0, 2.0), cell(2, 3.0, 4.0)]);
    assert_eq!(cells[0], Some(cell(1, 1.0, 2.0)));
    assert_eq!(cells[1], Some(cell(2, 3.0, 4.0)));
}

#[test]
fn predicate_truth_table() {
    let table = [
        (Comparison::OrderedEqual, [false, true, false, false]),
        (Comparison::OrderedNotEqual, [true, false, true, false]),
        (Comparison::OrderedGreater, [false, false, true, false]),
        (Comparison::OrderedLess, [true, false, false, false]),
        (Comparison::OrderedGreaterEqual, [false, true, true, false]),
        (Comparison::OrderedLessEqual, [true, true, false, false]),
    ];
    for (p, expect) in table {
        let got = [
            p.holds(LaneOrder::Less),
            p.holds(LaneOrder::Equal),
            p.holds(LaneOrder::Greater),
            p.holds(LaneOrder::Unordered),
        ];
        assert_eq!(got, expect, "{:?}", p);
    }
}

#[test]
fn int_ops_per_lane() {
    assert_eq!(IntBinOp::And.apply(6, 3), 2);
    assert_eq!(IntBinOp::Or.apply(6, 3), 7);
    assert_eq!(IntBinOp::Xor.apply(6, 3), 5);
    assert_eq!(IntBinOp::And.apply(-1, 0), 0);
    assert_eq!(IntBinOp::Or.apply(-1, 0), -1);
}
