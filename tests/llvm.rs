use inkwell::builder::Builder;
use inkwell::context::Context;
use inkwell::module::Module;
use inkwell::values::FunctionValue;
use math_op_lowering::emit::{
    alloc_num, emit_stream, gen_math_op_llvm, llvm_predicate, EmitError, GenError, LlvmValue, NumStorage,
    NumTypes,
};
use math_op_lowering::ir::Comparison;
use math_op_lowering::lower::{LowerError, NodeContext, OperatorType};

/// A function without parameters, with the builder at its entry.
fn function<'ctx>(ctx: &'ctx Context, module: &Module<'ctx>, b: &Builder<'ctx>) -> FunctionValue<'ctx> {
    let fn_ty = ctx.void_type().fn_type(&[], false);
    let f = module.add_function("op", fn_ty, None);
    let entry = ctx.append_basic_block(f, "entry");
    b.position_at_end(entry);
    f
}

/// Lowers `op` on the function's two parameters and returns the module's text.
fn lower_to_ir(op: OperatorType) -> String {
    let ctx = Context::create();
    let module = ctx.create_module("m");
    let b = ctx.create_builder();
    let types = NumTypes::new(&ctx);
    let f = function(&ctx, &module, &b);
    let inputs: Vec<NumStorage> = vec![alloc_num(&b, &types).unwrap(), alloc_num(&b, &types).unwrap()];
    let mut node = NodeContext::new();
    let l = node.add_input();
    let r = node.add_input();
    let mut values: Vec<LlvmValue> = Vec::new();
    emit_stream(&b, &types, &node.instrs, &inputs, &mut values).unwrap();
    let result = gen_math_op_llvm(&op, l, r, &mut node, &b, &types, &inputs, &mut values).unwrap();
    assert!(!result.pointer().is_null());
    assert_eq!(values.len(), node.instrs.len());
    b.build_return(None).unwrap();
    assert!(f.verify(false));
    module.print_to_string().to_string()
}

#[test]
fn llvm_add_emits_fadd() {
    let ir = lower_to_ir(OperatorType::Add);
    assert!(ir.contains("fadd <2 x float>"), "{}", ir);
}

#[test]
fn llvm_modulo_emits_frem() {
    let ir = lower_to_ir(OperatorType::Modulo);
    assert!(ir.contains("frem <2 x float>"), "{}", ir);
}

#[test]
fn llvm_not_equal_is_ordered() {
    let ir = lower_to_ir(OperatorType::LogicalNotEqual);
    assert!(ir.contains("fcmp one <2 x float>"), "{}", ir);
    assert!(!ir.contains("fcmp une"), "{}", ir);
    assert!(ir.contains("sitofp <2 x i1>"), "{}", ir);
}

#[test]
fn llvm_bitwise_goes_through_i32() {
    let ir = lower_to_ir(OperatorType::BitwiseXor);
    assert!(ir.contains("fptosi <2 x float>"), "{}", ir);
    assert!(ir.contains("xor <2 x i32>"), "{}", ir);
    assert!(ir.contains("sitofp <2 x i32>"), "{}", ir);
}

#[test]
fn llvm_logical_goes_through_i1() {
    let ir = lower_to_ir(OperatorType::LogicalOr);
    assert!(ir.contains("or <2 x i1>"), "{}", ir);
}

#[test]
fn llvm_identity_copies_form_and_payload() {
    let ir = lower_to_ir(OperatorType::Identity);
    assert!(ir.contains("alloca"), "{}", ir);
    assert!(ir.contains("store i8"), "{}", ir);
    assert!(ir.contains("store <2 x float>"), "{}", ir);
}

#[test]
fn llvm_power_is_refused() {
    let ctx = Context::create();
    let module = ctx.create_module("m");
    let b = ctx.create_builder();
    let types = NumTypes::new(&ctx);
    function(&ctx, &module, &b);
    let inputs = vec![alloc_num(&b, &types).unwrap()];
    let mut node = NodeContext::new();
    let l = node.add_input();
    let mut values = Vec::new();
    emit_stream(&b, &types, &node.instrs, &inputs, &mut values).unwrap();
    let r = gen_math_op_llvm(&OperatorType::Power, l, l, &mut node, &b, &types, &inputs, &mut values);
    assert!(matches!(r, Err(GenError::Lower(LowerError::UnsupportedOperator(OperatorType::Power)))));
    assert_eq!(node.instrs.len(), 1);
    assert_eq!(values.len(), 1);
}

#[test]
fn llvm_unpositioned_builder_is_reported() {
    let ctx = Context::create();
    let module = ctx.create_module("m");
    let b = ctx.create_builder();
    let types = NumTypes::new(&ctx);
    function(&ctx, &module, &b);
    let inputs = vec![alloc_num(&b, &types).unwrap()];
    let other = ctx.create_builder();
    let mut node = NodeContext::new();
    let l = node.add_input();
    let mut values = Vec::new();
    emit_stream(&other, &types, &node.instrs, &inputs, &mut values).unwrap();
    let r = gen_math_op_llvm(&OperatorType::Add, l, l, &mut node, &other, &types, &inputs, &mut values);
    assert!(matches!(r, Err(GenError::Emit(EmitError::Builder(_)))));
}

#[test]
fn llvm_missing_input_is_malformed() {
    let ctx = Context::create();
    let b = ctx.create_builder();
    let types = NumTypes::new(&ctx);
    let mut node = NodeContext::new();
    node.add_input();
    let mut values = Vec::new();
    let r = emit_stream(&b, &types, &node.instrs, &Vec::new(), &mut values);
    assert!(matches!(r, Err(EmitError::Malformed)));
    assert!(values.is_empty());
}

#[test]
fn llvm_predicates_are_the_ordered_ones() {
    assert_eq!(llvm_predicate(Comparison::OrderedEqual), inkwell::FloatPredicate::OEQ);
    assert_eq!(llvm_predicate(Comparison::OrderedNotEqual), inkwell::FloatPredicate::ONE);
    assert_eq!(llvm_predicate(Comparison::OrderedGreater), inkwell::FloatPredicate::OGT);
    assert_eq!(llvm_predicate(Comparison::OrderedLess), inkwell::FloatPredicate::OLT);
    assert_eq!(llvm_predicate(Comparison::OrderedGreaterEqual), inkwell::FloatPredicate::OGE);
    assert_eq!(llvm_predicate(Comparison::OrderedLessEqual), inkwell::FloatPredicate::OLE);
}
