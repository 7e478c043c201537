use vstd::prelude::*;

use crate::ir::{refs_before, well_formed, Comparison, FloatBinOp, Instr, IntBinOp, IntWidth, ValueId};
use crate::lower::{
    arith_of, bits_of, gen_math_op_statement, lemma_lowering, lowering, payload_steps, payload_value, predicate_of,
    LowerError, NodeContext, OperatorType,
};
use inkwell::builder::{Builder, BuilderError};
use inkwell::context::Context;
use inkwell::types::{FloatType, IntType, StructType, VectorType};
use inkwell::values::{BasicValueEnum, IntValue, PointerValue, VectorValue};

verus! {

#[verifier::external_type_specification]
#[verifier::external_body]
pub struct ExBuilder<'ctx>(Builder<'ctx>);

#[verifier::external_type_specification]
#[verifier::external_body]
pub struct ExBuilderError(BuilderError);

#[verifier::external_type_specification]
#[verifier::external_body]
pub struct ExPointerValue<'ctx>(PointerValue<'ctx>);

#[verifier::external_type_specification]
#[verifier::external_body]
pub struct ExVectorValue<'ctx>(VectorValue<'ctx>);

#[verifier::external_type_specification]
#[verifier::external_body]
pub struct ExIntValue<'ctx>(IntValue<'ctx>);

#[verifier::external_type_specification]
#[verifier::external_body]
pub struct ExStructType<'ctx>(StructType<'ctx>);

#[verifier::external_type_specification]
#[verifier::external_body]
pub struct ExVectorType<'ctx>(VectorType<'ctx>);

#[verifier::external_type_specification]
#[verifier::external_body]
pub struct ExContext(Context);

#[verifier::external_type_specification]
#[verifier::external_body]
pub struct ExIntType<'ctx>(IntType<'ctx>);

#[verifier::external_type_specification]
#[verifier::external_body]
pub struct ExFloatType<'ctx>(FloatType<'ctx>);

#[verifier::external_type_specification]
pub struct ExFloatPredicate(inkwell::FloatPredicate);

/// The LLVM types a numeric value is built from. A numeric value is stored as
/// a struct whose field 0 is the form tag and field 1 the two-lane float payload.
/// Only `NumTypes::new` builds one, so every numeric value this library
/// allocates has that layout.
pub struct NumTypes<'ctx> {
    num: StructType<'ctx>,
    float_vec: VectorType<'ctx>,
    i32_vec: VectorType<'ctx>,
    bool_vec: VectorType<'ctx>,
}

/// Storage of one numeric value, with the layout of `NumTypes`. Only this
/// library allocates it.
#[derive(Clone, Copy, Debug)]
pub struct NumStorage<'ctx> {
    ptr: PointerValue<'ctx>,
}

/// A form tag read from a numeric value's storage.
#[derive(Clone, Copy, Debug)]
pub struct FormValue<'ctx> {
    val: IntValue<'ctx>,
}

/// A two-lane vector that this library emitted.
#[derive(Clone, Copy, Debug)]
pub struct LaneVector<'ctx> {
    val: VectorValue<'ctx>,
}

/// The address of one field of a numeric value's storage.
#[derive(Clone, Copy)]
struct FieldPtr<'ctx> {
    ptr: PointerValue<'ctx>,
}

impl<'ctx> NumStorage<'ctx> {
    /// The address of the storage, for code emitted around this library.
    pub fn pointer(&self) -> PointerValue<'ctx> {
        self.ptr
    }
}

/// The number of lanes of a payload.
pub const LANES: u32 = 2;

/// Relies on `Context::i8_type`.
#[verifier::external_body]
fn i8_type<'ctx>(ctx: &'ctx Context) -> (r: IntType<'ctx>) {
    ctx.i8_type()
}

/// Relies on `Context::i32_type`.
#[verifier::external_body]
fn i32_type<'ctx>(ctx: &'ctx Context) -> (r: IntType<'ctx>) {
    ctx.i32_type()
}

/// Relies on `Context::bool_type`: the 1-bit integer type.
#[verifier::external_body]
fn bool_type<'ctx>(ctx: &'ctx Context) -> (r: IntType<'ctx>) {
    ctx.bool_type()
}

/// Relies on `Context::f32_type`.
#[verifier::external_body]
fn f32_type<'ctx>(ctx: &'ctx Context) -> (r: FloatType<'ctx>) {
    ctx.f32_type()
}

/// Relies on `IntType::vec_type`, which panics on a size of zero.
#[verifier::external_body]
fn int_vec_type<'ctx>(t: IntType<'ctx>, size: u32) -> (r: VectorType<'ctx>)
    requires
        size > 0,
{
    t.vec_type(size)
}

/// Relies on `FloatType::vec_type`, which panics on a size of zero.
#[verifier::external_body]
fn float_vec_type<'ctx>(t: FloatType<'ctx>, size: u32) -> (r: VectorType<'ctx>)
    requires
        size > 0,
{
    t.vec_type(size)
}

/// Relies on `Context::struct_type`: the unpacked struct of a form tag and a payload.
#[verifier::external_body]
fn num_struct_type<'ctx>(ctx: &'ctx Context, form: IntType<'ctx>, payload: VectorType<'ctx>) -> (r: StructType<'ctx>) {
    ctx.struct_type(&[form.into(), payload.into()], false)
}

impl<'ctx> NumTypes<'ctx> {
    /// The types of `ctx`: an `i8` form tag, and payloads of two lanes.
    pub fn new(ctx: &'ctx Context) -> (r: NumTypes<'ctx>) {
        let float_vec = float_vec_type(f32_type(ctx), LANES);
        NumTypes {
            num: num_struct_type(ctx, i8_type(ctx), float_vec),
            float_vec,
            i32_vec: int_vec_type(i32_type(ctx), LANES),
            bool_vec: int_vec_type(bool_type(ctx), LANES),
        }
    }
}

/// What an instruction defines, as far as emission needs to know.
#[derive(Clone, Copy, Debug, PartialEq, Eq, Structural)]
pub enum ValueKind {
    Num,
    Form,
    Floats,
    Ints(IntWidth),
    Nothing,
}

/// The LLVM value emitted for one instruction.
#[derive(Debug)]
pub enum LlvmValue<'ctx> {
    Num(NumStorage<'ctx>),
    Form(FormValue<'ctx>),
    Floats(LaneVector<'ctx>),
    Ints(LaneVector<'ctx>, IntWidth),
    Nothing,
}

/// A value read back from storage.
pub enum Loaded<'ctx> {
    Int(IntValue<'ctx>),
    Vector(VectorValue<'ctx>),
    Other,
}

/// A value written to storage.
pub enum Stored<'ctx> {
    Int(IntValue<'ctx>),
    Vector(VectorValue<'ctx>),
}

/// Why a stream could not be emitted.
#[derive(Debug)]
pub enum EmitError {
    /// The builder refused an instruction.
    Builder(BuilderError),
    /// An instruction uses a value of the wrong kind, one not yet emitted, or
    /// an input slot that was not supplied.
    Malformed,
    /// A field read back was not of the expected type: `NumTypes::num` does
    /// not have the layout of a numeric value.
    Layout,
}

/// The kind of value that the instruction at `k` defines.
pub open spec fn kind_at(s: Seq<Instr>, k: int) -> ValueKind
    decreases k,
{
    if 0 <= k < s.len() {
        match s[k] {
            Instr::Input { .. } => ValueKind::Num,
            Instr::AllocNum => ValueKind::Num,
            Instr::GetForm { .. } => ValueKind::Form,
            Instr::GetVec { .. } => ValueKind::Floats,
            Instr::FloatBin { .. } => ValueKind::Floats,
            Instr::IntToFloat { .. } => ValueKind::Floats,
            Instr::FloatToInt { width, .. } => ValueKind::Ints(width),
            Instr::FloatCompare { .. } => ValueKind::Ints(IntWidth::Bool),
            Instr::IntBin { lhs, .. } => if lhs < k {
                kind_at(s, lhs as int)
            } else {
                ValueKind::Nothing
            },
            _ => ValueKind::Nothing,
        }
    } else {
        ValueKind::Nothing
    }
}

/// The instruction at `k` uses values of the kinds it needs, and an input
/// slot among the `n_inputs` supplied.
pub open spec fn operands_ok(s: Seq<Instr>, k: int, n_inputs: nat) -> bool {
    match s[k] {
        Instr::Input { slot } => slot < n_inputs,
        Instr::AllocNum => true,
        Instr::GetForm { num } => kind_at(s, num as int) == ValueKind::Num,
        Instr::GetVec { num } => kind_at(s, num as int) == ValueKind::Num,
        Instr::SetForm { num, form } => kind_at(s, num as int) == ValueKind::Num && kind_at(s, form as int)
            == ValueKind::Form,
        Instr::SetVec { num, vec } => kind_at(s, num as int) == ValueKind::Num && kind_at(s, vec as int)
            == ValueKind::Floats,
        Instr::FloatBin { lhs, rhs, .. } => kind_at(s, lhs as int) == ValueKind::Floats && kind_at(s, rhs as int)
            == ValueKind::Floats,
        Instr::FloatCompare { lhs, rhs, .. } => kind_at(s, lhs as int) == ValueKind::Floats && kind_at(
            s,
            rhs as int,
        ) == ValueKind::Floats,
        Instr::FloatToInt { vec, .. } => kind_at(s, vec as int) == ValueKind::Floats,
        Instr::IntBin { lhs, rhs, .. } => kind_at(s, lhs as int) is Ints && kind_at(s, rhs as int) == kind_at(
            s,
            lhs as int,
        ),
        Instr::IntToFloat { vec } => kind_at(s, vec as int) is Ints,
    }
}

/// A well-formed stream whose every instruction has operands of the right kinds.
pub open spec fn well_typed(s: Seq<Instr>, n_inputs: nat) -> bool {
    &&& well_formed(s)
    &&& forall|k: int| 0 <= k < s.len() ==> #[trigger] operands_ok(s, k, n_inputs)
}

pub open spec fn llvm_kind(v: LlvmValue) -> ValueKind {
    match v {
        LlvmValue::Num(_) => ValueKind::Num,
        LlvmValue::Form(_) => ValueKind::Form,
        LlvmValue::Floats(_) => ValueKind::Floats,
        LlvmValue::Ints(_, w) => ValueKind::Ints(w),
        LlvmValue::Nothing => ValueKind::Nothing,
    }
}

// Each wrapper below makes one call of inkwell 0.5's `Builder`. In that
// version each `build_*` method fails with `BuilderError::UnsetPosition` when
// the builder has no insertion point; `build_struct_gep` also fails with
// `GEPPointee` or `GEPIndex` on a pointer to a non-struct or a field index out
// of range. Otherwise each appends one instruction at the insertion point.
// Nothing is promised of the values they return. Every pointer handed to them
// points to storage allocated here with the layout of `NumTypes`, or to a field
// of it, so `build_struct_gep` and `build_load` never meet a pointee type that
// they cannot represent.

/// Relies on `Builder::build_alloca`: reserves storage of type `ty`.
#[verifier::external_body]
fn build_alloca<'ctx>(b: &Builder<'ctx>, ty: StructType<'ctx>) -> (r: Result<PointerValue<'ctx>, BuilderError>) {
    b.build_alloca(ty, "num")
}

/// Relies on `Builder::build_struct_gep`: the address of field `index` of the
/// storage `num`.
#[verifier::external_body]
fn build_struct_gep<'ctx>(b: &Builder<'ctx>, num: NumStorage<'ctx>, index: u32) -> (r: Result<FieldPtr<'ctx>, BuilderError>) {
    b.build_struct_gep(num.ptr, index, "num.field").map(|ptr| FieldPtr { ptr })
}

/// Relies on `Builder::build_load`: reads the field that `field` addresses.
#[verifier::external_body]
fn build_load<'ctx>(b: &Builder<'ctx>, field: FieldPtr<'ctx>) -> (r: Result<Loaded<'ctx>, BuilderError>) {
    b.build_load(field.ptr, "num.load").map(|v| match v {
        BasicValueEnum::IntValue(i) => Loaded::Int(i),
        BasicValueEnum::VectorValue(x) => Loaded::Vector(x),
        _ => Loaded::Other,
    })
}

/// Relies on `Builder::build_store`: writes `value` to the field that `field` addresses.
#[verifier::external_body]
fn build_store<'ctx>(b: &Builder<'ctx>, field: FieldPtr<'ctx>, value: Stored<'ctx>) -> (r: Result<(), BuilderError>) {
    match value {
        Stored::Int(i) => b.build_store(field.ptr, i).map(|_| ()),
        Stored::Vector(x) => b.build_store(field.ptr, x).map(|_| ()),
    }
}

/// Relies on `Builder::build_float_add`: lane-wise `fadd`.
#[verifier::external_body]
fn build_float_add<'ctx>(b: &Builder<'ctx>, l: VectorValue<'ctx>, r: VectorValue<'ctx>) -> (res: Result<VectorValue<'ctx>, BuilderError>) {
    b.build_float_add(l, r, "num.add.vec")
}

/// Relies on `Builder::build_float_sub`: lane-wise `fsub`.
#[verifier::external_body]
fn build_float_sub<'ctx>(b: &Builder<'ctx>, l: VectorValue<'ctx>, r: VectorValue<'ctx>) -> (res: Result<VectorValue<'ctx>, BuilderError>) {
    b.build_float_sub(l, r, "num.sub.vec")
}

/// Relies on `Builder::build_float_mul`: lane-wise `fmul`.
#[verifier::external_body]
fn build_float_mul<'ctx>(b: &Builder<'ctx>, l: VectorValue<'ctx>, r: VectorValue<'ctx>) -> (res: Result<VectorValue<'ctx>, BuilderError>) {
    b.build_float_mul(l, r, "num.mul.vec")
}

/// Relies on `Builder::build_float_div`: lane-wise `fdiv`.
#[verifier::external_body]
fn build_float_div<'ctx>(b: &Builder<'ctx>, l: VectorValue<'ctx>, r: VectorValue<'ctx>) -> (res: Result<VectorValue<'ctx>, BuilderError>) {
    b.build_float_div(l, r, "num.divide.vec")
}

/// Relies on `Builder::build_float_rem`: lane-wise `frem`.
#[verifier::external_body]
fn build_float_rem<'ctx>(b: &Builder<'ctx>, l: VectorValue<'ctx>, r: VectorValue<'ctx>) -> (res: Result<VectorValue<'ctx>, BuilderError>) {
    b.build_float_rem(l, r, "num.mod.vec")
}

/// Relies on `Builder::build_float_to_signed_int`: lane-wise `fptosi` to `ty`.
#[verifier::external_body]
fn build_float_to_signed_int<'ctx>(b: &Builder<'ctx>, v: VectorValue<'ctx>, ty: VectorType<'ctx>) -> (res: Result<VectorValue<'ctx>, BuilderError>) {
    b.build_float_to_signed_int(v, ty, "num.vec.int")
}

/// Relies on `Builder::build_signed_int_to_float`: lane-wise `sitofp` to `ty`.
#[verifier::external_body]
fn build_signed_int_to_float<'ctx>(b: &Builder<'ctx>, v: VectorValue<'ctx>, ty: VectorType<'ctx>) -> (res: Result<VectorValue<'ctx>, BuilderError>) {
    b.build_signed_int_to_float(v, ty, "num.vec.float")
}

/// Relies on `Builder::build_and`: lane-wise `and`.
#[verifier::external_body]
fn build_and<'ctx>(b: &Builder<'ctx>, l: VectorValue<'ctx>, r: VectorValue<'ctx>) -> (res: Result<VectorValue<'ctx>, BuilderError>) {
    b.build_and(l, r, "num.and.vec")
}

/// Relies on `Builder::build_or`: lane-wise `or`.
#[verifier::external_body]
fn build_or<'ctx>(b: &Builder<'ctx>, l: VectorValue<'ctx>, r: VectorValue<'ctx>) -> (res: Result<VectorValue<'ctx>, BuilderError>) {
    b.build_or(l, r, "num.or.vec")
}

/// Relies on `Builder::build_xor`: lane-wise `xor`.
#[verifier::external_body]
fn build_xor<'ctx>(b: &Builder<'ctx>, l: VectorValue<'ctx>, r: VectorValue<'ctx>) -> (res: Result<VectorValue<'ctx>, BuilderError>) {
    b.build_xor(l, r, "num.xor.vec")
}

/// Relies on `Builder::build_float_compare`: lane-wise `fcmp` with `pred`,
/// giving a vector of 1-bit lanes.
#[verifier::external_body]
fn build_float_compare<'ctx>(
    b: &Builder<'ctx>,
    pred: inkwell::FloatPredicate,
    l: VectorValue<'ctx>,
    r: VectorValue<'ctx>,
) -> (res: Result<VectorValue<'ctx>, BuilderError>) {
    b.build_float_compare(pred, l, r, "num.vec.cmp")
}

/// The LLVM predicate of an ordered comparison.
pub fn llvm_predicate(p: Comparison) -> (r: inkwell::FloatPredicate)
    ensures
        r == match p {
            Comparison::OrderedEqual => inkwell::FloatPredicate::OEQ,
            Comparison::OrderedNotEqual => inkwell::FloatPredicate::ONE,
            Comparison::OrderedGreater => inkwell::FloatPredicate::OGT,
            Comparison::OrderedLess => inkwell::FloatPredicate::OLT,
            Comparison::OrderedGreaterEqual => inkwell::FloatPredicate::OGE,
            Comparison::OrderedLessEqual => inkwell::FloatPredicate::OLE,
        },
{
    match p {
        Comparison::OrderedEqual => inkwell::FloatPredicate::OEQ,
        Comparison::OrderedNotEqual => inkwell::FloatPredicate::ONE,
        Comparison::OrderedGreater => inkwell::FloatPredicate::OGT,
        Comparison::OrderedLess => inkwell::FloatPredicate::OLT,
        Comparison::OrderedGreaterEqual => inkwell::FloatPredicate::OGE,
        Comparison::OrderedLessEqual => inkwell::FloatPredicate::OLE,
    }
}

fn num_operand<'ctx>(values: &Vec<LlvmValue<'ctx>>, v: ValueId) -> (r: Result<NumStorage<'ctx>, EmitError>)
    ensures
        v < values@.len() && llvm_kind(values@[v as int]) == ValueKind::Num ==> r is Ok,
        r is Err ==> r->Err_0 is Malformed,
{
    if v < values.len() {
        match &values[v] {
            LlvmValue::Num(p) => Ok(*p),
            _ => Err(EmitError::Malformed),
        }
    } else {
        Err(EmitError::Malformed)
    }
}

fn form_operand<'ctx>(values: &Vec<LlvmValue<'ctx>>, v: ValueId) -> (r: Result<FormValue<'ctx>, EmitError>)
    ensures
        v < values@.len() && llvm_kind(values@[v as int]) == ValueKind::Form ==> r is Ok,
        r is Err ==> r->Err_0 is Malformed,
{
    if v < values.len() {
        match &values[v] {
            LlvmValue::Form(f) => Ok(*f),
            _ => Err(EmitError::Malformed),
        }
    } else {
        Err(EmitError::Malformed)
    }
}

fn floats_operand<'ctx>(values: &Vec<LlvmValue<'ctx>>, v: ValueId) -> (r: Result<LaneVector<'ctx>, EmitError>)
    ensures
        v < values@.len() && llvm_kind(values@[v as int]) == ValueKind::Floats ==> r is Ok,
        r is Err ==> r->Err_0 is Malformed,
{
    if v < values.len() {
        match &values[v] {
            LlvmValue::Floats(x) => Ok(*x),
            _ => Err(EmitError::Malformed),
        }
    } else {
        Err(EmitError::Malformed)
    }
}

fn ints_operand<'ctx>(values: &Vec<LlvmValue<'ctx>>, v: ValueId) -> (r: Result<(LaneVector<'ctx>, IntWidth), EmitError>)
    ensures
        r is Ok ==> v < values@.len() && llvm_kind(values@[v as int]) == ValueKind::Ints(r->Ok_0.1),
        v < values@.len() && llvm_kind(values@[v as int]) is Ints ==> r is Ok,
        r is Err ==> r->Err_0 is Malformed,
{
    if v < values.len() {
        match &values[v] {
            LlvmValue::Ints(x, w) => Ok((*x, *w)),
            _ => Err(EmitError::Malformed),
        }
    } else {
        Err(EmitError::Malformed)
    }
}

fn builder_err<T>(r: Result<T, BuilderError>) -> (out: Result<T, EmitError>)
    ensures
        r is Ok <==> out is Ok,
        out is Err ==> out->Err_0 is Builder,
{
    match r {
        Ok(v) => Ok(v),
        Err(e) => Err(EmitError::Builder(e)),
    }
}

/// The form tag read back, which must be an integer.
fn loaded_form<'ctx>(l: Loaded<'ctx>) -> (r: Result<FormValue<'ctx>, EmitError>)
    ensures
        r is Ok <==> l is Int,
        r is Err ==> r->Err_0 is Layout,
{
    match l {
        Loaded::Int(val) => Ok(FormValue { val }),
        _ => Err(EmitError::Layout),
    }
}

/// The payload read back, which must be a vector.
fn loaded_payload<'ctx>(l: Loaded<'ctx>) -> (r: Result<LaneVector<'ctx>, EmitError>)
    ensures
        r is Ok <==> l is Vector,
        r is Err ==> r->Err_0 is Layout,
{
    match l {
        Loaded::Vector(val) => Ok(LaneVector { val }),
        _ => Err(EmitError::Layout),
    }
}

fn lanes<'ctx>(r: Result<VectorValue<'ctx>, BuilderError>) -> (out: Result<LaneVector<'ctx>, EmitError>)
    ensures
        r is Ok <==> out is Ok,
        out is Err ==> out->Err_0 is Builder,
{
    match r {
        Ok(val) => Ok(LaneVector { val }),
        Err(e) => Err(EmitError::Builder(e)),
    }
}

/// Allocates storage for one numeric value with the layout of `types`.
pub fn alloc_num<'ctx>(b: &Builder<'ctx>, types: &NumTypes<'ctx>) -> (r: Result<NumStorage<'ctx>, EmitError>)
    ensures
        r is Err ==> r->Err_0 is Builder,
{
    match build_alloca(b, types.num) {
        Ok(ptr) => Ok(NumStorage { ptr }),
        Err(e) => Err(EmitError::Builder(e)),
    }
}

/// Emits the instruction at `k`, given the values emitted for those before it.
fn emit_one<'ctx>(
    b: &Builder<'ctx>,
    types: &NumTypes<'ctx>,
    instrs: &Vec<Instr>,
    k: usize,
    inputs: &Vec<NumStorage<'ctx>>,
    values: &Vec<LlvmValue<'ctx>>,
) -> (r: Result<LlvmValue<'ctx>, EmitError>)
    requires
        k < instrs@.len(),
        values@.len() == k,
        forall|j: int| 0 <= j < k ==> #[trigger] llvm_kind(values@[j]) == kind_at(instrs@, j),
    ensures
        r is Ok ==> llvm_kind(r->Ok_0) == kind_at(instrs@, k as int),
        refs_before(instrs@[k as int], k as int) && operands_ok(instrs@, k as int, inputs@.len())
            ==> !(r is Err && r->Err_0 is Malformed),
        r matches Err(EmitError::Layout) ==> instrs@[k as int] is GetForm || instrs@[k as int] is GetVec,
{
    match instrs[k] {
        Instr::Input { slot } => {
            if slot < inputs.len() {
                Ok(LlvmValue::Num(inputs[slot]))
            } else {
                Err(EmitError::Malformed)
            }
        },
        Instr::AllocNum => Ok(LlvmValue::Num(alloc_num(b, types)?)),
        Instr::GetForm { num } => {
            let p = num_operand(values, num)?;
            let field = builder_err(build_struct_gep(b, p, 0))?;
            let f = loaded_form(builder_err(build_load(b, field))?)?;
            Ok(LlvmValue::Form(f))
        },
        Instr::GetVec { num } => {
            let p = num_operand(values, num)?;
            let field = builder_err(build_struct_gep(b, p, 1))?;
            let x = loaded_payload(builder_err(build_load(b, field))?)?;
            Ok(LlvmValue::Floats(x))
        },
        Instr::SetForm { num, form } => {
            let p = num_operand(values, num)?;
            let f = form_operand(values, form)?;
            let field = builder_err(build_struct_gep(b, p, 0))?;
            builder_err(build_store(b, field, Stored::Int(f.val)))?;
            Ok(LlvmValue::Nothing)
        },
        Instr::SetVec { num, vec } => {
            let p = num_operand(values, num)?;
            let x = floats_operand(values, vec)?;
            let field = builder_err(build_struct_gep(b, p, 1))?;
            builder_err(build_store(b, field, Stored::Vector(x.val)))?;
            Ok(LlvmValue::Nothing)
        },
        Instr::FloatBin { op, lhs, rhs } => {
            let l = floats_operand(values, lhs)?.val;
            let r = floats_operand(values, rhs)?.val;
            let x = match op {
                FloatBinOp::Add => build_float_add(b, l, r),
                FloatBinOp::Sub => build_float_sub(b, l, r),
                FloatBinOp::Mul => build_float_mul(b, l, r),
                FloatBinOp::Div => build_float_div(b, l, r),
                FloatBinOp::Rem => build_float_rem(b, l, r),
            };
            Ok(LlvmValue::Floats(lanes(x)?))
        },
        Instr::FloatToInt { vec, width } => {
            let x = floats_operand(values, vec)?.val;
            let ty = match width {
                IntWidth::I32 => types.i32_vec,
                IntWidth::Bool => types.bool_vec,
            };
            Ok(LlvmValue::Ints(lanes(build_float_to_signed_int(b, x, ty))?, width))
        },
        Instr::IntBin { op, lhs, rhs } => {
            let (l, lw) = ints_operand(values, lhs)?;
            let (r, rw) = ints_operand(values, rhs)?;
            if lw != rw {
                return Err(EmitError::Malformed);
            }
            let x = match op {
                IntBinOp::And => build_and(b, l.val, r.val),
                IntBinOp::Or => build_or(b, l.val, r.val),
                IntBinOp::Xor => build_xor(b, l.val, r.val),
            };
            Ok(LlvmValue::Ints(lanes(x)?, lw))
        },
        Instr::FloatCompare { pred, lhs, rhs } => {
            let l = floats_operand(values, lhs)?.val;
            let r = floats_operand(values, rhs)?.val;
            let mask = lanes(build_float_compare(b, llvm_predicate(pred), l, r))?;
            Ok(LlvmValue::Ints(mask, IntWidth::Bool))
        },
        Instr::IntToFloat { vec } => {
            let (x, _) = ints_operand(values, vec)?;
            Ok(LlvmValue::Floats(lanes(build_signed_int_to_float(b, x.val, types.float_vec))?))
        },
    }
}

/// Emits, in order, the instructions of `instrs` that have no LLVM value in
/// `values` yet, appending one value per instruction. `inputs` gives the
/// storage of each input slot. With nothing left to emit it succeeds. On a
/// well-typed stream it fails only where the builder refuses an instruction,
/// or where a field read back has an unexpected type.
pub fn emit_stream<'ctx>(
    b: &Builder<'ctx>,
    types: &NumTypes<'ctx>,
    instrs: &Vec<Instr>,
    inputs: &Vec<NumStorage<'ctx>>,
    values: &mut Vec<LlvmValue<'ctx>>,
) -> (r: Result<(), EmitError>)
    requires
        old(values)@.len() <= instrs@.len(),
        forall|j: int| 0 <= j < old(values)@.len() ==> #[trigger] llvm_kind(old(values)@[j]) == kind_at(instrs@, j),
    ensures
        old(values)@.len() <= final(values)@.len() <= instrs@.len(),
        forall|j: int| 0 <= j < old(values)@.len() ==> #[trigger] final(values)@[j] == old(values)@[j],
        forall|j: int| 0 <= j < final(values)@.len() ==> #[trigger] llvm_kind(final(values)@[j]) == kind_at(instrs@, j),
        r is Ok ==> final(values)@.len() == instrs@.len(),
        well_typed(instrs@, inputs@.len()) ==> !(r is Err && r->Err_0 is Malformed),
        old(values)@.len() == instrs@.len() ==> r is Ok,
        r matches Err(EmitError::Layout) ==> final(values)@.len() < instrs@.len()
            && (instrs@[final(values)@.len() as int] is GetForm
            || instrs@[final(values)@.len() as int] is GetVec),
{
    while values.len() < instrs.len()
        invariant
            old(values)@.len() <= values@.len() <= instrs@.len(),
            forall|j: int| 0 <= j < old(values)@.len() ==> #[trigger] values@[j] == old(values)@[j],
            forall|j: int| 0 <= j < values@.len() ==> #[trigger] llvm_kind(values@[j]) == kind_at(instrs@, j),
        decreases instrs@.len() - values@.len(),
    {
        let k = values.len();
        proof {
            if well_typed(instrs@, inputs@.len()) {
                assert(refs_before(instrs@[k as int], k as int));
                assert(operands_ok(instrs@, k as int, inputs@.len()));
            }
        }
        let v = emit_one(b, types, instrs, k, inputs, values)?;
        values.push(v);
    }
    Ok(())
}

/// Why `gen_math_op_llvm` produced no result.
#[derive(Debug)]
pub enum GenError {
    Lower(LowerError),
    Emit(EmitError),
}

/// Lowers `op` applied to statements `lhs` and `rhs` as `gen_math_op_statement`
/// does, then emits the new instructions through `b`, and returns the LLVM
/// storage of the result. `values` holds the LLVM value of each instruction
/// emitted before; `inputs` the storage of each input slot.
pub fn gen_math_op_llvm<'ctx>(
    op: &OperatorType,
    lhs: usize,
    rhs: usize,
    node: &mut NodeContext,
    b: &Builder<'ctx>,
    types: &NumTypes<'ctx>,
    inputs: &Vec<NumStorage<'ctx>>,
    values: &mut Vec<LlvmValue<'ctx>>,
) -> (r: Result<NumStorage<'ctx>, GenError>)
    requires
        old(node).wf(),
        lhs < old(node).statements@.len(),
        rhs < old(node).statements@.len(),
        old(values)@.len() == old(node).instrs@.len(),
        forall|j: int| 0 <= j < old(values)@.len() ==> #[trigger] llvm_kind(old(values)@[j]) == kind_at(old(node).instrs@, j),
    ensures
        final(node).wf(),
        final(node).statements@ == old(node).statements@,
        *op == OperatorType::Power ==> final(node).instrs@ == old(node).instrs@ && r matches Err(
            GenError::Lower(LowerError::UnsupportedOperator(OperatorType::Power)),
        ),
        *op != OperatorType::Power ==> final(node).instrs@ == old(node).instrs@ + lowering(
            *op,
            old(node).statements@[lhs as int],
            old(node).statements@[rhs as int],
            old(node).instrs@.len() as int,
        ) && !(r matches Err(GenError::Lower(_))),
        final(values)@.len() <= final(node).instrs@.len(),
        forall|j: int| 0 <= j < old(values)@.len() ==> #[trigger] final(values)@[j] == old(values)@[j],
        forall|j: int| 0 <= j < final(values)@.len() ==> #[trigger] llvm_kind(final(values)@[j]) == kind_at(final(node).instrs@, j),
        r is Ok ==> final(values)@.len() == final(node).instrs@.len(),
        well_typed(old(node).instrs@, inputs@.len()) && kind_at(old(node).instrs@, old(node).statements@[lhs as int] as int)
            == ValueKind::Num && kind_at(old(node).instrs@, old(node).statements@[rhs as int] as int)
            == ValueKind::Num ==> !(r matches Err(GenError::Emit(EmitError::Malformed))),
        r matches Err(GenError::Emit(EmitError::Layout)) ==> final(values)@.len() < final(node).instrs@.len()
            && (final(node).instrs@[final(values)@.len() as int] is GetForm
            || final(node).instrs@[final(values)@.len() as int] is GetVec),
{
    let ghost s = node.instrs@;
    let ghost lp = node.statements@[lhs as int];
    let ghost rp = node.statements@[rhs as int];
    let id = match gen_math_op_statement(op, lhs, rhs, node) {
        Ok(id) => id,
        Err(e) => return Err(GenError::Lower(e)),
    };
    proof {
        broadcast use vstd::std_specs::vec::axiom_spec_len;
        assert(node.instrs@.len() == node.instrs.len());
        lemma_kinds_of_prefix(old(node).instrs@, node.instrs@, old(values)@.len() as int);
        if well_typed(s, inputs@.len()) && kind_at(s, lp as int) == ValueKind::Num && kind_at(s, rp as int) == ValueKind::Num {
            lemma_lowering_typed(s, *op, lp, rp, inputs@.len());
        }
    }
    match emit_stream(b, types, &node.instrs, inputs, values) {
        Ok(()) => {},
        Err(e) => return Err(GenError::Emit(e)),
    }
    proof {
        if well_typed(s, inputs@.len()) && kind_at(s, lp as int) == ValueKind::Num && kind_at(s, rp as int) == ValueKind::Num {
            assert(llvm_kind(values@[id as int]) == kind_at(node.instrs@, id as int));
        }
    }
    match &values[id] {
        LlvmValue::Num(p) => Ok(*p),
        _ => Err(GenError::Emit(EmitError::Malformed)),
    }
}

/// The kinds of the first `k` values of a stream do not depend on what follows.
pub proof fn lemma_kinds_of_prefix(s: Seq<Instr>, t: Seq<Instr>, k: int)
    requires
        0 <= k <= s.len() <= t.len(),
        forall|i: int| 0 <= i < s.len() ==> t[i] == s[i],
    ensures
        forall|j: int| 0 <= j < k ==> #[trigger] kind_at(t, j) == kind_at(s, j),
    decreases k,
{
    if k > 0 {
        lemma_kinds_of_prefix(s, t, k - 1);
        assert(t[k - 1] == s[k - 1]);
        if let Instr::IntBin { lhs, .. } = s[k - 1] {
            if lhs < k - 1 {
                assert(kind_at(t, lhs as int) == kind_at(s, lhs as int));
            }
        }
        assert(kind_at(t, k - 1) == kind_at(s, k - 1));
    }
}

/// Lowering an operator on two numeric values of a well-typed stream gives a
/// well-typed stream, whose result is a numeric value.
#[verifier::rlimit(60)]
pub proof fn lemma_lowering_typed(s: Seq<Instr>, op: OperatorType, lp: ValueId, rp: ValueId, n: nat)
    requires
        well_typed(s, n),
        lp < s.len(),
        rp < s.len(),
        kind_at(s, lp as int) == ValueKind::Num,
        kind_at(s, rp as int) == ValueKind::Num,
        op != OperatorType::Power,
        s.len() + lowering(op, lp, rp, s.len() as int).len() <= usize::MAX,
    ensures
        well_typed(s + lowering(op, lp, rp, s.len() as int), n),
        kind_at(s + lowering(op, lp, rp, s.len() as int), s.len() as int) == ValueKind::Num,
{
    let base = s.len() as int;
    let t = s + lowering(op, lp, rp, base);
    let lv = (base + 3) as usize;
    let rv = (base + 4) as usize;
    let c = base + 5;
    let n_t = t.len() as int;
    lemma_lowering(s, op, lp, rp);
    lemma_kinds_of_prefix(s, t, base);
    assert(t.len() == s.len() + 6 + payload_steps(op, lv, rv, c).len());
    assert forall|i: int| 0 <= i < payload_steps(op, lv, rv, c).len() implies t[c + i]
        == payload_steps(op, lv, rv, c)[i] by {}
    assert(t[base] == Instr::AllocNum);
    assert(t[base + 1] == Instr::GetForm { num: lp });
    assert(t[base + 3] == Instr::GetVec { num: lp });
    assert(t[base + 4] == Instr::GetVec { num: rp });
    assert(kind_at(t, base) == ValueKind::Num);
    assert(kind_at(t, base + 1) == ValueKind::Form);
    assert(kind_at(t, base + 3) == ValueKind::Floats);
    assert(kind_at(t, base + 4) == ValueKind::Floats);
    if let Some((bop, w)) = bits_of(op) {
        assert(kind_at(t, c) == ValueKind::Ints(w));
        assert(kind_at(t, c + 1) == ValueKind::Ints(w));
        assert(kind_at(t, c + 2) == ValueKind::Ints(w));
        assert(kind_at(t, c + 3) == ValueKind::Floats);
    } else if let Some(p) = predicate_of(op) {
        assert(kind_at(t, c) == ValueKind::Ints(IntWidth::Bool));
        assert(kind_at(t, c + 1) == ValueKind::Floats);
    } else if let Some(f) = arith_of(op) {
        assert(kind_at(t, c) == ValueKind::Floats);
    }
    assert(kind_at(t, payload_value(op, lv, c) as int) == ValueKind::Floats);
    assert forall|k: int| 0 <= k < base implies #[trigger] operands_ok(t, k, n) by {
        assert(t[k] == s[k]);
        assert(operands_ok(s, k, n));
        assert(refs_before(s[k], k));
    }
    assert forall|k: int| base <= k < c implies #[trigger] operands_ok(t, k, n) by {}
    assert forall|k: int| c <= k < n_t - 1 implies #[trigger] operands_ok(t, k, n) by {
        assert(t[k] == payload_steps(op, lv, rv, c)[k - c]);
    }
    assert(operands_ok(t, n_t - 1, n));
}

} // verus!
