//! The parts of `inkwell` (LLVM) that code generation calls. LLVM values,
//! types and blocks are opaque handles here. The wrappers that build an
//! arithmetic, logical, comparison or select instruction hand back, beside the
//! value, the term of `crate::emit::Term` that names that instruction over the
//! terms of its operands; no other wrapper claims anything of what its call
//! builds inside LLVM.
use vstd::prelude::*;

use inkwell::basic_block::BasicBlock;
use inkwell::builder::{Builder, BuilderError};
use inkwell::context::Context;
use inkwell::module::Module;
use inkwell::types::{BasicMetadataTypeEnum, BasicType, BasicTypeEnum, FloatType, FunctionType, IntType, PointerType, StructType, VoidType};
use inkwell::values::{BasicMetadataValueEnum, BasicValueEnum, FloatValue, FunctionValue, InstructionValue, IntValue, PhiValue, PointerValue, StructValue};
use inkwell::AddressSpace;

use crate::ast::BinOp;
use crate::emit::{Term, Traced};

verus! {

// ─── Outside types ───────────────────────────────────────────────────────────

#[verifier::external_type_specification]
#[verifier::external_body]
pub struct ExContext(Context);

#[verifier::external_type_specification]
#[verifier::external_body]
pub struct ExModule<'ctx>(Module<'ctx>);

#[verifier::external_type_specification]
#[verifier::external_body]
pub struct ExBuilder<'ctx>(Builder<'ctx>);

#[verifier::external_type_specification]
#[verifier::external_body]
pub struct ExBuilderError(BuilderError);

#[verifier::external_type_specification]
#[verifier::external_body]
pub struct ExBasicBlock<'ctx>(BasicBlock<'ctx>);

#[verifier::external_type_specification]
#[verifier::external_body]
pub struct ExBasicValueEnum<'ctx>(BasicValueEnum<'ctx>);

#[verifier::external_type_specification]
#[verifier::external_body]
pub struct ExIntValue<'ctx>(IntValue<'ctx>);

#[verifier::external_type_specification]
#[verifier::external_body]
pub struct ExFloatValue<'ctx>(FloatValue<'ctx>);

#[verifier::external_type_specification]
#[verifier::external_body]
pub struct ExPointerValue<'ctx>(PointerValue<'ctx>);

#[verifier::external_type_specification]
#[verifier::external_body]
pub struct ExStructValue<'ctx>(StructValue<'ctx>);

#[verifier::external_type_specification]
#[verifier::external_body]
pub struct ExFunctionValue<'ctx>(FunctionValue<'ctx>);

#[verifier::external_type_specification]
#[verifier::external_body]
pub struct ExPhiValue<'ctx>(PhiValue<'ctx>);

#[verifier::external_type_specification]
#[verifier::external_body]
pub struct ExInstructionValue<'ctx>(InstructionValue<'ctx>);

#[verifier::external_type_specification]
#[verifier::external_body]
pub struct ExBasicTypeEnum<'ctx>(BasicTypeEnum<'ctx>);

#[verifier::external_type_specification]
#[verifier::external_body]
pub struct ExIntType<'ctx>(IntType<'ctx>);

#[verifier::external_type_specification]
#[verifier::external_body]
pub struct ExFloatType<'ctx>(FloatType<'ctx>);

#[verifier::external_type_specification]
#[verifier::external_body]
pub struct ExVoidType<'ctx>(VoidType<'ctx>);

#[verifier::external_type_specification]
#[verifier::external_body]
pub struct ExPointerType<'ctx>(PointerType<'ctx>);

#[verifier::external_type_specification]
#[verifier::external_body]
pub struct ExStructType<'ctx>(StructType<'ctx>);

#[verifier::external_type_specification]
#[verifier::external_body]
pub struct ExFunctionType<'ctx>(FunctionType<'ctx>);

// ─── Predicates ──────────────────────────────────────────────────────────────

/// The integer comparisons code generation emits.
#[derive(Clone, Copy, PartialEq, Eq, Structural)]
pub enum IntRel {
    Eq,
    Ne,
    Slt,
    Sgt,
    Sle,
    Sge,
}

/// The ordered floating-point comparisons code generation emits.
#[derive(Clone, Copy, PartialEq, Eq, Structural)]
pub enum FloatRel {
    Oeq,
    One,
    Olt,
    Ogt,
    Ole,
    Oge,
}

// ─── Context ─────────────────────────────────────────────────────────────────

/// `Context::create_module`; nothing is claimed of the module.
#[verifier::external_body]
pub(crate) fn create_module<'ctx>(ctx: &'ctx Context, name: &str) -> Module<'ctx> {
    ctx.create_module(name)
}

/// `Context::create_builder`; nothing is claimed of the builder.
#[verifier::external_body]
pub(crate) fn create_builder<'ctx>(ctx: &'ctx Context) -> Builder<'ctx> {
    ctx.create_builder()
}

/// `Context::i32_type`.
#[verifier::external_body]
pub(crate) fn i32_type<'ctx>(ctx: &'ctx Context) -> IntType<'ctx> {
    ctx.i32_type()
}

/// `Context::i64_type`.
#[verifier::external_body]
pub(crate) fn i64_type<'ctx>(ctx: &'ctx Context) -> IntType<'ctx> {
    ctx.i64_type()
}

/// `Context::bool_type` (the one-bit integer type).
#[verifier::external_body]
pub(crate) fn bool_type<'ctx>(ctx: &'ctx Context) -> IntType<'ctx> {
    ctx.bool_type()
}

/// `Context::i8_type`.
#[verifier::external_body]
pub(crate) fn i8_type<'ctx>(ctx: &'ctx Context) -> IntType<'ctx> {
    ctx.i8_type()
}

/// `Context::f64_type`.
#[verifier::external_body]
pub(crate) fn double_type<'ctx>(ctx: &'ctx Context) -> FloatType<'ctx> {
    ctx.f64_type()
}

/// `Context::void_type`.
#[verifier::external_body]
pub(crate) fn void_type<'ctx>(ctx: &'ctx Context) -> VoidType<'ctx> {
    ctx.void_type()
}

/// `Context::struct_type` of the given fields, not packed.
#[verifier::external_body]
pub(crate) fn struct_type<'ctx>(ctx: &'ctx Context, fields: &Vec<BasicTypeEnum<'ctx>>) -> StructType<'ctx> {
    ctx.struct_type(fields.as_slice(), false)
}

/// `Context::opaque_struct_type`: a named struct type whose body is set later.
#[verifier::external_body]
pub(crate) fn opaque_struct_type<'ctx>(ctx: &'ctx Context, name: &str) -> StructType<'ctx> {
    ctx.opaque_struct_type(name)
}

/// `Context::append_basic_block`: a new block at the end of `f`.
#[verifier::external_body]
pub(crate) fn append_basic_block<'ctx>(ctx: &'ctx Context, f: FunctionValue<'ctx>, name: &str) -> BasicBlock<'ctx> {
    ctx.append_basic_block(f, name)
}

// ─── Types ───────────────────────────────────────────────────────────────────

/// `BasicTypeEnum::from` an integer type.
#[verifier::external_body]
pub(crate) fn int_type_basic<'ctx>(t: IntType<'ctx>) -> BasicTypeEnum<'ctx> {
    t.into()
}

/// `BasicTypeEnum::from` a floating-point type.
#[verifier::external_body]
pub(crate) fn float_type_basic<'ctx>(t: FloatType<'ctx>) -> BasicTypeEnum<'ctx> {
    t.into()
}

/// `BasicTypeEnum::from` a struct type.
#[verifier::external_body]
pub(crate) fn struct_type_basic<'ctx>(t: StructType<'ctx>) -> BasicTypeEnum<'ctx> {
    t.into()
}

/// `BasicTypeEnum::from` a pointer type.
#[verifier::external_body]
pub(crate) fn pointer_type_basic<'ctx>(t: PointerType<'ctx>) -> BasicTypeEnum<'ctx> {
    t.into()
}

/// `BasicType::ptr_type` in the default address space.
#[verifier::external_body]
pub(crate) fn ptr_type_of<'ctx>(t: BasicTypeEnum<'ctx>) -> PointerType<'ctx> {
    t.ptr_type(AddressSpace::default())
}

/// `StructType::set_body` with the given fields, not packed; the returned
/// flag is not relied on.
#[verifier::external_body]
pub(crate) fn set_body<'ctx>(t: StructType<'ctx>, fields: &Vec<BasicTypeEnum<'ctx>>) -> bool {
    t.set_body(fields.as_slice(), false)
}

/// `BasicType::fn_type`: a function type with result `ret`, not variadic.
#[verifier::external_body]
pub(crate) fn basic_fn_type<'ctx>(ret: BasicTypeEnum<'ctx>, params: &Vec<BasicTypeEnum<'ctx>>) -> FunctionType<'ctx> {
    let ps: Vec<BasicMetadataTypeEnum<'ctx>> = params.iter().map(|t| (*t).into()).collect();
    ret.fn_type(&ps, false)
}

/// `VoidType::fn_type`: a function type without result, not variadic.
#[verifier::external_body]
pub(crate) fn void_fn_type<'ctx>(t: VoidType<'ctx>, params: &Vec<BasicTypeEnum<'ctx>>) -> FunctionType<'ctx> {
    let ps: Vec<BasicMetadataTypeEnum<'ctx>> = params.iter().map(|t| (*t).into()).collect();
    t.fn_type(&ps, false)
}

/// `BasicTypeEnum::size_of`: the size of a type as a constant, where LLVM
/// knows it.
#[verifier::external_body]
pub(crate) fn size_of<'ctx>(t: BasicTypeEnum<'ctx>) -> Option<IntValue<'ctx>> {
    t.size_of()
}

/// `IntType::const_int`.
#[verifier::external_body]
pub(crate) fn const_int<'ctx>(t: IntType<'ctx>, value: u64, sign_extend: bool) -> IntValue<'ctx> {
    t.const_int(value, sign_extend)
}

/// `FloatType::const_float` of the number `str::parse` reads from a
/// literal's text; nothing when the text does not parse.
#[verifier::external_body]
pub(crate) fn const_float_parsed<'ctx>(t: FloatType<'ctx>, text: &str) -> Option<FloatValue<'ctx>> {
    match text.parse() {
        Ok(x) => Some(t.const_float(x)),
        Err(_) => None,
    }
}

/// `FloatType::const_zero`.
#[verifier::external_body]
pub(crate) fn const_float_zero<'ctx>(t: FloatType<'ctx>) -> FloatValue<'ctx> {
    t.const_zero()
}

/// `StructType::get_undef`.
#[verifier::external_body]
pub(crate) fn struct_undef<'ctx>(t: StructType<'ctx>) -> StructValue<'ctx> {
    t.get_undef()
}

// ─── Module and functions ────────────────────────────────────────────────────

/// `Module::add_function` with the default linkage.
#[verifier::external_body]
pub(crate) fn add_function<'ctx>(m: &Module<'ctx>, name: &str, ty: FunctionType<'ctx>) -> FunctionValue<'ctx> {
    m.add_function(name, ty, None)
}

/// `Module::get_function`: the function of that name, if the module has one.
#[verifier::external_body]
pub(crate) fn get_function<'ctx>(m: &Module<'ctx>, name: &str) -> Option<FunctionValue<'ctx>> {
    m.get_function(name)
}

/// `FunctionValue::get_nth_param`.
#[verifier::external_body]
pub(crate) fn nth_param<'ctx>(f: FunctionValue<'ctx>, n: u32) -> Option<BasicValueEnum<'ctx>> {
    f.get_nth_param(n)
}

/// `FunctionValue::get_first_basic_block`.
#[verifier::external_body]
pub(crate) fn first_basic_block<'ctx>(f: FunctionValue<'ctx>) -> Option<BasicBlock<'ctx>> {
    f.get_first_basic_block()
}

/// `BasicBlock::get_first_instruction`.
#[verifier::external_body]
pub(crate) fn first_instruction<'ctx>(bb: BasicBlock<'ctx>) -> Option<InstructionValue<'ctx>> {
    bb.get_first_instruction()
}

/// `BasicBlock::get_terminator`: the block's terminating instruction, if it has one.
#[verifier::external_body]
pub(crate) fn terminator<'ctx>(bb: BasicBlock<'ctx>) -> Option<InstructionValue<'ctx>> {
    bb.get_terminator()
}

// ─── Builder position ────────────────────────────────────────────────────────

/// `Builder::position_at_end`.
#[verifier::external_body]
pub(crate) fn position_at_end<'ctx>(b: &Builder<'ctx>, bb: BasicBlock<'ctx>) {
    b.position_at_end(bb)
}

/// `Builder::position_before`.
#[verifier::external_body]
pub(crate) fn position_before<'ctx>(b: &Builder<'ctx>, inst: &InstructionValue<'ctx>) {
    b.position_before(inst)
}

/// `Builder::get_insert_block`.
#[verifier::external_body]
pub(crate) fn insert_block<'ctx>(b: &Builder<'ctx>) -> Option<BasicBlock<'ctx>> {
    b.get_insert_block()
}

// ─── Integer arithmetic ──────────────────────────────────────────────────────

/// `Builder::build_int_add`: the value built is the sum of `l` and `r`, which is what the term
/// `IntArith(Add, l, r)` stands for.
#[verifier::external_body]
pub(crate) fn build_int_add<'ctx>(b: &Builder<'ctx>, l: Traced<IntValue<'ctx>>, r: Traced<IntValue<'ctx>>, name: &str) -> (res: Result<Traced<IntValue<'ctx>>, BuilderError>)
    ensures
        res is Ok ==> res->Ok_0.t@ == Term::IntArith(BinOp::Add, Box::new(l.t@), Box::new(r.t@)),
{
    match b.build_int_add(l.v, r.v, name) {
        Ok(v) => Ok(Traced { v, t: Ghost(Term::IntArith(BinOp::Add, Box::new(l.t@), Box::new(r.t@))) }),
        Err(e) => Err(e),
    }
}

/// `Builder::build_int_sub`: the value built is `l` minus `r`, which is what the term
/// `IntArith(Sub, l, r)` stands for.
#[verifier::external_body]
pub(crate) fn build_int_sub<'ctx>(b: &Builder<'ctx>, l: Traced<IntValue<'ctx>>, r: Traced<IntValue<'ctx>>, name: &str) -> (res: Result<Traced<IntValue<'ctx>>, BuilderError>)
    ensures
        res is Ok ==> res->Ok_0.t@ == Term::IntArith(BinOp::Sub, Box::new(l.t@), Box::new(r.t@)),
{
    match b.build_int_sub(l.v, r.v, name) {
        Ok(v) => Ok(Traced { v, t: Ghost(Term::IntArith(BinOp::Sub, Box::new(l.t@), Box::new(r.t@))) }),
        Err(e) => Err(e),
    }
}

/// `Builder::build_int_mul`: the value built is the product of `l` and `r`, which is what the term
/// `IntArith(Mul, l, r)` stands for.
#[verifier::external_body]
pub(crate) fn build_int_mul<'ctx>(b: &Builder<'ctx>, l: Traced<IntValue<'ctx>>, r: Traced<IntValue<'ctx>>, name: &str) -> (res: Result<Traced<IntValue<'ctx>>, BuilderError>)
    ensures
        res is Ok ==> res->Ok_0.t@ == Term::IntArith(BinOp::Mul, Box::new(l.t@), Box::new(r.t@)),
{
    match b.build_int_mul(l.v, r.v, name) {
        Ok(v) => Ok(Traced { v, t: Ghost(Term::IntArith(BinOp::Mul, Box::new(l.t@), Box::new(r.t@))) }),
        Err(e) => Err(e),
    }
}

/// `Builder::build_int_signed_div`: the value built is the signed quotient of `l` by `r`, which is what the term
/// `IntArith(Div, l, r)` stands for.
#[verifier::external_body]
pub(crate) fn build_int_signed_div<'ctx>(b: &Builder<'ctx>, l: Traced<IntValue<'ctx>>, r: Traced<IntValue<'ctx>>, name: &str) -> (res: Result<Traced<IntValue<'ctx>>, BuilderError>)
    ensures
        res is Ok ==> res->Ok_0.t@ == Term::IntArith(BinOp::Div, Box::new(l.t@), Box::new(r.t@)),
{
    match b.build_int_signed_div(l.v, r.v, name) {
        Ok(v) => Ok(Traced { v, t: Ghost(Term::IntArith(BinOp::Div, Box::new(l.t@), Box::new(r.t@))) }),
        Err(e) => Err(e),
    }
}

/// `Builder::build_int_signed_rem`: the value built is the signed remainder of `l` by `r`, which is what the term
/// `IntArith(Mod, l, r)` stands for.
#[verifier::external_body]
pub(crate) fn build_int_signed_rem<'ctx>(b: &Builder<'ctx>, l: Traced<IntValue<'ctx>>, r: Traced<IntValue<'ctx>>, name: &str) -> (res: Result<Traced<IntValue<'ctx>>, BuilderError>)
    ensures
        res is Ok ==> res->Ok_0.t@ == Term::IntArith(BinOp::Mod, Box::new(l.t@), Box::new(r.t@)),
{
    match b.build_int_signed_rem(l.v, r.v, name) {
        Ok(v) => Ok(Traced { v, t: Ghost(Term::IntArith(BinOp::Mod, Box::new(l.t@), Box::new(r.t@))) }),
        Err(e) => Err(e),
    }
}

/// `Builder::build_int_neg`: the value built is the negation of `v`, which is what the term
/// `IntNeg(v)` stands for.
#[verifier::external_body]
pub(crate) fn build_int_neg<'ctx>(b: &Builder<'ctx>, v: Traced<IntValue<'ctx>>, name: &str) -> (res: Result<Traced<IntValue<'ctx>>, BuilderError>)
    ensures
        res is Ok ==> res->Ok_0.t@ == Term::IntNeg(Box::new(v.t@)),
{
    match b.build_int_neg(v.v, name) {
        Ok(x) => Ok(Traced { v: x, t: Ghost(Term::IntNeg(Box::new(v.t@))) }),
        Err(e) => Err(e),
    }
}

/// `Builder::build_not`: the value built is the bitwise complement of `v` (logical not on one bit), which is what the term
/// `Not(v)` stands for.
#[verifier::external_body]
pub(crate) fn build_not<'ctx>(b: &Builder<'ctx>, v: Traced<IntValue<'ctx>>, name: &str) -> (res: Result<Traced<IntValue<'ctx>>, BuilderError>)
    ensures
        res is Ok ==> res->Ok_0.t@ == Term::Not(Box::new(v.t@)),
{
    match b.build_not(v.v, name) {
        Ok(x) => Ok(Traced { v: x, t: Ghost(Term::Not(Box::new(v.t@))) }),
        Err(e) => Err(e),
    }
}

/// `Builder::build_and`: the value built is the bitwise and of `l` and `r`, which is what the term
/// `And(l, r)` stands for.
#[verifier::external_body]
pub(crate) fn build_and<'ctx>(b: &Builder<'ctx>, l: Traced<IntValue<'ctx>>, r: Traced<IntValue<'ctx>>, name: &str) -> (res: Result<Traced<IntValue<'ctx>>, BuilderError>)
    ensures
        res is Ok ==> res->Ok_0.t@ == Term::And(Box::new(l.t@), Box::new(r.t@)),
{
    match b.build_and(l.v, r.v, name) {
        Ok(v) => Ok(Traced { v, t: Ghost(Term::And(Box::new(l.t@), Box::new(r.t@))) }),
        Err(e) => Err(e),
    }
}

/// `Builder::build_or`: the value built is the bitwise or of `l` and `r`, which is what the term
/// `Or(l, r)` stands for.
#[verifier::external_body]
pub(crate) fn build_or<'ctx>(b: &Builder<'ctx>, l: Traced<IntValue<'ctx>>, r: Traced<IntValue<'ctx>>, name: &str) -> (res: Result<Traced<IntValue<'ctx>>, BuilderError>)
    ensures
        res is Ok ==> res->Ok_0.t@ == Term::Or(Box::new(l.t@), Box::new(r.t@)),
{
    match b.build_or(l.v, r.v, name) {
        Ok(v) => Ok(Traced { v, t: Ghost(Term::Or(Box::new(l.t@), Box::new(r.t@))) }),
        Err(e) => Err(e),
    }
}

/// `Builder::build_int_compare` with the predicate `IntRel` names: the value
/// built is the comparison `op` of `l` with `r`, which is what the term
/// `IntCompare(op, l, r)` stands for.
#[verifier::external_body]
pub(crate) fn build_int_compare<'ctx>(b: &Builder<'ctx>, op: IntRel, l: Traced<IntValue<'ctx>>, r: Traced<IntValue<'ctx>>, name: &str) -> (res: Result<Traced<IntValue<'ctx>>, BuilderError>)
    ensures
        res is Ok ==> res->Ok_0.t@ == Term::IntCompare(op, Box::new(l.t@), Box::new(r.t@)),
{
    let pred = match op {
        IntRel::Eq => inkwell::IntPredicate::EQ,
        IntRel::Ne => inkwell::IntPredicate::NE,
        IntRel::Slt => inkwell::IntPredicate::SLT,
        IntRel::Sgt => inkwell::IntPredicate::SGT,
        IntRel::Sle => inkwell::IntPredicate::SLE,
        IntRel::Sge => inkwell::IntPredicate::SGE,
    };
    match b.build_int_compare(pred, l.v, r.v, name) {
        Ok(v) => Ok(Traced { v, t: Ghost(Term::IntCompare(op, Box::new(l.t@), Box::new(r.t@))) }),
        Err(e) => Err(e),
    }
}

// ─── Floating-point arithmetic ───────────────────────────────────────────────

/// `Builder::build_float_add`: the value built is the sum of `l` and `r`, which is what the term
/// `FloatArith(Add, l, r)` stands for.
#[verifier::external_body]
pub(crate) fn build_float_add<'ctx>(b: &Builder<'ctx>, l: Traced<FloatValue<'ctx>>, r: Traced<FloatValue<'ctx>>, name: &str) -> (res: Result<Traced<FloatValue<'ctx>>, BuilderError>)
    ensures
        res is Ok ==> res->Ok_0.t@ == Term::FloatArith(BinOp::Add, Box::new(l.t@), Box::new(r.t@)),
{
    match b.build_float_add(l.v, r.v, name) {
        Ok(v) => Ok(Traced { v, t: Ghost(Term::FloatArith(BinOp::Add, Box::new(l.t@), Box::new(r.t@))) }),
        Err(e) => Err(e),
    }
}

/// `Builder::build_float_sub`: the value built is `l` minus `r`, which is what the term
/// `FloatArith(Sub, l, r)` stands for.
#[verifier::external_body]
pub(crate) fn build_float_sub<'ctx>(b: &Builder<'ctx>, l: Traced<FloatValue<'ctx>>, r: Traced<FloatValue<'ctx>>, name: &str) -> (res: Result<Traced<FloatValue<'ctx>>, BuilderError>)
    ensures
        res is Ok ==> res->Ok_0.t@ == Term::FloatArith(BinOp::Sub, Box::new(l.t@), Box::new(r.t@)),
{
    match b.build_float_sub(l.v, r.v, name) {
        Ok(v) => Ok(Traced { v, t: Ghost(Term::FloatArith(BinOp::Sub, Box::new(l.t@), Box::new(r.t@))) }),
        Err(e) => Err(e),
    }
}

/// `Builder::build_float_mul`: the value built is the product of `l` and `r`, which is what the term
/// `FloatArith(Mul, l, r)` stands for.
#[verifier::external_body]
pub(crate) fn build_float_mul<'ctx>(b: &Builder<'ctx>, l: Traced<FloatValue<'ctx>>, r: Traced<FloatValue<'ctx>>, name: &str) -> (res: Result<Traced<FloatValue<'ctx>>, BuilderError>)
    ensures
        res is Ok ==> res->Ok_0.t@ == Term::FloatArith(BinOp::Mul, Box::new(l.t@), Box::new(r.t@)),
{
    match b.build_float_mul(l.v, r.v, name) {
        Ok(v) => Ok(Traced { v, t: Ghost(Term::FloatArith(BinOp::Mul, Box::new(l.t@), Box::new(r.t@))) }),
        Err(e) => Err(e),
    }
}

/// `Builder::build_float_div`: the value built is the quotient of `l` by `r`, which is what the term
/// `FloatArith(Div, l, r)` stands for.
#[verifier::external_body]
pub(crate) fn build_float_div<'ctx>(b: &Builder<'ctx>, l: Traced<FloatValue<'ctx>>, r: Traced<FloatValue<'ctx>>, name: &str) -> (res: Result<Traced<FloatValue<'ctx>>, BuilderError>)
    ensures
        res is Ok ==> res->Ok_0.t@ == Term::FloatArith(BinOp::Div, Box::new(l.t@), Box::new(r.t@)),
{
    match b.build_float_div(l.v, r.v, name) {
        Ok(v) => Ok(Traced { v, t: Ghost(Term::FloatArith(BinOp::Div, Box::new(l.t@), Box::new(r.t@))) }),
        Err(e) => Err(e),
    }
}

/// `Builder::build_float_rem`: the value built is the remainder of `l` by `r`, which is what the term
/// `FloatArith(Mod, l, r)` stands for.
#[verifier::external_body]
pub(crate) fn build_float_rem<'ctx>(b: &Builder<'ctx>, l: Traced<FloatValue<'ctx>>, r: Traced<FloatValue<'ctx>>, name: &str) -> (res: Result<Traced<FloatValue<'ctx>>, BuilderError>)
    ensures
        res is Ok ==> res->Ok_0.t@ == Term::FloatArith(BinOp::Mod, Box::new(l.t@), Box::new(r.t@)),
{
    match b.build_float_rem(l.v, r.v, name) {
        Ok(v) => Ok(Traced { v, t: Ghost(Term::FloatArith(BinOp::Mod, Box::new(l.t@), Box::new(r.t@))) }),
        Err(e) => Err(e),
    }
}

/// `Builder::build_float_neg`: the value built is the negation of `v`, which is what the term
/// `FloatNeg(v)` stands for.
#[verifier::external_body]
pub(crate) fn build_float_neg<'ctx>(b: &Builder<'ctx>, v: Traced<FloatValue<'ctx>>, name: &str) -> (res: Result<Traced<FloatValue<'ctx>>, BuilderError>)
    ensures
        res is Ok ==> res->Ok_0.t@ == Term::FloatNeg(Box::new(v.t@)),
{
    match b.build_float_neg(v.v, name) {
        Ok(x) => Ok(Traced { v: x, t: Ghost(Term::FloatNeg(Box::new(v.t@))) }),
        Err(e) => Err(e),
    }
}

/// `Builder::build_float_compare` with the predicate `FloatRel` names: the
/// value built is the ordered comparison `op` of `l` with `r`, which is what
/// the term `FloatCompare(op, l, r)` stands for.
#[verifier::external_body]
pub(crate) fn build_float_compare<'ctx>(b: &Builder<'ctx>, op: FloatRel, l: Traced<FloatValue<'ctx>>, r: Traced<FloatValue<'ctx>>, name: &str) -> (res: Result<Traced<IntValue<'ctx>>, BuilderError>)
    ensures
        res is Ok ==> res->Ok_0.t@ == Term::FloatCompare(op, Box::new(l.t@), Box::new(r.t@)),
{
    let pred = match op {
        FloatRel::Oeq => inkwell::FloatPredicate::OEQ,
        FloatRel::One => inkwell::FloatPredicate::ONE,
        FloatRel::Olt => inkwell::FloatPredicate::OLT,
        FloatRel::Ogt => inkwell::FloatPredicate::OGT,
        FloatRel::Ole => inkwell::FloatPredicate::OLE,
        FloatRel::Oge => inkwell::FloatPredicate::OGE,
    };
    match b.build_float_compare(pred, l.v, r.v, name) {
        Ok(v) => Ok(Traced { v, t: Ghost(Term::FloatCompare(op, Box::new(l.t@), Box::new(r.t@))) }),
        Err(e) => Err(e),
    }
}

// ─── Conversions ─────────────────────────────────────────────────────────────

/// `Builder::build_signed_int_to_float`.
#[verifier::external_body]
pub(crate) fn build_signed_int_to_float<'ctx>(b: &Builder<'ctx>, v: IntValue<'ctx>, t: FloatType<'ctx>, name: &str) -> Result<FloatValue<'ctx>, BuilderError> {
    b.build_signed_int_to_float(v, t, name)
}

/// `Builder::build_float_to_signed_int`.
#[verifier::external_body]
pub(crate) fn build_float_to_signed_int<'ctx>(b: &Builder<'ctx>, v: FloatValue<'ctx>, t: IntType<'ctx>, name: &str) -> Result<IntValue<'ctx>, BuilderError> {
    b.build_float_to_signed_int(v, t, name)
}

/// `Builder::build_int_cast`.
#[verifier::external_body]
pub(crate) fn build_int_cast<'ctx>(b: &Builder<'ctx>, v: IntValue<'ctx>, t: IntType<'ctx>, name: &str) -> Result<IntValue<'ctx>, BuilderError> {
    b.build_int_cast(v, t, name)
}

/// `Builder::build_int_s_extend`.
#[verifier::external_body]
pub(crate) fn build_int_s_extend<'ctx>(b: &Builder<'ctx>, v: IntValue<'ctx>, t: IntType<'ctx>, name: &str) -> Result<IntValue<'ctx>, BuilderError> {
    b.build_int_s_extend(v, t, name)
}

/// `Builder::build_ptr_to_int`.
#[verifier::external_body]
pub(crate) fn build_ptr_to_int<'ctx>(b: &Builder<'ctx>, p: PointerValue<'ctx>, t: IntType<'ctx>, name: &str) -> Result<IntValue<'ctx>, BuilderError> {
    b.build_ptr_to_int(p, t, name)
}

/// `Builder::build_int_to_ptr`.
#[verifier::external_body]
pub(crate) fn build_int_to_ptr<'ctx>(b: &Builder<'ctx>, v: IntValue<'ctx>, t: PointerType<'ctx>, name: &str) -> Result<PointerValue<'ctx>, BuilderError> {
    b.build_int_to_ptr(v, t, name)
}

/// `Builder::build_pointer_cast`.
#[verifier::external_body]
pub(crate) fn build_pointer_cast<'ctx>(b: &Builder<'ctx>, p: PointerValue<'ctx>, t: PointerType<'ctx>, name: &str) -> Result<PointerValue<'ctx>, BuilderError> {
    b.build_pointer_cast(p, t, name)
}

// ─── Memory ──────────────────────────────────────────────────────────────────

/// `Builder::build_store`; the store instruction itself is not handed back.
#[verifier::external_body]
pub(crate) fn build_store<'ctx>(b: &Builder<'ctx>, p: PointerValue<'ctx>, v: BasicValueEnum<'ctx>) -> Result<(), BuilderError> {
    b.build_store(p, v).map(|_| ())
}

/// `Builder::build_load` (typed pointers: the pointee type is the pointer's).
#[verifier::external_body]
pub(crate) fn build_load<'ctx>(b: &Builder<'ctx>, p: PointerValue<'ctx>, name: &str) -> Result<BasicValueEnum<'ctx>, BuilderError> {
    b.build_load(p, name)
}

/// `Builder::build_alloca`.
#[verifier::external_body]
pub(crate) fn build_alloca<'ctx>(b: &Builder<'ctx>, t: BasicTypeEnum<'ctx>, name: &str) -> Result<PointerValue<'ctx>, BuilderError> {
    b.build_alloca(t, name)
}

/// `Builder::build_struct_gep`.
#[verifier::external_body]
pub(crate) fn build_struct_gep<'ctx>(b: &Builder<'ctx>, p: PointerValue<'ctx>, index: u32, name: &str) -> Result<PointerValue<'ctx>, BuilderError> {
    b.build_struct_gep(p, index, name)
}

/// `Builder::build_global_string_ptr`, as the pointer to the string's bytes.
#[verifier::external_body]
pub(crate) fn build_global_string_ptr<'ctx>(b: &Builder<'ctx>, text: &str, name: &str) -> Result<PointerValue<'ctx>, BuilderError> {
    b.build_global_string_ptr(text, name).map(|g| g.as_pointer_value())
}

// ─── Aggregates ──────────────────────────────────────────────────────────────

/// `Builder::build_extract_value` from a struct value.
#[verifier::external_body]
pub(crate) fn build_extract_value<'ctx>(b: &Builder<'ctx>, agg: StructValue<'ctx>, index: u32, name: &str) -> Result<BasicValueEnum<'ctx>, BuilderError> {
    b.build_extract_value(agg, index, name)
}

/// `Builder::build_insert_value` into a struct value; the aggregate it gives
/// back is handed on as a struct value where it is one.
#[verifier::external_body]
pub(crate) fn build_insert_value<'ctx>(b: &Builder<'ctx>, agg: StructValue<'ctx>, v: BasicValueEnum<'ctx>, index: u32, name: &str) -> Result<Option<StructValue<'ctx>>, BuilderError> {
    b.build_insert_value(agg, v, index, name).map(|a| StructValue::try_from(a).ok())
}

// ─── Control flow ────────────────────────────────────────────────────────────

/// `Builder::build_call`, with the call's value where the callee returns one.
#[verifier::external_body]
pub(crate) fn build_call<'ctx>(b: &Builder<'ctx>, f: FunctionValue<'ctx>, args: &Vec<BasicValueEnum<'ctx>>, name: &str) -> Result<Option<BasicValueEnum<'ctx>>, BuilderError> {
    let a: Vec<BasicMetadataValueEnum<'ctx>> = args.iter().map(|v| (*v).into()).collect();
    b.build_call(f, &a, name).map(|c| c.try_as_basic_value().left())
}

/// `Builder::build_return`, with a value or without.
#[verifier::external_body]
pub(crate) fn build_return<'ctx>(b: &Builder<'ctx>, v: Option<BasicValueEnum<'ctx>>) -> Result<(), BuilderError> {
    match v {
        Some(x) => b.build_return(Some(&x)).map(|_| ()),
        None => b.build_return(None).map(|_| ()),
    }
}

/// `Builder::build_unconditional_branch`.
#[verifier::external_body]
pub(crate) fn build_unconditional_branch<'ctx>(b: &Builder<'ctx>, bb: BasicBlock<'ctx>) -> Result<(), BuilderError> {
    b.build_unconditional_branch(bb).map(|_| ())
}

/// `Builder::build_conditional_branch`.
#[verifier::external_body]
pub(crate) fn build_conditional_branch<'ctx>(b: &Builder<'ctx>, c: IntValue<'ctx>, then_bb: BasicBlock<'ctx>, else_bb: BasicBlock<'ctx>) -> Result<(), BuilderError> {
    b.build_conditional_branch(c, then_bb, else_bb).map(|_| ())
}

/// `Builder::build_select` between two values: the value built is `t` where
/// `c` is set and `e` otherwise, which is what the term `Select(c, t, e)`
/// stands for.
#[verifier::external_body]
pub(crate) fn build_select<'ctx>(b: &Builder<'ctx>, c: Traced<IntValue<'ctx>>, t: Traced<BasicValueEnum<'ctx>>, e: Traced<BasicValueEnum<'ctx>>, name: &str) -> (res: Result<Traced<BasicValueEnum<'ctx>>, BuilderError>)
    ensures
        res is Ok ==> res->Ok_0.t@ == Term::Select(Box::new(c.t@), Box::new(t.t@), Box::new(e.t@)),
{
    match b.build_select(c.v, t.v, e.v, name) {
        Ok(v) => Ok(Traced { v, t: Ghost(Term::Select(Box::new(c.t@), Box::new(t.t@), Box::new(e.t@))) }),
        Err(err) => Err(err),
    }
}

/// `Builder::build_phi`.
#[verifier::external_body]
pub(crate) fn build_phi<'ctx>(b: &Builder<'ctx>, t: BasicTypeEnum<'ctx>, name: &str) -> Result<PhiValue<'ctx>, BuilderError> {
    b.build_phi(t, name)
}

/// `PhiValue::add_incoming` of one value from one block.
#[verifier::external_body]
pub(crate) fn add_incoming<'ctx>(phi: PhiValue<'ctx>, v: BasicValueEnum<'ctx>, bb: BasicBlock<'ctx>) {
    phi.add_incoming(&[(&v, bb)])
}

/// `PhiValue::as_basic_value`.
#[verifier::external_body]
pub(crate) fn phi_value<'ctx>(phi: PhiValue<'ctx>) -> BasicValueEnum<'ctx> {
    phi.as_basic_value()
}

// ─── Value conversions ───────────────────────────────────────────────────────

/// `BasicValueEnum::from` an integer value.
#[verifier::external_body]
pub(crate) fn int_basic<'ctx>(v: IntValue<'ctx>) -> BasicValueEnum<'ctx> {
    v.into()
}

/// `BasicValueEnum::from` a floating-point value.
#[verifier::external_body]
pub(crate) fn float_basic<'ctx>(v: FloatValue<'ctx>) -> BasicValueEnum<'ctx> {
    v.into()
}

/// `BasicValueEnum::from` a pointer value.
#[verifier::external_body]
pub(crate) fn pointer_basic<'ctx>(v: PointerValue<'ctx>) -> BasicValueEnum<'ctx> {
    v.into()
}

/// `BasicValueEnum::from` a struct value.
#[verifier::external_body]
pub(crate) fn struct_basic<'ctx>(v: StructValue<'ctx>) -> BasicValueEnum<'ctx> {
    v.into()
}

/// `IntValue::try_from` a basic value: the integer value it holds, if any.
#[verifier::external_body]
pub(crate) fn as_int<'ctx>(v: BasicValueEnum<'ctx>) -> Option<IntValue<'ctx>> {
    IntValue::try_from(v).ok()
}

/// `FloatValue::try_from` a basic value: the floating-point value it holds, if any.
#[verifier::external_body]
pub(crate) fn as_float<'ctx>(v: BasicValueEnum<'ctx>) -> Option<FloatValue<'ctx>> {
    FloatValue::try_from(v).ok()
}

/// `PointerValue::try_from` a basic value: the pointer it holds, if any.
#[verifier::external_body]
pub(crate) fn as_pointer<'ctx>(v: BasicValueEnum<'ctx>) -> Option<PointerValue<'ctx>> {
    PointerValue::try_from(v).ok()
}

/// `StructValue::try_from` a basic value: the struct value it holds, if any.
#[verifier::external_body]
pub(crate) fn as_struct<'ctx>(v: BasicValueEnum<'ctx>) -> Option<StructValue<'ctx>> {
    StructValue::try_from(v).ok()
}

/// The `Display` text of a builder error (`ToString::to_string`).
#[verifier::external_body]
pub(crate) fn builder_error_text(e: BuilderError) -> String {
    e.to_string()
}

} // verus!
