//! The middle intermediate representation.

pub mod verify;

use crate::ast::{ArgConvention, Dtype, InfixOp, PrefixOp, copy_opt_arg_conventions, same_opt_arg_conventions};
use crate::checked::{
    CheckedCallArgumentSource, CheckedIteratorCall, CheckedIteratorCallModel, CheckedResultAdapter,
    IterationMode, checked_iterator_call_view, copy_opt_checked_iterator_call,
};
use crate::data::{
    copy_bools, copy_opt_string, copy_strings, copy_u32s, copy_usizes, same_bools, same_opt_string,
    same_strings, same_u32s, strings_view,
};
use crate::literal::{IntLiteral, IntLiteralModel, int_literal_view};
use crate::origin::{
    CaptureAccess, OriginSeg, OriginSegModel, RefTy, RefTyModel, copy_opt_ref_ty, copy_origin_segs,
    origin_segs_view, ref_ty_view, same_opt_ref_ty, same_origin_segs,
};
use crate::table::TyTable;
use crate::types::{
    ParamDecl, ParamDeclModel, SliceKind, Ty, TyArg, TyArgModel, TyModel, copy_opt_ty, copy_opt_tys,
    copy_param_decls, copy_string_tys, copy_ty_args, copy_tys, param_decls_view, same_opt_ty,
    same_param_decls, same_string_tys, same_tys, string_tys_view, ty_args_view, ty_view, tys_view,
};
use vstd::prelude::*;

verus! {

/// A virtual register.
#[derive(Debug, Clone, Copy, PartialEq, Eq, PartialOrd, Ord, Hash, Structural)]
pub struct Reg(pub u32);

/// A compiler-owned subscript that needs no method call.
#[derive(Debug, Clone, Copy, PartialEq, Eq, Hash, Structural)]
pub enum MirIntrinsicSubscript {
    TupleStorage,
    VariadicStorage,
    Simd,
    Pointer,
    ComptimeList,
}

/// One step of a place projection.
#[derive(Debug, PartialEq, Eq)]
pub enum Proj {
    Index(Reg),
    ConstIndex(usize),
    Field(String),
    Variant(usize),
    UninitPayload,
}

/// Mathematical model of [`Proj`].
#[verifier::ext_equal]
pub enum ProjModel {
    Index(Reg),
    ConstIndex(usize),
    Field(Seq<char>),
    Variant(usize),
    UninitPayload,
}

/// A storage location: a variable slot and a projection path, with the checked
/// types along it.
#[derive(Debug, PartialEq, Eq)]
pub struct MirPlace {
    pub root: u32,
    /// The reference slot the place was reached through.
    pub through: Option<u32>,
    pub root_ty: Option<Ty>,
    pub proj: Vec<Proj>,
    pub projection_tys: Vec<Ty>,
    pub ty: Option<Ty>,
}

/// Mathematical model of [`MirPlace`].
#[verifier::ext_equal]
pub struct MirPlaceModel {
    pub root: u32,
    pub through: Option<u32>,
    pub root_ty: Option<TyModel>,
    pub proj: Seq<ProjModel>,
    pub projection_tys: Seq<TyModel>,
    pub ty: Option<TyModel>,
}

/// An interior domain: a root slot and the path of its generation.
#[derive(Debug, PartialEq, Eq)]
pub struct MirInterior {
    pub root: u32,
    pub path: Vec<OriginSeg>,
}

/// Mathematical model of [`MirInterior`].
#[verifier::ext_equal]
pub struct MirInteriorModel {
    pub root: u32,
    pub path: Seq<OriginSegModel>,
}

/// One loan taken by a reference.
#[derive(Debug, PartialEq, Eq)]
pub struct MirLoan {
    pub place: MirPlace,
    pub mutable: bool,
    pub interior: Option<MirInterior>,
}

/// Mathematical model of [`MirLoan`].
#[verifier::ext_equal]
pub struct MirLoanModel {
    pub place: MirPlaceModel,
    pub mutable: bool,
    pub interior: Option<MirInteriorModel>,
}

/// One captured place of a closure.
#[derive(Debug, PartialEq, Eq)]
pub struct MirCapture {
    pub place: MirPlace,
    pub owned: bool,
}

/// Mathematical model of [`MirCapture`].
#[verifier::ext_equal]
pub struct MirCaptureModel {
    pub place: MirPlaceModel,
    pub owned: bool,
}

/// One captured slot that a call reads or writes.
#[derive(Debug, PartialEq, Eq)]
pub struct MirCaptureAccess {
    pub root: u32,
    pub access: CaptureAccess,
}

/// Mathematical model of [`MirCaptureAccess`].
#[verifier::ext_equal]
pub struct MirCaptureAccessModel {
    pub root: u32,
    pub access: CaptureAccess,
}

/// One compile-time argument of a call, in source order. A type argument has no
/// register.
#[derive(Debug, PartialEq, Eq)]
pub struct MirParamArg {
    pub name: Option<String>,
    pub value: Option<Reg>,
}

/// Mathematical model of [`MirParamArg`].
#[verifier::ext_equal]
pub struct MirParamArgModel {
    pub name: Option<Seq<char>>,
    pub value: Option<Reg>,
}

/// One argument of a selected subscript call.
#[derive(Debug, PartialEq, Eq)]
pub struct MirSubscriptArgument {
    pub source: CheckedCallArgumentSource,
    pub parameter_ty: Ty,
    pub convention: Option<ArgConvention>,
    pub requires_place: bool,
}

/// Mathematical model of [`MirSubscriptArgument`].
#[verifier::ext_equal]
pub struct MirSubscriptArgumentModel {
    pub source: CheckedCallArgumentSource,
    pub parameter_ty: TyModel,
    pub convention: Option<ArgConvention>,
    pub requires_place: bool,
}

/// A checker-selected subscript method call.
#[derive(Debug, PartialEq, Eq)]
pub struct MirSubscriptCall {
    pub target: String,
    pub arguments: Vec<MirSubscriptArgument>,
    pub receiver_convention: Option<ArgConvention>,
    pub receiver_requires_place: bool,
    pub result_ty: Ty,
    pub reference_result: Option<RefTy>,
    pub raises: Option<Ty>,
    pub capture_accesses: Vec<MirCaptureAccess>,
    pub param_arg_regs: Vec<MirParamArg>,
    pub param_decls: Vec<ParamDecl>,
}

/// Mathematical model of [`MirSubscriptCall`].
#[verifier::ext_equal]
pub struct MirSubscriptCallModel {
    pub target: Seq<char>,
    pub arguments: Seq<MirSubscriptArgumentModel>,
    pub receiver_convention: Option<ArgConvention>,
    pub receiver_requires_place: bool,
    pub result_ty: TyModel,
    pub reference_result: Option<RefTyModel>,
    pub raises: Option<TyModel>,
    pub capture_accesses: Seq<MirCaptureAccessModel>,
    pub param_arg_regs: Seq<MirParamArgModel>,
    pub param_decls: Seq<ParamDeclModel>,
}

/// One argument of a multi-argument subscript.
#[derive(Debug, PartialEq, Eq)]
pub enum MirSubscriptArg {
    Value(Reg),
    Slice { kind: SliceKind, lower: Option<Reg>, upper: Option<Reg>, step: Option<Reg> },
}

/// Mathematical model of [`MirSubscriptArg`].
#[verifier::ext_equal]
pub enum MirSubscriptArgModel {
    Value(Reg),
    Slice { kind: SliceKind, lower: Option<Reg>, upper: Option<Reg>, step: Option<Reg> },
}

/// A constant operand.
#[derive(Debug, PartialEq, Eq)]
pub enum Const {
    Int(i64),
    UInt(u64),
    IntLiteral(IntLiteral),
    /// The exact decimal spelling of a floating literal.
    FloatLiteral(String),
    Bool(bool),
    Str(String),
    NoneValue,
    /// A function value, by its lowered name.
    Function(String),
}

/// Mathematical model of [`Const`].
#[verifier::ext_equal]
pub enum ConstModel {
    Int(i64),
    UInt(u64),
    IntLiteral(IntLiteralModel),
    FloatLiteral(Seq<char>),
    Bool(bool),
    Str(Seq<char>),
    NoneValue,
    Function(Seq<char>),
}

/// The lowered name of a callee.
#[derive(Debug, PartialEq, Eq)]
pub struct FuncRef(pub String);

/// Mathematical model of [`FuncRef`].
#[verifier::ext_equal]
pub struct FuncRefModel(pub Seq<char>);

/// One MIR instruction.
#[derive(Debug, PartialEq, Eq)]
#[allow(inconsistent_fields)]
pub enum MirInstr {
    EstablishLoans { marker: Reg, reference: u32, loans: Vec<MirLoan>, dest_interior: Option<MirInterior> },
    InvalidateInteriors {
        marker: Reg,
        base: MirInterior,
        except: Option<u32>,
        include_base_generation: bool,
    },
    MakeRef { dest: Reg, place: MirPlace },
    ReadRef { dest: Reg, reference: Reg },
    WriteRef { reference: Reg, value: Reg },
    CopyValue { dest: Reg, value: Reg },
    Const { dest: Reg, k: Const },
    SizeOf { dest: Reg, ty: Ty },
    ConstructTypeParam { dest: Reg, param: String },
    MaterializeLiteral { dest: Reg, value: Reg, target: Ty },
    UseVar { dest: Reg, var: u32 },
    DefVar { var: u32, src: Reg, binding_ty: Option<Ty> },
    DropVar { var: u32 },
    ConsumeVar { var: u32 },
    KeepAlive { var: u32 },
    Drop { reg: Reg },
    MovePlace { dest: Reg, place: MirPlace },
    LoadPlace { dest: Reg, place: MirPlace },
    ConsumePlace { marker: Reg, place: MirPlace },
    Store { place: MirPlace, src: Reg },
    StoreRef { place: MirPlace, reference: Reg },
    UnOp { dest: Reg, op: PrefixOp, a: Reg },
    BinOp { dest: Reg, op: InfixOp, a: Reg, b: Reg, resolved: Option<String> },
    Call {
        dest: Reg,
        func: FuncRef,
        raises: Option<Ty>,
        args: Vec<Reg>,
        kwargs: Vec<(String, Reg)>,
        arg_places: Vec<Option<MirPlace>>,
        kwarg_places: Vec<Option<MirPlace>>,
        capture_accesses: Vec<MirCaptureAccess>,
        param_arg_regs: Vec<MirParamArg>,
    },
    CallIndirect {
        dest: Reg,
        callee: Reg,
        resolved: Option<String>,
        raises: Option<Ty>,
        args: Vec<Reg>,
        kwargs: Vec<(String, Reg)>,
        callee_place: Option<MirPlace>,
        arg_places: Vec<Option<MirPlace>>,
        kwarg_places: Vec<Option<MirPlace>>,
        capture_accesses: Vec<MirCaptureAccess>,
        param_arg_regs: Vec<MirParamArg>,
        param_decls: Vec<ParamDecl>,
        instantiated_contract: Option<Ty>,
        instantiated_args: Vec<TyArg>,
    },
    MethodCall {
        dest: Reg,
        recv: Reg,
        method: String,
        resolved: Option<String>,
        raises: Option<Ty>,
        reference_result: Option<RefTy>,
        result_adapter: Option<CheckedResultAdapter>,
        args: Vec<Reg>,
        kwargs: Vec<(String, Reg)>,
        recv_place: Option<MirPlace>,
        recv_writes: bool,
        arg_places: Vec<Option<MirPlace>>,
        kwarg_places: Vec<Option<MirPlace>>,
        capture_accesses: Vec<MirCaptureAccess>,
        param_arg_regs: Vec<MirParamArg>,
        param_decls: Vec<ParamDecl>,
    },
    PointerStorageTake { dest: Reg, pointer: Reg, index: Reg, element: Ty },
    PointerStorageDestroy { dest: Reg, pointer: Reg, index: Reg, element: Ty },
    UninitStorage { dest: Reg, init: Option<Reg> },
    UninitStorageTake { dest: Reg, storage: Reg, element: Ty },
    UninitStorageDestroy { dest: Reg, storage: Reg, element: Ty },
    GetField { dest: Reg, base: Reg, field: String },
    Index {
        dest: Reg,
        base: Reg,
        index: Reg,
        base_place: Option<MirPlace>,
        index_place: Option<MirPlace>,
        call: Option<MirSubscriptCall>,
        intrinsic: Option<MirIntrinsicSubscript>,
    },
    Slice {
        dest: Reg,
        object: Reg,
        kind: SliceKind,
        lower: Option<Reg>,
        upper: Option<Reg>,
        step: Option<Reg>,
        object_place: Option<MirPlace>,
        arg_places: Vec<Option<MirPlace>>,
        call: Option<MirSubscriptCall>,
        intrinsic: Option<MirIntrinsicSubscript>,
    },
    MultiIndex {
        dest: Reg,
        object: Reg,
        args: Vec<MirSubscriptArg>,
        object_place: Option<MirPlace>,
        arg_places: Vec<Option<MirPlace>>,
        kwargs: Vec<(String, MirSubscriptArg)>,
        kwarg_places: Vec<Option<MirPlace>>,
        call: Option<MirSubscriptCall>,
    },
    MultiSet {
        receiver: Reg,
        receiver_place: Option<MirPlace>,
        args: Vec<MirSubscriptArg>,
        arg_places: Vec<Option<MirPlace>>,
        value: Reg,
        value_place: Option<MirPlace>,
        value_keyword: bool,
        call: MirSubscriptCall,
    },
    MakeTuple { dest: Reg, elems: Vec<Reg>, element_types: Option<Vec<Ty>> },
    MakeVariant { dest: Reg, alternatives: Vec<Ty>, index: usize, value: Reg },
    MakeSimd { dest: Reg, dtype: Dtype, width: usize, elems: Vec<Reg> },
    SimdCast { dest: Reg, dtype: Dtype, width: usize, value: Reg },
    SimdShuffle { dest: Reg, value: Reg, mask: Vec<usize> },
    MakeClosure { dest: Reg, function: String, captures: Vec<MirCapture> },
    VariantIs { dest: Reg, variant: Reg, index: usize },
    VariantGet { dest: Reg, variant: Reg, index: usize },
    VariantSet { dest: Reg, place: MirPlace, index: usize, value: Reg },
    VariantSetInitWith { dest: Reg, place: MirPlace, index: usize, factory: Reg },
    VariantTake { dest: Reg, variant: Reg, index: usize },
    VariantDeinitWith { dest: Reg, variant: Reg, handler: Reg },
    VariantReplace { dest: Reg, place: MirPlace, index: usize, value: Reg },
    GetIter { source: u32, dest: u32, mode: IterationMode, prepare: Vec<String> },
    HasNext { dest: Reg, iter: u32, method: Option<String> },
    Next { dest: Reg, iter: u32, call: Option<CheckedIteratorCall> },
    TryNext { dest: Reg, yielded: Reg, iter: u32, call: CheckedIteratorCall, exhaustion: Ty },
    Raise { src: Reg },
    Try {
        body: Vec<MirBlock>,
        handler: Option<(Option<u32>, Vec<MirBlock>)>,
        orelse: Option<Vec<MirBlock>>,
        finalbody: Option<Vec<MirBlock>>,
    },
    Unsupported(String),
}

/// Mathematical model of [`MirInstr`].
#[verifier::ext_equal]
#[allow(inconsistent_fields)]
pub enum MirInstrModel {
    EstablishLoans {
        marker: Reg,
        reference: u32,
        loans: Seq<MirLoanModel>,
        dest_interior: Option<MirInteriorModel>,
    },
    InvalidateInteriors {
        marker: Reg,
        base: MirInteriorModel,
        except: Option<u32>,
        include_base_generation: bool,
    },
    MakeRef { dest: Reg, place: MirPlaceModel },
    ReadRef { dest: Reg, reference: Reg },
    WriteRef { reference: Reg, value: Reg },
    CopyValue { dest: Reg, value: Reg },
    Const { dest: Reg, k: ConstModel },
    SizeOf { dest: Reg, ty: TyModel },
    ConstructTypeParam { dest: Reg, param: Seq<char> },
    MaterializeLiteral { dest: Reg, value: Reg, target: TyModel },
    UseVar { dest: Reg, var: u32 },
    DefVar { var: u32, src: Reg, binding_ty: Option<TyModel> },
    DropVar { var: u32 },
    ConsumeVar { var: u32 },
    KeepAlive { var: u32 },
    Drop { reg: Reg },
    MovePlace { dest: Reg, place: MirPlaceModel },
    LoadPlace { dest: Reg, place: MirPlaceModel },
    ConsumePlace { marker: Reg, place: MirPlaceModel },
    Store { place: MirPlaceModel, src: Reg },
    StoreRef { place: MirPlaceModel, reference: Reg },
    UnOp { dest: Reg, op: PrefixOp, a: Reg },
    BinOp { dest: Reg, op: InfixOp, a: Reg, b: Reg, resolved: Option<Seq<char>> },
    Call {
        dest: Reg,
        func: FuncRefModel,
        raises: Option<TyModel>,
        args: Seq<Reg>,
        kwargs: Seq<(Seq<char>, Reg)>,
        arg_places: Seq<Option<MirPlaceModel>>,
        kwarg_places: Seq<Option<MirPlaceModel>>,
        capture_accesses: Seq<MirCaptureAccessModel>,
        param_arg_regs: Seq<MirParamArgModel>,
    },
    CallIndirect {
        dest: Reg,
        callee: Reg,
        resolved: Option<Seq<char>>,
        raises: Option<TyModel>,
        args: Seq<Reg>,
        kwargs: Seq<(Seq<char>, Reg)>,
        callee_place: Option<MirPlaceModel>,
        arg_places: Seq<Option<MirPlaceModel>>,
        kwarg_places: Seq<Option<MirPlaceModel>>,
        capture_accesses: Seq<MirCaptureAccessModel>,
        param_arg_regs: Seq<MirParamArgModel>,
        param_decls: Seq<ParamDeclModel>,
        instantiated_contract: Option<TyModel>,
        instantiated_args: Seq<TyArgModel>,
    },
    MethodCall {
        dest: Reg,
        recv: Reg,
        method: Seq<char>,
        resolved: Option<Seq<char>>,
        raises: Option<TyModel>,
        reference_result: Option<RefTyModel>,
        result_adapter: Option<CheckedResultAdapter>,
        args: Seq<Reg>,
        kwargs: Seq<(Seq<char>, Reg)>,
        recv_place: Option<MirPlaceModel>,
        recv_writes: bool,
        arg_places: Seq<Option<MirPlaceModel>>,
        kwarg_places: Seq<Option<MirPlaceModel>>,
        capture_accesses: Seq<MirCaptureAccessModel>,
        param_arg_regs: Seq<MirParamArgModel>,
        param_decls: Seq<ParamDeclModel>,
    },
    PointerStorageTake { dest: Reg, pointer: Reg, index: Reg, element: TyModel },
    PointerStorageDestroy { dest: Reg, pointer: Reg, index: Reg, element: TyModel },
    UninitStorage { dest: Reg, init: Option<Reg> },
    UninitStorageTake { dest: Reg, storage: Reg, element: TyModel },
    UninitStorageDestroy { dest: Reg, storage: Reg, element: TyModel },
    GetField { dest: Reg, base: Reg, field: Seq<char> },
    Index {
        dest: Reg,
        base: Reg,
        index: Reg,
        base_place: Option<MirPlaceModel>,
        index_place: Option<MirPlaceModel>,
        call: Option<MirSubscriptCallModel>,
        intrinsic: Option<MirIntrinsicSubscript>,
    },
    Slice {
        dest: Reg,
        object: Reg,
        kind: SliceKind,
        lower: Option<Reg>,
        upper: Option<Reg>,
        step: Option<Reg>,
        object_place: Option<MirPlaceModel>,
        arg_places: Seq<Option<MirPlaceModel>>,
        call: Option<MirSubscriptCallModel>,
        intrinsic: Option<MirIntrinsicSubscript>,
    },
    MultiIndex {
        dest: Reg,
        object: Reg,
        args: Seq<MirSubscriptArgModel>,
        object_place: Option<MirPlaceModel>,
        arg_places: Seq<Option<MirPlaceModel>>,
        kwargs: Seq<(Seq<char>, MirSubscriptArgModel)>,
        kwarg_places: Seq<Option<MirPlaceModel>>,
        call: Option<MirSubscriptCallModel>,
    },
    MultiSet {
        receiver: Reg,
        receiver_place: Option<MirPlaceModel>,
        args: Seq<MirSubscriptArgModel>,
        arg_places: Seq<Option<MirPlaceModel>>,
        value: Reg,
        value_place: Option<MirPlaceModel>,
        value_keyword: bool,
        call: MirSubscriptCallModel,
    },
    MakeTuple { dest: Reg, elems: Seq<Reg>, element_types: Option<Seq<TyModel>> },
    MakeVariant { dest: Reg, alternatives: Seq<TyModel>, index: usize, value: Reg },
    MakeSimd { dest: Reg, dtype: Dtype, width: usize, elems: Seq<Reg> },
    SimdCast { dest: Reg, dtype: Dtype, width: usize, value: Reg },
    SimdShuffle { dest: Reg, value: Reg, mask: Seq<usize> },
    MakeClosure { dest: Reg, function: Seq<char>, captures: Seq<MirCaptureModel> },
    VariantIs { dest: Reg, variant: Reg, index: usize },
    VariantGet { dest: Reg, variant: Reg, index: usize },
    VariantSet { dest: Reg, place: MirPlaceModel, index: usize, value: Reg },
    VariantSetInitWith { dest: Reg, place: MirPlaceModel, index: usize, factory: Reg },
    VariantTake { dest: Reg, variant: Reg, index: usize },
    VariantDeinitWith { dest: Reg, variant: Reg, handler: Reg },
    VariantReplace { dest: Reg, place: MirPlaceModel, index: usize, value: Reg },
    GetIter { source: u32, dest: u32, mode: IterationMode, prepare: Seq<Seq<char>> },
    HasNext { dest: Reg, iter: u32, method: Option<Seq<char>> },
    Next { dest: Reg, iter: u32, call: Option<CheckedIteratorCallModel> },
    TryNext { dest: Reg, yielded: Reg, iter: u32, call: CheckedIteratorCallModel, exhaustion: TyModel },
    Raise { src: Reg },
    Try {
        body: Seq<MirBlockModel>,
        handler: Option<(Option<u32>, Seq<MirBlockModel>)>,
        orelse: Option<Seq<MirBlockModel>>,
        finalbody: Option<Seq<MirBlockModel>>,
    },
    Unsupported(Seq<char>),
}

/// How a block ends.
#[derive(Debug, PartialEq, Eq)]
pub enum MirTerm {
    Jump(usize),
    Branch { cond: Reg, then_b: usize, else_b: usize },
    Return(Option<Reg>),
    ReturnWithCleanup { value: Option<Reg>, cleanup: Vec<u32> },
    /// Leaves a `try` region at its end.
    FallOff,
    /// Leaves a `try` region for a block of the function.
    EscapeJump { target: usize, cleanup: Vec<u32> },
}

/// Mathematical model of [`MirTerm`].
#[verifier::ext_equal]
pub enum MirTermModel {
    Jump(usize),
    Branch { cond: Reg, then_b: usize, else_b: usize },
    Return(Option<Reg>),
    ReturnWithCleanup { value: Option<Reg>, cleanup: Seq<u32> },
    FallOff,
    EscapeJump { target: usize, cleanup: Seq<u32> },
}

/// A basic block.
#[derive(Debug, PartialEq, Eq)]
pub struct MirBlock {
    pub instrs: Vec<MirInstr>,
    pub term: MirTerm,
}

/// Mathematical model of [`MirBlock`].
#[verifier::ext_equal]
pub struct MirBlockModel {
    pub instrs: Seq<MirInstrModel>,
    pub term: MirTermModel,
}

/// A function body.
#[derive(Debug, PartialEq, Eq)]
pub struct MirFunction {
    pub n_params: usize,
    pub n_vars: usize,
    pub n_regs: u32,
    pub var_names: Vec<String>,
    pub param_types: Vec<Ty>,
    pub ref_params: Vec<bool>,
    pub var_tys: TyTable,
    pub reg_types: TyTable,
    pub ret_ty: Option<Ty>,
    pub error_ty: Option<Ty>,
    pub raises: bool,
    pub returns_reference: bool,
    pub blocks: Vec<MirBlock>,
}

/// Mathematical model of [`MirFunction`].
#[verifier::ext_equal]
pub struct MirFunctionModel {
    pub n_params: usize,
    pub n_vars: usize,
    pub n_regs: u32,
    pub var_names: Seq<Seq<char>>,
    pub param_types: Seq<TyModel>,
    pub ref_params: Seq<bool>,
    pub var_tys: Seq<(u32, TyModel)>,
    pub reg_types: Seq<(u32, TyModel)>,
    pub ret_ty: Option<TyModel>,
    pub error_ty: Option<TyModel>,
    pub raises: bool,
    pub returns_reference: bool,
    pub blocks: Seq<MirBlockModel>,
}

/// The callable facts of one lowered function.
#[derive(Debug, PartialEq, Eq)]
pub struct MirFunctionDeclaration {
    pub lowered_name: String,
    pub has_receiver: bool,
    pub receiver_convention: Option<ArgConvention>,
    pub param_names: Vec<String>,
    pub param_types: Vec<Ty>,
    pub param_conventions: Vec<Option<ArgConvention>>,
    pub ref_params: Vec<bool>,
    pub required: Vec<bool>,
    pub positional_only: Option<usize>,
    pub keyword_only: Option<usize>,
    pub variadic: Option<Ty>,
    pub kw_variadic: Option<Ty>,
    pub ret_ty: Ty,
    pub returns_reference: bool,
    pub raises: bool,
    pub error_ty: Option<Ty>,
    pub param_decls: Vec<ParamDecl>,
}

/// Mathematical model of [`MirFunctionDeclaration`].
#[verifier::ext_equal]
pub struct MirFunctionDeclarationModel {
    pub lowered_name: Seq<char>,
    pub has_receiver: bool,
    pub receiver_convention: Option<ArgConvention>,
    pub param_names: Seq<Seq<char>>,
    pub param_types: Seq<TyModel>,
    pub param_conventions: Seq<Option<ArgConvention>>,
    pub ref_params: Seq<bool>,
    pub required: Seq<bool>,
    pub positional_only: Option<usize>,
    pub keyword_only: Option<usize>,
    pub variadic: Option<TyModel>,
    pub kw_variadic: Option<TyModel>,
    pub ret_ty: TyModel,
    pub returns_reference: bool,
    pub raises: bool,
    pub error_ty: Option<TyModel>,
    pub param_decls: Seq<ParamDeclModel>,
}

/// The layout facts of one nominal struct.
#[derive(Debug, PartialEq, Eq)]
pub struct MirStructDeclaration {
    pub name: String,
    pub fields: Vec<(String, Ty)>,
    pub param_decls: Vec<ParamDecl>,
    pub fieldwise_init: bool,
    pub mut_self_methods: Vec<String>,
    pub explicit_destroy_message: Option<String>,
    pub explicit_destructors: Vec<String>,
}

/// Mathematical model of [`MirStructDeclaration`].
#[verifier::ext_equal]
pub struct MirStructDeclarationModel {
    pub name: Seq<char>,
    pub fields: Seq<(Seq<char>, TyModel)>,
    pub param_decls: Seq<ParamDeclModel>,
    pub fieldwise_init: bool,
    pub mut_self_methods: Seq<Seq<char>>,
    pub explicit_destroy_message: Option<Seq<char>>,
    pub explicit_destructors: Seq<Seq<char>>,
}

/// Every declaration of a program.
#[derive(Debug, PartialEq, Eq)]
pub struct MirDeclarations {
    pub structs: Vec<MirStructDeclaration>,
    pub functions: Vec<MirFunctionDeclaration>,
}

/// Mathematical model of [`MirDeclarations`].
#[verifier::ext_equal]
pub struct MirDeclarationsModel {
    pub structs: Seq<MirStructDeclarationModel>,
    pub functions: Seq<MirFunctionDeclarationModel>,
}

/// A whole program.
#[derive(Debug, PartialEq, Eq)]
pub struct MirProgram {
    pub functions: Vec<(String, MirFunction)>,
    pub declarations: MirDeclarations,
    pub invariant_errors: Vec<String>,
}

/// Mathematical model of [`MirProgram`].
#[verifier::ext_equal]
pub struct MirProgramModel {
    pub functions: Seq<(Seq<char>, MirFunctionModel)>,
    pub declarations: MirDeclarationsModel,
    pub invariant_errors: Seq<Seq<char>>,
}

/// The model of a [`Proj`].
pub open spec fn proj_view(x: Proj) -> ProjModel
    decreases x,
{
    match x {
        Proj::Index(a0) => ProjModel::Index(a0),
        Proj::ConstIndex(a0) => ProjModel::ConstIndex(a0),
        Proj::Field(a0) => ProjModel::Field(a0@),
        Proj::Variant(a0) => ProjModel::Variant(a0),
        Proj::UninitPayload => ProjModel::UninitPayload,
    }
}

impl View for Proj {
    type V = ProjModel;

    open spec fn view(&self) -> ProjModel {
        proj_view(*self)
    }
}

impl Proj {
    /// A structural copy.
    pub fn copy(&self) -> (r: Proj)
        ensures
            r@ == self@,
        decreases self,
    {
        match self {
            Proj::Index(a0) => Proj::Index(*a0),
            Proj::ConstIndex(a0) => Proj::ConstIndex(*a0),
            Proj::Field(a0) => Proj::Field(a0.clone()),
            Proj::Variant(a0) => Proj::Variant(*a0),
            Proj::UninitPayload => Proj::UninitPayload,
        }
    }

    /// Structural equality.
    pub fn same(&self, other: &Proj) -> (r: bool)
        ensures
            r == (self@ == other@),
        decreases self,
    {
        match self {
            Proj::Index(a0) => match other {
                Proj::Index(a02) => *a0 == *a02,
                _ => false,
            },
            Proj::ConstIndex(a0) => match other {
                Proj::ConstIndex(a02) => *a0 == *a02,
                _ => false,
            },
            Proj::Field(a0) => match other {
                Proj::Field(a02) => *a0 == *a02,
                _ => false,
            },
            Proj::Variant(a0) => match other {
                Proj::Variant(a02) => *a0 == *a02,
                _ => false,
            },
            Proj::UninitPayload => match other { Proj::UninitPayload => true, _ => false },
        }
    }
}

impl Clone for Proj {
    fn clone(&self) -> (r: Proj)
        ensures
            r@ == self@,
    {
        self.copy()
    }
}

/// The model of a [`MirPlace`].
pub open spec fn place_view(x: MirPlace) -> MirPlaceModel
    decreases x,
{
    MirPlaceModel {
        root: x.root,
        through: x.through,
        root_ty: match x.root_ty { Some(x) => Some(ty_view(x)), None => None },
        proj: projs_view(x.proj),
        projection_tys: tys_view(x.projection_tys),
        ty: match x.ty { Some(x) => Some(ty_view(x)), None => None },
    }
}

impl View for MirPlace {
    type V = MirPlaceModel;

    open spec fn view(&self) -> MirPlaceModel {
        place_view(*self)
    }
}

impl MirPlace {
    /// A structural copy.
    pub fn copy(&self) -> (r: MirPlace)
        ensures
            r@ == self@,
        decreases self,
    {
        MirPlace {
            root: self.root,
            through: self.through,
            root_ty: copy_opt_ty(&self.root_ty),
            proj: copy_projs(&self.proj),
            projection_tys: copy_tys(&self.projection_tys),
            ty: copy_opt_ty(&self.ty),
        }
    }

    /// Structural equality.
    pub fn same(&self, other: &MirPlace) -> (r: bool)
        ensures
            r == (self@ == other@),
        decreases self,
    {
        self.root == other.root
            && self.through == other.through
            && same_opt_ty(&self.root_ty, &other.root_ty)
            && same_projs(&self.proj, &other.proj)
            && same_tys(&self.projection_tys, &other.projection_tys)
            && same_opt_ty(&self.ty, &other.ty)
    }
}

impl Clone for MirPlace {
    fn clone(&self) -> (r: MirPlace)
        ensures
            r@ == self@,
    {
        self.copy()
    }
}

/// The model of a [`MirInterior`].
pub open spec fn interior_view(x: MirInterior) -> MirInteriorModel
    decreases x,
{
    MirInteriorModel {
        root: x.root,
        path: origin_segs_view(x.path),
    }
}

impl View for MirInterior {
    type V = MirInteriorModel;

    open spec fn view(&self) -> MirInteriorModel {
        interior_view(*self)
    }
}

impl MirInterior {
    /// A structural copy.
    pub fn copy(&self) -> (r: MirInterior)
        ensures
            r@ == self@,
        decreases self,
    {
        MirInterior {
            root: self.root,
            path: copy_origin_segs(&self.path),
        }
    }

    /// Structural equality.
    pub fn same(&self, other: &MirInterior) -> (r: bool)
        ensures
            r == (self@ == other@),
        decreases self,
    {
        self.root == other.root
            && same_origin_segs(&self.path, &other.path)
    }
}

impl Clone for MirInterior {
    fn clone(&self) -> (r: MirInterior)
        ensures
            r@ == self@,
    {
        self.copy()
    }
}

/// The model of a [`MirLoan`].
pub open spec fn loan_view(x: MirLoan) -> MirLoanModel
    decreases x,
{
    MirLoanModel {
        place: place_view(x.place),
        mutable: x.mutable,
        interior: match x.interior { Some(x) => Some(interior_view(x)), None => None },
    }
}

impl View for MirLoan {
    type V = MirLoanModel;

    open spec fn view(&self) -> MirLoanModel {
        loan_view(*self)
    }
}

impl MirLoan {
    /// A structural copy.
    pub fn copy(&self) -> (r: MirLoan)
        ensures
            r@ == self@,
        decreases self,
    {
        MirLoan {
            place: self.place.copy(),
            mutable: self.mutable,
            interior: copy_opt_interior(&self.interior),
        }
    }

    /// Structural equality.
    pub fn same(&self, other: &MirLoan) -> (r: bool)
        ensures
            r == (self@ == other@),
        decreases self,
    {
        self.place.same(&other.place)
            && self.mutable == other.mutable
            && same_opt_interior(&self.interior, &other.interior)
    }
}

impl Clone for MirLoan {
    fn clone(&self) -> (r: MirLoan)
        ensures
            r@ == self@,
    {
        self.copy()
    }
}

/// The model of a [`MirCapture`].
pub open spec fn capture_view(x: MirCapture) -> MirCaptureModel
    decreases x,
{
    MirCaptureModel {
        place: place_view(x.place),
        owned: x.owned,
    }
}

impl View for MirCapture {
    type V = MirCaptureModel;

    open spec fn view(&self) -> MirCaptureModel {
        capture_view(*self)
    }
}

impl MirCapture {
    /// A structural copy.
    pub fn copy(&self) -> (r: MirCapture)
        ensures
            r@ == self@,
        decreases self,
    {
        MirCapture {
            place: self.place.copy(),
            owned: self.owned,
        }
    }

    /// Structural equality.
    pub fn same(&self, other: &MirCapture) -> (r: bool)
        ensures
            r == (self@ == other@),
        decreases self,
    {
        self.place.same(&other.place)
            && self.owned == other.owned
    }
}

impl Clone for MirCapture {
    fn clone(&self) -> (r: MirCapture)
        ensures
            r@ == self@,
    {
        self.copy()
    }
}

/// The model of a [`MirCaptureAccess`].
pub open spec fn capture_access_view(x: MirCaptureAccess) -> MirCaptureAccessModel
    decreases x,
{
    MirCaptureAccessModel {
        root: x.root,
        access: x.access,
    }
}

impl View for MirCaptureAccess {
    type V = MirCaptureAccessModel;

    open spec fn view(&self) -> MirCaptureAccessModel {
        capture_access_view(*self)
    }
}

impl MirCaptureAccess {
    /// A structural copy.
    pub fn copy(&self) -> (r: MirCaptureAccess)
        ensures
            r@ == self@,
        decreases self,
    {
        MirCaptureAccess {
            root: self.root,
            access: self.access,
        }
    }

    /// Structural equality.
    pub fn same(&self, other: &MirCaptureAccess) -> (r: bool)
        ensures
            r == (self@ == other@),
        decreases self,
    {
        self.root == other.root
            && self.access == other.access
    }
}

impl Clone for MirCaptureAccess {
    fn clone(&self) -> (r: MirCaptureAccess)
        ensures
            r@ == self@,
    {
        self.copy()
    }
}

/// The model of a [`MirParamArg`].
pub open spec fn param_arg_view(x: MirParamArg) -> MirParamArgModel
    decreases x,
{
    MirParamArgModel {
        name: match x.name { Some(x) => Some(x@), None => None },
        value: x.value,
    }
}

impl View for MirParamArg {
    type V = MirParamArgModel;

    open spec fn view(&self) -> MirParamArgModel {
        param_arg_view(*self)
    }
}

impl MirParamArg {
    /// A structural copy.
    pub fn copy(&self) -> (r: MirParamArg)
        ensures
            r@ == self@,
        decreases self,
    {
        MirParamArg {
            name: copy_opt_string(&self.name),
            value: self.value,
        }
    }

    /// Structural equality.
    pub fn same(&self, other: &MirParamArg) -> (r: bool)
        ensures
            r == (self@ == other@),
        decreases self,
    {
        same_opt_string(&self.name, &other.name)
            && self.value == other.value
    }
}

impl Clone for MirParamArg {
    fn clone(&self) -> (r: MirParamArg)
        ensures
            r@ == self@,
    {
        self.copy()
    }
}

/// The model of a [`MirSubscriptArgument`].
pub open spec fn subscript_argument_view(x: MirSubscriptArgument) -> MirSubscriptArgumentModel
    decreases x,
{
    MirSubscriptArgumentModel {
        source: x.source,
        parameter_ty: ty_view(x.parameter_ty),
        convention: x.convention,
        requires_place: x.requires_place,
    }
}

impl View for MirSubscriptArgument {
    type V = MirSubscriptArgumentModel;

    open spec fn view(&self) -> MirSubscriptArgumentModel {
        subscript_argument_view(*self)
    }
}

impl MirSubscriptArgument {
    /// A structural copy.
    pub fn copy(&self) -> (r: MirSubscriptArgument)
        ensures
            r@ == self@,
        decreases self,
    {
        MirSubscriptArgument {
            source: self.source,
            parameter_ty: self.parameter_ty.copy(),
            convention: self.convention,
            requires_place: self.requires_place,
        }
    }

    /// Structural equality.
    pub fn same(&self, other: &MirSubscriptArgument) -> (r: bool)
        ensures
            r == (self@ == other@),
        decreases self,
    {
        self.source == other.source
            && self.parameter_ty.same(&other.parameter_ty)
            && self.convention == other.convention
            && self.requires_place == other.requires_place
    }
}

impl Clone for MirSubscriptArgument {
    fn clone(&self) -> (r: MirSubscriptArgument)
        ensures
            r@ == self@,
    {
        self.copy()
    }
}

/// The model of a [`MirSubscriptCall`].
pub open spec fn subscript_call_view(x: MirSubscriptCall) -> MirSubscriptCallModel
    decreases x,
{
    MirSubscriptCallModel {
        target: x.target@,
        arguments: subscript_arguments_view(x.arguments),
        receiver_convention: x.receiver_convention,
        receiver_requires_place: x.receiver_requires_place,
        result_ty: ty_view(x.result_ty),
        reference_result: match x.reference_result { Some(x) => Some(ref_ty_view(x)), None => None },
        raises: match x.raises { Some(x) => Some(ty_view(x)), None => None },
        capture_accesses: capture_accesses_view(x.capture_accesses),
        param_arg_regs: param_args_view(x.param_arg_regs),
        param_decls: param_decls_view(x.param_decls),
    }
}

impl View for MirSubscriptCall {
    type V = MirSubscriptCallModel;

    open spec fn view(&self) -> MirSubscriptCallModel {
        subscript_call_view(*self)
    }
}

impl MirSubscriptCall {
    /// A structural copy.
    pub fn copy(&self) -> (r: MirSubscriptCall)
        ensures
            r@ == self@,
        decreases self,
    {
        MirSubscriptCall {
            target: self.target.clone(),
            arguments: copy_subscript_arguments(&self.arguments),
            receiver_convention: self.receiver_convention,
            receiver_requires_place: self.receiver_requires_place,
            result_ty: self.result_ty.copy(),
            reference_result: copy_opt_ref_ty(&self.reference_result),
            raises: copy_opt_ty(&self.raises),
            capture_accesses: copy_capture_accesses(&self.capture_accesses),
            param_arg_regs: copy_param_args(&self.param_arg_regs),
            param_decls: copy_param_decls(&self.param_decls),
        }
    }

    /// Structural equality.
    pub fn same(&self, other: &MirSubscriptCall) -> (r: bool)
        ensures
            r == (self@ == other@),
        decreases self,
    {
        self.target == other.target
            && same_subscript_arguments(&self.arguments, &other.arguments)
            && self.receiver_convention == other.receiver_convention
            && self.receiver_requires_place == other.receiver_requires_place
            && self.result_ty.same(&other.result_ty)
            && same_opt_ref_ty(&self.reference_result, &other.reference_result)
            && same_opt_ty(&self.raises, &other.raises)
            && same_capture_accesses(&self.capture_accesses, &other.capture_accesses)
            && same_param_args(&self.param_arg_regs, &other.param_arg_regs)
            && same_param_decls(&self.param_decls, &other.param_decls)
    }
}

impl Clone for MirSubscriptCall {
    fn clone(&self) -> (r: MirSubscriptCall)
        ensures
            r@ == self@,
    {
        self.copy()
    }
}

/// The model of a [`MirSubscriptArg`].
pub open spec fn subscript_arg_view(x: MirSubscriptArg) -> MirSubscriptArgModel
    decreases x,
{
    match x {
        MirSubscriptArg::Value(a0) => MirSubscriptArgModel::Value(a0),
        MirSubscriptArg::Slice { kind, lower, upper, step } => MirSubscriptArgModel::Slice { kind, lower, upper, step },
    }
}

impl View for MirSubscriptArg {
    type V = MirSubscriptArgModel;

    open spec fn view(&self) -> MirSubscriptArgModel {
        subscript_arg_view(*self)
    }
}

impl MirSubscriptArg {
    /// A structural copy.
    pub fn copy(&self) -> (r: MirSubscriptArg)
        ensures
            r@ == self@,
        decreases self,
    {
        match self {
            MirSubscriptArg::Value(a0) => MirSubscriptArg::Value(*a0),
            MirSubscriptArg::Slice { kind, lower, upper, step } => MirSubscriptArg::Slice {
                kind: *kind,
                lower: *lower,
                upper: *upper,
                step: *step,
            },
        }
    }

    /// Structural equality.
    pub fn same(&self, other: &MirSubscriptArg) -> (r: bool)
        ensures
            r == (self@ == other@),
        decreases self,
    {
        match self {
            MirSubscriptArg::Value(a0) => match other {
                MirSubscriptArg::Value(a02) => *a0 == *a02,
                _ => false,
            },
            MirSubscriptArg::Slice { kind, lower, upper, step } => match other {
                MirSubscriptArg::Slice {
                    kind: kind2,
                    lower: lower2,
                    upper: upper2,
                    step: step2,
                } => *kind == *kind2 && *lower == *lower2 && *upper == *upper2 && *step == *step2,
                _ => false,
            },
        }
    }
}

impl Clone for MirSubscriptArg {
    fn clone(&self) -> (r: MirSubscriptArg)
        ensures
            r@ == self@,
    {
        self.copy()
    }
}

/// The model of a [`Const`].
pub open spec fn const_view(x: Const) -> ConstModel
    decreases x,
{
    match x {
        Const::Int(a0) => ConstModel::Int(a0),
        Const::UInt(a0) => ConstModel::UInt(a0),
        Const::IntLiteral(a0) => ConstModel::IntLiteral(int_literal_view(a0)),
        Const::FloatLiteral(a0) => ConstModel::FloatLiteral(a0@),
        Const::Bool(a0) => ConstModel::Bool(a0),
        Const::Str(a0) => ConstModel::Str(a0@),
        Const::NoneValue => ConstModel::NoneValue,
        Const::Function(a0) => ConstModel::Function(a0@),
    }
}

impl View for Const {
    type V = ConstModel;

    open spec fn view(&self) -> ConstModel {
        const_view(*self)
    }
}

impl Const {
    /// A structural copy.
    pub fn copy(&self) -> (r: Const)
        ensures
            r@ == self@,
        decreases self,
    {
        match self {
            Const::Int(a0) => Const::Int(*a0),
            Const::UInt(a0) => Const::UInt(*a0),
            Const::IntLiteral(a0) => Const::IntLiteral(a0.copy()),
            Const::FloatLiteral(a0) => Const::FloatLiteral(a0.clone()),
            Const::Bool(a0) => Const::Bool(*a0),
            Const::Str(a0) => Const::Str(a0.clone()),
            Const::NoneValue => Const::NoneValue,
            Const::Function(a0) => Const::Function(a0.clone()),
        }
    }

    /// Structural equality.
    pub fn same(&self, other: &Const) -> (r: bool)
        ensures
            r == (self@ == other@),
        decreases self,
    {
        match self {
            Const::Int(a0) => match other {
                Const::Int(a02) => *a0 == *a02,
                _ => false,
            },
            Const::UInt(a0) => match other {
                Const::UInt(a02) => *a0 == *a02,
                _ => false,
            },
            Const::IntLiteral(a0) => match other {
                Const::IntLiteral(a02) => a0.same(a02),
                _ => false,
            },
            Const::FloatLiteral(a0) => match other {
                Const::FloatLiteral(a02) => *a0 == *a02,
                _ => false,
            },
            Const::Bool(a0) => match other {
                Const::Bool(a02) => *a0 == *a02,
                _ => false,
            },
            Const::Str(a0) => match other {
                Const::Str(a02) => *a0 == *a02,
                _ => false,
            },
            Const::NoneValue => match other { Const::NoneValue => true, _ => false },
            Const::Function(a0) => match other {
                Const::Function(a02) => *a0 == *a02,
                _ => false,
            },
        }
    }
}

impl Clone for Const {
    fn clone(&self) -> (r: Const)
        ensures
            r@ == self@,
    {
        self.copy()
    }
}

/// The model of a [`FuncRef`].
pub open spec fn func_ref_view(x: FuncRef) -> FuncRefModel
    decreases x,
{
    FuncRefModel(x.0@)
}

impl View for FuncRef {
    type V = FuncRefModel;

    open spec fn view(&self) -> FuncRefModel {
        func_ref_view(*self)
    }
}

impl FuncRef {
    /// A structural copy.
    pub fn copy(&self) -> (r: FuncRef)
        ensures
            r@ == self@,
        decreases self,
    {
        FuncRef(self.0.clone())
    }

    /// Structural equality.
    pub fn same(&self, other: &FuncRef) -> (r: bool)
        ensures
            r == (self@ == other@),
        decreases self,
    {
        self.0 == other.0
    }
}

impl Clone for FuncRef {
    fn clone(&self) -> (r: FuncRef)
        ensures
            r@ == self@,
    {
        self.copy()
    }
}

/// The model of a [`MirInstr`].
pub open spec fn instr_view(x: MirInstr) -> MirInstrModel
    decreases x,
{
    match x {
        MirInstr::EstablishLoans {
            marker,
            reference,
            loans,
            dest_interior,
        } => MirInstrModel::EstablishLoans {
            marker,
            reference,
            loans: loans_view(loans),
            dest_interior: match dest_interior { Some(x) => Some(interior_view(x)), None => None },
        },
        MirInstr::InvalidateInteriors {
            marker,
            base,
            except,
            include_base_generation,
        } => MirInstrModel::InvalidateInteriors {
            marker,
            base: interior_view(base),
            except,
            include_base_generation,
        },
        MirInstr::MakeRef { dest, place } => MirInstrModel::MakeRef { dest, place: place_view(place) },
        MirInstr::ReadRef { dest, reference } => MirInstrModel::ReadRef { dest, reference },
        MirInstr::WriteRef { reference, value } => MirInstrModel::WriteRef { reference, value },
        MirInstr::CopyValue { dest, value } => MirInstrModel::CopyValue { dest, value },
        MirInstr::Const { dest, k } => MirInstrModel::Const { dest, k: const_view(k) },
        MirInstr::SizeOf { dest, ty } => MirInstrModel::SizeOf { dest, ty: ty_view(ty) },
        MirInstr::ConstructTypeParam { dest, param } => MirInstrModel::ConstructTypeParam { dest, param: param@ },
        MirInstr::MaterializeLiteral { dest, value, target } => MirInstrModel::MaterializeLiteral {
            dest,
            value,
            target: ty_view(target),
        },
        MirInstr::UseVar { dest, var } => MirInstrModel::UseVar { dest, var },
        MirInstr::DefVar { var, src, binding_ty } => MirInstrModel::DefVar {
            var,
            src,
            binding_ty: match binding_ty { Some(x) => Some(ty_view(x)), None => None },
        },
        MirInstr::DropVar { var } => MirInstrModel::DropVar { var },
        MirInstr::ConsumeVar { var } => MirInstrModel::ConsumeVar { var },
        MirInstr::KeepAlive { var } => MirInstrModel::KeepAlive { var },
        MirInstr::Drop { reg } => MirInstrModel::Drop { reg },
        MirInstr::MovePlace { dest, place } => MirInstrModel::MovePlace { dest, place: place_view(place) },
        MirInstr::LoadPlace { dest, place } => MirInstrModel::LoadPlace { dest, place: place_view(place) },
        MirInstr::ConsumePlace { marker, place } => MirInstrModel::ConsumePlace {
            marker,
            place: place_view(place),
        },
        MirInstr::Store { place, src } => MirInstrModel::Store { place: place_view(place), src },
        MirInstr::StoreRef { place, reference } => MirInstrModel::StoreRef {
            place: place_view(place),
            reference,
        },
        MirInstr::UnOp { dest, op, a } => MirInstrModel::UnOp { dest, op, a },
        MirInstr::BinOp { dest, op, a, b, resolved } => MirInstrModel::BinOp {
            dest,
            op,
            a,
            b,
            resolved: match resolved { Some(x) => Some(x@), None => None },
        },
        MirInstr::Call {
            dest,
            func,
            raises,
            args,
            kwargs,
            arg_places,
            kwarg_places,
            capture_accesses,
            param_arg_regs,
        } => MirInstrModel::Call {
            dest,
            func: func_ref_view(func),
            raises: match raises { Some(x) => Some(ty_view(x)), None => None },
            args: args@,
            kwargs: string_regs_view(kwargs),
            arg_places: opt_places_view(arg_places),
            kwarg_places: opt_places_view(kwarg_places),
            capture_accesses: capture_accesses_view(capture_accesses),
            param_arg_regs: param_args_view(param_arg_regs),
        },
        MirInstr::CallIndirect {
            dest,
            callee,
            resolved,
            raises,
            args,
            kwargs,
            callee_place,
            arg_places,
            kwarg_places,
            capture_accesses,
            param_arg_regs,
            param_decls,
            instantiated_contract,
            instantiated_args,
        } => MirInstrModel::CallIndirect {
            dest,
            callee,
            resolved: match resolved { Some(x) => Some(x@), None => None },
            raises: match raises { Some(x) => Some(ty_view(x)), None => None },
            args: args@,
            kwargs: string_regs_view(kwargs),
            callee_place: match callee_place { Some(x) => Some(place_view(x)), None => None },
            arg_places: opt_places_view(arg_places),
            kwarg_places: opt_places_view(kwarg_places),
            capture_accesses: capture_accesses_view(capture_accesses),
            param_arg_regs: param_args_view(param_arg_regs),
            param_decls: param_decls_view(param_decls),
            instantiated_contract: match instantiated_contract { Some(x) => Some(ty_view(x)), None => None },
            instantiated_args: ty_args_view(instantiated_args),
        },
        MirInstr::MethodCall {
            dest,
            recv,
            method,
            resolved,
            raises,
            reference_result,
            result_adapter,
            args,
            kwargs,
            recv_place,
            recv_writes,
            arg_places,
            kwarg_places,
            capture_accesses,
            param_arg_regs,
            param_decls,
        } => MirInstrModel::MethodCall {
            dest,
            recv,
            method: method@,
            resolved: match resolved { Some(x) => Some(x@), None => None },
            raises: match raises { Some(x) => Some(ty_view(x)), None => None },
            reference_result: match reference_result { Some(x) => Some(ref_ty_view(x)), None => None },
            result_adapter,
            args: args@,
            kwargs: string_regs_view(kwargs),
            recv_place: match recv_place { Some(x) => Some(place_view(x)), None => None },
            recv_writes,
            arg_places: opt_places_view(arg_places),
            kwarg_places: opt_places_view(kwarg_places),
            capture_accesses: capture_accesses_view(capture_accesses),
            param_arg_regs: param_args_view(param_arg_regs),
            param_decls: param_decls_view(param_decls),
        },
        MirInstr::PointerStorageTake {
            dest,
            pointer,
            index,
            element,
        } => MirInstrModel::PointerStorageTake { dest, pointer, index, element: ty_view(element) },
        MirInstr::PointerStorageDestroy {
            dest,
            pointer,
            index,
            element,
        } => MirInstrModel::PointerStorageDestroy { dest, pointer, index, element: ty_view(element) },
        MirInstr::UninitStorage { dest, init } => MirInstrModel::UninitStorage { dest, init },
        MirInstr::UninitStorageTake { dest, storage, element } => MirInstrModel::UninitStorageTake {
            dest,
            storage,
            element: ty_view(element),
        },
        MirInstr::UninitStorageDestroy { dest, storage, element } => MirInstrModel::UninitStorageDestroy {
            dest,
            storage,
            element: ty_view(element),
        },
        MirInstr::GetField { dest, base, field } => MirInstrModel::GetField { dest, base, field: field@ },
        MirInstr::Index {
            dest,
            base,
            index,
            base_place,
            index_place,
            call,
            intrinsic,
        } => MirInstrModel::Index {
            dest,
            base,
            index,
            base_place: match base_place { Some(x) => Some(place_view(x)), None => None },
            index_place: match index_place { Some(x) => Some(place_view(x)), None => None },
            call: match call { Some(x) => Some(subscript_call_view(x)), None => None },
            intrinsic,
        },
        MirInstr::Slice {
            dest,
            object,
            kind,
            lower,
            upper,
            step,
            object_place,
            arg_places,
            call,
            intrinsic,
        } => MirInstrModel::Slice {
            dest,
            object,
            kind,
            lower,
            upper,
            step,
            object_place: match object_place { Some(x) => Some(place_view(x)), None => None },
            arg_places: opt_places_view(arg_places),
            call: match call { Some(x) => Some(subscript_call_view(x)), None => None },
            intrinsic,
        },
        MirInstr::MultiIndex {
            dest,
            object,
            args,
            object_place,
            arg_places,
            kwargs,
            kwarg_places,
            call,
        } => MirInstrModel::MultiIndex {
            dest,
            object,
            args: subscript_args_view(args),
            object_place: match object_place { Some(x) => Some(place_view(x)), None => None },
            arg_places: opt_places_view(arg_places),
            kwargs: string_subscript_args_view(kwargs),
            kwarg_places: opt_places_view(kwarg_places),
            call: match call { Some(x) => Some(subscript_call_view(x)), None => None },
        },
        MirInstr::MultiSet {
            receiver,
            receiver_place,
            args,
            arg_places,
            value,
            value_place,
            value_keyword,
            call,
        } => MirInstrModel::MultiSet {
            receiver,
            receiver_place: match receiver_place { Some(x) => Some(place_view(x)), None => None },
            args: subscript_args_view(args),
            arg_places: opt_places_view(arg_places),
            value,
            value_place: match value_place { Some(x) => Some(place_view(x)), None => None },
            value_keyword,
            call: subscript_call_view(call),
        },
        MirInstr::MakeTuple { dest, elems, element_types } => MirInstrModel::MakeTuple {
            dest,
            elems: elems@,
            element_types: match element_types { Some(x) => Some(tys_view(x)), None => None },
        },
        MirInstr::MakeVariant {
            dest,
            alternatives,
            index,
            value,
        } => MirInstrModel::MakeVariant { dest, alternatives: tys_view(alternatives), index, value },
        MirInstr::MakeSimd { dest, dtype, width, elems } => MirInstrModel::MakeSimd {
            dest,
            dtype,
            width,
            elems: elems@,
        },
        MirInstr::SimdCast { dest, dtype, width, value } => MirInstrModel::SimdCast { dest, dtype, width, value },
        MirInstr::SimdShuffle { dest, value, mask } => MirInstrModel::SimdShuffle { dest, value, mask: mask@ },
        MirInstr::MakeClosure { dest, function, captures } => MirInstrModel::MakeClosure {
            dest,
            function: function@,
            captures: captures_view(captures),
        },
        MirInstr::VariantIs { dest, variant, index } => MirInstrModel::VariantIs { dest, variant, index },
        MirInstr::VariantGet { dest, variant, index } => MirInstrModel::VariantGet { dest, variant, index },
        MirInstr::VariantSet { dest, place, index, value } => MirInstrModel::VariantSet {
            dest,
            place: place_view(place),
            index,
            value,
        },
        MirInstr::VariantSetInitWith {
            dest,
            place,
            index,
            factory,
        } => MirInstrModel::VariantSetInitWith { dest, place: place_view(place), index, factory },
        MirInstr::VariantTake { dest, variant, index } => MirInstrModel::VariantTake { dest, variant, index },
        MirInstr::VariantDeinitWith { dest, variant, handler } => MirInstrModel::VariantDeinitWith { dest, variant, handler },
        MirInstr::VariantReplace { dest, place, index, value } => MirInstrModel::VariantReplace {
            dest,
            place: place_view(place),
            index,
            value,
        },
        MirInstr::GetIter {
            source,
            dest,
            mode,
            prepare,
        } => MirInstrModel::GetIter { source, dest, mode, prepare: strings_view(prepare) },
        MirInstr::HasNext { dest, iter, method } => MirInstrModel::HasNext {
            dest,
            iter,
            method: match method { Some(x) => Some(x@), None => None },
        },
        MirInstr::Next { dest, iter, call } => MirInstrModel::Next {
            dest,
            iter,
            call: match call { Some(x) => Some(checked_iterator_call_view(x)), None => None },
        },
        MirInstr::TryNext {
            dest,
            yielded,
            iter,
            call,
            exhaustion,
        } => MirInstrModel::TryNext {
            dest,
            yielded,
            iter,
            call: checked_iterator_call_view(call),
            exhaustion: ty_view(exhaustion),
        },
        MirInstr::Raise { src } => MirInstrModel::Raise { src },
        MirInstr::Try {
            body,
            handler,
            orelse,
            finalbody,
        } => MirInstrModel::Try {
            body: blocks_view(body),
            handler: match handler { Some(x) => Some((x.0, blocks_view(x.1))), None => None },
            orelse: match orelse { Some(x) => Some(blocks_view(x)), None => None },
            finalbody: match finalbody { Some(x) => Some(blocks_view(x)), None => None },
        },
        MirInstr::Unsupported(a0) => MirInstrModel::Unsupported(a0@),
    }
}

impl View for MirInstr {
    type V = MirInstrModel;

    open spec fn view(&self) -> MirInstrModel {
        instr_view(*self)
    }
}

impl MirInstr {
    /// A structural copy.
    pub fn copy(&self) -> (r: MirInstr)
        ensures
            r@ == self@,
        decreases self,
    {
        match self {
            MirInstr::EstablishLoans {
                marker,
                reference,
                loans,
                dest_interior,
            } => MirInstr::EstablishLoans {
                marker: *marker,
                reference: *reference,
                loans: copy_loans(loans),
                dest_interior: copy_opt_interior(dest_interior),
            },
            MirInstr::InvalidateInteriors {
                marker,
                base,
                except,
                include_base_generation,
            } => MirInstr::InvalidateInteriors {
                marker: *marker,
                base: base.copy(),
                except: *except,
                include_base_generation: *include_base_generation,
            },
            MirInstr::MakeRef { dest, place } => MirInstr::MakeRef { dest: *dest, place: place.copy() },
            MirInstr::ReadRef { dest, reference } => MirInstr::ReadRef { dest: *dest, reference: *reference },
            MirInstr::WriteRef { reference, value } => MirInstr::WriteRef {
                reference: *reference,
                value: *value,
            },
            MirInstr::CopyValue { dest, value } => MirInstr::CopyValue { dest: *dest, value: *value },
            MirInstr::Const { dest, k } => MirInstr::Const { dest: *dest, k: k.copy() },
            MirInstr::SizeOf { dest, ty } => MirInstr::SizeOf { dest: *dest, ty: ty.copy() },
            MirInstr::ConstructTypeParam { dest, param } => MirInstr::ConstructTypeParam {
                dest: *dest,
                param: param.clone(),
            },
            MirInstr::MaterializeLiteral { dest, value, target } => MirInstr::MaterializeLiteral {
                dest: *dest,
                value: *value,
                target: target.copy(),
            },
            MirInstr::UseVar { dest, var } => MirInstr::UseVar { dest: *dest, var: *var },
            MirInstr::DefVar { var, src, binding_ty } => MirInstr::DefVar {
                var: *var,
                src: *src,
                binding_ty: copy_opt_ty(binding_ty),
            },
            MirInstr::DropVar { var } => MirInstr::DropVar { var: *var },
            MirInstr::ConsumeVar { var } => MirInstr::ConsumeVar { var: *var },
            MirInstr::KeepAlive { var } => MirInstr::KeepAlive { var: *var },
            MirInstr::Drop { reg } => MirInstr::Drop { reg: *reg },
            MirInstr::MovePlace { dest, place } => MirInstr::MovePlace { dest: *dest, place: place.copy() },
            MirInstr::LoadPlace { dest, place } => MirInstr::LoadPlace { dest: *dest, place: place.copy() },
            MirInstr::ConsumePlace { marker, place } => MirInstr::ConsumePlace {
                marker: *marker,
                place: place.copy(),
            },
            MirInstr::Store { place, src } => MirInstr::Store { place: place.copy(), src: *src },
            MirInstr::StoreRef { place, reference } => MirInstr::StoreRef {
                place: place.copy(),
                reference: *reference,
            },
            MirInstr::UnOp { dest, op, a } => MirInstr::UnOp { dest: *dest, op: *op, a: *a },
            MirInstr::BinOp { dest, op, a, b, resolved } => MirInstr::BinOp {
                dest: *dest,
                op: *op,
                a: *a,
                b: *b,
                resolved: copy_opt_string(resolved),
            },
            MirInstr::Call {
                dest,
                func,
                raises,
                args,
                kwargs,
                arg_places,
                kwarg_places,
                capture_accesses,
                param_arg_regs,
            } => MirInstr::Call {
                dest: *dest,
                func: func.copy(),
                raises: copy_opt_ty(raises),
                args: copy_regs(args),
                kwargs: copy_string_regs(kwargs),
                arg_places: copy_opt_places(arg_places),
                kwarg_places: copy_opt_places(kwarg_places),
                capture_accesses: copy_capture_accesses(capture_accesses),
                param_arg_regs: copy_param_args(param_arg_regs),
            },
            MirInstr::CallIndirect {
                dest,
                callee,
                resolved,
                raises,
                args,
                kwargs,
                callee_place,
                arg_places,
                kwarg_places,
                capture_accesses,
                param_arg_regs,
                param_decls,
                instantiated_contract,
                instantiated_args,
            } => MirInstr::CallIndirect {
                dest: *dest,
                callee: *callee,
                resolved: copy_opt_string(resolved),
                raises: copy_opt_ty(raises),
                args: copy_regs(args),
                kwargs: copy_string_regs(kwargs),
                callee_place: copy_opt_place(callee_place),
                arg_places: copy_opt_places(arg_places),
                kwarg_places: copy_opt_places(kwarg_places),
                capture_accesses: copy_capture_accesses(capture_accesses),
                param_arg_regs: copy_param_args(param_arg_regs),
                param_decls: copy_param_decls(param_decls),
                instantiated_contract: copy_opt_ty(instantiated_contract),
                instantiated_args: copy_ty_args(instantiated_args),
            },
            MirInstr::MethodCall {
                dest,
                recv,
                method,
                resolved,
                raises,
                reference_result,
                result_adapter,
                args,
                kwargs,
                recv_place,
                recv_writes,
                arg_places,
                kwarg_places,
                capture_accesses,
                param_arg_regs,
                param_decls,
            } => MirInstr::MethodCall {
                dest: *dest,
                recv: *recv,
                method: method.clone(),
                resolved: copy_opt_string(resolved),
                raises: copy_opt_ty(raises),
                reference_result: copy_opt_ref_ty(reference_result),
                result_adapter: *result_adapter,
                args: copy_regs(args),
                kwargs: copy_string_regs(kwargs),
                recv_place: copy_opt_place(recv_place),
                recv_writes: *recv_writes,
                arg_places: copy_opt_places(arg_places),
                kwarg_places: copy_opt_places(kwarg_places),
                capture_accesses: copy_capture_accesses(capture_accesses),
                param_arg_regs: copy_param_args(param_arg_regs),
                param_decls: copy_param_decls(param_decls),
            },
            MirInstr::PointerStorageTake {
                dest,
                pointer,
                index,
                element,
            } => MirInstr::PointerStorageTake {
                dest: *dest,
                pointer: *pointer,
                index: *index,
                element: element.copy(),
            },
            MirInstr::PointerStorageDestroy {
                dest,
                pointer,
                index,
                element,
            } => MirInstr::PointerStorageDestroy {
                dest: *dest,
                pointer: *pointer,
                index: *index,
                element: element.copy(),
            },
            MirInstr::UninitStorage { dest, init } => MirInstr::UninitStorage { dest: *dest, init: *init },
            MirInstr::UninitStorageTake { dest, storage, element } => MirInstr::UninitStorageTake {
                dest: *dest,
                storage: *storage,
                element: element.copy(),
            },
            MirInstr::UninitStorageDestroy { dest, storage, element } => MirInstr::UninitStorageDestroy {
                dest: *dest,
                storage: *storage,
                element: element.copy(),
            },
            MirInstr::GetField { dest, base, field } => MirInstr::GetField {
                dest: *dest,
                base: *base,
                field: field.clone(),
            },
            MirInstr::Index {
                dest,
                base,
                index,
                base_place,
                index_place,
                call,
                intrinsic,
            } => MirInstr::Index {
                dest: *dest,
                base: *base,
                index: *index,
                base_place: copy_opt_place(base_place),
                index_place: copy_opt_place(index_place),
                call: copy_opt_subscript_call(call),
                intrinsic: *intrinsic,
            },
            MirInstr::Slice {
                dest,
                object,
                kind,
                lower,
                upper,
                step,
                object_place,
                arg_places,
                call,
                intrinsic,
            } => MirInstr::Slice {
                dest: *dest,
                object: *object,
                kind: *kind,
                lower: *lower,
                upper: *upper,
                step: *step,
                object_place: copy_opt_place(object_place),
                arg_places: copy_opt_places(arg_places),
                call: copy_opt_subscript_call(call),
                intrinsic: *intrinsic,
            },
            MirInstr::MultiIndex {
                dest,
                object,
                args,
                object_place,
                arg_places,
                kwargs,
                kwarg_places,
                call,
            } => MirInstr::MultiIndex {
                dest: *dest,
                object: *object,
                args: copy_subscript_args(args),
                object_place: copy_opt_place(object_place),
                arg_places: copy_opt_places(arg_places),
                kwargs: copy_string_subscript_args(kwargs),
                kwarg_places: copy_opt_places(kwarg_places),
                call: copy_opt_subscript_call(call),
            },
            MirInstr::MultiSet {
                receiver,
                receiver_place,
                args,
                arg_places,
                value,
                value_place,
                value_keyword,
                call,
            } => MirInstr::MultiSet {
                receiver: *receiver,
                receiver_place: copy_opt_place(receiver_place),
                args: copy_subscript_args(args),
                arg_places: copy_opt_places(arg_places),
                value: *value,
                value_place: copy_opt_place(value_place),
                value_keyword: *value_keyword,
                call: call.copy(),
            },
            MirInstr::MakeTuple { dest, elems, element_types } => MirInstr::MakeTuple {
                dest: *dest,
                elems: copy_regs(elems),
                element_types: copy_opt_tys(element_types),
            },
            MirInstr::MakeVariant {
                dest,
                alternatives,
                index,
                value,
            } => MirInstr::MakeVariant {
                dest: *dest,
                alternatives: copy_tys(alternatives),
                index: *index,
                value: *value,
            },
            MirInstr::MakeSimd { dest, dtype, width, elems } => MirInstr::MakeSimd {
                dest: *dest,
                dtype: *dtype,
                width: *width,
                elems: copy_regs(elems),
            },
            MirInstr::SimdCast { dest, dtype, width, value } => MirInstr::SimdCast {
                dest: *dest,
                dtype: *dtype,
                width: *width,
                value: *value,
            },
            MirInstr::SimdShuffle { dest, value, mask } => MirInstr::SimdShuffle {
                dest: *dest,
                value: *value,
                mask: copy_usizes(mask),
            },
            MirInstr::MakeClosure { dest, function, captures } => MirInstr::MakeClosure {
                dest: *dest,
                function: function.clone(),
                captures: copy_captures(captures),
            },
            MirInstr::VariantIs { dest, variant, index } => MirInstr::VariantIs {
                dest: *dest,
                variant: *variant,
                index: *index,
            },
            MirInstr::VariantGet { dest, variant, index } => MirInstr::VariantGet {
                dest: *dest,
                variant: *variant,
                index: *index,
            },
            MirInstr::VariantSet { dest, place, index, value } => MirInstr::VariantSet {
                dest: *dest,
                place: place.copy(),
                index: *index,
                value: *value,
            },
            MirInstr::VariantSetInitWith {
                dest,
                place,
                index,
                factory,
            } => MirInstr::VariantSetInitWith {
                dest: *dest,
                place: place.copy(),
                index: *index,
                factory: *factory,
            },
            MirInstr::VariantTake { dest, variant, index } => MirInstr::VariantTake {
                dest: *dest,
                variant: *variant,
                index: *index,
            },
            MirInstr::VariantDeinitWith { dest, variant, handler } => MirInstr::VariantDeinitWith {
                dest: *dest,
                variant: *variant,
                handler: *handler,
            },
            MirInstr::VariantReplace { dest, place, index, value } => MirInstr::VariantReplace {
                dest: *dest,
                place: place.copy(),
                index: *index,
                value: *value,
            },
            MirInstr::GetIter {
                source,
                dest,
                mode,
                prepare,
            } => MirInstr::GetIter { source: *source, dest: *dest, mode: *mode, prepare: copy_strings(prepare) },
            MirInstr::HasNext { dest, iter, method } => MirInstr::HasNext {
                dest: *dest,
                iter: *iter,
                method: copy_opt_string(method),
            },
            MirInstr::Next { dest, iter, call } => MirInstr::Next {
                dest: *dest,
                iter: *iter,
                call: copy_opt_checked_iterator_call(call),
            },
            MirInstr::TryNext {
                dest,
                yielded,
                iter,
                call,
                exhaustion,
            } => MirInstr::TryNext {
                dest: *dest,
                yielded: *yielded,
                iter: *iter,
                call: call.copy(),
                exhaustion: exhaustion.copy(),
            },
            MirInstr::Raise { src } => MirInstr::Raise { src: *src },
            MirInstr::Try {
                body,
                handler,
                orelse,
                finalbody,
            } => MirInstr::Try {
                body: copy_blocks(body),
                handler: copy_opt_opt_u32_blocks(handler),
                orelse: copy_opt_blocks(orelse),
                finalbody: copy_opt_blocks(finalbody),
            },
            MirInstr::Unsupported(a0) => MirInstr::Unsupported(a0.clone()),
        }
    }
}

impl Clone for MirInstr {
    fn clone(&self) -> (r: MirInstr)
        ensures
            r@ == self@,
    {
        self.copy()
    }
}

/// The model of a [`MirTerm`].
pub open spec fn term_view(x: MirTerm) -> MirTermModel
    decreases x,
{
    match x {
        MirTerm::Jump(a0) => MirTermModel::Jump(a0),
        MirTerm::Branch { cond, then_b, else_b } => MirTermModel::Branch { cond, then_b, else_b },
        MirTerm::Return(a0) => MirTermModel::Return(a0),
        MirTerm::ReturnWithCleanup { value, cleanup } => MirTermModel::ReturnWithCleanup { value, cleanup: cleanup@ },
        MirTerm::FallOff => MirTermModel::FallOff,
        MirTerm::EscapeJump { target, cleanup } => MirTermModel::EscapeJump { target, cleanup: cleanup@ },
    }
}

impl View for MirTerm {
    type V = MirTermModel;

    open spec fn view(&self) -> MirTermModel {
        term_view(*self)
    }
}

impl MirTerm {
    /// A structural copy.
    pub fn copy(&self) -> (r: MirTerm)
        ensures
            r@ == self@,
        decreases self,
    {
        match self {
            MirTerm::Jump(a0) => MirTerm::Jump(*a0),
            MirTerm::Branch { cond, then_b, else_b } => MirTerm::Branch {
                cond: *cond,
                then_b: *then_b,
                else_b: *else_b,
            },
            MirTerm::Return(a0) => MirTerm::Return(*a0),
            MirTerm::ReturnWithCleanup { value, cleanup } => MirTerm::ReturnWithCleanup {
                value: *value,
                cleanup: copy_u32s(cleanup),
            },
            MirTerm::FallOff => MirTerm::FallOff,
            MirTerm::EscapeJump { target, cleanup } => MirTerm::EscapeJump {
                target: *target,
                cleanup: copy_u32s(cleanup),
            },
        }
    }

    /// Structural equality.
    pub fn same(&self, other: &MirTerm) -> (r: bool)
        ensures
            r == (self@ == other@),
        decreases self,
    {
        match self {
            MirTerm::Jump(a0) => match other {
                MirTerm::Jump(a02) => *a0 == *a02,
                _ => false,
            },
            MirTerm::Branch { cond, then_b, else_b } => match other {
                MirTerm::Branch {
                    cond: cond2,
                    then_b: then_b2,
                    else_b: else_b2,
                } => *cond == *cond2 && *then_b == *then_b2 && *else_b == *else_b2,
                _ => false,
            },
            MirTerm::Return(a0) => match other {
                MirTerm::Return(a02) => *a0 == *a02,
                _ => false,
            },
            MirTerm::ReturnWithCleanup { value, cleanup } => match other {
                MirTerm::ReturnWithCleanup {
                    value: value2,
                    cleanup: cleanup2,
                } => *value == *value2 && same_u32s(cleanup, cleanup2),
                _ => false,
            },
            MirTerm::FallOff => match other { MirTerm::FallOff => true, _ => false },
            MirTerm::EscapeJump { target, cleanup } => match other {
                MirTerm::EscapeJump {
                    target: target2,
                    cleanup: cleanup2,
                } => *target == *target2 && same_u32s(cleanup, cleanup2),
                _ => false,
            },
        }
    }
}

impl Clone for MirTerm {
    fn clone(&self) -> (r: MirTerm)
        ensures
            r@ == self@,
    {
        self.copy()
    }
}

/// The model of a [`MirBlock`].
pub open spec fn block_view(x: MirBlock) -> MirBlockModel
    decreases x,
{
    MirBlockModel {
        instrs: instrs_view(x.instrs),
        term: term_view(x.term),
    }
}

impl View for MirBlock {
    type V = MirBlockModel;

    open spec fn view(&self) -> MirBlockModel {
        block_view(*self)
    }
}

impl MirBlock {
    /// A structural copy.
    pub fn copy(&self) -> (r: MirBlock)
        ensures
            r@ == self@,
        decreases self,
    {
        MirBlock {
            instrs: copy_instrs(&self.instrs),
            term: self.term.copy(),
        }
    }
}

impl Clone for MirBlock {
    fn clone(&self) -> (r: MirBlock)
        ensures
            r@ == self@,
    {
        self.copy()
    }
}

/// The model of a [`MirFunction`].
pub open spec fn function_view(x: MirFunction) -> MirFunctionModel
    decreases x,
{
    MirFunctionModel {
        n_params: x.n_params,
        n_vars: x.n_vars,
        n_regs: x.n_regs,
        var_names: strings_view(x.var_names),
        param_types: tys_view(x.param_types),
        ref_params: x.ref_params@,
        var_tys: x.var_tys@,
        reg_types: x.reg_types@,
        ret_ty: match x.ret_ty { Some(x) => Some(ty_view(x)), None => None },
        error_ty: match x.error_ty { Some(x) => Some(ty_view(x)), None => None },
        raises: x.raises,
        returns_reference: x.returns_reference,
        blocks: blocks_view(x.blocks),
    }
}

impl View for MirFunction {
    type V = MirFunctionModel;

    open spec fn view(&self) -> MirFunctionModel {
        function_view(*self)
    }
}

impl MirFunction {
    /// A structural copy.
    pub fn copy(&self) -> (r: MirFunction)
        ensures
            r@ == self@,
        decreases self,
    {
        MirFunction {
            n_params: self.n_params,
            n_vars: self.n_vars,
            n_regs: self.n_regs,
            var_names: copy_strings(&self.var_names),
            param_types: copy_tys(&self.param_types),
            ref_params: copy_bools(&self.ref_params),
            var_tys: self.var_tys.copy(),
            reg_types: self.reg_types.copy(),
            ret_ty: copy_opt_ty(&self.ret_ty),
            error_ty: copy_opt_ty(&self.error_ty),
            raises: self.raises,
            returns_reference: self.returns_reference,
            blocks: copy_blocks(&self.blocks),
        }
    }
}

impl Clone for MirFunction {
    fn clone(&self) -> (r: MirFunction)
        ensures
            r@ == self@,
    {
        self.copy()
    }
}

/// The model of a [`MirFunctionDeclaration`].
pub open spec fn function_declaration_view(x: MirFunctionDeclaration) -> MirFunctionDeclarationModel
    decreases x,
{
    MirFunctionDeclarationModel {
        lowered_name: x.lowered_name@,
        has_receiver: x.has_receiver,
        receiver_convention: x.receiver_convention,
        param_names: strings_view(x.param_names),
        param_types: tys_view(x.param_types),
        param_conventions: x.param_conventions@,
        ref_params: x.ref_params@,
        required: x.required@,
        positional_only: x.positional_only,
        keyword_only: x.keyword_only,
        variadic: match x.variadic { Some(x) => Some(ty_view(x)), None => None },
        kw_variadic: match x.kw_variadic { Some(x) => Some(ty_view(x)), None => None },
        ret_ty: ty_view(x.ret_ty),
        returns_reference: x.returns_reference,
        raises: x.raises,
        error_ty: match x.error_ty { Some(x) => Some(ty_view(x)), None => None },
        param_decls: param_decls_view(x.param_decls),
    }
}

impl View for MirFunctionDeclaration {
    type V = MirFunctionDeclarationModel;

    open spec fn view(&self) -> MirFunctionDeclarationModel {
        function_declaration_view(*self)
    }
}

impl MirFunctionDeclaration {
    /// A structural copy.
    pub fn copy(&self) -> (r: MirFunctionDeclaration)
        ensures
            r@ == self@,
        decreases self,
    {
        MirFunctionDeclaration {
            lowered_name: self.lowered_name.clone(),
            has_receiver: self.has_receiver,
            receiver_convention: self.receiver_convention,
            param_names: copy_strings(&self.param_names),
            param_types: copy_tys(&self.param_types),
            param_conventions: copy_opt_arg_conventions(&self.param_conventions),
            ref_params: copy_bools(&self.ref_params),
            required: copy_bools(&self.required),
            positional_only: self.positional_only,
            keyword_only: self.keyword_only,
            variadic: copy_opt_ty(&self.variadic),
            kw_variadic: copy_opt_ty(&self.kw_variadic),
            ret_ty: self.ret_ty.copy(),
            returns_reference: self.returns_reference,
            raises: self.raises,
            error_ty: copy_opt_ty(&self.error_ty),
            param_decls: copy_param_decls(&self.param_decls),
        }
    }

    /// Structural equality.
    pub fn same(&self, other: &MirFunctionDeclaration) -> (r: bool)
        ensures
            r == (self@ == other@),
        decreases self,
    {
        self.lowered_name == other.lowered_name
            && self.has_receiver == other.has_receiver
            && self.receiver_convention == other.receiver_convention
            && same_strings(&self.param_names, &other.param_names)
            && same_tys(&self.param_types, &other.param_types)
            && same_opt_arg_conventions(&self.param_conventions, &other.param_conventions)
            && same_bools(&self.ref_params, &other.ref_params)
            && same_bools(&self.required, &other.required)
            && self.positional_only == other.positional_only
            && self.keyword_only == other.keyword_only
            && same_opt_ty(&self.variadic, &other.variadic)
            && same_opt_ty(&self.kw_variadic, &other.kw_variadic)
            && self.ret_ty.same(&other.ret_ty)
            && self.returns_reference == other.returns_reference
            && self.raises == other.raises
            && same_opt_ty(&self.error_ty, &other.error_ty)
            && same_param_decls(&self.param_decls, &other.param_decls)
    }
}

impl Clone for MirFunctionDeclaration {
    fn clone(&self) -> (r: MirFunctionDeclaration)
        ensures
            r@ == self@,
    {
        self.copy()
    }
}

/// The model of a [`MirStructDeclaration`].
pub open spec fn struct_declaration_view(x: MirStructDeclaration) -> MirStructDeclarationModel
    decreases x,
{
    MirStructDeclarationModel {
        name: x.name@,
        fields: string_tys_view(x.fields),
        param_decls: param_decls_view(x.param_decls),
        fieldwise_init: x.fieldwise_init,
        mut_self_methods: strings_view(x.mut_self_methods),
        explicit_destroy_message: match x.explicit_destroy_message { Some(x) => Some(x@), None => None },
        explicit_destructors: strings_view(x.explicit_destructors),
    }
}

impl View for MirStructDeclaration {
    type V = MirStructDeclarationModel;

    open spec fn view(&self) -> MirStructDeclarationModel {
        struct_declaration_view(*self)
    }
}

impl MirStructDeclaration {
    /// A structural copy.
    pub fn copy(&self) -> (r: MirStructDeclaration)
        ensures
            r@ == self@,
        decreases self,
    {
        MirStructDeclaration {
            name: self.name.clone(),
            fields: copy_string_tys(&self.fields),
            param_decls: copy_param_decls(&self.param_decls),
            fieldwise_init: self.fieldwise_init,
            mut_self_methods: copy_strings(&self.mut_self_methods),
            explicit_destroy_message: copy_opt_string(&self.explicit_destroy_message),
            explicit_destructors: copy_strings(&self.explicit_destructors),
        }
    }

    /// Structural equality.
    pub fn same(&self, other: &MirStructDeclaration) -> (r: bool)
        ensures
            r == (self@ == other@),
        decreases self,
    {
        self.name == other.name
            && same_string_tys(&self.fields, &other.fields)
            && same_param_decls(&self.param_decls, &other.param_decls)
            && self.fieldwise_init == other.fieldwise_init
            && same_strings(&self.mut_self_methods, &other.mut_self_methods)
            && same_opt_string(&self.explicit_destroy_message, &other.explicit_destroy_message)
            && same_strings(&self.explicit_destructors, &other.explicit_destructors)
    }
}

impl Clone for MirStructDeclaration {
    fn clone(&self) -> (r: MirStructDeclaration)
        ensures
            r@ == self@,
    {
        self.copy()
    }
}

/// The model of a [`MirDeclarations`].
pub open spec fn declarations_view(x: MirDeclarations) -> MirDeclarationsModel
    decreases x,
{
    MirDeclarationsModel {
        structs: struct_declarations_view(x.structs),
        functions: function_declarations_view(x.functions),
    }
}

impl View for MirDeclarations {
    type V = MirDeclarationsModel;

    open spec fn view(&self) -> MirDeclarationsModel {
        declarations_view(*self)
    }
}

impl MirDeclarations {
    /// A structural copy.
    pub fn copy(&self) -> (r: MirDeclarations)
        ensures
            r@ == self@,
        decreases self,
    {
        MirDeclarations {
            structs: copy_struct_declarations(&self.structs),
            functions: copy_function_declarations(&self.functions),
        }
    }

    /// Structural equality.
    pub fn same(&self, other: &MirDeclarations) -> (r: bool)
        ensures
            r == (self@ == other@),
        decreases self,
    {
        same_struct_declarations(&self.structs, &other.structs)
            && same_function_declarations(&self.functions, &other.functions)
    }
}

impl Clone for MirDeclarations {
    fn clone(&self) -> (r: MirDeclarations)
        ensures
            r@ == self@,
    {
        self.copy()
    }
}

/// The model of a [`MirProgram`].
pub open spec fn program_view(x: MirProgram) -> MirProgramModel
    decreases x,
{
    MirProgramModel {
        functions: string_functions_view(x.functions),
        declarations: declarations_view(x.declarations),
        invariant_errors: strings_view(x.invariant_errors),
    }
}

impl View for MirProgram {
    type V = MirProgramModel;

    open spec fn view(&self) -> MirProgramModel {
        program_view(*self)
    }
}

impl MirProgram {
    /// A structural copy.
    pub fn copy(&self) -> (r: MirProgram)
        ensures
            r@ == self@,
        decreases self,
    {
        MirProgram {
            functions: copy_string_functions(&self.functions),
            declarations: self.declarations.copy(),
            invariant_errors: copy_strings(&self.invariant_errors),
        }
    }
}

impl Clone for MirProgram {
    fn clone(&self) -> (r: MirProgram)
        ensures
            r@ == self@,
    {
        self.copy()
    }
}

/// Model of a `Vec<Proj>`.
pub open spec fn projs_view(v: Vec<Proj>) -> Seq<ProjModel>
    decreases v,
{
    Seq::new(v@.len(), |i: int| if 0 <= i < v@.len() { proj_view(v@[i]) } else { arbitrary() })
}

pub fn copy_projs(v: &Vec<Proj>) -> (r: Vec<Proj>)
    ensures
        projs_view(r) == projs_view(*v),
    decreases v,
{
    let mut out: Vec<Proj> = Vec::new();
    for i in 0..v.len()
        invariant
            out@.len() == i,
            forall|j: int| 0 <= j < i ==> projs_view(out)[j] == projs_view(*v)[j],
    {
        let ghost before = out;
        out.push(v[i].copy());
        assert forall|j: int| 0 <= j < i + 1 implies projs_view(out)[j] == projs_view(*v)[j] by {
            if j < i {
                assert(out@[j] == before@[j]);
                assert(projs_view(before)[j] == projs_view(*v)[j]);
            }
        }
    }
    assert(projs_view(out) =~= projs_view(*v));
    out
}

pub fn same_projs(a: &Vec<Proj>, b: &Vec<Proj>) -> (r: bool)
    ensures
        r == (projs_view(*a) == projs_view(*b)),
    decreases a,
{
    if a.len() != b.len() {
        assert(projs_view(*a).len() != projs_view(*b).len());
        return false;
    }
    for i in 0..a.len()
        invariant
            a@.len() == b@.len(),
            forall|j: int| 0 <= j < i ==> projs_view(*a)[j] == projs_view(*b)[j],
    {
        if !(a[i].same(&b[i])) {
            assert(projs_view(*a)[i as int] != projs_view(*b)[i as int]);
            return false;
        }
    }
    assert(projs_view(*a) =~= projs_view(*b));
    true
}

/// Model of an `Option<MirInterior>`.
pub open spec fn opt_interior_view(v: Option<MirInterior>) -> Option<MirInteriorModel> {
    match v {
        Some(x) => Some(interior_view(x)),
        None => None,
    }
}

pub fn copy_opt_interior(v: &Option<MirInterior>) -> (r: Option<MirInterior>)
    ensures
        opt_interior_view(r) == opt_interior_view(*v),
    decreases v,
{
    match v {
        Some(x) => Some(x.copy()),
        None => None,
    }
}

pub fn same_opt_interior(a: &Option<MirInterior>, b: &Option<MirInterior>) -> (r: bool)
    ensures
        r == (opt_interior_view(*a) == opt_interior_view(*b)),
    decreases a,
{
    match a {
        Some(x) => match b {
            Some(y) => x.same(y),
            None => false,
        },
        None => match b {
            Some(_) => false,
            None => true,
        },
    }
}

/// Model of a `Vec<MirSubscriptArgument>`.
pub open spec fn subscript_arguments_view(v: Vec<MirSubscriptArgument>) -> Seq<MirSubscriptArgumentModel>
    decreases v,
{
    Seq::new(v@.len(), |i: int| if 0 <= i < v@.len() { subscript_argument_view(v@[i]) } else { arbitrary() })
}

pub fn copy_subscript_arguments(v: &Vec<MirSubscriptArgument>) -> (r: Vec<MirSubscriptArgument>)
    ensures
        subscript_arguments_view(r) == subscript_arguments_view(*v),
    decreases v,
{
    let mut out: Vec<MirSubscriptArgument> = Vec::new();
    for i in 0..v.len()
        invariant
            out@.len() == i,
            forall|j: int| 0 <= j < i ==> subscript_arguments_view(out)[j] == subscript_arguments_view(*v)[j],
    {
        let ghost before = out;
        out.push(v[i].copy());
        assert forall|j: int| 0 <= j < i + 1 implies subscript_arguments_view(out)[j] == subscript_arguments_view(*v)[j] by {
            if j < i {
                assert(out@[j] == before@[j]);
                assert(subscript_arguments_view(before)[j] == subscript_arguments_view(*v)[j]);
            }
        }
    }
    assert(subscript_arguments_view(out) =~= subscript_arguments_view(*v));
    out
}

pub fn same_subscript_arguments(a: &Vec<MirSubscriptArgument>, b: &Vec<MirSubscriptArgument>) -> (r: bool)
    ensures
        r == (subscript_arguments_view(*a) == subscript_arguments_view(*b)),
    decreases a,
{
    if a.len() != b.len() {
        assert(subscript_arguments_view(*a).len() != subscript_arguments_view(*b).len());
        return false;
    }
    for i in 0..a.len()
        invariant
            a@.len() == b@.len(),
            forall|j: int| 0 <= j < i ==> subscript_arguments_view(*a)[j] == subscript_arguments_view(*b)[j],
    {
        if !(a[i].same(&b[i])) {
            assert(subscript_arguments_view(*a)[i as int] != subscript_arguments_view(*b)[i as int]);
            return false;
        }
    }
    assert(subscript_arguments_view(*a) =~= subscript_arguments_view(*b));
    true
}

/// Model of a `Vec<MirCaptureAccess>`.
pub open spec fn capture_accesses_view(v: Vec<MirCaptureAccess>) -> Seq<MirCaptureAccessModel>
    decreases v,
{
    Seq::new(v@.len(), |i: int| if 0 <= i < v@.len() { capture_access_view(v@[i]) } else { arbitrary() })
}

pub fn copy_capture_accesses(v: &Vec<MirCaptureAccess>) -> (r: Vec<MirCaptureAccess>)
    ensures
        capture_accesses_view(r) == capture_accesses_view(*v),
    decreases v,
{
    let mut out: Vec<MirCaptureAccess> = Vec::new();
    for i in 0..v.len()
        invariant
            out@.len() == i,
            forall|j: int| 0 <= j < i ==> capture_accesses_view(out)[j] == capture_accesses_view(*v)[j],
    {
        let ghost before = out;
        out.push(v[i].copy());
        assert forall|j: int| 0 <= j < i + 1 implies capture_accesses_view(out)[j] == capture_accesses_view(*v)[j] by {
            if j < i {
                assert(out@[j] == before@[j]);
                assert(capture_accesses_view(before)[j] == capture_accesses_view(*v)[j]);
            }
        }
    }
    assert(capture_accesses_view(out) =~= capture_accesses_view(*v));
    out
}

pub fn same_capture_accesses(a: &Vec<MirCaptureAccess>, b: &Vec<MirCaptureAccess>) -> (r: bool)
    ensures
        r == (capture_accesses_view(*a) == capture_accesses_view(*b)),
    decreases a,
{
    if a.len() != b.len() {
        assert(capture_accesses_view(*a).len() != capture_accesses_view(*b).len());
        return false;
    }
    for i in 0..a.len()
        invariant
            a@.len() == b@.len(),
            forall|j: int| 0 <= j < i ==> capture_accesses_view(*a)[j] == capture_accesses_view(*b)[j],
    {
        if !(a[i].same(&b[i])) {
            assert(capture_accesses_view(*a)[i as int] != capture_accesses_view(*b)[i as int]);
            return false;
        }
    }
    assert(capture_accesses_view(*a) =~= capture_accesses_view(*b));
    true
}

/// Model of a `Vec<MirParamArg>`.
pub open spec fn param_args_view(v: Vec<MirParamArg>) -> Seq<MirParamArgModel>
    decreases v,
{
    Seq::new(v@.len(), |i: int| if 0 <= i < v@.len() { param_arg_view(v@[i]) } else { arbitrary() })
}

pub fn copy_param_args(v: &Vec<MirParamArg>) -> (r: Vec<MirParamArg>)
    ensures
        param_args_view(r) == param_args_view(*v),
    decreases v,
{
    let mut out: Vec<MirParamArg> = Vec::new();
    for i in 0..v.len()
        invariant
            out@.len() == i,
            forall|j: int| 0 <= j < i ==> param_args_view(out)[j] == param_args_view(*v)[j],
    {
        let ghost before = out;
        out.push(v[i].copy());
        assert forall|j: int| 0 <= j < i + 1 implies param_args_view(out)[j] == param_args_view(*v)[j] by {
            if j < i {
                assert(out@[j] == before@[j]);
                assert(param_args_view(before)[j] == param_args_view(*v)[j]);
            }
        }
    }
    assert(param_args_view(out) =~= param_args_view(*v));
    out
}

pub fn same_param_args(a: &Vec<MirParamArg>, b: &Vec<MirParamArg>) -> (r: bool)
    ensures
        r == (param_args_view(*a) == param_args_view(*b)),
    decreases a,
{
    if a.len() != b.len() {
        assert(param_args_view(*a).len() != param_args_view(*b).len());
        return false;
    }
    for i in 0..a.len()
        invariant
            a@.len() == b@.len(),
            forall|j: int| 0 <= j < i ==> param_args_view(*a)[j] == param_args_view(*b)[j],
    {
        if !(a[i].same(&b[i])) {
            assert(param_args_view(*a)[i as int] != param_args_view(*b)[i as int]);
            return false;
        }
    }
    assert(param_args_view(*a) =~= param_args_view(*b));
    true
}

pub fn copy_regs(v: &Vec<Reg>) -> (r: Vec<Reg>)
    ensures
        r@ == v@,
{
    let mut out: Vec<Reg> = Vec::new();
    for i in 0..v.len()
        invariant
            out@ == v@.take(i as int),
    {
        assert(v@.take(i as int + 1) =~= v@.take(i as int).push(v@[i as int]));
        out.push(v[i]);
    }
    assert(v@.take(v@.len() as int) =~= v@);
    out
}

/// Model of a `Vec<(String, Reg)>`.
pub open spec fn string_regs_view(v: Vec<(String, Reg)>) -> Seq<(Seq<char>, Reg)>
    decreases v,
{
    Seq::new(v@.len(), |i: int| if 0 <= i < v@.len() { (v@[i].0@, v@[i].1) } else { arbitrary() })
}

pub fn copy_string_regs(v: &Vec<(String, Reg)>) -> (r: Vec<(String, Reg)>)
    ensures
        string_regs_view(r) == string_regs_view(*v),
    decreases v,
{
    let mut out: Vec<(String, Reg)> = Vec::new();
    for i in 0..v.len()
        invariant
            out@.len() == i,
            forall|j: int| 0 <= j < i ==> string_regs_view(out)[j] == string_regs_view(*v)[j],
    {
        let ghost before = out;
        out.push((v[i].0.clone(), v[i].1));
        assert forall|j: int| 0 <= j < i + 1 implies string_regs_view(out)[j] == string_regs_view(*v)[j] by {
            if j < i {
                assert(out@[j] == before@[j]);
                assert(string_regs_view(before)[j] == string_regs_view(*v)[j]);
            }
        }
    }
    assert(string_regs_view(out) =~= string_regs_view(*v));
    out
}

/// Model of a `Vec<MirSubscriptArg>`.
pub open spec fn subscript_args_view(v: Vec<MirSubscriptArg>) -> Seq<MirSubscriptArgModel>
    decreases v,
{
    Seq::new(v@.len(), |i: int| if 0 <= i < v@.len() { subscript_arg_view(v@[i]) } else { arbitrary() })
}

pub fn copy_subscript_args(v: &Vec<MirSubscriptArg>) -> (r: Vec<MirSubscriptArg>)
    ensures
        subscript_args_view(r) == subscript_args_view(*v),
    decreases v,
{
    let mut out: Vec<MirSubscriptArg> = Vec::new();
    for i in 0..v.len()
        invariant
            out@.len() == i,
            forall|j: int| 0 <= j < i ==> subscript_args_view(out)[j] == subscript_args_view(*v)[j],
    {
        let ghost before = out;
        out.push(v[i].copy());
        assert forall|j: int| 0 <= j < i + 1 implies subscript_args_view(out)[j] == subscript_args_view(*v)[j] by {
            if j < i {
                assert(out@[j] == before@[j]);
                assert(subscript_args_view(before)[j] == subscript_args_view(*v)[j]);
            }
        }
    }
    assert(subscript_args_view(out) =~= subscript_args_view(*v));
    out
}

/// Model of a `Vec<(String, MirSubscriptArg)>`.
pub open spec fn string_subscript_args_view(
    v: Vec<(String, MirSubscriptArg)>
) -> Seq<(Seq<char>, MirSubscriptArgModel)>
    decreases v,
{
    Seq::new(
        v@.len(),
        |i: int| if 0 <= i < v@.len() { (v@[i].0@, subscript_arg_view(v@[i].1)) } else { arbitrary() },
    )
}

pub fn copy_string_subscript_args(v: &Vec<(String, MirSubscriptArg)>) -> (r: Vec<(String, MirSubscriptArg)>)
    ensures
        string_subscript_args_view(r) == string_subscript_args_view(*v),
    decreases v,
{
    let mut out: Vec<(String, MirSubscriptArg)> = Vec::new();
    for i in 0..v.len()
        invariant
            out@.len() == i,
            forall|j: int| 0 <= j < i ==> string_subscript_args_view(out)[j] == string_subscript_args_view(*v)[j],
    {
        let ghost before = out;
        out.push((v[i].0.clone(), v[i].1.copy()));
        assert forall|j: int| 0 <= j < i + 1 implies string_subscript_args_view(out)[j] == string_subscript_args_view(*v)[j] by {
            if j < i {
                assert(out@[j] == before@[j]);
                assert(string_subscript_args_view(before)[j] == string_subscript_args_view(*v)[j]);
            }
        }
    }
    assert(string_subscript_args_view(out) =~= string_subscript_args_view(*v));
    out
}

/// Model of a `Vec<Option<MirPlace>>`.
pub open spec fn opt_places_view(v: Vec<Option<MirPlace>>) -> Seq<Option<MirPlaceModel>>
    decreases v,
{
    Seq::new(
        v@.len(),
        |i: int| if 0 <= i < v@.len() { match v@[i] { Some(x) => Some(place_view(x)), None => None } } else { arbitrary() },
    )
}

pub fn copy_opt_places(v: &Vec<Option<MirPlace>>) -> (r: Vec<Option<MirPlace>>)
    ensures
        opt_places_view(r) == opt_places_view(*v),
    decreases v,
{
    let mut out: Vec<Option<MirPlace>> = Vec::new();
    for i in 0..v.len()
        invariant
            out@.len() == i,
            forall|j: int| 0 <= j < i ==> opt_places_view(out)[j] == opt_places_view(*v)[j],
    {
        let ghost before = out;
        out.push(copy_opt_place(&v[i]));
        assert forall|j: int| 0 <= j < i + 1 implies opt_places_view(out)[j] == opt_places_view(*v)[j] by {
            if j < i {
                assert(out@[j] == before@[j]);
                assert(opt_places_view(before)[j] == opt_places_view(*v)[j]);
            }
        }
    }
    assert(opt_places_view(out) =~= opt_places_view(*v));
    out
}

/// Model of a `Vec<MirLoan>`.
pub open spec fn loans_view(v: Vec<MirLoan>) -> Seq<MirLoanModel>
    decreases v,
{
    Seq::new(v@.len(), |i: int| if 0 <= i < v@.len() { loan_view(v@[i]) } else { arbitrary() })
}

pub fn copy_loans(v: &Vec<MirLoan>) -> (r: Vec<MirLoan>)
    ensures
        loans_view(r) == loans_view(*v),
    decreases v,
{
    let mut out: Vec<MirLoan> = Vec::new();
    for i in 0..v.len()
        invariant
            out@.len() == i,
            forall|j: int| 0 <= j < i ==> loans_view(out)[j] == loans_view(*v)[j],
    {
        let ghost before = out;
        out.push(v[i].copy());
        assert forall|j: int| 0 <= j < i + 1 implies loans_view(out)[j] == loans_view(*v)[j] by {
            if j < i {
                assert(out@[j] == before@[j]);
                assert(loans_view(before)[j] == loans_view(*v)[j]);
            }
        }
    }
    assert(loans_view(out) =~= loans_view(*v));
    out
}

/// Model of an `Option<MirPlace>`.
pub open spec fn opt_place_view(v: Option<MirPlace>) -> Option<MirPlaceModel> {
    match v {
        Some(x) => Some(place_view(x)),
        None => None,
    }
}

pub fn copy_opt_place(v: &Option<MirPlace>) -> (r: Option<MirPlace>)
    ensures
        opt_place_view(r) == opt_place_view(*v),
    decreases v,
{
    match v {
        Some(x) => Some(x.copy()),
        None => None,
    }
}

/// Model of an `Option<MirSubscriptCall>`.
pub open spec fn opt_subscript_call_view(v: Option<MirSubscriptCall>) -> Option<MirSubscriptCallModel> {
    match v {
        Some(x) => Some(subscript_call_view(x)),
        None => None,
    }
}

pub fn copy_opt_subscript_call(v: &Option<MirSubscriptCall>) -> (r: Option<MirSubscriptCall>)
    ensures
        opt_subscript_call_view(r) == opt_subscript_call_view(*v),
    decreases v,
{
    match v {
        Some(x) => Some(x.copy()),
        None => None,
    }
}

/// Model of a `Vec<MirCapture>`.
pub open spec fn captures_view(v: Vec<MirCapture>) -> Seq<MirCaptureModel>
    decreases v,
{
    Seq::new(v@.len(), |i: int| if 0 <= i < v@.len() { capture_view(v@[i]) } else { arbitrary() })
}

pub fn copy_captures(v: &Vec<MirCapture>) -> (r: Vec<MirCapture>)
    ensures
        captures_view(r) == captures_view(*v),
    decreases v,
{
    let mut out: Vec<MirCapture> = Vec::new();
    for i in 0..v.len()
        invariant
            out@.len() == i,
            forall|j: int| 0 <= j < i ==> captures_view(out)[j] == captures_view(*v)[j],
    {
        let ghost before = out;
        out.push(v[i].copy());
        assert forall|j: int| 0 <= j < i + 1 implies captures_view(out)[j] == captures_view(*v)[j] by {
            if j < i {
                assert(out@[j] == before@[j]);
                assert(captures_view(before)[j] == captures_view(*v)[j]);
            }
        }
    }
    assert(captures_view(out) =~= captures_view(*v));
    out
}

/// Model of a `Vec<MirBlock>`.
pub open spec fn blocks_view(v: Vec<MirBlock>) -> Seq<MirBlockModel>
    decreases v,
{
    Seq::new(v@.len(), |i: int| if 0 <= i < v@.len() { block_view(v@[i]) } else { arbitrary() })
}

pub fn copy_blocks(v: &Vec<MirBlock>) -> (r: Vec<MirBlock>)
    ensures
        blocks_view(r) == blocks_view(*v),
    decreases v,
{
    let mut out: Vec<MirBlock> = Vec::new();
    for i in 0..v.len()
        invariant
            out@.len() == i,
            forall|j: int| 0 <= j < i ==> blocks_view(out)[j] == blocks_view(*v)[j],
    {
        let ghost before = out;
        out.push(v[i].copy());
        assert forall|j: int| 0 <= j < i + 1 implies blocks_view(out)[j] == blocks_view(*v)[j] by {
            if j < i {
                assert(out@[j] == before@[j]);
                assert(blocks_view(before)[j] == blocks_view(*v)[j]);
            }
        }
    }
    assert(blocks_view(out) =~= blocks_view(*v));
    out
}

/// Model of an `Option<(Option<u32>, Vec<MirBlock>)>`.
pub open spec fn opt_opt_u32_blocks_view(
    v: Option<(Option<u32>, Vec<MirBlock>)>
) -> Option<(Option<u32>, Seq<MirBlockModel>)> {
    match v {
        Some(x) => Some((x.0, blocks_view(x.1))),
        None => None,
    }
}

pub fn copy_opt_opt_u32_blocks(
    v: &Option<(Option<u32>, Vec<MirBlock>)>
) -> (r: Option<(Option<u32>, Vec<MirBlock>)>)
    ensures
        opt_opt_u32_blocks_view(r) == opt_opt_u32_blocks_view(*v),
    decreases v,
{
    match v {
        Some(x) => Some((x.0, copy_blocks(&x.1))),
        None => None,
    }
}

/// Model of an `Option<Vec<MirBlock>>`.
pub open spec fn opt_blocks_view(v: Option<Vec<MirBlock>>) -> Option<Seq<MirBlockModel>> {
    match v {
        Some(x) => Some(blocks_view(x)),
        None => None,
    }
}

pub fn copy_opt_blocks(v: &Option<Vec<MirBlock>>) -> (r: Option<Vec<MirBlock>>)
    ensures
        opt_blocks_view(r) == opt_blocks_view(*v),
    decreases v,
{
    match v {
        Some(x) => Some(copy_blocks(x)),
        None => None,
    }
}

/// Model of a `Vec<MirInstr>`.
pub open spec fn instrs_view(v: Vec<MirInstr>) -> Seq<MirInstrModel>
    decreases v,
{
    Seq::new(v@.len(), |i: int| if 0 <= i < v@.len() { instr_view(v@[i]) } else { arbitrary() })
}

pub fn copy_instrs(v: &Vec<MirInstr>) -> (r: Vec<MirInstr>)
    ensures
        instrs_view(r) == instrs_view(*v),
    decreases v,
{
    let mut out: Vec<MirInstr> = Vec::new();
    for i in 0..v.len()
        invariant
            out@.len() == i,
            forall|j: int| 0 <= j < i ==> instrs_view(out)[j] == instrs_view(*v)[j],
    {
        let ghost before = out;
        out.push(v[i].copy());
        assert forall|j: int| 0 <= j < i + 1 implies instrs_view(out)[j] == instrs_view(*v)[j] by {
            if j < i {
                assert(out@[j] == before@[j]);
                assert(instrs_view(before)[j] == instrs_view(*v)[j]);
            }
        }
    }
    assert(instrs_view(out) =~= instrs_view(*v));
    out
}

/// Model of a `Vec<MirStructDeclaration>`.
pub open spec fn struct_declarations_view(v: Vec<MirStructDeclaration>) -> Seq<MirStructDeclarationModel>
    decreases v,
{
    Seq::new(v@.len(), |i: int| if 0 <= i < v@.len() { struct_declaration_view(v@[i]) } else { arbitrary() })
}

pub fn copy_struct_declarations(v: &Vec<MirStructDeclaration>) -> (r: Vec<MirStructDeclaration>)
    ensures
        struct_declarations_view(r) == struct_declarations_view(*v),
    decreases v,
{
    let mut out: Vec<MirStructDeclaration> = Vec::new();
    for i in 0..v.len()
        invariant
            out@.len() == i,
            forall|j: int| 0 <= j < i ==> struct_declarations_view(out)[j] == struct_declarations_view(*v)[j],
    {
        let ghost before = out;
        out.push(v[i].copy());
        assert forall|j: int| 0 <= j < i + 1 implies struct_declarations_view(out)[j] == struct_declarations_view(*v)[j] by {
            if j < i {
                assert(out@[j] == before@[j]);
                assert(struct_declarations_view(before)[j] == struct_declarations_view(*v)[j]);
            }
        }
    }
    assert(struct_declarations_view(out) =~= struct_declarations_view(*v));
    out
}

pub fn same_struct_declarations(a: &Vec<MirStructDeclaration>, b: &Vec<MirStructDeclaration>) -> (r: bool)
    ensures
        r == (struct_declarations_view(*a) == struct_declarations_view(*b)),
    decreases a,
{
    if a.len() != b.len() {
        assert(struct_declarations_view(*a).len() != struct_declarations_view(*b).len());
        return false;
    }
    for i in 0..a.len()
        invariant
            a@.len() == b@.len(),
            forall|j: int| 0 <= j < i ==> struct_declarations_view(*a)[j] == struct_declarations_view(*b)[j],
    {
        if !(a[i].same(&b[i])) {
            assert(struct_declarations_view(*a)[i as int] != struct_declarations_view(*b)[i as int]);
            return false;
        }
    }
    assert(struct_declarations_view(*a) =~= struct_declarations_view(*b));
    true
}

/// Model of a `Vec<MirFunctionDeclaration>`.
pub open spec fn function_declarations_view(
    v: Vec<MirFunctionDeclaration>
) -> Seq<MirFunctionDeclarationModel>
    decreases v,
{
    Seq::new(
        v@.len(),
        |i: int| if 0 <= i < v@.len() { function_declaration_view(v@[i]) } else { arbitrary() },
    )
}

pub fn copy_function_declarations(v: &Vec<MirFunctionDeclaration>) -> (r: Vec<MirFunctionDeclaration>)
    ensures
        function_declarations_view(r) == function_declarations_view(*v),
    decreases v,
{
    let mut out: Vec<MirFunctionDeclaration> = Vec::new();
    for i in 0..v.len()
        invariant
            out@.len() == i,
            forall|j: int| 0 <= j < i ==> function_declarations_view(out)[j] == function_declarations_view(*v)[j],
    {
        let ghost before = out;
        out.push(v[i].copy());
        assert forall|j: int| 0 <= j < i + 1 implies function_declarations_view(out)[j] == function_declarations_view(*v)[j] by {
            if j < i {
                assert(out@[j] == before@[j]);
                assert(function_declarations_view(before)[j] == function_declarations_view(*v)[j]);
            }
        }
    }
    assert(function_declarations_view(out) =~= function_declarations_view(*v));
    out
}

pub fn same_function_declarations(
    a: &Vec<MirFunctionDeclaration>,
    b: &Vec<MirFunctionDeclaration>,
) -> (r: bool)
    ensures
        r == (function_declarations_view(*a) == function_declarations_view(*b)),
    decreases a,
{
    if a.len() != b.len() {
        assert(function_declarations_view(*a).len() != function_declarations_view(*b).len());
        return false;
    }
    for i in 0..a.len()
        invariant
            a@.len() == b@.len(),
            forall|j: int| 0 <= j < i ==> function_declarations_view(*a)[j] == function_declarations_view(*b)[j],
    {
        if !(a[i].same(&b[i])) {
            assert(function_declarations_view(*a)[i as int] != function_declarations_view(*b)[i as int]);
            return false;
        }
    }
    assert(function_declarations_view(*a) =~= function_declarations_view(*b));
    true
}

/// Model of a `Vec<(String, MirFunction)>`.
pub open spec fn string_functions_view(v: Vec<(String, MirFunction)>) -> Seq<(Seq<char>, MirFunctionModel)>
    decreases v,
{
    Seq::new(
        v@.len(),
        |i: int| if 0 <= i < v@.len() { (v@[i].0@, function_view(v@[i].1)) } else { arbitrary() },
    )
}

pub fn copy_string_functions(v: &Vec<(String, MirFunction)>) -> (r: Vec<(String, MirFunction)>)
    ensures
        string_functions_view(r) == string_functions_view(*v),
    decreases v,
{
    let mut out: Vec<(String, MirFunction)> = Vec::new();
    for i in 0..v.len()
        invariant
            out@.len() == i,
            forall|j: int| 0 <= j < i ==> string_functions_view(out)[j] == string_functions_view(*v)[j],
    {
        let ghost before = out;
        out.push((v[i].0.clone(), v[i].1.copy()));
        assert forall|j: int| 0 <= j < i + 1 implies string_functions_view(out)[j] == string_functions_view(*v)[j] by {
            if j < i {
                assert(out@[j] == before@[j]);
                assert(string_functions_view(before)[j] == string_functions_view(*v)[j]);
            }
        }
    }
    assert(string_functions_view(out) =~= string_functions_view(*v));
    out
}

} // verus!
