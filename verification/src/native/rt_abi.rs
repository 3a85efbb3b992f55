//! The runtime C ABI contract table: every symbol and C-layout type the runtime
//! exports.
//!
//! The runtime ABI passes only primitives and pointers by value; aggregates cross
//! as pointers.

use crate::native::layout::{
    Layout, StructLayout, aggregate_size, aligned_fields, compose, field_offset, fields_align,
    fields_end, is_composition, pointer_layout, round_up,
};
use crate::native::target::NativeTarget;
use crate::text::str_eq;
use vstd::prelude::*;

verus! {

/// The runtime ABI version this compiler emits against.
pub const MJRT_ABI_VERSION: u32 = 1;

/// The exported data symbol carrying the runtime's ABI version.
pub const ABI_VERSION_SYMBOL: &'static str = "mjrt_abi_version";

/// Trap categories, encoded in trap-block exit codes.
pub const TRAP_DIV_MOD_ZERO: u32 = 1;

pub const TRAP_POW_EXPONENT: u32 = 2;

pub const TRAP_ALLOC_FAILURE: u32 = 3;

pub const TRAP_STDOUT_FAILURE: u32 = 4;

/// Tag values of tagged success/error outcomes.
pub const MJ_TAG_OK: u32 = 0;

pub const MJ_TAG_ERR: u32 = 1;

/// A primitive of the runtime C ABI. Exported functions pass and return only
/// these; aggregates cross the boundary as pointers.
#[derive(Debug, Clone, Copy, PartialEq, Eq, Structural)]
pub enum CAbiTy {
    U32,
    U64,
    I64,
    F64,
    PtrConstU8,
    PtrMutU8,
}

/// The layout of a primitive on every supported target.
pub open spec fn abi_layout(ty: CAbiTy) -> Layout {
    match ty {
        CAbiTy::U32 => Layout { size: 4, align: 4 },
        CAbiTy::U64 | CAbiTy::I64 | CAbiTy::F64 => Layout { size: 8, align: 8 },
        CAbiTy::PtrConstU8 | CAbiTy::PtrMutU8 => pointer_layout(),
    }
}

impl CAbiTy {
    /// The layout of the primitive.
    pub fn layout(self, target: &NativeTarget) -> (r: Layout)
        ensures
            r == abi_layout(self),
    {
        match self {
            CAbiTy::U32 => Layout::new(4, 4),
            CAbiTy::U64 | CAbiTy::I64 | CAbiTy::F64 => Layout::new(8, 8),
            CAbiTy::PtrConstU8 | CAbiTy::PtrMutU8 => {
                Layout::new(target.triple.pointer_size(), target.triple.pointer_align())
            },
        }
    }
}

/// The complete contract of one exported runtime function.
#[derive(Debug)]
pub struct RtSig {
    pub symbol: &'static str,
    pub params: Vec<(&'static str, CAbiTy)>,
    /// `None` for functions that return nothing or never return.
    pub ret: Option<CAbiTy>,
    pub noreturn: bool,
    /// The ABI version that introduced this symbol.
    pub since: u32,
    /// Who owns pointed-to memory, and nullability of every pointer.
    pub ownership: &'static str,
    /// What happens when the operation cannot complete.
    pub failure: &'static str,
}

/// Mathematical model of [`RtSig`].
#[verifier::ext_equal]
pub struct RtSigModel {
    pub symbol: Seq<char>,
    pub params: Seq<(Seq<char>, CAbiTy)>,
    pub ret: Option<CAbiTy>,
    pub noreturn: bool,
    pub since: u32,
    pub ownership: Seq<char>,
    pub failure: Seq<char>,
}

/// The model of a parameter list.
pub open spec fn abi_params_view(params: Seq<(&'static str, CAbiTy)>) -> Seq<(Seq<char>, CAbiTy)> {
    params.map_values(|p: (&'static str, CAbiTy)| (p.0@, p.1))
}

impl View for RtSig {
    type V = RtSigModel;

    open spec fn view(&self) -> RtSigModel {
        RtSigModel {
            symbol: self.symbol@,
            params: abi_params_view(self.params@),
            ret: self.ret,
            noreturn: self.noreturn,
            since: self.since,
            ownership: self.ownership@,
            failure: self.failure@,
        }
    }
}

/// A field of an exported type: a primitive, or another exported type by name.
#[derive(Debug, Clone, Copy)]
pub enum RtFieldTy {
    Prim(CAbiTy),
    Named(&'static str),
}

/// One field of an exported type.
#[derive(Debug, Clone, Copy)]
pub struct RtField {
    pub name: &'static str,
    pub ty: RtFieldTy,
}

/// Mathematical model of [`RtFieldTy`].
#[verifier::ext_equal]
pub enum RtFieldTyModel {
    Prim(CAbiTy),
    Named(Seq<char>),
}

/// The model of a field type.
pub open spec fn rt_field_ty_view(ty: RtFieldTy) -> RtFieldTyModel {
    match ty {
        RtFieldTy::Prim(prim) => RtFieldTyModel::Prim(prim),
        RtFieldTy::Named(name) => RtFieldTyModel::Named(name@),
    }
}

/// The complete layout contract of one exported type.
#[derive(Debug)]
pub struct RtTypeSpec {
    pub name: &'static str,
    pub fields: Vec<RtField>,
}

/// Mathematical model of [`RtTypeSpec`].
#[verifier::ext_equal]
pub struct RtTypeModel {
    pub name: Seq<char>,
    pub fields: Seq<(Seq<char>, RtFieldTyModel)>,
}

/// The model of a field list.
pub open spec fn rt_fields_view(fields: Seq<RtField>) -> Seq<(Seq<char>, RtFieldTyModel)> {
    fields.map_values(|f: RtField| (f.name@, rt_field_ty_view(f.ty)))
}

impl View for RtTypeSpec {
    type V = RtTypeModel;

    open spec fn view(&self) -> RtTypeModel {
        RtTypeModel { name: self.name@, fields: rt_fields_view(self.fields@) }
    }
}

/// The contract of `mjrt_version`.
pub open spec fn version_model() -> RtSigModel {
    RtSigModel {
        symbol: "mjrt_version"@,
        params: seq![],
        ret: Some(CAbiTy::U32),
        noreturn: false,
        since: 1,
        ownership: "no pointers"@,
        failure: "never fails"@,
    }
}

fn version_sig() -> (r: RtSig)
    ensures
        r@ == version_model(),
{
    let mut params: Vec<(&'static str, CAbiTy)> = Vec::new();
    let r: RtSig = RtSig {
        symbol: "mjrt_version",
        params,
        ret: Some(CAbiTy::U32),
        noreturn: false,
        since: 1,
        ownership: "no pointers",
        failure: "never fails",
    };
    assert(r@.params =~= version_model().params);
    r
}

/// The contract of `mjrt_alloc`.
pub open spec fn alloc_model() -> RtSigModel {
    RtSigModel {
        symbol: "mjrt_alloc"@,
        params: seq![("size"@, CAbiTy::U64), ("align"@, CAbiTy::U64)],
        ret: Some(CAbiTy::PtrMutU8),
        noreturn: false,
        since: 1,
        ownership: "caller owns the result; release via mjrt_dealloc with the same size/align; zero size returns an aligned dangling pointer; never null"@,
        failure: "traps (allocation-failure) on exhaustion or invalid align"@,
    }
}

fn alloc_sig() -> (r: RtSig)
    ensures
        r@ == alloc_model(),
{
    let mut params: Vec<(&'static str, CAbiTy)> = Vec::new();
    params.push(("size", CAbiTy::U64));
    params.push(("align", CAbiTy::U64));
    let r: RtSig = RtSig {
        symbol: "mjrt_alloc",
        params,
        ret: Some(CAbiTy::PtrMutU8),
        noreturn: false,
        since: 1,
        ownership: "caller owns the result; release via mjrt_dealloc with the same size/align; zero size returns an aligned dangling pointer; never null",
        failure: "traps (allocation-failure) on exhaustion or invalid align",
    };
    assert(r@.params =~= alloc_model().params);
    r
}

/// The contract of `mjrt_dealloc`.
pub open spec fn dealloc_model() -> RtSigModel {
    RtSigModel {
        symbol: "mjrt_dealloc"@,
        params: seq![("ptr"@, CAbiTy::PtrMutU8), ("size"@, CAbiTy::U64), ("align"@, CAbiTy::U64)],
        ret: None,
        noreturn: false,
        since: 1,
        ownership: "consumes an mjrt_alloc allocation; null ptr or zero size is a no-op"@,
        failure: "undefined on a size/align mismatch (contract violation)"@,
    }
}

fn dealloc_sig() -> (r: RtSig)
    ensures
        r@ == dealloc_model(),
{
    let mut params: Vec<(&'static str, CAbiTy)> = Vec::new();
    params.push(("ptr", CAbiTy::PtrMutU8));
    params.push(("size", CAbiTy::U64));
    params.push(("align", CAbiTy::U64));
    let r: RtSig = RtSig {
        symbol: "mjrt_dealloc",
        params,
        ret: None,
        noreturn: false,
        since: 1,
        ownership: "consumes an mjrt_alloc allocation; null ptr or zero size is a no-op",
        failure: "undefined on a size/align mismatch (contract violation)",
    };
    assert(r@.params =~= dealloc_model().params);
    r
}

/// The contract of `mjrt_write_stdout`.
pub open spec fn write_stdout_model() -> RtSigModel {
    RtSigModel {
        symbol: "mjrt_write_stdout"@,
        params: seq![("data"@, CAbiTy::PtrConstU8), ("len"@, CAbiTy::U64)],
        ret: None,
        noreturn: false,
        since: 1,
        ownership: "borrows data for the call; data may be null only when len is 0"@,
        failure: "traps (stdout-failure) on a write error; retries interrupts"@,
    }
}

fn write_stdout_sig() -> (r: RtSig)
    ensures
        r@ == write_stdout_model(),
{
    let mut params: Vec<(&'static str, CAbiTy)> = Vec::new();
    params.push(("data", CAbiTy::PtrConstU8));
    params.push(("len", CAbiTy::U64));
    let r: RtSig = RtSig {
        symbol: "mjrt_write_stdout",
        params,
        ret: None,
        noreturn: false,
        since: 1,
        ownership: "borrows data for the call; data may be null only when len is 0",
        failure: "traps (stdout-failure) on a write error; retries interrupts",
    };
    assert(r@.params =~= write_stdout_model().params);
    r
}

/// The contract of `mjrt_fmt_i64`.
pub open spec fn fmt_i64_model() -> RtSigModel {
    RtSigModel {
        symbol: "mjrt_fmt_i64"@,
        params: seq![("value"@, CAbiTy::I64), ("out"@, CAbiTy::PtrMutU8)],
        ret: Some(CAbiTy::U64),
        noreturn: false,
        since: 1,
        ownership: "borrows out (>= 20 writable bytes, caller-owned); returns bytes written, no NUL terminator"@,
        failure: "never fails"@,
    }
}

fn fmt_i64_sig() -> (r: RtSig)
    ensures
        r@ == fmt_i64_model(),
{
    let mut params: Vec<(&'static str, CAbiTy)> = Vec::new();
    params.push(("value", CAbiTy::I64));
    params.push(("out", CAbiTy::PtrMutU8));
    let r: RtSig = RtSig {
        symbol: "mjrt_fmt_i64",
        params,
        ret: Some(CAbiTy::U64),
        noreturn: false,
        since: 1,
        ownership: "borrows out (>= 20 writable bytes, caller-owned); returns bytes written, no NUL terminator",
        failure: "never fails",
    };
    assert(r@.params =~= fmt_i64_model().params);
    r
}

/// The contract of `mjrt_fmt_u64`.
pub open spec fn fmt_u64_model() -> RtSigModel {
    RtSigModel {
        symbol: "mjrt_fmt_u64"@,
        params: seq![("value"@, CAbiTy::U64), ("out"@, CAbiTy::PtrMutU8)],
        ret: Some(CAbiTy::U64),
        noreturn: false,
        since: 1,
        ownership: "borrows out (>= 20 writable bytes, caller-owned); returns bytes written, no NUL terminator"@,
        failure: "never fails"@,
    }
}

fn fmt_u64_sig() -> (r: RtSig)
    ensures
        r@ == fmt_u64_model(),
{
    let mut params: Vec<(&'static str, CAbiTy)> = Vec::new();
    params.push(("value", CAbiTy::U64));
    params.push(("out", CAbiTy::PtrMutU8));
    let r: RtSig = RtSig {
        symbol: "mjrt_fmt_u64",
        params,
        ret: Some(CAbiTy::U64),
        noreturn: false,
        since: 1,
        ownership: "borrows out (>= 20 writable bytes, caller-owned); returns bytes written, no NUL terminator",
        failure: "never fails",
    };
    assert(r@.params =~= fmt_u64_model().params);
    r
}

/// The contract of `mjrt_fmt_f64`.
pub open spec fn fmt_f64_model() -> RtSigModel {
    RtSigModel {
        symbol: "mjrt_fmt_f64"@,
        params: seq![("value"@, CAbiTy::F64), ("out"@, CAbiTy::PtrMutU8)],
        ret: Some(CAbiTy::U64),
        noreturn: false,
        since: 1,
        ownership: "borrows out (>= 32 writable bytes, caller-owned); returns bytes written, no NUL terminator; text matches the VM's Float64 display"@,
        failure: "never fails"@,
    }
}

fn fmt_f64_sig() -> (r: RtSig)
    ensures
        r@ == fmt_f64_model(),
{
    let mut params: Vec<(&'static str, CAbiTy)> = Vec::new();
    params.push(("value", CAbiTy::F64));
    params.push(("out", CAbiTy::PtrMutU8));
    let r: RtSig = RtSig {
        symbol: "mjrt_fmt_f64",
        params,
        ret: Some(CAbiTy::U64),
        noreturn: false,
        since: 1,
        ownership: "borrows out (>= 32 writable bytes, caller-owned); returns bytes written, no NUL terminator; text matches the VM's Float64 display",
        failure: "never fails",
    };
    assert(r@.params =~= fmt_f64_model().params);
    r
}

/// The contract of `mjrt_trap`.
pub open spec fn trap_model() -> RtSigModel {
    RtSigModel {
        symbol: "mjrt_trap"@,
        params: seq![("category"@, CAbiTy::U32)],
        ret: None,
        noreturn: true,
        since: 1,
        ownership: "no pointers"@,
        failure: "always: reports on stderr and exits with 64 + category (clamped to 127)"@,
    }
}

fn trap_sig() -> (r: RtSig)
    ensures
        r@ == trap_model(),
{
    let mut params: Vec<(&'static str, CAbiTy)> = Vec::new();
    params.push(("category", CAbiTy::U32));
    let r: RtSig = RtSig {
        symbol: "mjrt_trap",
        params,
        ret: None,
        noreturn: true,
        since: 1,
        ownership: "no pointers",
        failure: "always: reports on stderr and exits with 64 + category (clamped to 127)",
    };
    assert(r@.params =~= trap_model().params);
    r
}

/// Every function symbol the runtime exports, in stable declaration order.
pub open spec fn symbols_model() -> Seq<RtSigModel> {
    seq![
        version_model(),
        alloc_model(),
        dealloc_model(),
        write_stdout_model(),
        fmt_i64_model(),
        fmt_u64_model(),
        fmt_f64_model(),
        trap_model(),
    ]
}

/// The models of contracts.
pub open spec fn rt_sigs_view(sigs: Seq<RtSig>) -> Seq<RtSigModel> {
    sigs.map_values(|s: RtSig| s@)
}

/// Every function symbol the runtime exports, in stable declaration order.
pub fn rt_symbols() -> (r: Vec<RtSig>)
    ensures
        rt_sigs_view(r@) == symbols_model(),
{
    let mut r: Vec<RtSig> = Vec::new();
    r.push(version_sig());
    r.push(alloc_sig());
    r.push(dealloc_sig());
    r.push(write_stdout_sig());
    r.push(fmt_i64_sig());
    r.push(fmt_u64_sig());
    r.push(fmt_f64_sig());
    r.push(trap_sig());
    assert(rt_sigs_view(r@) =~= symbols_model());
    r
}

/// Exported data symbols, in stable declaration order.
pub fn rt_data_symbols() -> (r: Vec<(&'static str, CAbiTy)>)
    ensures
        r@.len() == 1,
        r@[0].0@ == "mjrt_abi_version"@,
        r@[0].1 == CAbiTy::U32,
{
    let mut r: Vec<(&'static str, CAbiTy)> = Vec::new();
    r.push(("mjrt_abi_version", CAbiTy::U32));
    r
}

/// Looks up a function contract by symbol name.
pub fn find_symbol(symbol: &str) -> (r: Option<RtSig>)
    ensures
        match r {
            Some(sig) => sig@.symbol == symbol@ && symbols_model().contains(sig@),
            None => forall|i: int| 0 <= i < symbols_model().len() ==> (#[trigger] symbols_model()[i]).symbol != symbol@,
        },
{
    let mut sigs: Vec<RtSig> = rt_symbols();
    let ghost table = symbols_model();
    assert(table.take(table.len() as int) =~= table);
    while sigs.len() > 0
        invariant
            table == symbols_model(),
            sigs@.len() <= table.len(),
            rt_sigs_view(sigs@) == table.take(sigs@.len() as int),
            forall|i: int| sigs@.len() <= i < table.len() ==> (#[trigger] table[i]).symbol != symbol@,
        decreases sigs@.len(),
    {
        let ghost n = sigs@.len();
        let ghost before = sigs@;
        if let Some(sig) = sigs.pop() {
            proof {
                assert(rt_sigs_view(before)[n - 1] == sig@);
                assert(table[n - 1] == sig@);
                assert(rt_sigs_view(sigs@) =~= table.take(n - 1)) by {
                    assert(rt_sigs_view(before).drop_last() =~= rt_sigs_view(sigs@));
                    assert(table.take(n as int).drop_last() =~= table.take(n - 1));
                }
            }
            if str_eq(sig.symbol, symbol) {
                return Some(sig);
            }
        }
    }
    None
}

/// The contract of `MjStrDesc`.
pub open spec fn mjstrdesc_model() -> RtTypeModel {
    RtTypeModel {
        name: "MjStrDesc"@,
        fields: seq![
            ("data"@, RtFieldTyModel::Prim(CAbiTy::PtrConstU8)),
            ("len"@, RtFieldTyModel::Prim(CAbiTy::U64)),
        ],
    }
}

fn mjstrdesc_spec() -> (r: RtTypeSpec)
    ensures
        r@ == mjstrdesc_model(),
{
    let mut fields: Vec<RtField> = Vec::new();
    fields.push(RtField { name: "data", ty: RtFieldTy::Prim(CAbiTy::PtrConstU8) });
    fields.push(RtField { name: "len", ty: RtFieldTy::Prim(CAbiTy::U64) });
    let r: RtTypeSpec = RtTypeSpec { name: "MjStrDesc", fields };
    assert(r@.fields =~= mjstrdesc_model().fields);
    r
}

/// The contract of `MjString`.
pub open spec fn mjstring_model() -> RtTypeModel {
    RtTypeModel {
        name: "MjString"@,
        fields: seq![
            ("data"@, RtFieldTyModel::Prim(CAbiTy::PtrMutU8)),
            ("size"@, RtFieldTyModel::Prim(CAbiTy::I64)),
            ("cap"@, RtFieldTyModel::Prim(CAbiTy::I64)),
        ],
    }
}

fn mjstring_spec() -> (r: RtTypeSpec)
    ensures
        r@ == mjstring_model(),
{
    let mut fields: Vec<RtField> = Vec::new();
    fields.push(RtField { name: "data", ty: RtFieldTy::Prim(CAbiTy::PtrMutU8) });
    fields.push(RtField { name: "size", ty: RtFieldTy::Prim(CAbiTy::I64) });
    fields.push(RtField { name: "cap", ty: RtFieldTy::Prim(CAbiTy::I64) });
    let r: RtTypeSpec = RtTypeSpec { name: "MjString", fields };
    assert(r@.fields =~= mjstring_model().fields);
    r
}

/// The contract of `MjError`.
pub open spec fn mjerror_model() -> RtTypeModel {
    RtTypeModel { name: "MjError"@, fields: seq![("message"@, RtFieldTyModel::Named("MjString"@))] }
}

fn mjerror_spec() -> (r: RtTypeSpec)
    ensures
        r@ == mjerror_model(),
{
    let mut fields: Vec<RtField> = Vec::new();
    fields.push(RtField { name: "message", ty: RtFieldTy::Named("MjString") });
    let r: RtTypeSpec = RtTypeSpec { name: "MjError", fields };
    assert(r@.fields =~= mjerror_model().fields);
    r
}

/// Every type the runtime exports, in stable declaration order. Each refers only
/// to earlier ones.
pub open spec fn types_model() -> Seq<RtTypeModel> {
    seq![mjstrdesc_model(), mjstring_model(), mjerror_model()]
}

/// The models of type contracts.
pub open spec fn rt_types_view(specs: Seq<RtTypeSpec>) -> Seq<RtTypeModel> {
    specs.map_values(|s: RtTypeSpec| s@)
}

/// Every type the runtime exports, in stable declaration order.
pub fn rt_types() -> (r: Vec<RtTypeSpec>)
    ensures
        rt_types_view(r@) == types_model(),
{
    let mut r: Vec<RtTypeSpec> = Vec::new();
    r.push(mjstrdesc_spec());
    r.push(mjstring_spec());
    r.push(mjerror_spec());
    assert(rt_types_view(r@) =~= types_model());
    r
}

/// The exported type with the name.
pub open spec fn type_named(name: Seq<char>) -> Option<RtTypeModel> {
    if name == "MjStrDesc"@ {
        Some(mjstrdesc_model())
    } else if name == "MjString"@ {
        Some(mjstring_model())
    } else if name == "MjError"@ {
        Some(mjerror_model())
    } else {
        None
    }
}

/// `type_named` finds exactly the rows of the table.
pub proof fn law_type_named(name: Seq<char>)
    ensures
        match type_named(name) {
            Some(t) => t.name == name && types_model().contains(t),
            None => forall|i: int| 0 <= i < types_model().len() ==> (#[trigger] types_model()[i]).name != name,
        },
{
    let table = types_model();
    assert(table[0] == mjstrdesc_model());
    assert(table[1] == mjstring_model());
    assert(table[2] == mjerror_model());
}

/// Looks up an exported type contract by name.
pub fn find_type(name: &str) -> (r: Option<RtTypeSpec>)
    ensures
        match r {
            Some(spec) => type_named(name@) == Some(spec@),
            None => type_named(name@) is None,
        },
{
    if str_eq(name, "MjStrDesc") {
        Some(mjstrdesc_spec())
    } else if str_eq(name, "MjString") {
        Some(mjstring_spec())
    } else if str_eq(name, "MjError") {
        Some(mjerror_spec())
    } else {
        None
    }
}

/// The layout of a field: of a primitive, or of the exported type it names. Only
/// `MjError` names another type.
pub open spec fn rt_field_layout(ty: RtFieldTyModel) -> Layout {
    match ty {
        RtFieldTyModel::Prim(prim) => abi_layout(prim),
        RtFieldTyModel::Named(name) => if name == "MjStrDesc"@ {
            Layout { size: 16, align: 8 }
        } else {
            Layout { size: 24, align: 8 }
        },
    }
}

/// The layouts of fields.
pub open spec fn rt_field_layouts(fields: Seq<(Seq<char>, RtFieldTyModel)>) -> Seq<Layout> {
    fields.map_values(|f: (Seq<char>, RtFieldTyModel)| rt_field_layout(f.1))
}

/// Every named field refers to an exported type.
pub open spec fn names_resolve(fields: Seq<(Seq<char>, RtFieldTyModel)>) -> bool {
    forall|i: int| 0 <= i < fields.len() ==> ((#[trigger] fields[i]).1 matches RtFieldTyModel::Named(name) ==> type_named(
        name,
    ) is Some)
}

/// The layout of a named field is the layout of the exported type it names.
pub proof fn law_named_layouts(name: Seq<char>)
    requires
        type_named(name) is Some,
    ensures
        ({
            let fields = rt_field_layouts(type_named(name)->Some_0.fields);
            let layout = rt_field_layout(RtFieldTyModel::Named(name));
            layout.size == aggregate_size(fields) && layout.align == fields_align(fields, fields.len() as int)
        }),
{
    reveal_with_fuel(fields_end, 4);
    reveal_with_fuel(field_offset, 4);
    reveal_with_fuel(fields_align, 4);
    reveal_strlit("MjStrDesc");
    reveal_strlit("MjString");
    assert("MjStrDesc"@.len() == 9);
    assert("MjString"@.len() == 8);
    let model = type_named(name)->Some_0;
    let fields = rt_field_layouts(model.fields);
    assert(round_up(0, 8) == 0);
    assert(round_up(8, 8) == 8);
    assert(round_up(16, 8) == 16);
    assert(round_up(24, 8) == 24);
    if name == "MjStrDesc"@ {
        assert(fields =~= seq![Layout { size: 8, align: 8 }, Layout { size: 8, align: 8 }]);
        assert(fields_end(fields, 0) == 0);
        assert(field_offset(fields, 0) == 0);
        assert(fields_end(fields, 1) == 8);
        assert(fields_align(fields, 1) == 8);
        assert(field_offset(fields, 1) == 8);
        assert(fields_end(fields, 2) == 16);
        assert(fields_align(fields, 2) == 8);
    } else if name == "MjString"@ {
        assert(
            fields =~= seq![
                Layout { size: 8, align: 8 },
                Layout { size: 8, align: 8 },
                Layout { size: 8, align: 8 },
            ]
        );
        assert(fields_end(fields, 0) == 0);
        assert(field_offset(fields, 0) == 0);
        assert(fields_end(fields, 1) == 8);
        assert(fields_align(fields, 1) == 8);
        assert(field_offset(fields, 1) == 8);
        assert(fields_end(fields, 2) == 16);
        assert(fields_align(fields, 2) == 8);
        assert(field_offset(fields, 2) == 16);
        assert(fields_end(fields, 3) == 24);
        assert(fields_align(fields, 3) == 8);
    } else {
        assert(fields =~= seq![Layout { size: 24, align: 8 }]);
        assert(fields_end(fields, 0) == 0);
        assert(field_offset(fields, 0) == 0);
        assert(fields_end(fields, 1) == 24);
        assert(fields_align(fields, 1) == 8);
    }
}

/// How deeply the names of a field type nest.
pub open spec fn rt_rank(ty: RtFieldTyModel) -> nat {
    match ty {
        RtFieldTyModel::Prim(_) => 0,
        RtFieldTyModel::Named(name) => if name == "MjStrDesc"@ || name == "MjString"@ { 1 } else { 2 },
    }
}

fn layout_to_depth(spec: &RtTypeSpec, target: &NativeTarget, depth: usize) -> (r: StructLayout)
    requires
        names_resolve(spec@.fields),
        forall|i: int| 0 <= i < spec@.fields.len() ==> rt_rank((#[trigger] spec@.fields[i]).1) <= depth,
        aggregate_size(rt_field_layouts(spec@.fields)) <= u64::MAX,
    ensures
        is_composition(r, rt_field_layouts(spec@.fields)),
    decreases depth,
{
    let mut layouts: Vec<Layout> = Vec::new();
    let ghost model = spec@.fields;
    for i in 0..spec.fields.len()
        invariant
            model == rt_fields_view(spec.fields@),
            names_resolve(model),
            forall|j: int| 0 <= j < model.len() ==> rt_rank((#[trigger] model[j]).1) <= depth,
            layouts@.len() == i,
            aligned_fields(layouts@),
            forall|j: int| 0 <= j < i ==> #[trigger] layouts@[j] == rt_field_layouts(model)[j],
        decreases spec.fields@.len() - i,
    {
        assert(model[i as int].1 == rt_field_ty_view(spec.fields@[i as int].ty));
        assert(rt_rank(model[i as int].1) <= depth);
        let layout: Layout = match spec.fields[i].ty {
            RtFieldTy::Prim(prim) => prim.layout(target),
            RtFieldTy::Named(name) => match find_type(name) {
                Some(inner) => {
                    proof {
                        lemma_inner(name@);
                    }
                    layout_to_depth(&inner, target, depth - 1).layout
                },
                None => Layout::zero(),
            },
        };
        layouts.push(layout);
    }
    assert(layouts@ =~= rt_field_layouts(model));
    compose(&layouts)
}

proof fn lemma_inner(name: Seq<char>)
    requires
        type_named(name) is Some,
    ensures
        ({
            let fields = type_named(name)->Some_0.fields;
            &&& names_resolve(fields)
            &&& forall|i: int|
                0 <= i < fields.len() ==> rt_rank((#[trigger] fields[i]).1) < rt_rank(RtFieldTyModel::Named(name))
            &&& aggregate_size(rt_field_layouts(fields)) == rt_field_layout(RtFieldTyModel::Named(name)).size
            &&& fields_align(
                rt_field_layouts(fields),
                fields.len() as int,
            ) == rt_field_layout(RtFieldTyModel::Named(name)).align
        }),
{
    law_named_layouts(name);
    reveal_strlit("MjStrDesc");
    reveal_strlit("MjString");
    reveal_strlit("MjError");
    assert("MjStrDesc"@.len() == 9);
    assert("MjString"@.len() == 8);
    assert("MjError"@.len() == 7);
    assert(type_named("MjString"@) is Some);
}

/// The target layout of an exported type, resolving named field references.
pub fn type_layout(spec: &RtTypeSpec, target: &NativeTarget) -> (r: StructLayout)
    requires
        names_resolve(spec@.fields),
        aggregate_size(rt_field_layouts(spec@.fields)) <= u64::MAX,
    ensures
        is_composition(r, rt_field_layouts(spec@.fields)),
{
    layout_to_depth(spec, target, 2)
}

} // verus!
