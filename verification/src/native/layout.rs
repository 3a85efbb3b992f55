//! The one native layout owner: sizes, alignments, offsets, and padding for
//! every runtime-representable checked type.
//!
//! Fields lay out in declaration order with C-style padding and no reordering; a
//! zero-sized type has size 0 and alignment 1; `Variant` is a 32-bit tag at
//! offset 0 with the payload overlay at the first payload-aligned offset;
//! pointers and references are one target pointer with origins erased.
//!
//! Types without a single native representation (vectors, open variadic packs,
//! callables, literal types that are not materialized) are rejected as unsupported
//! rather than guessed at.

use crate::mir::{MirDeclarations, MirStructDeclaration, MirStructDeclarationModel, struct_declarations_view};
use crate::native::target::NativeTarget;
use crate::outcome::{collect, lemma_collect_err, lemma_collect_ok};
use crate::table::NameMap;
use crate::text::{cat2, cat3};
use crate::types::{Ty, TyModel, string_tys_view, ty_text, tys_view};
use vstd::prelude::*;

verus! {

/// Size and alignment in bytes.
#[derive(Debug, Clone, Copy, PartialEq, Eq, Structural)]
pub struct Layout {
    pub size: u64,
    pub align: u64,
}

impl Layout {
    /// The layout of a zero-sized type.
    pub fn zero() -> (r: Layout)
        ensures
            r == (Layout { size: 0, align: 1 }),
    {
        Layout { size: 0, align: 1 }
    }

    /// A layout of this size and alignment.
    pub fn new(size: u64, align: u64) -> (r: Layout)
        ensures
            r == (Layout { size, align }),
    {
        Layout { size, align }
    }
}

/// An aggregate layout with the byte offset of every field, in declaration order.
#[derive(Debug, Clone, PartialEq, Eq)]
pub struct StructLayout {
    pub layout: Layout,
    pub offsets: Vec<u64>,
}

/// A tagged-union layout: a 32-bit tag at offset 0, every alternative's payload
/// overlaid at `payload_offset`.
#[derive(Debug, Clone, Copy, PartialEq, Eq, Structural)]
pub struct VariantLayout {
    pub layout: Layout,
    pub payload_offset: u64,
}

/// A layout the native ABI does not define. Backends must reject the construct
/// with a contextual diagnostic; they must not guess.
#[derive(Debug, Clone, PartialEq, Eq)]
pub enum LayoutError {
    Unsupported(String),
}

impl LayoutError {
    /// The message of the error.
    pub fn text(&self) -> (r: String)
        ensures
            r@ == layout_error_text(*self),
    {
        match self {
            LayoutError::Unsupported(message) => message.clone(),
        }
    }
}

/// The message of an error.
pub open spec fn layout_error_text(e: LayoutError) -> Seq<char> {
    match e {
        LayoutError::Unsupported(message) => message@,
    }
}

/// The least multiple of `align` that is not below `offset`.
pub open spec fn round_up(offset: int, align: int) -> int {
    ((offset + align - 1) / align) * align
}

/// `round_up` is aligned, not below the offset, and less than one step above it.
pub proof fn law_round_up(offset: int, align: int)
    requires
        offset >= 0,
        align > 0,
    ensures
        round_up(offset, align) % align == 0,
        offset <= round_up(offset, align) < offset + align,
{
    let n = offset + align - 1;
    vstd::arithmetic::div_mod::lemma_fundamental_div_mod(n, align);
    vstd::arithmetic::div_mod::lemma_mod_bound(n, align);
    assert((n / align) * align == align * (n / align)) by (nonlinear_arith);
    vstd::arithmetic::div_mod::lemma_mod_multiples_basic(n / align, align);
}

fn align_up(offset: u64, align: u64) -> (r: Option<u64>)
    requires
        align > 0,
    ensures
        match r {
            Some(v) => v == round_up(offset as int, align as int),
            None => round_up(offset as int, align as int) > u64::MAX,
        },
{
    proof {
        law_round_up(offset as int, align as int);
        vstd::arithmetic::div_mod::lemma_fundamental_div_mod(offset as int, align as int);
        vstd::arithmetic::div_mod::lemma_mod_bound(offset as int, align as int);
    }
    let over: u64 = offset % align;
    if over == 0 {
        proof {
            lemma_round_up_value(offset as int, align as int, offset as int);
        }
        Some(offset)
    } else {
        proof {
            vstd::arithmetic::div_mod::lemma_mod_add_multiples_vanish(0, align as int);
            lemma_next_multiple(offset as int, align as int);
            lemma_round_up_value(offset as int, align as int, offset + (align - over));
        }
        offset.checked_add(align - over)
    }
}

proof fn lemma_next_multiple(offset: int, align: int)
    requires
        align > 0,
    ensures
        (offset + (align - offset % align)) % align == 0,
{
    vstd::arithmetic::div_mod::lemma_fundamental_div_mod(offset, align);
    let q = offset / align;
    assert(offset + (align - offset % align) == align * (q + 1)) by (nonlinear_arith)
        requires
            offset == align * q + offset % align,
    ;
    vstd::arithmetic::div_mod::lemma_mod_multiples_basic(q + 1, align);
    assert(align * (q + 1) == (q + 1) * align) by (nonlinear_arith);
}

proof fn lemma_round_up_value(offset: int, align: int, v: int)
    requires
        offset >= 0,
        align > 0,
        v % align == 0,
        offset <= v < offset + align,
    ensures
        round_up(offset, align) == v,
{
    law_round_up(offset, align);
    let u = round_up(offset, align);
    vstd::arithmetic::div_mod::lemma_fundamental_div_mod(u, align);
    vstd::arithmetic::div_mod::lemma_fundamental_div_mod(v, align);
    let a = u / align;
    let b = v / align;
    assert(u == align * a && v == align * b);
    assert(a == b) by (nonlinear_arith)
        requires
            u == align * a,
            v == align * b,
            -align < u - v < align,
            align > 0,
    ;
}

/// The offset of the first byte behind the first `n` fields, before padding.
pub open spec fn fields_end(fields: Seq<Layout>, n: int) -> int
    decreases n, 0int,
{
    if n <= 0 {
        0
    } else {
        field_offset(fields, n - 1) + fields[n - 1].size
    }
}

/// The offset of field `i`: the next offset behind the fields before it that is
/// aligned for it.
pub open spec fn field_offset(fields: Seq<Layout>, i: int) -> int
    decreases i, 1int,
{
    if i < 0 {
        0
    } else {
        round_up(fields_end(fields, i), fields[i].align as int)
    }
}

/// The alignment of an aggregate of the first `n` fields: the largest field
/// alignment, at least one.
pub open spec fn fields_align(fields: Seq<Layout>, n: int) -> int
    decreases n,
{
    if n <= 0 {
        1
    } else {
        let before = fields_align(fields, n - 1);
        if before < fields[n - 1].align { fields[n - 1].align as int } else { before }
    }
}

/// The size of an aggregate: padded to its alignment.
pub open spec fn aggregate_size(fields: Seq<Layout>) -> int {
    round_up(fields_end(fields, fields.len() as int), fields_align(fields, fields.len() as int))
}

/// Every field has a positive alignment.
pub open spec fn aligned_fields(fields: Seq<Layout>) -> bool {
    forall|i: int| 0 <= i < fields.len() ==> (#[trigger] fields[i]).align > 0
}

/// The aggregate layout of fields.
pub open spec fn is_composition(s: StructLayout, fields: Seq<Layout>) -> bool {
    &&& s.layout.size == aggregate_size(fields)
    &&& s.layout.align == fields_align(fields, fields.len() as int)
    &&& s.offsets@.len() == fields.len()
    &&& forall|i: int| 0 <= i < fields.len() ==> (#[trigger] s.offsets@[i]) == field_offset(fields, i)
}

proof fn lemma_fields_align(fields: Seq<Layout>, n: int)
    requires
        0 <= n <= fields.len(),
    ensures
        1 <= fields_align(fields, n) <= u64::MAX,
    decreases n,
{
    if n > 0 {
        lemma_fields_align(fields, n - 1);
    }
}

proof fn lemma_fields_end(fields: Seq<Layout>, n: int, m: int)
    requires
        aligned_fields(fields),
        0 <= n <= m <= fields.len(),
    ensures
        0 <= fields_end(fields, n) <= fields_end(fields, m),
        n < m ==> fields_end(fields, n) <= field_offset(fields, n) <= fields_end(fields, m),
    decreases m,
{
    if n < m {
        lemma_fields_end(fields, n, m - 1);
        lemma_fields_end(fields, m - 1, m - 1);
        assert(fields[m - 1].align > 0);
        law_round_up(fields_end(fields, m - 1), fields[m - 1].align as int);
    } else if m > 0 {
        lemma_fields_end(fields, m - 1, m - 1);
        assert(fields[m - 1].align > 0);
        law_round_up(fields_end(fields, m - 1), fields[m - 1].align as int);
    }
}

/// In a composed aggregate every field is aligned, lies behind the fields before
/// it without overlapping them, and ends within the aggregate, whose size is a
/// multiple of its alignment.
pub proof fn law_composition(fields: Seq<Layout>, i: int, j: int)
    requires
        aligned_fields(fields),
        0 <= i < j <= fields.len(),
    ensures
        field_offset(fields, i) % (fields[i].align as int) == 0,
        field_offset(fields, i) + fields[i].size <= if j < fields.len() {
            field_offset(fields, j)
        } else {
            aggregate_size(fields)
        },
        aggregate_size(fields) % fields_align(fields, fields.len() as int) == 0,
{
    assert(fields[i].align > 0);
    lemma_fields_end(fields, i, i + 1);
    lemma_fields_end(fields, i + 1, j);
    law_round_up(fields_end(fields, i), fields[i].align as int);
    let n = fields.len() as int;
    lemma_fields_end(fields, j, n);
    lemma_fields_align(fields, n);
    law_round_up(fields_end(fields, n), fields_align(fields, n));
    if j < n {
        assert(fields[j].align > 0);
        law_round_up(fields_end(fields, j), fields[j].align as int);
    }
}

/// Composes field layouts into a C-style aggregate where it fits in 64 bits.
pub fn try_compose(fields: &Vec<Layout>) -> (r: Option<StructLayout>)
    requires
        aligned_fields(fields@),
    ensures
        match r {
            Some(s) => is_composition(s, fields@),
            None => aggregate_size(fields@) > u64::MAX,
        },
{
    let mut offset: u64 = 0;
    let mut align: u64 = 1;
    let mut offsets: Vec<u64> = Vec::new();
    let ghost n = fields@.len() as int;
    for i in 0..fields.len()
        invariant
            n == fields@.len(),
            aligned_fields(fields@),
            offset == fields_end(fields@, i as int),
            align == fields_align(fields@, i as int),
            offsets@.len() == i,
            forall|j: int| 0 <= j < i ==> (#[trigger] offsets@[j]) == field_offset(fields@, j),
    {
        proof {
            assert(fields@[i as int].align > 0);
            lemma_fields_end(fields@, i as int, i + 1);
            lemma_fields_end(fields@, i + 1, n);
            lemma_fields_align(fields@, n);
            law_round_up(fields_end(fields@, n), fields_align(fields@, n));
        }
        let start: u64 = match align_up(offset, fields[i].align) {
            Some(v) => v,
            None => return None,
        };
        offsets.push(start);
        offset = match start.checked_add(fields[i].size) {
            Some(v) => v,
            None => return None,
        };
        if align < fields[i].align {
            align = fields[i].align;
        }
    }
    proof {
        lemma_fields_align(fields@, n);
    }
    match align_up(offset, align) {
        Some(size) => Some(StructLayout { layout: Layout::new(size, align), offsets }),
        None => None,
    }
}

/// Composes field layouts into a C-style aggregate: each field at the next offset
/// aligned for it, the total size padded to the aggregate alignment.
pub fn compose(fields: &Vec<Layout>) -> (r: StructLayout)
    requires
        aligned_fields(fields@),
        aggregate_size(fields@) <= u64::MAX,
    ensures
        is_composition(r, fields@),
{
    match try_compose(fields) {
        Some(s) => s,
        None => StructLayout { layout: Layout::zero(), offsets: Vec::new() },
    }
}

/// Field types of every nominal struct of a program, by the specialized struct
/// name.
#[derive(Debug)]
pub struct StructFieldIndex {
    pub fields: NameMap<Vec<Ty>>,
}

/// Mathematical model of [`StructFieldIndex`]: the fields by struct name, and how
/// many structs there are.
#[verifier::ext_equal]
pub struct StructsModel {
    pub fields: Map<Seq<char>, Seq<TyModel>>,
    pub count: nat,
}

/// The field types by struct name.
pub open spec fn fields_view(fields: Map<Seq<char>, Vec<Ty>>) -> Map<Seq<char>, Seq<TyModel>> {
    fields.map_values(|tys: Vec<Ty>| tys_view(tys))
}

impl View for StructFieldIndex {
    type V = StructsModel;

    open spec fn view(&self) -> StructsModel {
        StructsModel { fields: fields_view(self.fields@), count: self.fields.entries@.len() }
    }
}

/// The fields that the first `n` struct declarations give; a later declaration of
/// a name replaces an earlier one.
pub open spec fn declared_fields(
    structs: Seq<MirStructDeclarationModel>,
    n: int,
) -> Map<Seq<char>, Seq<TyModel>>
    decreases n,
{
    if n <= 0 {
        Map::empty()
    } else {
        declared_fields(structs, n - 1).insert(
            structs[n - 1].name,
            structs[n - 1].fields.map_values(|field: (Seq<char>, TyModel)| field.1),
        )
    }
}

impl StructFieldIndex {
    /// The index of a program's declarations.
    pub fn from_declarations(declarations: &MirDeclarations) -> (r: StructFieldIndex)
        ensures
            r@.fields == declared_fields(declarations@.structs, declarations@.structs.len() as int),
            r@.count == r@.fields.dom().len(),
    {
        let mut index: StructFieldIndex = StructFieldIndex { fields: NameMap::new() };
        let ghost structs = declarations@.structs;
        assert(index@.fields =~= declared_fields(structs, 0));
        for i in 0..declarations.structs.len()
            invariant
                structs == struct_declarations_view(declarations.structs),
                index@.fields == declared_fields(structs, i as int),
                index@.fields.dom().finite(),
                index@.count == index@.fields.dom().len(),
        {
            let decl: &MirStructDeclaration = &declarations.structs[i];
            assert(structs[i as int] == decl@);
            let mut field_types: Vec<Ty> = Vec::new();
            for k in 0..decl.fields.len()
                invariant
                    field_types@.len() == k,
                    forall|j: int| 0 <= j < k ==> (#[trigger] field_types@[j])@ == string_tys_view(decl.fields)[j].1,
            {
                field_types.push(decl.fields[k].1.copy());
            }
            assert(tys_view(field_types) =~= decl@.fields.map_values(|field: (Seq<char>, TyModel)| field.1));
            index.insert(decl.name.clone(), field_types);
            assert(
                declared_fields(structs, i + 1).dom() =~= declared_fields(structs, i as int).dom().insert(decl@.name)
            );
        }
        index
    }

    /// Records the field types of a struct.
    pub fn insert(&mut self, name: String, field_types: Vec<Ty>)
        ensures
            final(self)@.fields == old(self)@.fields.insert(name@, tys_view(field_types)),
            final(self)@.count == old(self)@.count + if old(self)@.fields.dom().contains(name@) { 0nat } else { 1nat },
    {
        self.fields.insert(name, field_types);
        assert(
            fields_view(self.fields@) =~= fields_view(old(self).fields@).insert(name@, tys_view(field_types))
        );
    }

    /// The field types of a struct.
    pub fn get(&self, name: &str) -> (r: Option<&Vec<Ty>>)
        ensures
            match r {
                Some(fields) => self@.fields.dom().contains(name@) && self@.fields[name@] == tys_view(*fields),
                None => !self@.fields.dom().contains(name@),
            },
    {
        self.fields.get(name)
    }
}

impl Default for StructFieldIndex {
    fn default() -> (r: StructFieldIndex)
        ensures
            r@.fields == Map::<Seq<char>, Seq<TyModel>>::empty(),
            r@.count == 0,
    {
        let r: StructFieldIndex = StructFieldIndex { fields: NameMap::new() };
        assert(r@.fields =~= Map::<Seq<char>, Seq<TyModel>>::empty());
        r
    }
}

/// The layout of a pointer on every supported target.
pub open spec fn pointer_layout() -> Layout {
    Layout { size: 8, align: 8 }
}

/// A layout of this size and alignment.
pub open spec fn layout_sa(size: u64, align: u64) -> Layout {
    Layout { size, align }
}

/// The layout of an aggregate of fields, or that it does not fit.
pub open spec fn aggregate_layout(fields: Seq<Layout>) -> Result<Layout, Seq<char>> {
    if aggregate_size(fields) <= u64::MAX {
        Ok(
            Layout {
                size: aggregate_size(fields) as u64,
                align: fields_align(fields, fields.len() as int) as u64,
            }
        )
    } else {
        Err("aggregate does not fit in 64 bits"@)
    }
}

/// The size and alignment that overlaid alternatives need.
pub open spec fn overlay(alternatives: Seq<Layout>) -> Layout
    decreases alternatives.len(),
{
    if alternatives.len() == 0 {
        Layout { size: 0, align: 1 }
    } else {
        let before = overlay(alternatives.drop_last());
        let last = alternatives.last();
        Layout {
            size: if before.size < last.size { last.size } else { before.size },
            align: if before.align < last.align { last.align } else { before.align },
        }
    }
}

/// Where the payload of a tagged union starts: behind the tag, aligned for it.
pub open spec fn payload_start(payload: Layout) -> int {
    round_up(4, payload.align as int)
}

/// The alignment of a tagged union: that of its tag or of its payload.
pub open spec fn variant_align(payload: Layout) -> int {
    if payload.align < 4 { 4 } else { payload.align as int }
}

/// The size of a tagged union.
pub open spec fn variant_size(payload: Layout) -> int {
    round_up(payload_start(payload) + payload.size, variant_align(payload))
}

/// The layout of a tagged union, or that it does not fit.
pub open spec fn tagged_layout(payload: Layout) -> Result<Layout, Seq<char>> {
    if variant_size(payload) <= u64::MAX {
        Ok(Layout { size: variant_size(payload) as u64, align: variant_align(payload) as u64 })
    } else {
        Err("variant does not fit in 64 bits"@)
    }
}

/// The layout of a checked type. `depth` bounds the nesting of structs: one that
/// goes deeper than there are structs contains itself and has no layout.
pub open spec fn ty_layout(ty: TyModel, structs: StructsModel, depth: nat) -> Result<Layout, Seq<char>>
    decreases depth, ty, 0int,
{
    match ty {
        TyModel::Int => Ok(layout_sa(8, 8)),
        TyModel::UInt => Ok(layout_sa(8, 8)),
        TyModel::Float64 => Ok(layout_sa(8, 8)),
        TyModel::Bool => Ok(layout_sa(1, 1)),
        TyModel::NoneType => Ok(layout_sa(0, 1)),
        TyModel::StringLiteral => Ok(layout_sa(16, 8)),
        TyModel::Error => Ok(layout_sa(24, 8)),
        TyModel::Struct(name, _) => if !structs.fields.dom().contains(name) {
            Err("struct '"@ + name + "' has no MIR declaration to lay out"@)
        } else if depth == 0 {
            Err("struct '"@ + name + "' contains itself"@)
        } else {
            match collect(ty_layouts(structs.fields[name], structs, (depth - 1) as nat)) {
                Ok(fields) => aggregate_layout(fields),
                Err(e) => Err(e),
            }
        },
        TyModel::Tuple(elements) => match collect(ty_layouts(elements, structs, depth)) {
            Ok(fields) => aggregate_layout(fields),
            Err(e) => Err(e),
        },
        TyModel::RuntimePack(elements) => match collect(ty_layouts(elements, structs, depth)) {
            Ok(fields) => aggregate_layout(fields),
            Err(e) => Err(e),
        },
        TyModel::Variant(alternatives) => match collect(ty_layouts(alternatives, structs, depth)) {
            Ok(layouts) => tagged_layout(overlay(layouts)),
            Err(e) => Err(e),
        },
        TyModel::Pointer { .. } => Ok(pointer_layout()),
        TyModel::Ref(_) => Ok(pointer_layout()),
        _ => Err("type has no native layout yet: "@ + ty_text(ty)),
    }
}

/// The layouts of types.
pub open spec fn ty_layouts(
    tys: Seq<TyModel>,
    structs: StructsModel,
    depth: nat,
) -> Seq<Result<Layout, Seq<char>>>
    decreases depth, tys, 0int,
{
    Seq::new(
        tys.len(),
        |i: int| if 0 <= i < tys.len() { ty_layout(tys[i], structs, depth) } else { arbitrary() },
    )
}

/// The model of an outcome.
pub open spec fn layout_view(r: Result<Layout, LayoutError>) -> Result<Layout, Seq<char>> {
    match r {
        Ok(layout) => Ok(layout),
        Err(e) => Err(layout_error_text(e)),
    }
}

/// Layout computation context: the target (for pointer size) plus the struct field
/// index of the program being lowered.
#[derive(Debug, Clone, Copy)]
pub struct LayoutCx<'a> {
    pub target: &'a NativeTarget,
    pub structs: &'a StructFieldIndex,
}

fn unsupported_layout(message: String) -> (r: LayoutError)
    ensures
        layout_error_text(r) == message@,
{
    LayoutError::Unsupported(message)
}

proof fn lemma_overlay(alternatives: Seq<Layout>)
    ensures
        overlay(alternatives).align >= 1,
    decreases alternatives.len(),
{
    if alternatives.len() > 0 {
        lemma_overlay(alternatives.drop_last());
    }
}

proof fn lemma_ty_layout_aligned(ty: TyModel, structs: StructsModel, depth: nat)
    ensures
        ty_layout(ty, structs, depth) matches Ok(layout) ==> layout.align >= 1,
{
    match ty {
        TyModel::Struct(name, _) => {
            if structs.fields.dom().contains(name) && depth > 0 {
                let results = collect(ty_layouts(structs.fields[name], structs, (depth - 1) as nat));
                if let Ok(fields) = results {
                    lemma_fields_align(fields, fields.len() as int);
                }
            }
        },
        TyModel::Tuple(elements) => {
            if let Ok(fields) = collect(ty_layouts(elements, structs, depth)) {
                lemma_fields_align(fields, fields.len() as int);
            }
        },
        TyModel::RuntimePack(elements) => {
            if let Ok(fields) = collect(ty_layouts(elements, structs, depth)) {
                lemma_fields_align(fields, fields.len() as int);
            }
        },
        _ => {},
    }
}

impl<'a> LayoutCx<'a> {
    fn pointer(&self) -> (r: Layout)
        ensures
            r == pointer_layout(),
    {
        Layout::new(self.target.triple.pointer_size(), self.target.triple.pointer_align())
    }

    fn field_layouts(&self, tys: &Vec<Ty>, depth: usize) -> (r: Result<Vec<Layout>, LayoutError>)
        ensures
            match r {
                Ok(v) => collect(
                    ty_layouts(tys_view(*tys), self.structs@, depth as nat)
                ) == Ok::<Seq<Layout>, Seq<char>>(v@)
                    && aligned_fields(v@),
                Err(e) => collect(ty_layouts(tys_view(*tys), self.structs@, depth as nat)) == Err::<Seq<Layout>, Seq<char>>(
                    layout_error_text(e),
                ),
            },
        decreases depth, tys, 0int,
    {
        let ghost results = ty_layouts(tys_view(*tys), self.structs@, depth as nat);
        let mut out: Vec<Layout> = Vec::new();
        for i in 0..tys.len()
            invariant
                results == ty_layouts(tys_view(*tys), self.structs@, depth as nat),
                out@.len() == i,
                aligned_fields(out@),
                forall|j: int| 0 <= j < i ==> #[trigger] results[j] == Ok::<Layout, Seq<char>>(out@[j]),
        {
            assert(results[i as int] == ty_layout(tys@[i as int]@, self.structs@, depth as nat));
            match self.layout_within(&tys[i], depth) {
                Ok(layout) => {
                    out.push(layout);
                },
                Err(e) => {
                    proof {
                        lemma_collect_err(results, i as int, layout_error_text(e));
                    }
                    return Err(e);
                },
            }
        }
        proof {
            lemma_collect_ok(results, out@);
        }
        Ok(out)
    }

    fn aggregate_within(&self, tys: &Vec<Ty>, depth: usize) -> (r: Result<Layout, LayoutError>)
        ensures
            layout_view(r) == (match collect(ty_layouts(tys_view(*tys), self.structs@, depth as nat)) {
                Ok(fields) => aggregate_layout(fields),
                Err(e) => Err(e),
            }),
        decreases depth, tys, 1int,
    {
        let fields: Vec<Layout> = match self.field_layouts(tys, depth) {
            Ok(v) => v,
            Err(e) => return Err(e),
        };
        match try_compose(&fields) {
            Some(s) => Ok(s.layout),
            None => Err(unsupported_layout("aggregate does not fit in 64 bits".to_owned())),
        }
    }

    fn layout_within(&self, ty: &Ty, depth: usize) -> (r: Result<Layout, LayoutError>)
        ensures
            layout_view(r) == ty_layout(ty@, self.structs@, depth as nat),
            r matches Ok(layout) ==> layout.align >= 1,
        decreases depth, ty, 0int,
    {
        proof {
            lemma_ty_layout_aligned(ty@, self.structs@, depth as nat);
        }
        match ty {
            Ty::Int | Ty::UInt | Ty::Float64 => Ok(Layout::new(8, 8)),
            Ty::Bool => Ok(Layout::new(1, 1)),
            Ty::NoneType => Ok(Layout::zero()),
            Ty::StringLiteral => Ok(Layout::new(16, 8)),
            Ty::Error => Ok(Layout::new(24, 8)),
            Ty::Struct(name, _) => match self.structs.get(name) {
                None => Err(
                    unsupported_layout(cat3("struct '", name, "' has no MIR declaration to lay out"))
                ),
                Some(fields) => {
                    if depth == 0 {
                        return Err(unsupported_layout(cat3("struct '", name, "' contains itself")));
                    }
                    self.aggregate_within(fields, depth - 1)
                },
            },
            Ty::Tuple(elements) => self.aggregate_within(elements, depth),
            Ty::RuntimePack(elements) => self.aggregate_within(elements, depth),
            Ty::Variant(alternatives) => match self.field_layouts(alternatives, depth) {
                Err(e) => Err(e),
                Ok(layouts) => match tagged(&layouts) {
                    Some(v) => Ok(v.layout),
                    None => Err(unsupported_layout("variant does not fit in 64 bits".to_owned())),
                },
            },
            Ty::Pointer { .. } => Ok(self.pointer()),
            Ty::Ref(_) => Ok(self.pointer()),
            _ => Err(unsupported_layout(cat2("type has no native layout yet: ", &ty.text()))),
        }
    }

    /// The layout of one checked type.
    pub fn layout_of(&self, ty: &Ty) -> (r: Result<Layout, LayoutError>)
        ensures
            layout_view(r) == ty_layout(ty@, self.structs@, self.structs@.count),
    {
        self.layout_within(ty, self.structs.fields.entries.len())
    }

    /// C-style aggregate layout of `fields` in declaration order.
    pub fn struct_layout(&self, fields: &Vec<Ty>) -> (r: Result<StructLayout, LayoutError>)
        ensures
            ({
                let layouts = collect(ty_layouts(tys_view(*fields), self.structs@, self.structs@.count));
                match r {
                    Ok(s) => layouts is Ok && is_composition(s, layouts->Ok_0),
                    Err(e) => match layouts {
                        Ok(v) => aggregate_layout(v) == Err::<Layout, Seq<char>>(layout_error_text(e)),
                        Err(text) => text == layout_error_text(e),
                    },
                }
            }),
    {
        let layouts: Vec<Layout> = match self.field_layouts(fields, self.structs.fields.entries.len()) {
            Ok(v) => v,
            Err(e) => return Err(e),
        };
        match try_compose(&layouts) {
            Some(s) => Ok(s),
            None => Err(unsupported_layout("aggregate does not fit in 64 bits".to_owned())),
        }
    }

    /// Tagged-union layout: the tag at offset 0, the payload overlay sized and
    /// aligned to the widest alternative.
    pub fn variant_layout(&self, alternatives: &Vec<Ty>) -> (r: Result<VariantLayout, LayoutError>)
        ensures
            ({
                let layouts = collect(
                    ty_layouts(tys_view(*alternatives), self.structs@, self.structs@.count)
                );
                match r {
                    Ok(v) => layouts is Ok && tagged_layout(overlay(layouts->Ok_0)) == Ok::<Layout, Seq<char>>(v.layout)
                        && v.payload_offset == payload_start(overlay(layouts->Ok_0)),
                    Err(e) => match layouts {
                        Ok(v) => tagged_layout(overlay(v)) == Err::<Layout, Seq<char>>(layout_error_text(e)),
                        Err(text) => text == layout_error_text(e),
                    },
                }
            }),
    {
        let layouts: Vec<Layout> = match self.field_layouts(alternatives, self.structs.fields.entries.len()) {
            Ok(v) => v,
            Err(e) => return Err(e),
        };
        match tagged(&layouts) {
            Some(v) => Ok(v),
            None => Err(unsupported_layout("variant does not fit in 64 bits".to_owned())),
        }
    }
}

fn tagged(layouts: &Vec<Layout>) -> (r: Option<VariantLayout>)
    ensures
        match r {
            Some(v) => tagged_layout(overlay(layouts@)) == Ok::<Layout, Seq<char>>(v.layout) && v.payload_offset
                == payload_start(overlay(layouts@)),
            None => tagged_layout(overlay(layouts@)) is Err,
        },
{
    let mut payload: Layout = Layout::zero();
    for i in 0..layouts.len()
        invariant
            payload == overlay(layouts@.take(i as int)),
    {
        assert(layouts@.take(i + 1).drop_last() =~= layouts@.take(i as int));
        if payload.size < layouts[i].size {
            payload.size = layouts[i].size;
        }
        if payload.align < layouts[i].align {
            payload.align = layouts[i].align;
        }
    }
    proof {
        assert(layouts@.take(layouts@.len() as int) =~= layouts@);
        lemma_overlay(layouts@);
        law_round_up(4, payload.align as int);
    }
    let align: u64 = if payload.align < 4 { 4 } else { payload.align };
    proof {
        law_round_up(payload_start(payload) + payload.size, align as int);
    }
    let payload_offset: u64 = match align_up(4, payload.align) {
        Some(v) => v,
        None => return None,
    };
    let end: u64 = match payload_offset.checked_add(payload.size) {
        Some(v) => v,
        None => return None,
    };
    match align_up(end, align) {
        Some(size) => Some(VariantLayout { layout: Layout::new(size, align), payload_offset }),
        None => None,
    }
}

} // verus!
