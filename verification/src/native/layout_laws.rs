//! What layouts promise beyond alignment: nothing is larger than it has to be.

use crate::mir::MirStructDeclarationModel;
use crate::native::layout::{
    Layout, StructsModel, aggregate_layout, aggregate_size, aligned_fields, declared_fields,
    field_offset, fields_align, fields_end, law_round_up, overlay, payload_start, round_up,
    ty_layout, variant_align, variant_size,
};
use crate::native::rt_abi::{CAbiTy, abi_layout};
use crate::origin::PointerOriginModel;
use crate::types::TyModel;
use vstd::prelude::*;

verus! {

proof fn lemma_fields_end(fields: Seq<Layout>, n: int)
    requires
        aligned_fields(fields),
        0 <= n <= fields.len(),
    ensures
        fields_end(fields, n) >= 0,
    decreases n,
{
    if n > 0 {
        lemma_fields_end(fields, n - 1);
        assert(fields[n - 1].align > 0);
        law_round_up(fields_end(fields, n - 1), fields[n - 1].align as int);
        assert(field_offset(fields, n - 1) == round_up(fields_end(fields, n - 1), fields[n - 1].align as int));
    }
}

/// The first field stands at the start; each later one behind the one before it, with
/// less room between them than its alignment; and behind the last one there is less room
/// than the alignment of the whole.
pub proof fn law_layout_is_tight(fields: Seq<Layout>, i: int)
    requires
        aligned_fields(fields),
        0 <= i < fields.len(),
    ensures
        field_offset(fields, 0) == 0,
        i > 0 ==> field_offset(fields, i - 1) + fields[i - 1].size <= field_offset(fields, i) < field_offset(fields, i - 1)
            + fields[i - 1].size + fields[i].align,
        field_offset(fields, i) % (fields[i].align as int) == 0,
        ({
            let last = fields.len() - 1;
            let end = field_offset(fields, last) + fields[last].size;
            end <= aggregate_size(fields) < end + fields_align(fields, fields.len() as int)
        }),
{
    let last = fields.len() - 1;
    assert(fields[0].align > 0 && fields[i].align > 0);
    assert(fields_end(fields, 0) == 0);
    assert(field_offset(fields, 0) == round_up(0, fields[0].align as int));
    law_round_up(0, fields[0].align as int);
    assert(round_up(0, fields[0].align as int) == 0) by {
        let a = fields[0].align as int;
        let r = round_up(0, a);
        vstd::arithmetic::div_mod::lemma_small_mod(r as nat, a as nat);
    }
    lemma_fields_end(fields, i);
    law_round_up(fields_end(fields, i), fields[i].align as int);
    assert(field_offset(fields, i) == round_up(fields_end(fields, i), fields[i].align as int));
    if i > 0 {
        assert(fields_end(fields, i) == field_offset(fields, i - 1) + fields[i - 1].size);
    }
    lemma_fields_end(fields, fields.len() as int);
    law_largest_alignment(fields, fields.len() as int, 0);
    law_round_up(fields_end(fields, fields.len() as int), fields_align(fields, fields.len() as int));
    assert(fields_end(fields, fields.len() as int) == field_offset(fields, last) + fields[last].size);
}

/// The alignment of an aggregate is the largest of its fields', and one where it has none.
pub proof fn law_largest_alignment(fields: Seq<Layout>, n: int, i: int)
    requires
        0 <= n <= fields.len(),
    ensures
        fields_align(fields, n) >= 1,
        0 <= i < n ==> fields[i].align <= fields_align(fields, n),
        fields_align(fields, n) == 1 || exists|k: int| 0 <= k < n
            && fields_align(fields, n) == (#[trigger] fields[k]).align,
    decreases n,
{
    if n > 0 {
        law_largest_alignment(fields, n - 1, i);
        if fields_align(fields, n - 1) < fields[n - 1].align {
            assert(fields_align(fields, n) == fields[n - 1].align);
        }
    }
}

/// Alternatives share their storage: it is as large and as aligned as the largest of
/// them, and no more.
pub proof fn law_overlay(alternatives: Seq<Layout>, i: int)
    ensures
        0 <= i < alternatives.len() ==> alternatives[i].size <= overlay(alternatives).size && alternatives[i].align
            <= overlay(alternatives).align,
        overlay(alternatives).align >= 1,
        overlay(alternatives).size == 0 || exists|k: int|
            0 <= k < alternatives.len() && (#[trigger] alternatives[k]).size == overlay(alternatives).size,
        overlay(alternatives).align == 1 || exists|k: int|
            0 <= k < alternatives.len() && (#[trigger] alternatives[k]).align == overlay(alternatives).align,
    decreases alternatives.len(),
{
    if alternatives.len() > 0 {
        let before = alternatives.drop_last();
        let last = alternatives.len() - 1;
        law_overlay(before, i);
        assert(alternatives[last] == alternatives.last());
        if i < last {
            assert(0 <= i ==> before[i] == alternatives[i]);
        }
        let o = overlay(before);
        if o.size != 0 {
            let k = choose|k: int| 0 <= k < before.len() && (#[trigger] before[k]).size == o.size;
            assert(alternatives[k].size == o.size);
        }
        if o.align != 1 {
            let k = choose|k: int| 0 <= k < before.len() && (#[trigger] before[k]).align == o.align;
            assert(alternatives[k].align == o.align);
        }
    }
}

/// A variant is a four-byte tag, its payload at the first offset behind it that suits
/// the payload, and less padding than its alignment.
pub proof fn law_variant_layout(payload: Layout)
    requires
        payload.align > 0,
    ensures
        payload_start(payload) % (payload.align as int) == 0,
        4 <= payload_start(payload) < 4 + payload.align,
        variant_align(payload) >= 4 && variant_align(payload) >= payload.align,
        variant_align(payload) == 4 || variant_align(payload) == payload.align,
        variant_size(payload) % variant_align(payload) == 0,
        payload_start(payload) + payload.size <= variant_size(payload) < payload_start(payload) + payload.size
            + variant_align(payload),
{
    law_round_up(4, payload.align as int);
    law_round_up(payload_start(payload) + payload.size, variant_align(payload));
}

/// The types that the runtime library shares with compiled code are laid out alike on
/// both sides: numbers and pointers as the C types that carry them, texts and errors as
/// the library's own structs.
pub proof fn law_runtime_agreement(
    structs: StructsModel,
    depth: nat,
    element: TyModel,
    origin: PointerOriginModel,
)
    ensures
        ty_layout(TyModel::Int, structs, depth) == Ok::<Layout, Seq<char>>(abi_layout(CAbiTy::I64)),
        ty_layout(TyModel::UInt, structs, depth) == Ok::<Layout, Seq<char>>(abi_layout(CAbiTy::U64)),
        ty_layout(TyModel::Float64, structs, depth) == Ok::<Layout, Seq<char>>(abi_layout(CAbiTy::F64)),
        ty_layout(TyModel::Pointer { element: Box::new(element), origin }, structs, depth) == Ok::<Layout, Seq<char>>(
            abi_layout(CAbiTy::PtrMutU8),
        ),
        abi_layout(CAbiTy::PtrMutU8) == abi_layout(CAbiTy::PtrConstU8),
        ty_layout(TyModel::StringLiteral, structs, depth) == aggregate_layout(
            seq![abi_layout(CAbiTy::PtrConstU8), abi_layout(CAbiTy::U64)],
        ),
        ty_layout(TyModel::Error, structs, depth) == aggregate_layout(
            seq![abi_layout(CAbiTy::PtrMutU8), abi_layout(CAbiTy::I64), abi_layout(CAbiTy::I64)],
        ),
        ty_layout(TyModel::Bool, structs, depth) matches Ok(l) && l.size == 1 && l.align == 1,
        ty_layout(TyModel::NoneType, structs, depth) matches Ok(l) && l.size == 0,
        abi_layout(CAbiTy::U32).size == 4,
        abi_layout(CAbiTy::U64).size == 8,
{
    let two = seq![abi_layout(CAbiTy::PtrConstU8), abi_layout(CAbiTy::U64)];
    let three = seq![abi_layout(CAbiTy::PtrMutU8), abi_layout(CAbiTy::I64), abi_layout(CAbiTy::I64)];
    lemma_two_words(two);
    lemma_two_words(three);
    assert(field_offset(three, 2) == round_up(16, 8));
    assert(fields_end(three, 3) == 24);
    assert(fields_align(three, 3) == 8);
    assert(round_up(24, 8) == 24);
}

proof fn lemma_two_words(fields: Seq<Layout>)
    requires
        fields.len() >= 2,
        forall|i: int| 0 <= i < fields.len() ==> (#[trigger] fields[i]).size == 8 && fields[i].align == 8,
    ensures
        fields_end(fields, 2) == 16,
        fields_align(fields, 2) == 8,
        round_up(16, 8) == 16,
{
    assert(round_up(0, 8) == 0 && round_up(8, 8) == 8 && round_up(16, 8) == 16);
    assert(fields[0].size == 8 && fields[1].size == 8);
    assert(fields_end(fields, 0) == 0);
    assert(field_offset(fields, 0) == round_up(0, 8));
    assert(fields_end(fields, 1) == 8);
    assert(field_offset(fields, 1) == round_up(8, 8));
    assert(fields_end(fields, 2) == 16);
    assert(fields_align(fields, 0) == 1);
    assert(fields_align(fields, 1) == 8);
}

/// A struct is laid out as the tuple of its fields is; so is a pack.
pub proof fn law_struct_as_tuple(
    name: Seq<char>,
    args: Seq<crate::types::TyArgModel>,
    elements: Seq<TyModel>,
    structs: StructsModel,
    depth: nat,
)
    ensures
        structs.fields.dom().contains(name) && structs.fields[name] == elements ==> ty_layout(
            TyModel::Struct(name, args),
            structs,
            depth + 1,
        ) == ty_layout(TyModel::Tuple(elements), structs, depth),
        ty_layout(TyModel::RuntimePack(elements), structs, depth) == ty_layout(TyModel::Tuple(elements), structs, depth),
        !structs.fields.dom().contains(name) ==> ty_layout(TyModel::Struct(name, args), structs, depth) is Err,
        structs.fields.dom().contains(name) ==> ty_layout(TyModel::Struct(name, args), structs, 0) is Err,
{
}

/// The fields of a struct are those of its last declaration, in order.
pub proof fn law_declared_fields(structs: Seq<MirStructDeclarationModel>, n: int, i: int)
    requires
        0 <= i < n <= structs.len(),
        forall|k: int| i < k < n ==> (#[trigger] structs[k]).name != structs[i].name,
    ensures
        declared_fields(structs, n).dom().contains(structs[i].name),
        declared_fields(structs, n)[structs[i].name].len() == structs[i].fields.len(),
        forall|k: int|
            0 <= k < structs[i].fields.len() ==> #[trigger] declared_fields(structs, n)[structs[i].name][k]
                == structs[i].fields[k].1,
    decreases n,
{
    if i < n - 1 {
        law_declared_fields(structs, n - 1, i);
        assert(structs[n - 1].name != structs[i].name);
    }
}

} // verus!
