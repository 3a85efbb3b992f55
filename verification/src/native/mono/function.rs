//! Passes over the body of one function instance.

use crate::ct::{CtValue, CtValueModel, ct_value_text};
use crate::data::strings_view;
use crate::mir::{
    Const, ConstModel, MirBlock, MirBlockModel, MirFunction, MirFunctionDeclaration,
    MirFunctionDeclarationModel, MirFunctionModel, MirInstr, MirInstrModel, blocks_view,
    instrs_view,
};
use crate::native::mono::{MonoError, MonoErrorModel};
use crate::native::mono::bindings::{Bindings, BindingsModel};
use crate::native::mono::rewrite::{
    sub_opt_ty, sub_ty, sub_ty_list, subst_blocks, subst_opt_ty, subst_tys,
    substitute_blocks_metadata, ty_with,
};
use crate::native::mono::subst::{repeated, unsupported, unsupported_error};
use crate::native::mono::unify::{is_symbolic, symbolic};
use crate::outcome::{collect, lemma_collect_err, lemma_collect_ok};
use crate::table::{TyTable, table_get, table_set};
use crate::text::cat3;
use crate::types::{
    Ty, TyArg, TyArgModel, TyModel, opt_ty_view, ty_args_view, ty_text, tys_view, u32_tys_view,
};
use vstd::prelude::*;

verus! {

/// The iterator slots that an iteration starts in place, for one instruction.
pub open spec fn retyped_instr(x: MirInstrModel) -> Seq<u32>
    decreases x, 0int,
{
    match x {
        MirInstrModel::GetIter { source, dest, .. } => if source == dest { seq![dest] } else { Seq::empty() },
        MirInstrModel::Try {
            body,
            handler,
            orelse,
            finalbody,
        } => retyped_blocks(body) + retyped_handler(handler) + retyped_region(
            orelse,
        ) + retyped_region(finalbody),
        _ => Seq::empty(),
    }
}

/// The iterator slots that an iteration starts in place, for instructions in order.
pub open spec fn retyped_instrs(xs: Seq<MirInstrModel>) -> Seq<u32>
    decreases xs, 0int,
{
    if xs.len() == 0 {
        Seq::empty()
    } else {
        retyped_instrs(xs.drop_last()) + retyped_instr(xs.last())
    }
}

/// The iterator slots that an iteration starts in place, for blocks in order.
pub open spec fn retyped_blocks(xs: Seq<MirBlockModel>) -> Seq<u32>
    decreases xs, 0int,
{
    if xs.len() == 0 {
        Seq::empty()
    } else {
        retyped_blocks(xs.drop_last()) + retyped_instrs(xs.last().instrs)
    }
}

/// The iterator slots that an iteration starts in place, for the handler of a `try`.
pub open spec fn retyped_handler(x: Option<(Option<u32>, Seq<MirBlockModel>)>) -> Seq<u32>
    decreases x, 0int,
{
    match x {
        Some(h) => retyped_blocks(h.1),
        None => Seq::empty(),
    }
}

/// The iterator slots that an iteration starts in place, for an optional region of a `try`.
pub open spec fn retyped_region(x: Option<Seq<MirBlockModel>>) -> Seq<u32>
    decreases x, 0int,
{
    match x {
        Some(blocks) => retyped_blocks(blocks),
        None => Seq::empty(),
    }
}

#[verifier::rlimit(50)]
fn push_retyped_instr(x: &MirInstr, out: &mut Vec<u32>)
    ensures
        final(out)@ == old(out)@ + retyped_instr(x@),
    decreases x, 0int,
{
    let ghost start = out@;
    match x {
        MirInstr::GetIter { source, dest, .. } => {
            if *source == *dest {
                out.push(*dest);
            }
        },
        MirInstr::Try { body, handler, orelse, finalbody } => {
            collect_retyped_iterator_slots(body, out);
            if let Some(h) = handler {
                collect_retyped_iterator_slots(&h.1, out);
            }
            if let Some(blocks) = orelse {
                collect_retyped_iterator_slots(blocks, out);
            }
            if let Some(blocks) = finalbody {
                collect_retyped_iterator_slots(blocks, out);
            }
        },
        _ => {},
    }
    assert(out@ =~= start + retyped_instr(x@));
}

fn push_retyped_instrs(xs: &Vec<MirInstr>, out: &mut Vec<u32>)
    ensures
        final(out)@ == old(out)@ + retyped_instrs(instrs_view(*xs)),
    decreases xs, 0int,
{
    let ghost start = out@;
    let ghost model = instrs_view(*xs);
    assert(start + retyped_instrs(model.take(0)) =~= start);
    for i in 0..xs.len()
        invariant
            model == instrs_view(*xs),
            out@ == start + retyped_instrs(model.take(i as int)),
    {
        push_retyped_instr(&xs[i], out);
        proof {
            assert(model.take(i + 1).drop_last() =~= model.take(i as int));
            assert(out@ =~= start + retyped_instrs(model.take(i + 1)));
        }
    }
    assert(model.take(model.len() as int) =~= model);
}

/// Pushes the iterator slots that an iteration starts in place.
pub fn collect_retyped_iterator_slots(xs: &Vec<MirBlock>, out: &mut Vec<u32>)
    ensures
        final(out)@ == old(out)@ + retyped_blocks(blocks_view(*xs)),
    decreases xs, 0int,
{
    let ghost start = out@;
    let ghost model = blocks_view(*xs);
    assert(start + retyped_blocks(model.take(0)) =~= start);
    for i in 0..xs.len()
        invariant
            model == blocks_view(*xs),
            out@ == start + retyped_blocks(model.take(i as int)),
    {
        push_retyped_instrs(&xs[i].instrs, out);
        proof {
            assert(model[i as int].instrs == instrs_view(xs@[i as int].instrs));
            assert(model.take(i + 1).drop_last() =~= model.take(i as int));
            assert(out@ =~= start + retyped_blocks(model.take(i + 1)));
        }
    }
    assert(model.take(model.len() as int) =~= model);
}

/// The register types that reads of whole variables give, for one instruction.
pub open spec fn reg_repairs_instr(
    x: MirInstrModel,
    tys: Seq<(u32, TyModel)>,
    slots: Seq<u32>,
) -> Seq<(u32, TyModel)>
    decreases x, 0int,
{
    match x {
        MirInstrModel::UseVar { dest, var } => if !slots.contains(var) && table_get(tys, var) is Some {
            seq![(dest.0, table_get(tys, var)->Some_0)]
        } else {
            Seq::empty()
        },
        MirInstrModel::LoadPlace { dest, place } => if place.proj.len() == 0 && !slots.contains(place.root) && table_get(
            tys,
            place.root,
        ) is Some {
            seq![(dest.0, table_get(tys, place.root)->Some_0)]
        } else {
            Seq::empty()
        },
        MirInstrModel::Try {
            body,
            handler,
            orelse,
            finalbody,
        } => reg_repairs_blocks(body, tys, slots) + reg_repairs_handler(handler, tys, slots) + reg_repairs_region(
            orelse, tys, slots,
        ) + reg_repairs_region(finalbody, tys, slots),
        _ => Seq::empty(),
    }
}

/// The register types that reads of whole variables give, for instructions in order.
pub open spec fn reg_repairs_instrs(
    xs: Seq<MirInstrModel>,
    tys: Seq<(u32, TyModel)>,
    slots: Seq<u32>,
) -> Seq<(u32, TyModel)>
    decreases xs, 0int,
{
    if xs.len() == 0 {
        Seq::empty()
    } else {
        reg_repairs_instrs(xs.drop_last(), tys, slots) + reg_repairs_instr(xs.last(), tys, slots)
    }
}

/// The register types that reads of whole variables give, for blocks in order.
pub open spec fn reg_repairs_blocks(
    xs: Seq<MirBlockModel>,
    tys: Seq<(u32, TyModel)>,
    slots: Seq<u32>,
) -> Seq<(u32, TyModel)>
    decreases xs, 0int,
{
    if xs.len() == 0 {
        Seq::empty()
    } else {
        reg_repairs_blocks(xs.drop_last(), tys, slots) + reg_repairs_instrs(xs.last().instrs, tys, slots)
    }
}

/// The register types that reads of whole variables give, for the handler of a `try`.
pub open spec fn reg_repairs_handler(
    x: Option<(Option<u32>, Seq<MirBlockModel>)>,
    tys: Seq<(u32, TyModel)>,
    slots: Seq<u32>,
) -> Seq<(u32, TyModel)>
    decreases x, 0int,
{
    match x {
        Some(h) => reg_repairs_blocks(h.1, tys, slots),
        None => Seq::empty(),
    }
}

/// The register types that reads of whole variables give, for an optional region of a `try`.
pub open spec fn reg_repairs_region(
    x: Option<Seq<MirBlockModel>>,
    tys: Seq<(u32, TyModel)>,
    slots: Seq<u32>,
) -> Seq<(u32, TyModel)>
    decreases x, 0int,
{
    match x {
        Some(blocks) => reg_repairs_blocks(blocks, tys, slots),
        None => Seq::empty(),
    }
}

#[verifier::rlimit(50)]
fn push_reg_repairs_instr(x: &MirInstr, tys: &TyTable, slots: &Vec<u32>, out: &mut Vec<(u32, Ty)>)
    ensures
        u32_tys_view(*final(out)) == u32_tys_view(*old(out)) + reg_repairs_instr(x@, tys@, slots@),
    decreases x, 0int,
{
    let ghost start = u32_tys_view(*out);
    match x {
        MirInstr::UseVar { dest, var } => {
            if !has_slot(slots, *var) {
                if let Some(ty) = tys.get(*var) {
                    out.push((dest.0, ty.copy()));
                }
            }
        },
        MirInstr::LoadPlace { dest, place } => {
            assert(place@.proj.len() == place.proj@.len());
            if place.proj.len() == 0 && !has_slot(slots, place.root) {
                if let Some(ty) = tys.get(place.root) {
                    out.push((dest.0, ty.copy()));
                }
            }
        },
        MirInstr::Try { body, handler, orelse, finalbody } => {
            push_reg_repairs_blocks(body, tys, slots, out);
            if let Some(h) = handler {
                push_reg_repairs_blocks(&h.1, tys, slots, out);
            }
            if let Some(blocks) = orelse {
                push_reg_repairs_blocks(blocks, tys, slots, out);
            }
            if let Some(blocks) = finalbody {
                push_reg_repairs_blocks(blocks, tys, slots, out);
            }
        },
        _ => {},
    }
    assert(u32_tys_view(*out) =~= start + reg_repairs_instr(x@, tys@, slots@));
}

fn push_reg_repairs_instrs(xs: &Vec<MirInstr>, tys: &TyTable, slots: &Vec<u32>, out: &mut Vec<(u32, Ty)>)
    ensures
        u32_tys_view(*final(out)) == u32_tys_view(*old(out)) + reg_repairs_instrs(
            instrs_view(*xs),
            tys@,
            slots@,
        ),
    decreases xs, 0int,
{
    let ghost start = u32_tys_view(*out);
    let ghost model = instrs_view(*xs);
    assert(start + reg_repairs_instrs(model.take(0), tys@, slots@) =~= start);
    for i in 0..xs.len()
        invariant
            model == instrs_view(*xs),
            u32_tys_view(*out) == start + reg_repairs_instrs(model.take(i as int), tys@, slots@),
    {
        push_reg_repairs_instr(&xs[i], tys, slots, out);
        proof {
            assert(model.take(i + 1).drop_last() =~= model.take(i as int));
            assert(u32_tys_view(*out) =~= start + reg_repairs_instrs(model.take(i + 1), tys@, slots@));
        }
    }
    assert(model.take(model.len() as int) =~= model);
}

/// Pushes the register types that reads of whole variables give.
pub fn push_reg_repairs_blocks(xs: &Vec<MirBlock>, tys: &TyTable, slots: &Vec<u32>, out: &mut Vec<(u32, Ty)>)
    ensures
        u32_tys_view(*final(out)) == u32_tys_view(*old(out)) + reg_repairs_blocks(
            blocks_view(*xs),
            tys@,
            slots@,
        ),
    decreases xs, 0int,
{
    let ghost start = u32_tys_view(*out);
    let ghost model = blocks_view(*xs);
    assert(start + reg_repairs_blocks(model.take(0), tys@, slots@) =~= start);
    for i in 0..xs.len()
        invariant
            model == blocks_view(*xs),
            u32_tys_view(*out) == start + reg_repairs_blocks(model.take(i as int), tys@, slots@),
    {
        push_reg_repairs_instrs(&xs[i].instrs, tys, slots, out);
        proof {
            assert(model[i as int].instrs == instrs_view(xs@[i as int].instrs));
            assert(model.take(i + 1).drop_last() =~= model.take(i as int));
            assert(u32_tys_view(*out) =~= start + reg_repairs_blocks(model.take(i + 1), tys@, slots@));
        }
    }
    assert(model.take(model.len() as int) =~= model);
}

/// The variable types that definitions give, for one instruction.
pub open spec fn var_repairs_instr(
    x: MirInstrModel,
    tys: Seq<(u32, TyModel)>,
    slots: Seq<u32>,
) -> Seq<(u32, TyModel)>
    decreases x, 0int,
{
    match x {
        MirInstrModel::DefVar { var, src, .. } => if !slots.contains(var) && table_get(tys, src.0) is Some {
            seq![(var, table_get(tys, src.0)->Some_0)]
        } else {
            Seq::empty()
        },
        MirInstrModel::Try {
            body,
            handler,
            orelse,
            finalbody,
        } => var_repairs_blocks(body, tys, slots) + var_repairs_handler(handler, tys, slots) + var_repairs_region(
            orelse, tys, slots,
        ) + var_repairs_region(finalbody, tys, slots),
        _ => Seq::empty(),
    }
}

/// The variable types that definitions give, for instructions in order.
pub open spec fn var_repairs_instrs(
    xs: Seq<MirInstrModel>,
    tys: Seq<(u32, TyModel)>,
    slots: Seq<u32>,
) -> Seq<(u32, TyModel)>
    decreases xs, 0int,
{
    if xs.len() == 0 {
        Seq::empty()
    } else {
        var_repairs_instrs(xs.drop_last(), tys, slots) + var_repairs_instr(xs.last(), tys, slots)
    }
}

/// The variable types that definitions give, for blocks in order.
pub open spec fn var_repairs_blocks(
    xs: Seq<MirBlockModel>,
    tys: Seq<(u32, TyModel)>,
    slots: Seq<u32>,
) -> Seq<(u32, TyModel)>
    decreases xs, 0int,
{
    if xs.len() == 0 {
        Seq::empty()
    } else {
        var_repairs_blocks(xs.drop_last(), tys, slots) + var_repairs_instrs(xs.last().instrs, tys, slots)
    }
}

/// The variable types that definitions give, for the handler of a `try`.
pub open spec fn var_repairs_handler(
    x: Option<(Option<u32>, Seq<MirBlockModel>)>,
    tys: Seq<(u32, TyModel)>,
    slots: Seq<u32>,
) -> Seq<(u32, TyModel)>
    decreases x, 0int,
{
    match x {
        Some(h) => var_repairs_blocks(h.1, tys, slots),
        None => Seq::empty(),
    }
}

/// The variable types that definitions give, for an optional region of a `try`.
pub open spec fn var_repairs_region(
    x: Option<Seq<MirBlockModel>>,
    tys: Seq<(u32, TyModel)>,
    slots: Seq<u32>,
) -> Seq<(u32, TyModel)>
    decreases x, 0int,
{
    match x {
        Some(blocks) => var_repairs_blocks(blocks, tys, slots),
        None => Seq::empty(),
    }
}

#[verifier::rlimit(50)]
fn push_var_repairs_instr(x: &MirInstr, tys: &TyTable, slots: &Vec<u32>, out: &mut Vec<(u32, Ty)>)
    ensures
        u32_tys_view(*final(out)) == u32_tys_view(*old(out)) + var_repairs_instr(x@, tys@, slots@),
    decreases x, 0int,
{
    let ghost start = u32_tys_view(*out);
    match x {
        MirInstr::DefVar { var, src, .. } => {
            if !has_slot(slots, *var) {
                if let Some(ty) = tys.get(src.0) {
                    out.push((*var, ty.copy()));
                }
            }
        },
        MirInstr::Try { body, handler, orelse, finalbody } => {
            push_var_repairs_blocks(body, tys, slots, out);
            if let Some(h) = handler {
                push_var_repairs_blocks(&h.1, tys, slots, out);
            }
            if let Some(blocks) = orelse {
                push_var_repairs_blocks(blocks, tys, slots, out);
            }
            if let Some(blocks) = finalbody {
                push_var_repairs_blocks(blocks, tys, slots, out);
            }
        },
        _ => {},
    }
    assert(u32_tys_view(*out) =~= start + var_repairs_instr(x@, tys@, slots@));
}

fn push_var_repairs_instrs(xs: &Vec<MirInstr>, tys: &TyTable, slots: &Vec<u32>, out: &mut Vec<(u32, Ty)>)
    ensures
        u32_tys_view(*final(out)) == u32_tys_view(*old(out)) + var_repairs_instrs(
            instrs_view(*xs),
            tys@,
            slots@,
        ),
    decreases xs, 0int,
{
    let ghost start = u32_tys_view(*out);
    let ghost model = instrs_view(*xs);
    assert(start + var_repairs_instrs(model.take(0), tys@, slots@) =~= start);
    for i in 0..xs.len()
        invariant
            model == instrs_view(*xs),
            u32_tys_view(*out) == start + var_repairs_instrs(model.take(i as int), tys@, slots@),
    {
        push_var_repairs_instr(&xs[i], tys, slots, out);
        proof {
            assert(model.take(i + 1).drop_last() =~= model.take(i as int));
            assert(u32_tys_view(*out) =~= start + var_repairs_instrs(model.take(i + 1), tys@, slots@));
        }
    }
    assert(model.take(model.len() as int) =~= model);
}

/// Pushes the variable types that definitions give.
pub fn push_var_repairs_blocks(xs: &Vec<MirBlock>, tys: &TyTable, slots: &Vec<u32>, out: &mut Vec<(u32, Ty)>)
    ensures
        u32_tys_view(*final(out)) == u32_tys_view(*old(out)) + var_repairs_blocks(
            blocks_view(*xs),
            tys@,
            slots@,
        ),
    decreases xs, 0int,
{
    let ghost start = u32_tys_view(*out);
    let ghost model = blocks_view(*xs);
    assert(start + var_repairs_blocks(model.take(0), tys@, slots@) =~= start);
    for i in 0..xs.len()
        invariant
            model == blocks_view(*xs),
            u32_tys_view(*out) == start + var_repairs_blocks(model.take(i as int), tys@, slots@),
    {
        push_var_repairs_instrs(&xs[i].instrs, tys, slots, out);
        proof {
            assert(model[i as int].instrs == instrs_view(xs@[i as int].instrs));
            assert(model.take(i + 1).drop_last() =~= model.take(i as int));
            assert(u32_tys_view(*out) =~= start + var_repairs_blocks(model.take(i + 1), tys@, slots@));
        }
    }
    assert(model.take(model.len() as int) =~= model);
}

/// The types named only by instructions, for one instruction.
pub open spec fn named_tys_instr(x: MirInstrModel) -> Seq<TyModel>
    decreases x, 0int,
{
    match x {
        MirInstrModel::SizeOf { ty, .. } => seq![ty],
        MirInstrModel::PointerStorageTake { element, .. } => seq![element],
        MirInstrModel::PointerStorageDestroy { element, .. } => seq![element],
        MirInstrModel::UninitStorageTake { element, .. } => seq![element],
        MirInstrModel::UninitStorageDestroy { element, .. } => seq![element],
        MirInstrModel::Try {
            body,
            handler,
            orelse,
            finalbody,
        } => named_tys_blocks(body) + named_tys_handler(handler) + named_tys_region(
            orelse,
        ) + named_tys_region(finalbody),
        _ => Seq::empty(),
    }
}

/// The types named only by instructions, for instructions in order.
pub open spec fn named_tys_instrs(xs: Seq<MirInstrModel>) -> Seq<TyModel>
    decreases xs, 0int,
{
    if xs.len() == 0 {
        Seq::empty()
    } else {
        named_tys_instrs(xs.drop_last()) + named_tys_instr(xs.last())
    }
}

/// The types named only by instructions, for blocks in order.
pub open spec fn named_tys_blocks(xs: Seq<MirBlockModel>) -> Seq<TyModel>
    decreases xs, 0int,
{
    if xs.len() == 0 {
        Seq::empty()
    } else {
        named_tys_blocks(xs.drop_last()) + named_tys_instrs(xs.last().instrs)
    }
}

/// The types named only by instructions, for the handler of a `try`.
pub open spec fn named_tys_handler(x: Option<(Option<u32>, Seq<MirBlockModel>)>) -> Seq<TyModel>
    decreases x, 0int,
{
    match x {
        Some(h) => named_tys_blocks(h.1),
        None => Seq::empty(),
    }
}

/// The types named only by instructions, for an optional region of a `try`.
pub open spec fn named_tys_region(x: Option<Seq<MirBlockModel>>) -> Seq<TyModel>
    decreases x, 0int,
{
    match x {
        Some(blocks) => named_tys_blocks(blocks),
        None => Seq::empty(),
    }
}

#[verifier::rlimit(50)]
fn push_named_tys_instr(x: &MirInstr, out: &mut Vec<Ty>)
    ensures
        tys_view(*final(out)) == tys_view(*old(out)) + named_tys_instr(x@),
    decreases x, 0int,
{
    let ghost start = tys_view(*out);
    match x {
        MirInstr::SizeOf { ty, .. } => out.push(ty.copy()),
        MirInstr::PointerStorageTake { element, .. } => out.push(element.copy()),
        MirInstr::PointerStorageDestroy { element, .. } => out.push(element.copy()),
        MirInstr::UninitStorageTake { element, .. } => out.push(element.copy()),
        MirInstr::UninitStorageDestroy { element, .. } => out.push(element.copy()),
        MirInstr::Try { body, handler, orelse, finalbody } => {
            push_instruction_types(body, out);
            if let Some(h) = handler {
                push_instruction_types(&h.1, out);
            }
            if let Some(blocks) = orelse {
                push_instruction_types(blocks, out);
            }
            if let Some(blocks) = finalbody {
                push_instruction_types(blocks, out);
            }
        },
        _ => {},
    }
    assert(tys_view(*out) =~= start + named_tys_instr(x@));
}

fn push_named_tys_instrs(xs: &Vec<MirInstr>, out: &mut Vec<Ty>)
    ensures
        tys_view(*final(out)) == tys_view(*old(out)) + named_tys_instrs(instrs_view(*xs)),
    decreases xs, 0int,
{
    let ghost start = tys_view(*out);
    let ghost model = instrs_view(*xs);
    assert(start + named_tys_instrs(model.take(0)) =~= start);
    for i in 0..xs.len()
        invariant
            model == instrs_view(*xs),
            tys_view(*out) == start + named_tys_instrs(model.take(i as int)),
    {
        push_named_tys_instr(&xs[i], out);
        proof {
            assert(model.take(i + 1).drop_last() =~= model.take(i as int));
            assert(tys_view(*out) =~= start + named_tys_instrs(model.take(i + 1)));
        }
    }
    assert(model.take(model.len() as int) =~= model);
}

/// Pushes the types named only by instructions. These need layouts or lifecycle declarations even when no register or variable carries them.
pub fn push_instruction_types(xs: &Vec<MirBlock>, out: &mut Vec<Ty>)
    ensures
        tys_view(*final(out)) == tys_view(*old(out)) + named_tys_blocks(blocks_view(*xs)),
    decreases xs, 0int,
{
    let ghost start = tys_view(*out);
    let ghost model = blocks_view(*xs);
    assert(start + named_tys_blocks(model.take(0)) =~= start);
    for i in 0..xs.len()
        invariant
            model == blocks_view(*xs),
            tys_view(*out) == start + named_tys_blocks(model.take(i as int)),
    {
        push_named_tys_instrs(&xs[i].instrs, out);
        proof {
            assert(model[i as int].instrs == instrs_view(xs@[i as int].instrs));
            assert(model.take(i + 1).drop_last() =~= model.take(i as int));
            assert(tys_view(*out) =~= start + named_tys_blocks(model.take(i + 1)));
        }
    }
    assert(model.take(model.len() as int) =~= model);
}

/// An instruction with a read of a bound value parameter replaced by the constant.
pub open spec fn reads_instr(
    x: MirInstrModel,
    names: Seq<Seq<char>>,
    tys: Seq<(u32, TyModel)>,
    b: BindingsModel,
) -> Result<MirInstrModel, MonoErrorModel>
    decreases x, 0int,
{
    match x {
        MirInstrModel::UseVar { dest, var } => if (var as int) < names.len() && b.values.dom().contains(names[var as int]) {
            match value_constant(names[var as int], table_get(tys, var), b) {
                Err(e) => Err(e),
                Ok(k) => Ok(MirInstrModel::Const { dest, k }),
            }
        } else {
            Ok(x)
        },
        MirInstrModel::Try { body, handler, orelse, finalbody } => match reads_blocks(body, names, tys, b) {
            Err(e) => Err(e),
            Ok(body) => match reads_handler(handler, names, tys, b) {
                Err(e) => Err(e),
                Ok(handler) => match reads_region(orelse, names, tys, b) {
                    Err(e) => Err(e),
                    Ok(orelse) => match reads_region(finalbody, names, tys, b) {
                        Err(e) => Err(e),
                        Ok(finalbody) => Ok(MirInstrModel::Try { body, handler, orelse, finalbody }),
                    },
                },
            },
        },
        _ => Ok(x),
    }
}

/// What each instruction becomes.
pub open spec fn reads_instr_results(
    xs: Seq<MirInstrModel>,
    names: Seq<Seq<char>>,
    tys: Seq<(u32, TyModel)>,
    b: BindingsModel,
) -> Seq<Result<MirInstrModel, MonoErrorModel>>
    decreases xs, 0int,
{
    Seq::new(
        xs.len(),
        |i: int| if 0 <= i < xs.len() { reads_instr(xs[i], names, tys, b) } else { arbitrary() },
    )
}

/// What a block becomes.
pub open spec fn reads_block(
    x: MirBlockModel,
    names: Seq<Seq<char>>,
    tys: Seq<(u32, TyModel)>,
    b: BindingsModel,
) -> Result<MirBlockModel, MonoErrorModel>
    decreases x, 0int,
{
    match collect(reads_instr_results(x.instrs, names, tys, b)) {
        Err(e) => Err(e),
        Ok(instrs) => Ok(MirBlockModel { instrs, ..x }),
    }
}

/// What each block becomes.
pub open spec fn reads_block_results(
    xs: Seq<MirBlockModel>,
    names: Seq<Seq<char>>,
    tys: Seq<(u32, TyModel)>,
    b: BindingsModel,
) -> Seq<Result<MirBlockModel, MonoErrorModel>>
    decreases xs, 0int,
{
    Seq::new(
        xs.len(),
        |i: int| if 0 <= i < xs.len() { reads_block(xs[i], names, tys, b) } else { arbitrary() },
    )
}

/// What the blocks become.
pub open spec fn reads_blocks(
    xs: Seq<MirBlockModel>,
    names: Seq<Seq<char>>,
    tys: Seq<(u32, TyModel)>,
    b: BindingsModel,
) -> Result<Seq<MirBlockModel>, MonoErrorModel>
    decreases xs, 1int,
{
    collect(reads_block_results(xs, names, tys, b))
}

/// What the handler of a `try` becomes.
pub open spec fn reads_handler(
    x: Option<(Option<u32>, Seq<MirBlockModel>)>,
    names: Seq<Seq<char>>,
    tys: Seq<(u32, TyModel)>,
    b: BindingsModel,
) -> Result<Option<(Option<u32>, Seq<MirBlockModel>)>, MonoErrorModel>
    decreases x, 0int,
{
    match x {
        Some((slot, blocks)) => match reads_blocks(blocks, names, tys, b) {
            Err(e) => Err(e),
            Ok(blocks) => Ok(Some((slot, blocks))),
        },
        None => Ok(None),
    }
}

/// What an optional region of a `try` becomes.
pub open spec fn reads_region(
    x: Option<Seq<MirBlockModel>>,
    names: Seq<Seq<char>>,
    tys: Seq<(u32, TyModel)>,
    b: BindingsModel,
) -> Result<Option<Seq<MirBlockModel>>, MonoErrorModel>
    decreases x, 0int,
{
    match x {
        Some(blocks) => match reads_blocks(blocks, names, tys, b) {
            Err(e) => Err(e),
            Ok(blocks) => Ok(Some(blocks)),
        },
        None => Ok(None),
    }
}

fn value_parameter_reads_instr(
    x: &MirInstr,
    var_names: &Vec<String>,
    var_tys: &TyTable,
    bindings: &Bindings,
) -> (r: Result<MirInstr, MonoError>)
    ensures
        match r {
            Ok(v) => reads_instr(
                x@,
                strings_view(*var_names),
                var_tys@,
                bindings@,
            ) == Ok::<MirInstrModel, MonoErrorModel>(v@),
            Err(e) => reads_instr(
                x@,
                strings_view(*var_names),
                var_tys@,
                bindings@,
            ) == Err::<MirInstrModel, MonoErrorModel>(e@),
        },
    decreases x, 0int,
{
    match x {
        MirInstr::UseVar { dest, var } => {
            assert(strings_view(*var_names).len() == var_names@.len());
            if (*var as usize) < var_names.len() {
                let name: &String = &var_names[*var as usize];
                assert(strings_view(*var_names)[*var as int] == name@);
                if let Some(value) = bindings.value(name) {
                    return match parameter_constant(name, value, var_tys.get(*var), bindings) {
                        Err(e) => Err(e),
                        Ok(k) => Ok(MirInstr::Const { dest: *dest, k }),
                    };
                }
            }
            Ok(x.copy())
        },
        MirInstr::Try { body, handler, orelse, finalbody } => {
            let body: Vec<MirBlock> = match value_parameter_reads(body, var_names, var_tys, bindings) {
                Ok(v) => v,
                Err(e) => return Err(e),
            };
            let handler: Option<(Option<u32>, Vec<MirBlock>)> = match handler {
                Some(h) => match value_parameter_reads(&h.1, var_names, var_tys, bindings) {
                    Ok(v) => Some((h.0, v)),
                    Err(e) => return Err(e),
                },
                None => None,
            };
            let orelse: Option<Vec<MirBlock>> = match orelse {
                Some(blocks) => match value_parameter_reads(blocks, var_names, var_tys, bindings) {
                    Ok(v) => Some(v),
                    Err(e) => return Err(e),
                },
                None => None,
            };
            let finalbody: Option<Vec<MirBlock>> = match finalbody {
                Some(blocks) => match value_parameter_reads(blocks, var_names, var_tys, bindings) {
                    Ok(v) => Some(v),
                    Err(e) => return Err(e),
                },
                None => None,
            };
            Ok(MirInstr::Try { body, handler, orelse, finalbody })
        },
        _ => Ok(x.copy()),
    }
}

fn value_parameter_reads_instrs(
    xs: &Vec<MirInstr>,
    var_names: &Vec<String>,
    var_tys: &TyTable,
    bindings: &Bindings,
) -> (r: Result<Vec<MirInstr>, MonoError>)
    ensures
        match r {
            Ok(v) => collect(
                reads_instr_results(instrs_view(*xs), strings_view(*var_names), var_tys@, bindings@)
            ) == Ok::<Seq<MirInstrModel>, MonoErrorModel>(instrs_view(v)),
            Err(e) => collect(
                reads_instr_results(instrs_view(*xs), strings_view(*var_names), var_tys@, bindings@)
            ) == Err::<Seq<MirInstrModel>, MonoErrorModel>(e@),
        },
    decreases xs, 0int,
{
    let ghost results = reads_instr_results(instrs_view(*xs), strings_view(*var_names), var_tys@, bindings@);
    let mut out: Vec<MirInstr> = Vec::new();
    for i in 0..xs.len()
        invariant
            results == reads_instr_results(instrs_view(*xs), strings_view(*var_names), var_tys@, bindings@),
            out@.len() == i,
            forall|j: int| 0 <= j < i ==> #[trigger] results[j] == Ok::<MirInstrModel, MonoErrorModel>(instrs_view(out)[j]),
    {
        assert(
            results[i as int] == reads_instr(
                instrs_view(*xs)[i as int],
                strings_view(*var_names),
                var_tys@,
                bindings@,
            )
        );
        match value_parameter_reads_instr(&xs[i], var_names, var_tys, bindings) {
            Ok(x) => {
                let ghost before = out;
                out.push(x);
                assert forall|j: int| 0 <= j < i + 1 implies #[trigger] results[j] == Ok::<MirInstrModel, MonoErrorModel>(instrs_view(out)[j]) by {
                    if j < i {
                        assert(instrs_view(before)[j] == instrs_view(out)[j]);
                    }
                }
            },
            Err(e) => {
                proof {
                    lemma_collect_err(results, i as int, e@);
                }
                return Err(e);
            },
        }
    }
    proof {
        lemma_collect_ok(results, instrs_view(out));
    }
    Ok(out)
}

/// An instruction with a read of a bound value parameter replaced by the constant.
pub fn value_parameter_reads(
    xs: &Vec<MirBlock>,
    var_names: &Vec<String>,
    var_tys: &TyTable,
    bindings: &Bindings,
) -> (r: Result<Vec<MirBlock>, MonoError>)
    ensures
        match r {
            Ok(v) => reads_blocks(
                blocks_view(*xs),
                strings_view(*var_names),
                var_tys@,
                bindings@,
            ) == Ok::<Seq<MirBlockModel>, MonoErrorModel>(blocks_view(v)),
            Err(e) => reads_blocks(
                blocks_view(*xs),
                strings_view(*var_names),
                var_tys@,
                bindings@,
            ) == Err::<Seq<MirBlockModel>, MonoErrorModel>(e@),
        },
    decreases xs, 0int,
{
    let ghost results = reads_block_results(blocks_view(*xs), strings_view(*var_names), var_tys@, bindings@);
    let mut out: Vec<MirBlock> = Vec::new();
    for i in 0..xs.len()
        invariant
            results == reads_block_results(blocks_view(*xs), strings_view(*var_names), var_tys@, bindings@),
            out@.len() == i,
            forall|j: int| 0 <= j < i ==> #[trigger] results[j] == Ok::<MirBlockModel, MonoErrorModel>(blocks_view(out)[j]),
    {
        assert(
            results[i as int] == reads_block(
                blocks_view(*xs)[i as int],
                strings_view(*var_names),
                var_tys@,
                bindings@,
            )
        );
        match value_parameter_reads_block(&xs[i], var_names, var_tys, bindings) {
            Ok(x) => {
                let ghost before = out;
                out.push(x);
                assert forall|j: int| 0 <= j < i + 1 implies #[trigger] results[j] == Ok::<MirBlockModel, MonoErrorModel>(blocks_view(out)[j]) by {
                    if j < i {
                        assert(blocks_view(before)[j] == blocks_view(out)[j]);
                    }
                }
            },
            Err(e) => {
                proof {
                    lemma_collect_err(results, i as int, e@);
                }
                return Err(e);
            },
        }
    }
    proof {
        lemma_collect_ok(results, blocks_view(out));
    }
    Ok(out)
}

fn value_parameter_reads_block(
    x: &MirBlock,
    var_names: &Vec<String>,
    var_tys: &TyTable,
    bindings: &Bindings,
) -> (r: Result<MirBlock, MonoError>)
    ensures
        match r {
            Ok(v) => reads_block(
                x@,
                strings_view(*var_names),
                var_tys@,
                bindings@,
            ) == Ok::<MirBlockModel, MonoErrorModel>(v@),
            Err(e) => reads_block(
                x@,
                strings_view(*var_names),
                var_tys@,
                bindings@,
            ) == Err::<MirBlockModel, MonoErrorModel>(e@),
        },
    decreases x, 0int,
{
    match value_parameter_reads_instrs(&x.instrs, var_names, var_tys, bindings) {
        Err(e) => Err(e),
        Ok(instrs) => Ok(MirBlock { instrs, term: x.term.copy() }),
    }
}

/// The constant that a bound value parameter reads as. A callable parameter reads
/// as its function; a text is a function only in a callable slot.
pub open spec fn value_constant(
    name: Seq<char>,
    ty: Option<TyModel>,
    b: BindingsModel,
) -> Result<ConstModel, MonoErrorModel> {
    if b.callables.dom().contains(name) {
        Ok(ConstModel::Function(b.callables[name]))
    } else {
        match b.values[name] {
            CtValueModel::Int(v) => Ok(ConstModel::Int(v)),
            CtValueModel::Bool(v) => Ok(ConstModel::Bool(v)),
            CtValueModel::Str(text) => if ty is Some && callable_ty(ty->Some_0) {
                Ok(ConstModel::Function(text))
            } else {
                Err(
                    unsupported(
                        "unsupported runtime value parameter `"@ + ct_value_text(b.values[name]) + "`"@
                    )
                )
            },
            _ => Err(
                unsupported("unsupported runtime value parameter `"@ + ct_value_text(b.values[name]) + "`"@)
            ),
        }
    }
}

/// Whether the type is a callable, generic or not.
pub open spec fn callable_ty(ty: TyModel) -> bool {
    ty is Func || ty is GenericFunc
}

/// Whether the type is a callable, generic or not.
pub fn is_callable_ty(ty: &Ty) -> (r: bool)
    ensures
        r == callable_ty(ty@),
{
    match ty {
        Ty::Func { .. } => true,
        Ty::GenericFunc { .. } => true,
        _ => false,
    }
}

fn parameter_constant(
    name: &String,
    value: &CtValue,
    ty: Option<&Ty>,
    bindings: &Bindings,
) -> (r: Result<Const, MonoError>)
    requires
        bindings@.values[name@] == value@,
    ensures
        ({
            let model = match ty {
                Some(t) => Some(t@),
                None => None,
            };
            match r {
                Ok(k) => value_constant(name@, model, bindings@) == Ok::<ConstModel, MonoErrorModel>(k@),
                Err(e) => value_constant(name@, model, bindings@) == Err::<ConstModel, MonoErrorModel>(e@),
            }
        }),
{
    if let Some(target) = bindings.callable(name) {
        return Ok(Const::Function(target.clone()));
    }
    match value {
        CtValue::Int(v) => return Ok(Const::Int(*v)),
        CtValue::Bool(v) => return Ok(Const::Bool(*v)),
        CtValue::Str(text) => {
            if let Some(t) = ty {
                if is_callable_ty(t) {
                    return Ok(Const::Function(text.clone()));
                }
            }
        },
        _ => {},
    }
    Err(unsupported_error(cat3("unsupported runtime value parameter `", &value.text(), "`")))
}

/// Replaces every read of a bound value parameter by the constant. A failure
/// leaves the blocks as they were.
pub fn substitute_value_parameter_reads(
    blocks: &mut Vec<MirBlock>,
    var_names: &Vec<String>,
    var_tys: &TyTable,
    bindings: &Bindings,
) -> (r: Result<(), MonoError>)
    ensures
        match r {
            Ok(()) => reads_blocks(
                blocks_view(*old(blocks)),
                strings_view(*var_names),
                var_tys@,
                bindings@,
            ) == Ok::<
                Seq<MirBlockModel>,
                MonoErrorModel,
            >(blocks_view(*final(blocks))),
            Err(e) => reads_blocks(
                blocks_view(*old(blocks)),
                strings_view(*var_names),
                var_tys@,
                bindings@,
            ) == Err::<
                Seq<MirBlockModel>,
                MonoErrorModel,
            >(e@) && *final(blocks) == *old(blocks),
        },
{
    match value_parameter_reads(blocks, var_names, var_tys, bindings) {
        Ok(v) => {
            *blocks = v;
            Ok(())
        },
        Err(e) => Err(e),
    }
}

fn has_slot(slots: &Vec<u32>, slot: u32) -> (r: bool)
    ensures
        r == slots@.contains(slot),
{
    for i in 0..slots.len()
        invariant
            forall|j: int| 0 <= j < i ==> slots@[j] != slot,
    {
        if slots[i] == slot {
            return true;
        }
    }
    false
}

/// A table after recording several types in order.
pub open spec fn table_extend(table: Seq<(u32, TyModel)>, entries: Seq<(u32, TyModel)>) -> Seq<(u32, TyModel)>
    decreases entries.len(),
{
    if entries.len() == 0 {
        table
    } else {
        table_set(table_extend(table, entries.drop_last()), entries.last().0, entries.last().1)
    }
}

fn extend_table(table: &mut TyTable, entries: &Vec<(u32, Ty)>)
    ensures
        final(table)@ == table_extend(old(table)@, u32_tys_view(*entries)),
{
    let ghost start = table@;
    let ghost model = u32_tys_view(*entries);
    for i in 0..entries.len()
        invariant
            model == u32_tys_view(*entries),
            table@ == table_extend(start, model.take(i as int)),
    {
        assert(model.take(i + 1).drop_last() =~= model.take(i as int));
        table.insert(entries[i].0, entries[i].1.copy());
    }
    assert(model.take(model.len() as int) =~= model);
}

/// One round of making registers and variables agree: a register that reads a
/// whole variable takes its type, and a variable takes the type of the register
/// that defines it. Slots that an iteration starts in place keep theirs.
pub open spec fn repair_round(f: MirFunctionModel, slots: Seq<u32>) -> MirFunctionModel {
    MirFunctionModel {
        reg_types: table_extend(f.reg_types, reg_repairs_blocks(f.blocks, f.var_tys, slots)),
        var_tys: table_extend(f.var_tys, var_repairs_blocks(f.blocks, f.reg_types, slots)),
        ..f
    }
}

/// A function after three rounds of repair.
pub open spec fn repaired(f: MirFunctionModel) -> MirFunctionModel {
    let slots = retyped_blocks(f.blocks);
    repair_round(repair_round(repair_round(f, slots), slots), slots)
}

fn repair_once(function: &mut MirFunction, slots: &Vec<u32>)
    ensures
        final(function)@ == repair_round(old(function)@, slots@),
{
    let mut reg_repairs: Vec<(u32, Ty)> = Vec::new();
    let mut var_repairs: Vec<(u32, Ty)> = Vec::new();
    let ghost none = Seq::<(u32, TyModel)>::empty();
    assert(u32_tys_view(reg_repairs) =~= none);
    assert(u32_tys_view(var_repairs) =~= none);
    push_reg_repairs_blocks(&function.blocks, &function.var_tys, slots, &mut reg_repairs);
    push_var_repairs_blocks(&function.blocks, &function.reg_types, slots, &mut var_repairs);
    proof {
        let f = old(function)@;
        assert(
            none + reg_repairs_blocks(f.blocks, f.var_tys, slots@) =~= reg_repairs_blocks(f.blocks, f.var_tys, slots@)
        );
        assert(
            none + var_repairs_blocks(
                f.blocks,
                f.reg_types,
                slots@,
            ) =~= var_repairs_blocks(f.blocks, f.reg_types, slots@)
        );
    }
    extend_table(&mut function.reg_types, &reg_repairs);
    extend_table(&mut function.var_tys, &var_repairs);
}

/// Makes the types of registers and variables agree where storage was retyped.
pub fn repair_storage_result_types(function: &mut MirFunction)
    ensures
        final(function)@ == repaired(old(function)@),
{
    let mut slots: Vec<u32> = Vec::new();
    collect_retyped_iterator_slots(&function.blocks, &mut slots);
    assert(slots@ =~= retyped_blocks(function@.blocks));
    repair_once(function, &slots);
    repair_once(function, &slots);
    repair_once(function, &slots);
}

/// The type that a bound value parameter gives its variable.
pub open spec fn value_slot_ty(value: CtValueModel) -> Option<TyModel> {
    match value {
        CtValueModel::Int(_) => Some(TyModel::Int),
        CtValueModel::Bool(_) => Some(TyModel::Bool),
        _ => None,
    }
}

/// The variable types after the first `n` variables that name bound value
/// parameters took the types of their values.
pub open spec fn value_slots(
    table: Seq<(u32, TyModel)>,
    names: Seq<Seq<char>>,
    n: usize,
    b: BindingsModel,
) -> Seq<(u32, TyModel)>
    decreases n,
{
    if n == 0 {
        table
    } else {
        let i: usize = (n - 1) as usize;
        let before = value_slots(table, names, i, b);
        if b.values.dom().contains(names[i as int]) && value_slot_ty(b.values[names[i as int]]) is Some {
            table_set(before, i as u32, value_slot_ty(b.values[names[i as int]])->Some_0)
        } else {
            before
        }
    }
}

fn set_value_slots(table: &mut TyTable, names: &Vec<String>, bindings: &Bindings)
    ensures
        final(table)@ == value_slots(old(table)@, strings_view(*names), names.len(), bindings@),
{
    let ghost start = table@;
    for i in 0..names.len()
        invariant
            table@ == value_slots(start, strings_view(*names), i, bindings@),
    {
        assert(strings_view(*names)[i as int] == names@[i as int]@);
        let ty: Option<Ty> = match bindings.value(&names[i]) {
            Some(value) => match value {
                CtValue::Int(_) => Some(Ty::Int),
                CtValue::Bool(_) => Some(Ty::Bool),
                _ => None,
            },
            None => None,
        };
        if let Some(t) = ty {
            table.insert(i as u32, t);
        }
    }
}

/// What one table entry becomes.
pub open spec fn subst_entry(
    entry: (u32, TyModel),
    b: BindingsModel,
) -> Result<(u32, TyModel), MonoErrorModel> {
    match ty_with(entry.1, b) {
        Ok(ty) => Ok((entry.0, ty)),
        Err(e) => Err(e),
    }
}

/// What the types of a table become.
#[verifier::opaque]
pub open spec fn subst_table(
    table: Seq<(u32, TyModel)>,
    b: BindingsModel,
) -> Result<Seq<(u32, TyModel)>, MonoErrorModel> {
    collect(table.map_values(|entry: (u32, TyModel)| subst_entry(entry, b)))
}

fn substitute_table(table: &TyTable, bindings: &Bindings) -> (r: Result<TyTable, MonoError>)
    ensures
        match r {
            Ok(t) => subst_table(table@, bindings@) == Ok::<Seq<(u32, TyModel)>, MonoErrorModel>(t@),
            Err(e) => subst_table(table@, bindings@) == Err::<Seq<(u32, TyModel)>, MonoErrorModel>(e@),
        },
{
    let ghost results = table@.map_values(|entry: (u32, TyModel)| subst_entry(entry, bindings@));
    let mut entries: Vec<(u32, Ty)> = Vec::new();
    for i in 0..table.entries.len()
        invariant
            results == table@.map_values(|entry: (u32, TyModel)| subst_entry(entry, bindings@)),
            entries@.len() == i,
            forall|j: int| 0 <= j < i ==> #[trigger] results[j] == Ok::<(u32, TyModel), MonoErrorModel>(
                u32_tys_view(entries)[j],
            ),
    {
        assert(results[i as int] == subst_entry(table@[i as int], bindings@));
        match sub_ty(&table.entries[i].1, bindings) {
            Ok(ty) => {
                let ghost before = entries;
                entries.push((table.entries[i].0, ty));
                assert forall|j: int| 0 <= j < i + 1 implies #[trigger] results[j] == Ok::<(u32, TyModel), MonoErrorModel>(
                    u32_tys_view(entries)[j],
                ) by {
                    if j < i {
                        assert(u32_tys_view(before)[j] == u32_tys_view(entries)[j]);
                    }
                }
            },
            Err(e) => {
                proof {
                    reveal(subst_table);
                    lemma_collect_err(results, i as int, e@);
                }
                return Err(e);
            },
        }
    }
    proof {
        reveal(subst_table);
        lemma_collect_ok(results, u32_tys_view(entries));
    }
    Ok(TyTable { entries })
}

/// A function body with the parameters in it replaced by what they stand for:
/// reads of value parameters become constants, checked types are substituted, and
/// register and variable types are made to agree.
pub open spec fn subst_function(
    f: MirFunctionModel,
    b: BindingsModel,
) -> Result<MirFunctionModel, MonoErrorModel> {
    match reads_blocks(f.blocks, f.var_names, f.var_tys, b) {
        Err(e) => Err(e),
        Ok(blocks) => match subst_tys(f.param_types, b) {
            Err(e) => Err(e),
            Ok(param_types) => match subst_table(
                value_slots(f.var_tys, f.var_names, f.var_names.len() as usize, b),
                b,
            ) {
                Err(e) => Err(e),
                Ok(var_tys) => match subst_table(f.reg_types, b) {
                    Err(e) => Err(e),
                    Ok(reg_types) => match subst_opt_ty(f.ret_ty, b) {
                        Err(e) => Err(e),
                        Ok(ret_ty) => match subst_opt_ty(f.error_ty, b) {
                            Err(e) => Err(e),
                            Ok(error_ty) => match subst_blocks(blocks, b) {
                                Err(e) => Err(e),
                                Ok(blocks) => Ok(
                                    repaired(
                                        MirFunctionModel {
                                            blocks,
                                            param_types,
                                            var_tys,
                                            reg_types,
                                            ret_ty,
                                            error_ty,
                                            ..f
                                        },
                                    ),
                                ),
                            },
                        },
                    },
                },
            },
        },
    }
}

/// Replaces the parameters in a function body by what they stand for. A failure
/// leaves the body as it was.
pub fn substitute_function(function: &mut MirFunction, bindings: &Bindings) -> (r: Result<(), MonoError>)
    ensures
        match r {
            Ok(()) => subst_function(old(function)@, bindings@) == Ok::<MirFunctionModel, MonoErrorModel>(final(function)@),
            Err(e) => subst_function(old(function)@, bindings@) == Err::<MirFunctionModel, MonoErrorModel>(e@)
                && *final(function) == *old(function),
        },
{
    let blocks: Vec<MirBlock> = match value_parameter_reads(
        &function.blocks,
        &function.var_names,
        &function.var_tys,
        bindings,
    ) {
        Ok(v) => v,
        Err(e) => return Err(e),
    };
    let param_types: Vec<Ty> = match sub_ty_list(&function.param_types, bindings) {
        Ok(v) => v,
        Err(e) => return Err(e),
    };
    let mut var_tys: TyTable = function.var_tys.copy();
    set_value_slots(&mut var_tys, &function.var_names, bindings);
    assert(strings_view(function.var_names).len() == function.var_names@.len());
    let var_tys: TyTable = match substitute_table(&var_tys, bindings) {
        Ok(v) => v,
        Err(e) => return Err(e),
    };
    let reg_types: TyTable = match substitute_table(&function.reg_types, bindings) {
        Ok(v) => v,
        Err(e) => return Err(e),
    };
    let ret_ty: Option<Ty> = match sub_opt_ty(&function.ret_ty, bindings) {
        Ok(v) => v,
        Err(e) => return Err(e),
    };
    let error_ty: Option<Ty> = match sub_opt_ty(&function.error_ty, bindings) {
        Ok(v) => v,
        Err(e) => return Err(e),
    };
    let blocks: Vec<MirBlock> = match substitute_blocks_metadata(&blocks, bindings) {
        Ok(v) => v,
        Err(e) => return Err(e),
    };
    function.blocks = blocks;
    function.param_types = param_types;
    function.var_tys = var_tys;
    function.reg_types = reg_types;
    function.ret_ty = ret_ty;
    function.error_ty = error_ty;
    repair_storage_result_types(function);
    Ok(())
}

/// What the variadic collector of a declaration becomes: at a known call-site
/// arity the pack is that many elements.
pub open spec fn subst_variadic(
    ty: Option<TyModel>,
    b: BindingsModel,
) -> Result<Option<TyModel>, MonoErrorModel> {
    match subst_opt_ty(ty, b) {
        Err(e) => Err(e),
        Ok(None) => Ok(None),
        Ok(Some(t)) => match b.variadic_arity {
            Some(arity) => if t is RuntimePack || t is Tuple {
                Ok(Some(t))
            } else {
                Ok(Some(TyModel::RuntimePack(Seq::new(arity as nat, |i: int| t))))
            },
            None => Ok(Some(t)),
        },
    }
}

/// A declaration with the parameters in its contract replaced.
pub open spec fn subst_declaration(d: MirFunctionDeclarationModel, b: BindingsModel) -> Result<
    MirFunctionDeclarationModel,
    MonoErrorModel,
> {
    match subst_tys(d.param_types, b) {
        Err(e) => Err(e),
        Ok(param_types) => match subst_variadic(d.variadic, b) {
            Err(e) => Err(e),
            Ok(variadic) => match subst_opt_ty(d.kw_variadic, b) {
                Err(e) => Err(e),
                Ok(kw_variadic) => match ty_with(d.ret_ty, b) {
                    Err(e) => Err(e),
                    Ok(ret_ty) => match subst_opt_ty(d.error_ty, b) {
                        Err(e) => Err(e),
                        Ok(error_ty) => Ok(
                            MirFunctionDeclarationModel {
                                param_types,
                                variadic,
                                kw_variadic,
                                ret_ty,
                                error_ty,
                                ..d
                            },
                        ),
                    },
                },
            },
        },
    }
}

/// Replaces the parameters in the contract of a declaration. A failure leaves the
/// declaration as it was.
pub fn substitute_declaration(
    decl: &mut MirFunctionDeclaration,
    bindings: &Bindings,
) -> (r: Result<(), MonoError>)
    ensures
        match r {
            Ok(()) => subst_declaration(old(decl)@, bindings@) == Ok::<MirFunctionDeclarationModel, MonoErrorModel>(
                final(decl)@,
            ),
            Err(e) => subst_declaration(old(decl)@, bindings@) == Err::<MirFunctionDeclarationModel, MonoErrorModel>(e@)
                && *final(decl) == *old(decl),
        },
{
    let param_types: Vec<Ty> = match sub_ty_list(&decl.param_types, bindings) {
        Ok(v) => v,
        Err(e) => return Err(e),
    };
    let variadic: Option<Ty> = match sub_opt_ty(&decl.variadic, bindings) {
        Ok(v) => v,
        Err(e) => return Err(e),
    };
    let variadic: Option<Ty> = match variadic {
        None => None,
        Some(t) => match bindings.variadic_arity {
            None => Some(t),
            Some(arity) => match &t {
                Ty::RuntimePack(_) => Some(t),
                Ty::Tuple(_) => Some(t),
                _ => Some(Ty::RuntimePack(repeated(&t, arity))),
            },
        },
    };
    let kw_variadic: Option<Ty> = match sub_opt_ty(&decl.kw_variadic, bindings) {
        Ok(v) => v,
        Err(e) => return Err(e),
    };
    let ret_ty: Ty = match sub_ty(&decl.ret_ty, bindings) {
        Ok(v) => v,
        Err(e) => return Err(e),
    };
    let error_ty: Option<Ty> = match sub_opt_ty(&decl.error_ty, bindings) {
        Ok(v) => v,
        Err(e) => return Err(e),
    };
    decl.param_types = param_types;
    decl.variadic = variadic;
    decl.kw_variadic = kw_variadic;
    decl.ret_ty = ret_ty;
    decl.error_ty = error_ty;
    Ok(())
}

/// Every type that a function's signature, variables and registers carry.
pub open spec fn carried_types(f: MirFunctionModel) -> Seq<TyModel> {
    f.param_types + opt_to_seq(f.ret_ty) + opt_to_seq(f.error_ty) + table_types(f.var_tys) + table_types(f.reg_types)
}

/// The one type, or none.
pub open spec fn opt_to_seq(ty: Option<TyModel>) -> Seq<TyModel> {
    match ty {
        Some(t) => seq![t],
        None => Seq::empty(),
    }
}

/// The types of a table in order.
pub open spec fn table_types(table: Seq<(u32, TyModel)>) -> Seq<TyModel> {
    table.map_values(|entry: (u32, TyModel)| entry.1)
}

fn push_copies(out: &mut Vec<Ty>, tys: &Vec<Ty>)
    ensures
        tys_view(*final(out)) == tys_view(*old(out)) + tys_view(*tys),
{
    let ghost start = tys_view(*out);
    assert(start + tys_view(*tys).take(0) =~= start);
    for i in 0..tys.len()
        invariant
            tys_view(*out) == start + tys_view(*tys).take(i as int),
    {
        let ghost before = tys_view(*out);
        out.push(tys[i].copy());
        assert(tys_view(*out) =~= before.push(tys@[i as int]@));
        assert(tys_view(*tys).take(i + 1) =~= tys_view(*tys).take(i as int).push(tys@[i as int]@));
        assert(tys_view(*out) =~= start + tys_view(*tys).take(i + 1));
    }
    assert(tys_view(*tys).take(tys@.len() as int) =~= tys_view(*tys));
}

fn push_opt_copy(out: &mut Vec<Ty>, ty: &Option<Ty>)
    ensures
        tys_view(*final(out)) == tys_view(*old(out)) + opt_to_seq(opt_ty_view(*ty)),
{
    if let Some(t) = ty {
        out.push(t.copy());
    }
    assert(tys_view(*out) =~= tys_view(*old(out)) + opt_to_seq(opt_ty_view(*ty)));
}

fn push_table_copies(out: &mut Vec<Ty>, table: &TyTable)
    ensures
        tys_view(*final(out)) == tys_view(*old(out)) + table_types(table@),
{
    let ghost start = tys_view(*out);
    let ghost types = table_types(table@);
    assert(start + types.take(0) =~= start);
    for i in 0..table.entries.len()
        invariant
            types == table_types(table@),
            tys_view(*out) == start + types.take(i as int),
    {
        let ghost before = tys_view(*out);
        out.push(table.entries[i].1.copy());
        assert(types[i as int] == table.entries@[i as int].1@);
        assert(tys_view(*out) =~= before.push(types[i as int]));
        assert(types.take(i + 1) =~= types.take(i as int).push(types[i as int]));
        assert(tys_view(*out) =~= start + types.take(i + 1));
    }
    assert(types.take(types.len() as int) =~= types);
}

/// Every type that a function's signature, variables and registers carry.
pub fn function_types(function: &MirFunction) -> (r: Vec<Ty>)
    ensures
        tys_view(r) == carried_types(function@),
{
    let mut out: Vec<Ty> = Vec::new();
    push_copies(&mut out, &function.param_types);
    push_opt_copy(&mut out, &function.ret_ty);
    push_opt_copy(&mut out, &function.error_ty);
    push_table_copies(&mut out, &function.var_tys);
    push_table_copies(&mut out, &function.reg_types);
    assert(tys_view(out) =~= carried_types(function@));
    out
}

/// The first symbolic type of a list.
pub open spec fn first_symbolic(tys: Seq<TyModel>) -> Option<TyModel>
    decreases tys.len(),
{
    if tys.len() == 0 {
        None
    } else if symbolic(tys[0]) {
        Some(tys[0])
    } else {
        first_symbolic(tys.skip(1))
    }
}

/// What stands in the way of a function being concrete.
pub open spec fn concreteness(name: Seq<char>, f: MirFunctionModel) -> Result<(), MonoErrorModel> {
    match first_symbolic(carried_types(f)) {
        Some(ty) => Err(
            MonoErrorModel {
                function: Some(name),
                construct: "symbolic type `"@ + ty_text(ty) + "` remains after monomorphization"@,
            },
        ),
        None => Ok(()),
    }
}

/// Checks that no symbolic type is left in a function.
pub fn ensure_concrete_function(name: &str, function: &MirFunction) -> (r: Result<(), MonoError>)
    ensures
        match r {
            Ok(()) => concreteness(name@, function@) is Ok,
            Err(e) => concreteness(name@, function@) == Err::<(), MonoErrorModel>(e@),
        },
{
    let types: Vec<Ty> = function_types(function);
    let ghost model = tys_view(types);
    assert(model.skip(0) =~= model);
    for i in 0..types.len()
        invariant
            model == tys_view(types),
            model == carried_types(function@),
            first_symbolic(model) == first_symbolic(model.skip(i as int)),
    {
        assert(model.skip(i as int)[0] == types@[i as int]@);
        assert(model.skip(i as int).skip(1) =~= model.skip(i + 1));
        if is_symbolic(&types[i]) {
            return Err(
                MonoError {
                    function: Some(name.to_owned()),
                    construct: cat3("symbolic type `", &types[i].text(), "` remains after monomorphization"),
                },
            );
        }
    }
    Ok(())
}

/// The types directly inside a type.
pub open spec fn nested_types(ty: TyModel) -> Seq<TyModel> {
    match ty {
        TyModel::Struct(_, args) => arg_types(args),
        TyModel::Tuple(v) => v,
        TyModel::RuntimePack(v) => v,
        TyModel::Variant(v) => v,
        TyModel::Overload(v) => v,
        TyModel::ComptimeList(v) => seq![*v],
        TyModel::VariadicPack(v) => seq![*v],
        TyModel::Pointer { element, .. } => seq![*element],
        TyModel::Ref(v) => seq![*v.referent],
        _ => Seq::empty(),
    }
}

/// The types among application arguments.
pub open spec fn arg_types(args: Seq<TyArgModel>) -> Seq<TyModel>
    decreases args.len(),
{
    if args.len() == 0 {
        Seq::empty()
    } else {
        match args.last() {
            TyArgModel::Ty(ty) => arg_types(args.drop_last()).push(ty),
            _ => arg_types(args.drop_last()),
        }
    }
}

/// Pushes the types directly inside a type.
pub fn collect_nested_types(ty: &Ty, output: &mut Vec<Ty>)
    ensures
        tys_view(*final(output)) == tys_view(*old(output)) + nested_types(ty@),
{
    let ghost start = tys_view(*output);
    match ty {
        Ty::Struct(_, args) => {
            let ghost model = ty_args_view(*args);
            assert(start + arg_types(model.take(0)) =~= start);
            for i in 0..args.len()
                invariant
                    model == ty_args_view(*args),
                    tys_view(*output) == start + arg_types(model.take(i as int)),
            {
                let ghost before = tys_view(*output);
                assert(model.take(i + 1).drop_last() =~= model.take(i as int));
                if let TyArg::Ty(t) = &args[i] {
                    output.push(t.copy());
                    assert(tys_view(*output) =~= before.push(t@));
                }
                assert(tys_view(*output) =~= start + arg_types(model.take(i + 1)));
            }
            assert(model.take(model.len() as int) =~= model);
        },
        Ty::Tuple(v) => push_copies(output, v),
        Ty::RuntimePack(v) => push_copies(output, v),
        Ty::Variant(v) => push_copies(output, v),
        Ty::Overload(v) => push_copies(output, v),
        Ty::ComptimeList(v) => {
            output.push(v.copy());
        },
        Ty::VariadicPack(v) => {
            output.push(v.copy());
        },
        Ty::Pointer { element, .. } => {
            output.push(element.copy());
        },
        Ty::Ref(v) => {
            assert(*v@.referent == v.referent@);
            output.push(v.referent.copy());
        },
        _ => {},
    }
    assert(tys_view(*output) =~= start + nested_types(ty@));
}

/// Whether an instruction survives the erasure of generic callable storage: it
/// does unless it only moves a generic callable.
pub open spec fn survives(
    x: MirInstrModel,
    reg_types: Seq<(u32, TyModel)>,
    var_tys: Seq<(u32, TyModel)>,
) -> bool {
    match x {
        MirInstrModel::MakeClosure { dest, .. } => !holds_generic(reg_types, dest.0),
        MirInstrModel::Const { dest, .. } => !holds_generic(reg_types, dest.0),
        MirInstrModel::CopyValue { dest, .. } => !holds_generic(reg_types, dest.0),
        MirInstrModel::UseVar { dest, .. } => !holds_generic(reg_types, dest.0),
        MirInstrModel::DefVar { var, .. } => !holds_generic(var_tys, var),
        _ => true,
    }
}

/// Whether the type recorded for `key` is a generic callable.
pub open spec fn holds_generic(table: Seq<(u32, TyModel)>, key: u32) -> bool {
    table_get(table, key) is Some && table_get(table, key)->Some_0 is GenericFunc
}

fn is_generic_slot(table: &TyTable, key: u32) -> (r: bool)
    ensures
        r == holds_generic(table@, key),
{
    match table.get(key) {
        Some(ty) => match ty {
            Ty::GenericFunc { .. } => true,
            _ => false,
        },
        None => false,
    }
}

/// The instructions that survive, with the regions of each `try` erased too.
pub open spec fn surviving_instrs(
    xs: Seq<MirInstrModel>,
    regs: Seq<(u32, TyModel)>,
    vars: Seq<(u32, TyModel)>,
) -> Seq<MirInstrModel>
    decreases xs, 0int,
{
    if xs.len() == 0 {
        Seq::empty()
    } else {
        let before = surviving_instrs(xs.drop_last(), regs, vars);
        if survives(xs.last(), regs, vars) {
            before.push(surviving_instr(xs.last(), regs, vars))
        } else {
            before
        }
    }
}

/// A surviving instruction, with the regions of a `try` erased.
pub open spec fn surviving_instr(
    x: MirInstrModel,
    regs: Seq<(u32, TyModel)>,
    vars: Seq<(u32, TyModel)>,
) -> MirInstrModel
    decreases x, 0int,
{
    match x {
        MirInstrModel::Try { body, handler, orelse, finalbody } => MirInstrModel::Try {
            body: surviving_blocks(body, regs, vars),
            handler: match handler {
                Some(h) => Some((h.0, surviving_blocks(h.1, regs, vars))),
                None => None,
            },
            orelse: match orelse {
                Some(blocks) => Some(surviving_blocks(blocks, regs, vars)),
                None => None,
            },
            finalbody: match finalbody {
                Some(blocks) => Some(surviving_blocks(blocks, regs, vars)),
                None => None,
            },
        },
        _ => x,
    }
}

/// The blocks with only the instructions that survive.
pub open spec fn surviving_blocks(
    xs: Seq<MirBlockModel>,
    regs: Seq<(u32, TyModel)>,
    vars: Seq<(u32, TyModel)>,
) -> Seq<MirBlockModel>
    decreases xs, 0int,
{
    Seq::new(
        xs.len(),
        |i: int|
            if 0 <= i < xs.len() {
                MirBlockModel { instrs: surviving_instrs(xs[i].instrs, regs, vars), ..xs[i] }
            } else {
                arbitrary()
            },
    )
}

fn survives_erasure(x: &MirInstr, regs: &TyTable, vars: &TyTable) -> (r: bool)
    ensures
        r == survives(x@, regs@, vars@),
{
    match x {
        MirInstr::MakeClosure { dest, .. } => !is_generic_slot(regs, dest.0),
        MirInstr::Const { dest, .. } => !is_generic_slot(regs, dest.0),
        MirInstr::CopyValue { dest, .. } => !is_generic_slot(regs, dest.0),
        MirInstr::UseVar { dest, .. } => !is_generic_slot(regs, dest.0),
        MirInstr::DefVar { var, .. } => !is_generic_slot(vars, *var),
        _ => true,
    }
}

fn erased_instr(x: &MirInstr, regs: &TyTable, vars: &TyTable) -> (r: MirInstr)
    ensures
        r@ == surviving_instr(x@, regs@, vars@),
    decreases x, 0int,
{
    match x {
        MirInstr::Try { body, handler, orelse, finalbody } => MirInstr::Try {
            body: erased_blocks(body, regs, vars),
            handler: match handler {
                Some(h) => Some((h.0, erased_blocks(&h.1, regs, vars))),
                None => None,
            },
            orelse: match orelse {
                Some(blocks) => Some(erased_blocks(blocks, regs, vars)),
                None => None,
            },
            finalbody: match finalbody {
                Some(blocks) => Some(erased_blocks(blocks, regs, vars)),
                None => None,
            },
        },
        _ => x.copy(),
    }
}

fn erased_instrs(xs: &Vec<MirInstr>, regs: &TyTable, vars: &TyTable) -> (r: Vec<MirInstr>)
    ensures
        instrs_view(r) == surviving_instrs(instrs_view(*xs), regs@, vars@),
    decreases xs, 0int,
{
    let ghost model = instrs_view(*xs);
    let mut out: Vec<MirInstr> = Vec::new();
    assert(instrs_view(out) =~= Seq::<MirInstrModel>::empty());
    for i in 0..xs.len()
        invariant
            model == instrs_view(*xs),
            instrs_view(out) == surviving_instrs(model.take(i as int), regs@, vars@),
    {
        let ghost before = instrs_view(out);
        assert(model.take(i + 1).drop_last() =~= model.take(i as int));
        if survives_erasure(&xs[i], regs, vars) {
            let kept: MirInstr = erased_instr(&xs[i], regs, vars);
            out.push(kept);
            assert(instrs_view(out) =~= before.push(kept@));
        }
    }
    assert(model.take(model.len() as int) =~= model);
    out
}

fn erased_blocks(xs: &Vec<MirBlock>, regs: &TyTable, vars: &TyTable) -> (r: Vec<MirBlock>)
    ensures
        blocks_view(r) == surviving_blocks(blocks_view(*xs), regs@, vars@),
    decreases xs, 0int,
{
    let ghost model = blocks_view(*xs);
    let mut out: Vec<MirBlock> = Vec::new();
    for i in 0..xs.len()
        invariant
            model == blocks_view(*xs),
            out@.len() == i,
            forall|j: int|
                0 <= j < i ==> (#[trigger] out@[j])@ == (MirBlockModel {
                    instrs: surviving_instrs(model[j].instrs, regs@, vars@),
                    ..model[j]
                }),
    {
        assert(model[i as int] == xs@[i as int]@);
        let block: MirBlock = MirBlock {
            instrs: erased_instrs(&xs[i].instrs, regs, vars),
            term: xs[i].term.copy(),
        };
        out.push(block);
    }
    assert(blocks_view(out) =~= surviving_blocks(model, regs@, vars@));
    out
}

/// A table in which every generic callable is replaced by a plain word.
pub open spec fn grounded(table: Seq<(u32, TyModel)>) -> Seq<(u32, TyModel)> {
    table.map_values(
        |entry: (u32, TyModel)| if entry.1 is GenericFunc { (entry.0, TyModel::Int) } else { entry }
    )
}

fn ground(table: &TyTable) -> (r: TyTable)
    ensures
        r@ == grounded(table@),
{
    let mut entries: Vec<(u32, Ty)> = Vec::new();
    for i in 0..table.entries.len()
        invariant
            entries@.len() == i,
            forall|j: int| 0 <= j < i ==> u32_tys_view(entries)[j] == #[trigger] grounded(table@)[j],
    {
        let ghost before = entries;
        let key: u32 = table.entries[i].0;
        let ty: Ty = match &table.entries[i].1 {
            Ty::GenericFunc { .. } => Ty::Int,
            other => other.copy(),
        };
        entries.push((key, ty));
        assert forall|j: int| 0 <= j < i + 1 implies u32_tys_view(entries)[j] == #[trigger] grounded(table@)[j] by {
            if j < i {
                assert(u32_tys_view(before)[j] == u32_tys_view(entries)[j]);
            } else {
                assert(table@[i as int] == (key, table.entries@[i as int].1@));
            }
        }
    }
    assert(u32_tys_view(entries) =~= grounded(table@));
    TyTable { entries }
}

/// A function without the storage of generic callables: nothing moves them any
/// more, and their registers and variables are plain words.
pub open spec fn without_generic_callables(f: MirFunctionModel) -> MirFunctionModel {
    MirFunctionModel {
        blocks: surviving_blocks(f.blocks, f.reg_types, f.var_tys),
        reg_types: grounded(f.reg_types),
        var_tys: grounded(f.var_tys),
        ..f
    }
}

/// Erases the storage of generic callables, which are compile-time carriers once
/// every indirect use has become a direct call.
pub fn erase_specialized_generic_callable_storage(function: &mut MirFunction)
    ensures
        final(function)@ == without_generic_callables(old(function)@),
{
    let blocks: Vec<MirBlock> = erased_blocks(&function.blocks, &function.reg_types, &function.var_tys);
    let reg_types: TyTable = ground(&function.reg_types);
    let var_tys: TyTable = ground(&function.var_tys);
    function.blocks = blocks;
    function.reg_types = reg_types;
    function.var_tys = var_tys;
}

} // verus!
