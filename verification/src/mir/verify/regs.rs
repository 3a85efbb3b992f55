//! The registers an instruction defines and reads.

use crate::mir::{
    MirCapture, MirCaptureModel, MirInstr, MirInstrModel, MirLoan, MirLoanModel, MirParamArg,
    MirParamArgModel, MirPlace, MirPlaceModel, MirSubscriptArg, MirSubscriptArgModel,
    MirSubscriptCall, MirSubscriptCallModel, Proj, ProjModel, Reg, captures_view, loans_view,
    opt_place_view, opt_places_view, opt_subscript_call_view, param_args_view, projs_view,
    string_regs_view, string_subscript_args_view, subscript_args_view,
};
use vstd::prelude::*;

verus! {

/// The register of an optional operand.
pub open spec fn opt_reg(x: Option<Reg>) -> Seq<Reg> {
    match x {
        Some(reg) => seq![reg],
        None => Seq::empty(),
    }
}

fn push_opt_reg(x: &Option<Reg>, out: &mut Vec<Reg>)
    ensures
        final(out)@ == old(out)@ + opt_reg(*x),
{
    if let Some(reg) = x {
        out.push(*reg);
    }
    assert(out@ =~= old(out)@ + opt_reg(*x));
}

fn push_regs(xs: &Vec<Reg>, out: &mut Vec<Reg>)
    ensures
        final(out)@ == old(out)@ + xs@,
{
    let ghost start = out@;
    for i in 0..xs.len()
        invariant
            out@ == start + xs@.take(i as int),
    {
        out.push(xs[i]);
        assert(out@ =~= start + xs@.take(i + 1));
    }
    assert(xs@.take(xs@.len() as int) =~= xs@);
}

/// The register an index step reads.
pub open spec fn proj_reg(x: ProjModel) -> Seq<Reg> {
    match x {
        ProjModel::Index(reg) => seq![reg],
        _ => Seq::empty(),
    }
}

/// The registers that index steps read, in order.
pub open spec fn projs_regs(xs: Seq<ProjModel>) -> Seq<Reg>
    decreases xs.len(),
{
    if xs.len() == 0 {
        Seq::empty()
    } else {
        projs_regs(xs.drop_last()) + proj_reg(xs.last())
    }
}

fn push_projs_regs(xs: &Vec<Proj>, out: &mut Vec<Reg>)
    ensures
        final(out)@ == old(out)@ + projs_regs(projs_view(*xs)),
{
    let ghost (start, model) = (out@, projs_view(*xs));
    assert(start + projs_regs(model.take(0)) =~= start);
    for i in 0..xs.len()
        invariant
            model == projs_view(*xs),
            out@ == start + projs_regs(model.take(i as int)),
    {
        assert(model.take(i + 1).drop_last() =~= model.take(i as int));
        assert(model[i as int] == projs_view(*xs)[i as int]);
        if let Proj::Index(reg) = &xs[i] {
            assert(model[i as int] == ProjModel::Index(*reg));
            out.push(*reg);
        }
        assert(out@ =~= start + projs_regs(model.take(i + 1)));
    }
    assert(model.take(model.len() as int) =~= model);
}

/// The registers that the index steps of a place read.
pub open spec fn place_regs(place: MirPlaceModel) -> Seq<Reg> {
    projs_regs(place.proj)
}

fn push_place_regs(place: &MirPlace, out: &mut Vec<Reg>)
    ensures
        final(out)@ == old(out)@ + place_regs(place@),
{
    push_projs_regs(&place.proj, out);
}

/// The registers of an optional place.
pub open spec fn opt_place_regs(place: Option<MirPlaceModel>) -> Seq<Reg> {
    match place {
        Some(place) => place_regs(place),
        None => Seq::empty(),
    }
}

fn push_opt_place_regs(place: &Option<MirPlace>, out: &mut Vec<Reg>)
    ensures
        final(out)@ == old(out)@ + opt_place_regs(opt_place_view(*place)),
{
    if let Some(place) = place {
        push_place_regs(place, out);
    }
    assert(out@ =~= old(out)@ + opt_place_regs(opt_place_view(*place)));
}

/// The registers of optional places, in order.
pub open spec fn places_regs(xs: Seq<Option<MirPlaceModel>>) -> Seq<Reg>
    decreases xs.len(),
{
    if xs.len() == 0 {
        Seq::empty()
    } else {
        places_regs(xs.drop_last()) + opt_place_regs(xs.last())
    }
}

fn push_places_regs(xs: &Vec<Option<MirPlace>>, out: &mut Vec<Reg>)
    ensures
        final(out)@ == old(out)@ + places_regs(opt_places_view(*xs)),
{
    let ghost (start, model) = (out@, opt_places_view(*xs));
    assert(start + places_regs(model.take(0)) =~= start);
    for i in 0..xs.len()
        invariant
            model == opt_places_view(*xs),
            out@ == start + places_regs(model.take(i as int)),
    {
        assert(model.take(i + 1).drop_last() =~= model.take(i as int));
        assert(model[i as int] == opt_places_view(*xs)[i as int]);
        push_opt_place_regs(&xs[i], out);
        assert(out@ =~= start + places_regs(model.take(i + 1)));
    }
    assert(model.take(model.len() as int) =~= model);
}

/// The registers of loaned places, in order.
pub open spec fn loans_regs(xs: Seq<MirLoanModel>) -> Seq<Reg>
    decreases xs.len(),
{
    if xs.len() == 0 {
        Seq::empty()
    } else {
        loans_regs(xs.drop_last()) + place_regs(xs.last().place)
    }
}

fn push_loans_regs(xs: &Vec<MirLoan>, out: &mut Vec<Reg>)
    ensures
        final(out)@ == old(out)@ + loans_regs(loans_view(*xs)),
{
    let ghost (start, model) = (out@, loans_view(*xs));
    assert(start + loans_regs(model.take(0)) =~= start);
    for i in 0..xs.len()
        invariant
            model == loans_view(*xs),
            out@ == start + loans_regs(model.take(i as int)),
    {
        assert(model.take(i + 1).drop_last() =~= model.take(i as int));
        assert(model[i as int] == loans_view(*xs)[i as int]);
        push_place_regs(&xs[i].place, out);
        assert(out@ =~= start + loans_regs(model.take(i + 1)));
    }
    assert(model.take(model.len() as int) =~= model);
}

/// The registers of captured places, in order.
pub open spec fn captures_regs(xs: Seq<MirCaptureModel>) -> Seq<Reg>
    decreases xs.len(),
{
    if xs.len() == 0 {
        Seq::empty()
    } else {
        captures_regs(xs.drop_last()) + place_regs(xs.last().place)
    }
}

fn push_captures_regs(xs: &Vec<MirCapture>, out: &mut Vec<Reg>)
    ensures
        final(out)@ == old(out)@ + captures_regs(captures_view(*xs)),
{
    let ghost (start, model) = (out@, captures_view(*xs));
    assert(start + captures_regs(model.take(0)) =~= start);
    for i in 0..xs.len()
        invariant
            model == captures_view(*xs),
            out@ == start + captures_regs(model.take(i as int)),
    {
        assert(model.take(i + 1).drop_last() =~= model.take(i as int));
        assert(model[i as int] == captures_view(*xs)[i as int]);
        push_place_regs(&xs[i].place, out);
        assert(out@ =~= start + captures_regs(model.take(i + 1)));
    }
    assert(model.take(model.len() as int) =~= model);
}

/// The registers of compile-time arguments, in order.
pub open spec fn param_regs(xs: Seq<MirParamArgModel>) -> Seq<Reg>
    decreases xs.len(),
{
    if xs.len() == 0 {
        Seq::empty()
    } else {
        param_regs(xs.drop_last()) + opt_reg(xs.last().value)
    }
}

fn push_param_regs(xs: &Vec<MirParamArg>, out: &mut Vec<Reg>)
    ensures
        final(out)@ == old(out)@ + param_regs(param_args_view(*xs)),
{
    let ghost (start, model) = (out@, param_args_view(*xs));
    assert(start + param_regs(model.take(0)) =~= start);
    for i in 0..xs.len()
        invariant
            model == param_args_view(*xs),
            out@ == start + param_regs(model.take(i as int)),
    {
        assert(model.take(i + 1).drop_last() =~= model.take(i as int));
        assert(model[i as int] == param_args_view(*xs)[i as int]);
        push_opt_reg(&xs[i].value, out);
        assert(out@ =~= start + param_regs(model.take(i + 1)));
    }
    assert(model.take(model.len() as int) =~= model);
}

/// The registers of keyword arguments, in order.
pub open spec fn kwarg_regs(xs: Seq<(Seq<char>, Reg)>) -> Seq<Reg>
    decreases xs.len(),
{
    if xs.len() == 0 {
        Seq::empty()
    } else {
        kwarg_regs(xs.drop_last()) + seq![xs.last().1]
    }
}

fn push_kwarg_regs(xs: &Vec<(String, Reg)>, out: &mut Vec<Reg>)
    ensures
        final(out)@ == old(out)@ + kwarg_regs(string_regs_view(*xs)),
{
    let ghost (start, model) = (out@, string_regs_view(*xs));
    assert(start + kwarg_regs(model.take(0)) =~= start);
    for i in 0..xs.len()
        invariant
            model == string_regs_view(*xs),
            out@ == start + kwarg_regs(model.take(i as int)),
    {
        assert(model.take(i + 1).drop_last() =~= model.take(i as int));
        assert(model[i as int] == string_regs_view(*xs)[i as int]);
        out.push(xs[i].1);
        assert(out@ =~= start + kwarg_regs(model.take(i + 1)));
    }
    assert(model.take(model.len() as int) =~= model);
}

/// The registers of one subscript argument.
pub open spec fn subscript_arg_regs(x: MirSubscriptArgModel) -> Seq<Reg> {
    match x {
        MirSubscriptArgModel::Value(reg) => seq![reg],
        MirSubscriptArgModel::Slice { lower, upper, step, .. } => opt_reg(lower) + opt_reg(upper) + opt_reg(step),
    }
}

fn push_subscript_arg_regs(x: &MirSubscriptArg, out: &mut Vec<Reg>)
    ensures
        final(out)@ == old(out)@ + subscript_arg_regs(x@),
{
    match x {
        MirSubscriptArg::Value(reg) => out.push(*reg),
        MirSubscriptArg::Slice { lower, upper, step, .. } => {
            push_opt_reg(lower, out);
            push_opt_reg(upper, out);
            push_opt_reg(step, out);
        },
    }
    assert(out@ =~= old(out)@ + subscript_arg_regs(x@));
}

/// The registers of subscript arguments, in order.
pub open spec fn subscript_args_regs(xs: Seq<MirSubscriptArgModel>) -> Seq<Reg>
    decreases xs.len(),
{
    if xs.len() == 0 {
        Seq::empty()
    } else {
        subscript_args_regs(xs.drop_last()) + subscript_arg_regs(xs.last())
    }
}

fn push_subscript_args_regs(xs: &Vec<MirSubscriptArg>, out: &mut Vec<Reg>)
    ensures
        final(out)@ == old(out)@ + subscript_args_regs(subscript_args_view(*xs)),
{
    let ghost (start, model) = (out@, subscript_args_view(*xs));
    assert(start + subscript_args_regs(model.take(0)) =~= start);
    for i in 0..xs.len()
        invariant
            model == subscript_args_view(*xs),
            out@ == start + subscript_args_regs(model.take(i as int)),
    {
        assert(model.take(i + 1).drop_last() =~= model.take(i as int));
        assert(model[i as int] == subscript_args_view(*xs)[i as int]);
        push_subscript_arg_regs(&xs[i], out);
        assert(out@ =~= start + subscript_args_regs(model.take(i + 1)));
    }
    assert(model.take(model.len() as int) =~= model);
}

/// The registers of keyword subscript arguments, in order.
pub open spec fn subscript_kwargs_regs(xs: Seq<(Seq<char>, MirSubscriptArgModel)>) -> Seq<Reg>
    decreases xs.len(),
{
    if xs.len() == 0 {
        Seq::empty()
    } else {
        subscript_kwargs_regs(xs.drop_last()) + subscript_arg_regs(xs.last().1)
    }
}

fn push_subscript_kwargs_regs(xs: &Vec<(String, MirSubscriptArg)>, out: &mut Vec<Reg>)
    ensures
        final(out)@ == old(out)@ + subscript_kwargs_regs(string_subscript_args_view(*xs)),
{
    let ghost (start, model) = (out@, string_subscript_args_view(*xs));
    assert(start + subscript_kwargs_regs(model.take(0)) =~= start);
    for i in 0..xs.len()
        invariant
            model == string_subscript_args_view(*xs),
            out@ == start + subscript_kwargs_regs(model.take(i as int)),
    {
        assert(model.take(i + 1).drop_last() =~= model.take(i as int));
        assert(model[i as int] == string_subscript_args_view(*xs)[i as int]);
        push_subscript_arg_regs(&xs[i].1, out);
        assert(out@ =~= start + subscript_kwargs_regs(model.take(i + 1)));
    }
    assert(model.take(model.len() as int) =~= model);
}

/// The registers of the compile-time arguments of a selected subscript call.
pub open spec fn call_regs(call: Option<MirSubscriptCallModel>) -> Seq<Reg> {
    match call {
        Some(call) => param_regs(call.param_arg_regs),
        None => Seq::empty(),
    }
}

fn push_call_regs(call: &Option<MirSubscriptCall>, out: &mut Vec<Reg>)
    ensures
        final(out)@ == old(out)@ + call_regs(opt_subscript_call_view(*call)),
{
    if let Some(call) = call {
        push_param_regs(&call.param_arg_regs, out);
    }
    assert(out@ =~= old(out)@ + call_regs(opt_subscript_call_view(*call)));
}

/// The registers an instruction defines: call and operation destinations, and the
/// markers of loans and consumptions.
pub open spec fn result_regs(instruction: MirInstrModel) -> Seq<Reg> {
    match instruction {
        MirInstrModel::MakeRef { dest, .. } => seq![dest],
        MirInstrModel::ReadRef { dest, .. } => seq![dest],
        MirInstrModel::CopyValue { dest, .. } => seq![dest],
        MirInstrModel::Const { dest, .. } => seq![dest],
        MirInstrModel::SizeOf { dest, .. } => seq![dest],
        MirInstrModel::ConstructTypeParam { dest, .. } => seq![dest],
        MirInstrModel::MaterializeLiteral { dest, .. } => seq![dest],
        MirInstrModel::UseVar { dest, .. } => seq![dest],
        MirInstrModel::MovePlace { dest, .. } => seq![dest],
        MirInstrModel::UnOp { dest, .. } => seq![dest],
        MirInstrModel::BinOp { dest, .. } => seq![dest],
        MirInstrModel::Call { dest, .. } => seq![dest],
        MirInstrModel::CallIndirect { dest, .. } => seq![dest],
        MirInstrModel::MethodCall { dest, .. } => seq![dest],
        MirInstrModel::PointerStorageTake { dest, .. } => seq![dest],
        MirInstrModel::PointerStorageDestroy { dest, .. } => seq![dest],
        MirInstrModel::UninitStorage { dest, .. } => seq![dest],
        MirInstrModel::UninitStorageTake { dest, .. } => seq![dest],
        MirInstrModel::UninitStorageDestroy { dest, .. } => seq![dest],
        MirInstrModel::GetField { dest, .. } => seq![dest],
        MirInstrModel::Index { dest, .. } => seq![dest],
        MirInstrModel::Slice { dest, .. } => seq![dest],
        MirInstrModel::MultiIndex { dest, .. } => seq![dest],
        MirInstrModel::LoadPlace { dest, .. } => seq![dest],
        MirInstrModel::MakeTuple { dest, .. } => seq![dest],
        MirInstrModel::MakeVariant { dest, .. } => seq![dest],
        MirInstrModel::MakeSimd { dest, .. } => seq![dest],
        MirInstrModel::SimdCast { dest, .. } => seq![dest],
        MirInstrModel::SimdShuffle { dest, .. } => seq![dest],
        MirInstrModel::MakeClosure { dest, .. } => seq![dest],
        MirInstrModel::VariantIs { dest, .. } => seq![dest],
        MirInstrModel::VariantGet { dest, .. } => seq![dest],
        MirInstrModel::VariantSet { dest, .. } => seq![dest],
        MirInstrModel::VariantSetInitWith { dest, .. } => seq![dest],
        MirInstrModel::VariantTake { dest, .. } => seq![dest],
        MirInstrModel::VariantDeinitWith { dest, .. } => seq![dest],
        MirInstrModel::VariantReplace { dest, .. } => seq![dest],
        MirInstrModel::HasNext { dest, .. } => seq![dest],
        MirInstrModel::Next { dest, .. } => seq![dest],
        MirInstrModel::TryNext { dest, yielded, .. } => seq![dest, yielded],
        MirInstrModel::EstablishLoans { marker, .. } => seq![marker],
        MirInstrModel::InvalidateInteriors { marker, .. } => seq![marker],
        MirInstrModel::ConsumePlace { marker, .. } => seq![marker],
        _ => Seq::empty(),
    }
}

/// Pushes the registers an instruction defines.
pub fn instruction_result_regs(instruction: &MirInstr, out: &mut Vec<Reg>)
    ensures
        final(out)@ == old(out)@ + result_regs(instruction@),
{
    match instruction {
        MirInstr::MakeRef { dest, .. } => out.push(*dest),
        MirInstr::ReadRef { dest, .. } => out.push(*dest),
        MirInstr::CopyValue { dest, .. } => out.push(*dest),
        MirInstr::Const { dest, .. } => out.push(*dest),
        MirInstr::SizeOf { dest, .. } => out.push(*dest),
        MirInstr::ConstructTypeParam { dest, .. } => out.push(*dest),
        MirInstr::MaterializeLiteral { dest, .. } => out.push(*dest),
        MirInstr::UseVar { dest, .. } => out.push(*dest),
        MirInstr::MovePlace { dest, .. } => out.push(*dest),
        MirInstr::UnOp { dest, .. } => out.push(*dest),
        MirInstr::BinOp { dest, .. } => out.push(*dest),
        MirInstr::Call { dest, .. } => out.push(*dest),
        MirInstr::CallIndirect { dest, .. } => out.push(*dest),
        MirInstr::MethodCall { dest, .. } => out.push(*dest),
        MirInstr::PointerStorageTake { dest, .. } => out.push(*dest),
        MirInstr::PointerStorageDestroy { dest, .. } => out.push(*dest),
        MirInstr::UninitStorage { dest, .. } => out.push(*dest),
        MirInstr::UninitStorageTake { dest, .. } => out.push(*dest),
        MirInstr::UninitStorageDestroy { dest, .. } => out.push(*dest),
        MirInstr::GetField { dest, .. } => out.push(*dest),
        MirInstr::Index { dest, .. } => out.push(*dest),
        MirInstr::Slice { dest, .. } => out.push(*dest),
        MirInstr::MultiIndex { dest, .. } => out.push(*dest),
        MirInstr::LoadPlace { dest, .. } => out.push(*dest),
        MirInstr::MakeTuple { dest, .. } => out.push(*dest),
        MirInstr::MakeVariant { dest, .. } => out.push(*dest),
        MirInstr::MakeSimd { dest, .. } => out.push(*dest),
        MirInstr::SimdCast { dest, .. } => out.push(*dest),
        MirInstr::SimdShuffle { dest, .. } => out.push(*dest),
        MirInstr::MakeClosure { dest, .. } => out.push(*dest),
        MirInstr::VariantIs { dest, .. } => out.push(*dest),
        MirInstr::VariantGet { dest, .. } => out.push(*dest),
        MirInstr::VariantSet { dest, .. } => out.push(*dest),
        MirInstr::VariantSetInitWith { dest, .. } => out.push(*dest),
        MirInstr::VariantTake { dest, .. } => out.push(*dest),
        MirInstr::VariantDeinitWith { dest, .. } => out.push(*dest),
        MirInstr::VariantReplace { dest, .. } => out.push(*dest),
        MirInstr::HasNext { dest, .. } => out.push(*dest),
        MirInstr::Next { dest, .. } => out.push(*dest),
        MirInstr::TryNext { dest, yielded, .. } => {
            out.push(*dest);
            out.push(*yielded);
        },
        MirInstr::EstablishLoans { marker, .. } => out.push(*marker),
        MirInstr::InvalidateInteriors { marker, .. } => out.push(*marker),
        MirInstr::ConsumePlace { marker, .. } => out.push(*marker),
        _ => {},
    }
    assert(out@ =~= old(out)@ + result_regs(instruction@));
}

/// The registers an instruction reads: operands, arguments, stored values, and the
/// index registers of places. `Try` regions are walked separately.
pub open spec fn operand_regs(instruction: MirInstrModel) -> Seq<Reg> {
    match instruction {
        MirInstrModel::EstablishLoans { loans, .. } => loans_regs(loans),
        MirInstrModel::ConsumePlace { place, .. } => place_regs(place),
        MirInstrModel::MakeRef { place, .. } => place_regs(place),
        MirInstrModel::MovePlace { place, .. } => place_regs(place),
        MirInstrModel::LoadPlace { place, .. } => place_regs(place),
        MirInstrModel::ReadRef { reference, .. } => seq![reference],
        MirInstrModel::CopyValue { value, .. } => seq![value],
        MirInstrModel::WriteRef { reference, value, .. } => seq![reference] + seq![value],
        MirInstrModel::MaterializeLiteral { value, .. } => seq![value],
        MirInstrModel::UnOp { a, .. } => seq![a],
        MirInstrModel::BinOp { a, b, .. } => seq![a] + seq![b],
        MirInstrModel::Store { place, src, .. } => place_regs(place) + seq![src],
        MirInstrModel::StoreRef { place, reference, .. } => place_regs(place) + seq![reference],
        MirInstrModel::MultiSet {
            receiver,
            receiver_place,
            args,
            arg_places,
            value,
            value_place,
            call,
            ..
        } => seq![receiver] + opt_place_regs(receiver_place) + subscript_args_regs(args) + places_regs(arg_places) + seq![value] + opt_place_regs(value_place) + param_regs(call.param_arg_regs),
        MirInstrModel::Call {
            args,
            kwargs,
            arg_places,
            kwarg_places,
            param_arg_regs,
            ..
        } => args + kwarg_regs(kwargs) + places_regs(arg_places) + places_regs(kwarg_places) + param_regs(param_arg_regs),
        MirInstrModel::CallIndirect {
            callee,
            args,
            kwargs,
            param_arg_regs,
            callee_place,
            arg_places,
            kwarg_places,
            ..
        } => seq![callee] + args + kwarg_regs(kwargs) + param_regs(param_arg_regs) + opt_place_regs(callee_place) + places_regs(arg_places) + places_regs(kwarg_places),
        MirInstrModel::MethodCall {
            recv,
            args,
            kwargs,
            param_arg_regs,
            recv_place,
            arg_places,
            kwarg_places,
            ..
        } => seq![recv] + args + kwarg_regs(kwargs) + param_regs(param_arg_regs) + opt_place_regs(recv_place) + places_regs(arg_places) + places_regs(kwarg_places),
        MirInstrModel::PointerStorageTake { pointer, index, .. } => seq![pointer] + seq![index],
        MirInstrModel::PointerStorageDestroy { pointer, index, .. } => seq![pointer] + seq![index],
        MirInstrModel::UninitStorage { init, .. } => opt_reg(init),
        MirInstrModel::UninitStorageTake { storage, .. } => seq![storage],
        MirInstrModel::UninitStorageDestroy { storage, .. } => seq![storage],
        MirInstrModel::GetField { base, .. } => seq![base],
        MirInstrModel::Index {
            base,
            index,
            base_place,
            index_place,
            call,
            ..
        } => seq![base] + seq![index] + opt_place_regs(base_place) + opt_place_regs(index_place) + call_regs(call),
        MirInstrModel::Slice {
            object,
            lower,
            upper,
            step,
            object_place,
            arg_places,
            call,
            ..
        } => seq![object] + opt_reg(lower) + opt_reg(upper) + opt_reg(step) + opt_place_regs(object_place) + places_regs(arg_places) + call_regs(call),
        MirInstrModel::MultiIndex {
            object,
            args,
            kwargs,
            object_place,
            arg_places,
            kwarg_places,
            call,
            ..
        } => seq![object] + subscript_args_regs(args) + subscript_kwargs_regs(kwargs) + opt_place_regs(object_place) + places_regs(arg_places) + places_regs(kwarg_places) + call_regs(call),
        MirInstrModel::MakeTuple { elems, .. } => elems,
        MirInstrModel::MakeSimd { elems, .. } => elems,
        MirInstrModel::SimdCast { value, .. } => seq![value],
        MirInstrModel::SimdShuffle { value, .. } => seq![value],
        MirInstrModel::MakeVariant { value, .. } => seq![value],
        MirInstrModel::MakeClosure { captures, .. } => captures_regs(captures),
        MirInstrModel::VariantIs { variant, .. } => seq![variant],
        MirInstrModel::VariantGet { variant, .. } => seq![variant],
        MirInstrModel::VariantTake { variant, .. } => seq![variant],
        MirInstrModel::VariantDeinitWith { variant, handler, .. } => seq![variant] + seq![handler],
        MirInstrModel::VariantSetInitWith { place, factory, .. } => place_regs(place) + seq![factory],
        MirInstrModel::VariantSet { place, value, .. } => place_regs(place) + seq![value],
        MirInstrModel::VariantReplace { place, value, .. } => place_regs(place) + seq![value],
        MirInstrModel::Raise { src, .. } => seq![src],
        MirInstrModel::Drop { reg, .. } => seq![reg],
        MirInstrModel::DefVar { src, .. } => seq![src],
        _ => Seq::empty(),
    }
}

fn push_multi_set_operands(instruction: &MirInstr, out: &mut Vec<Reg>)
    requires
        instruction is MultiSet,
    ensures
        final(out)@ == old(out)@ + operand_regs(instruction@),
{
    let ghost start = out@;
    if let MirInstr::MultiSet {
        receiver,
        receiver_place,
        args,
        arg_places,
        value,
        value_place,
        call,
        ..
    } = instruction {
        out.push(*receiver);
        let ghost sum = seq![*receiver];
        assert(out@ =~= start + sum);
        push_opt_place_regs(receiver_place, out);
        let ghost sum = sum + opt_place_regs(opt_place_view(*receiver_place));
        assert(out@ =~= start + sum);
        push_subscript_args_regs(args, out);
        let ghost sum = sum + subscript_args_regs(subscript_args_view(*args));
        assert(out@ =~= start + sum);
        push_places_regs(arg_places, out);
        let ghost sum = sum + places_regs(opt_places_view(*arg_places));
        assert(out@ =~= start + sum);
        out.push(*value);
        let ghost sum = sum + seq![*value];
        assert(out@ =~= start + sum);
        push_opt_place_regs(value_place, out);
        let ghost sum = sum + opt_place_regs(opt_place_view(*value_place));
        assert(out@ =~= start + sum);
        push_param_regs(&call.param_arg_regs, out);
        let ghost sum = sum + param_regs(param_args_view(call.param_arg_regs));
        assert(out@ =~= start + sum);
        assert(operand_regs(instruction@) == sum);
    }
    assert(out@ =~= old(out)@ + operand_regs(instruction@));
}

fn push_call_operands(instruction: &MirInstr, out: &mut Vec<Reg>)
    requires
        instruction is Call,
    ensures
        final(out)@ == old(out)@ + operand_regs(instruction@),
{
    let ghost start = out@;
    if let MirInstr::Call { args, kwargs, arg_places, kwarg_places, param_arg_regs, .. } = instruction {
        push_regs(args, out);
        let ghost sum = args@;
        assert(out@ =~= start + sum);
        push_kwarg_regs(kwargs, out);
        let ghost sum = sum + kwarg_regs(string_regs_view(*kwargs));
        assert(out@ =~= start + sum);
        push_places_regs(arg_places, out);
        let ghost sum = sum + places_regs(opt_places_view(*arg_places));
        assert(out@ =~= start + sum);
        push_places_regs(kwarg_places, out);
        let ghost sum = sum + places_regs(opt_places_view(*kwarg_places));
        assert(out@ =~= start + sum);
        push_param_regs(param_arg_regs, out);
        let ghost sum = sum + param_regs(param_args_view(*param_arg_regs));
        assert(out@ =~= start + sum);
        assert(operand_regs(instruction@) == sum);
    }
    assert(out@ =~= old(out)@ + operand_regs(instruction@));
}

fn push_call_indirect_operands(instruction: &MirInstr, out: &mut Vec<Reg>)
    requires
        instruction is CallIndirect,
    ensures
        final(out)@ == old(out)@ + operand_regs(instruction@),
{
    let ghost start = out@;
    if let MirInstr::CallIndirect {
        callee,
        args,
        kwargs,
        param_arg_regs,
        callee_place,
        arg_places,
        kwarg_places,
        ..
    } = instruction {
        out.push(*callee);
        let ghost sum = seq![*callee];
        assert(out@ =~= start + sum);
        push_regs(args, out);
        let ghost sum = sum + args@;
        assert(out@ =~= start + sum);
        push_kwarg_regs(kwargs, out);
        let ghost sum = sum + kwarg_regs(string_regs_view(*kwargs));
        assert(out@ =~= start + sum);
        push_param_regs(param_arg_regs, out);
        let ghost sum = sum + param_regs(param_args_view(*param_arg_regs));
        assert(out@ =~= start + sum);
        push_opt_place_regs(callee_place, out);
        let ghost sum = sum + opt_place_regs(opt_place_view(*callee_place));
        assert(out@ =~= start + sum);
        push_places_regs(arg_places, out);
        let ghost sum = sum + places_regs(opt_places_view(*arg_places));
        assert(out@ =~= start + sum);
        push_places_regs(kwarg_places, out);
        let ghost sum = sum + places_regs(opt_places_view(*kwarg_places));
        assert(out@ =~= start + sum);
        assert(operand_regs(instruction@) == sum);
    }
    assert(out@ =~= old(out)@ + operand_regs(instruction@));
}

fn push_method_call_operands(instruction: &MirInstr, out: &mut Vec<Reg>)
    requires
        instruction is MethodCall,
    ensures
        final(out)@ == old(out)@ + operand_regs(instruction@),
{
    let ghost start = out@;
    if let MirInstr::MethodCall {
        recv,
        args,
        kwargs,
        param_arg_regs,
        recv_place,
        arg_places,
        kwarg_places,
        ..
    } = instruction {
        out.push(*recv);
        let ghost sum = seq![*recv];
        assert(out@ =~= start + sum);
        push_regs(args, out);
        let ghost sum = sum + args@;
        assert(out@ =~= start + sum);
        push_kwarg_regs(kwargs, out);
        let ghost sum = sum + kwarg_regs(string_regs_view(*kwargs));
        assert(out@ =~= start + sum);
        push_param_regs(param_arg_regs, out);
        let ghost sum = sum + param_regs(param_args_view(*param_arg_regs));
        assert(out@ =~= start + sum);
        push_opt_place_regs(recv_place, out);
        let ghost sum = sum + opt_place_regs(opt_place_view(*recv_place));
        assert(out@ =~= start + sum);
        push_places_regs(arg_places, out);
        let ghost sum = sum + places_regs(opt_places_view(*arg_places));
        assert(out@ =~= start + sum);
        push_places_regs(kwarg_places, out);
        let ghost sum = sum + places_regs(opt_places_view(*kwarg_places));
        assert(out@ =~= start + sum);
        assert(operand_regs(instruction@) == sum);
    }
    assert(out@ =~= old(out)@ + operand_regs(instruction@));
}

fn push_index_operands(instruction: &MirInstr, out: &mut Vec<Reg>)
    requires
        instruction is Index,
    ensures
        final(out)@ == old(out)@ + operand_regs(instruction@),
{
    let ghost start = out@;
    if let MirInstr::Index { base, index, base_place, index_place, call, .. } = instruction {
        out.push(*base);
        let ghost sum = seq![*base];
        assert(out@ =~= start + sum);
        out.push(*index);
        let ghost sum = sum + seq![*index];
        assert(out@ =~= start + sum);
        push_opt_place_regs(base_place, out);
        let ghost sum = sum + opt_place_regs(opt_place_view(*base_place));
        assert(out@ =~= start + sum);
        push_opt_place_regs(index_place, out);
        let ghost sum = sum + opt_place_regs(opt_place_view(*index_place));
        assert(out@ =~= start + sum);
        push_call_regs(call, out);
        let ghost sum = sum + call_regs(opt_subscript_call_view(*call));
        assert(out@ =~= start + sum);
        assert(operand_regs(instruction@) == sum);
    }
    assert(out@ =~= old(out)@ + operand_regs(instruction@));
}

fn push_slice_operands(instruction: &MirInstr, out: &mut Vec<Reg>)
    requires
        instruction is Slice,
    ensures
        final(out)@ == old(out)@ + operand_regs(instruction@),
{
    let ghost start = out@;
    if let MirInstr::Slice { object, lower, upper, step, object_place, arg_places, call, .. } = instruction {
        out.push(*object);
        let ghost sum = seq![*object];
        assert(out@ =~= start + sum);
        push_opt_reg(lower, out);
        let ghost sum = sum + opt_reg(*lower);
        assert(out@ =~= start + sum);
        push_opt_reg(upper, out);
        let ghost sum = sum + opt_reg(*upper);
        assert(out@ =~= start + sum);
        push_opt_reg(step, out);
        let ghost sum = sum + opt_reg(*step);
        assert(out@ =~= start + sum);
        push_opt_place_regs(object_place, out);
        let ghost sum = sum + opt_place_regs(opt_place_view(*object_place));
        assert(out@ =~= start + sum);
        push_places_regs(arg_places, out);
        let ghost sum = sum + places_regs(opt_places_view(*arg_places));
        assert(out@ =~= start + sum);
        push_call_regs(call, out);
        let ghost sum = sum + call_regs(opt_subscript_call_view(*call));
        assert(out@ =~= start + sum);
        assert(operand_regs(instruction@) == sum);
    }
    assert(out@ =~= old(out)@ + operand_regs(instruction@));
}

fn push_multi_index_operands(instruction: &MirInstr, out: &mut Vec<Reg>)
    requires
        instruction is MultiIndex,
    ensures
        final(out)@ == old(out)@ + operand_regs(instruction@),
{
    let ghost start = out@;
    if let MirInstr::MultiIndex {
        object,
        args,
        kwargs,
        object_place,
        arg_places,
        kwarg_places,
        call,
        ..
    } = instruction {
        out.push(*object);
        let ghost sum = seq![*object];
        assert(out@ =~= start + sum);
        push_subscript_args_regs(args, out);
        let ghost sum = sum + subscript_args_regs(subscript_args_view(*args));
        assert(out@ =~= start + sum);
        push_subscript_kwargs_regs(kwargs, out);
        let ghost sum = sum + subscript_kwargs_regs(string_subscript_args_view(*kwargs));
        assert(out@ =~= start + sum);
        push_opt_place_regs(object_place, out);
        let ghost sum = sum + opt_place_regs(opt_place_view(*object_place));
        assert(out@ =~= start + sum);
        push_places_regs(arg_places, out);
        let ghost sum = sum + places_regs(opt_places_view(*arg_places));
        assert(out@ =~= start + sum);
        push_places_regs(kwarg_places, out);
        let ghost sum = sum + places_regs(opt_places_view(*kwarg_places));
        assert(out@ =~= start + sum);
        push_call_regs(call, out);
        let ghost sum = sum + call_regs(opt_subscript_call_view(*call));
        assert(out@ =~= start + sum);
        assert(operand_regs(instruction@) == sum);
    }
    assert(out@ =~= old(out)@ + operand_regs(instruction@));
}

/// Pushes the registers an instruction reads.
pub fn instruction_operand_regs(instruction: &MirInstr, out: &mut Vec<Reg>)
    ensures
        final(out)@ == old(out)@ + operand_regs(instruction@),
{
    match instruction {
        MirInstr::EstablishLoans { loans, .. } => {
            push_loans_regs(loans, out);
            assert(out@ =~= old(out)@ + operand_regs(instruction@));
        },
        MirInstr::ConsumePlace { place, .. } => {
            push_place_regs(place, out);
            assert(out@ =~= old(out)@ + operand_regs(instruction@));
        },
        MirInstr::MakeRef { place, .. } => {
            push_place_regs(place, out);
            assert(out@ =~= old(out)@ + operand_regs(instruction@));
        },
        MirInstr::MovePlace { place, .. } => {
            push_place_regs(place, out);
            assert(out@ =~= old(out)@ + operand_regs(instruction@));
        },
        MirInstr::LoadPlace { place, .. } => {
            push_place_regs(place, out);
            assert(out@ =~= old(out)@ + operand_regs(instruction@));
        },
        MirInstr::ReadRef { reference, .. } => {
            out.push(*reference);
            assert(out@ =~= old(out)@ + operand_regs(instruction@));
        },
        MirInstr::CopyValue { value, .. } => {
            out.push(*value);
            assert(out@ =~= old(out)@ + operand_regs(instruction@));
        },
        MirInstr::WriteRef { reference, value, .. } => {
            out.push(*reference);
            out.push(*value);
            assert(out@ =~= old(out)@ + operand_regs(instruction@));
        },
        MirInstr::MaterializeLiteral { value, .. } => {
            out.push(*value);
            assert(out@ =~= old(out)@ + operand_regs(instruction@));
        },
        MirInstr::UnOp { a, .. } => {
            out.push(*a);
            assert(out@ =~= old(out)@ + operand_regs(instruction@));
        },
        MirInstr::BinOp { a, b, .. } => {
            out.push(*a);
            out.push(*b);
            assert(out@ =~= old(out)@ + operand_regs(instruction@));
        },
        MirInstr::Store { place, src, .. } => {
            push_place_regs(place, out);
            out.push(*src);
            assert(out@ =~= old(out)@ + operand_regs(instruction@));
        },
        MirInstr::StoreRef { place, reference, .. } => {
            push_place_regs(place, out);
            out.push(*reference);
            assert(out@ =~= old(out)@ + operand_regs(instruction@));
        },
        MirInstr::MultiSet { .. } => push_multi_set_operands(instruction, out),
        MirInstr::Call { .. } => push_call_operands(instruction, out),
        MirInstr::CallIndirect { .. } => push_call_indirect_operands(instruction, out),
        MirInstr::MethodCall { .. } => push_method_call_operands(instruction, out),
        MirInstr::PointerStorageTake { pointer, index, .. } => {
            out.push(*pointer);
            out.push(*index);
            assert(out@ =~= old(out)@ + operand_regs(instruction@));
        },
        MirInstr::PointerStorageDestroy { pointer, index, .. } => {
            out.push(*pointer);
            out.push(*index);
            assert(out@ =~= old(out)@ + operand_regs(instruction@));
        },
        MirInstr::UninitStorage { init, .. } => {
            push_opt_reg(init, out);
            assert(out@ =~= old(out)@ + operand_regs(instruction@));
        },
        MirInstr::UninitStorageTake { storage, .. } => {
            out.push(*storage);
            assert(out@ =~= old(out)@ + operand_regs(instruction@));
        },
        MirInstr::UninitStorageDestroy { storage, .. } => {
            out.push(*storage);
            assert(out@ =~= old(out)@ + operand_regs(instruction@));
        },
        MirInstr::GetField { base, .. } => {
            out.push(*base);
            assert(out@ =~= old(out)@ + operand_regs(instruction@));
        },
        MirInstr::Index { .. } => push_index_operands(instruction, out),
        MirInstr::Slice { .. } => push_slice_operands(instruction, out),
        MirInstr::MultiIndex { .. } => push_multi_index_operands(instruction, out),
        MirInstr::MakeTuple { elems, .. } => {
            push_regs(elems, out);
            assert(out@ =~= old(out)@ + operand_regs(instruction@));
        },
        MirInstr::MakeSimd { elems, .. } => {
            push_regs(elems, out);
            assert(out@ =~= old(out)@ + operand_regs(instruction@));
        },
        MirInstr::SimdCast { value, .. } => {
            out.push(*value);
            assert(out@ =~= old(out)@ + operand_regs(instruction@));
        },
        MirInstr::SimdShuffle { value, .. } => {
            out.push(*value);
            assert(out@ =~= old(out)@ + operand_regs(instruction@));
        },
        MirInstr::MakeVariant { value, .. } => {
            out.push(*value);
            assert(out@ =~= old(out)@ + operand_regs(instruction@));
        },
        MirInstr::MakeClosure { captures, .. } => {
            push_captures_regs(captures, out);
            assert(out@ =~= old(out)@ + operand_regs(instruction@));
        },
        MirInstr::VariantIs { variant, .. } => {
            out.push(*variant);
            assert(out@ =~= old(out)@ + operand_regs(instruction@));
        },
        MirInstr::VariantGet { variant, .. } => {
            out.push(*variant);
            assert(out@ =~= old(out)@ + operand_regs(instruction@));
        },
        MirInstr::VariantTake { variant, .. } => {
            out.push(*variant);
            assert(out@ =~= old(out)@ + operand_regs(instruction@));
        },
        MirInstr::VariantDeinitWith { variant, handler, .. } => {
            out.push(*variant);
            out.push(*handler);
            assert(out@ =~= old(out)@ + operand_regs(instruction@));
        },
        MirInstr::VariantSetInitWith { place, factory, .. } => {
            push_place_regs(place, out);
            out.push(*factory);
            assert(out@ =~= old(out)@ + operand_regs(instruction@));
        },
        MirInstr::VariantSet { place, value, .. } => {
            push_place_regs(place, out);
            out.push(*value);
            assert(out@ =~= old(out)@ + operand_regs(instruction@));
        },
        MirInstr::VariantReplace { place, value, .. } => {
            push_place_regs(place, out);
            out.push(*value);
            assert(out@ =~= old(out)@ + operand_regs(instruction@));
        },
        MirInstr::Raise { src, .. } => {
            out.push(*src);
            assert(out@ =~= old(out)@ + operand_regs(instruction@));
        },
        MirInstr::Drop { reg, .. } => {
            out.push(*reg);
            assert(out@ =~= old(out)@ + operand_regs(instruction@));
        },
        MirInstr::DefVar { src, .. } => {
            out.push(*src);
            assert(out@ =~= old(out)@ + operand_regs(instruction@));
        },
        _ => {
            assert(out@ =~= old(out)@ + operand_regs(instruction@));
        },
    }
}

} // verus!
