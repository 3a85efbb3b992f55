//! What rewriting an instruction for an instance promises: its types are substituted, and
//! everything else stays.

use crate::mir::{MirCaptureModel, MirInstrModel, MirLoanModel, MirPlaceModel, Reg};
use crate::mir::verify::places::{opt_place, places_of, present_places};
use crate::mir::verify::regs::{
    captures_regs, loans_regs, operand_regs, opt_place_regs, place_regs, places_regs, result_regs,
};
use crate::native::mono::MonoErrorModel;
use crate::native::mono::bindings::BindingsModel;
use crate::native::mono::rewrite::{
    subst_capture, subst_capture_results, subst_captures, subst_instr, subst_loan,
    subst_loan_results, subst_loans, subst_opt_place, subst_opt_subscript, subst_opt_ty,
    subst_place, subst_place_results, subst_places, subst_subscript, subst_tys, ty_with,
};
use crate::native::mono::subst::{subst_results, subst_ty};
use crate::outcome::collect;
use crate::types::TyModel;
use vstd::prelude::*;

verus! {

proof fn lemma_collected_all<T, E>(results: Seq<Result<T, E>>)
    requires
        collect(results) is Ok,
    ensures
        collect(results)->Ok_0.len() == results.len(),
        forall|i: int|
            0 <= i < results.len() ==> (#[trigger] results[i]) is Ok && collect(results)->Ok_0[i] == results[i]->Ok_0,
        results.len() > 0 ==> collect(results.drop_last()) is Ok && collect(results.drop_last())->Ok_0 == collect(
            results,
        )->Ok_0.drop_last() && results.last() == Ok::<T, E>(collect(results)->Ok_0.last()),
    decreases results.len(),
{
    if results.len() > 0 {
        let shorter = results.drop_last();
        assert(collect(shorter) is Ok);
        lemma_collected_all(shorter);
        assert(collect(results)->Ok_0.drop_last() =~= collect(shorter)->Ok_0);
        assert forall|i: int| 0 <= i < results.len() implies (#[trigger] results[i]) is Ok && collect(results)->Ok_0[i]
            == results[i]->Ok_0 by {
            if i < shorter.len() {
                assert(shorter[i] is Ok);
            }
        }
    }
}

/// A rewritten place is the same place: only its types are substituted, each of them.
#[verifier::rlimit(40)]
pub proof fn law_place_rewritten(x: MirPlaceModel, b: BindingsModel)
    requires
        subst_place(x, b) is Ok,
    ensures
        ({
            let y = subst_place(x, b)->Ok_0;
            &&& y.root == x.root && y.proj == x.proj && y.through == x.through
            &&& y.ty is Some == x.ty is Some && y.root_ty is Some == x.root_ty is Some
            &&& x.ty is Some ==> subst_ty(x.ty->Some_0, b) == Ok::<TyModel, MonoErrorModel>(y.ty->Some_0)
            &&& x.root_ty is Some ==> subst_ty(x.root_ty->Some_0, b) == Ok::<TyModel, MonoErrorModel>(
                y.root_ty->Some_0,
            )
            &&& y.projection_tys.len() == x.projection_tys.len()
            &&& forall|i: int|
                0 <= i < x.projection_tys.len() ==> subst_ty(#[trigger] x.projection_tys[i], b) == Ok::<
                    TyModel,
                    MonoErrorModel,
                >(y.projection_tys[i])
        }),
        place_regs(subst_place(x, b)->Ok_0) == place_regs(x),
{
    reveal(subst_place);
    reveal(subst_opt_ty);
    reveal(ty_with);
    reveal(subst_tys);
    let results = subst_results(x.projection_tys, b);
    assert(collect(results) is Ok);
    lemma_collected_all(results);
    assert forall|i: int| 0 <= i < x.projection_tys.len() implies subst_ty(#[trigger] x.projection_tys[i], b) == Ok::<
        TyModel,
        MonoErrorModel,
    >(subst_place(x, b)->Ok_0.projection_tys[i]) by {
        assert(results[i] == subst_ty(x.projection_tys[i], b));
    }
}

/// Whether places are the rewritten ones, in order.
pub open spec fn rewritten(xs: Seq<MirPlaceModel>, ys: Seq<MirPlaceModel>, b: BindingsModel) -> bool {
    xs.len() == ys.len() && forall|i: int|
        0 <= i < xs.len() ==> subst_place(#[trigger] xs[i], b) == Ok::<MirPlaceModel, MonoErrorModel>(ys[i])
}

proof fn lemma_rewritten_join(
    a: Seq<MirPlaceModel>,
    c: Seq<MirPlaceModel>,
    x: Seq<MirPlaceModel>,
    y: Seq<MirPlaceModel>,
    b: BindingsModel,
)
    requires
        rewritten(a, x, b),
        rewritten(c, y, b),
    ensures
        rewritten(a + c, x + y, b),
{
    assert forall|i: int| 0 <= i < (a + c).len() implies subst_place(#[trigger] (a + c)[i], b) == Ok::<
        MirPlaceModel,
        MonoErrorModel,
    >((x + y)[i]) by {
        if i < a.len() {
            assert((a + c)[i] == a[i]);
        } else {
            assert((a + c)[i] == c[i - a.len()]);
        }
    }
}

proof fn lemma_opt_place(x: Option<MirPlaceModel>, b: BindingsModel)
    requires
        subst_opt_place(x, b) is Ok,
    ensures
        opt_place_regs(subst_opt_place(x, b)->Ok_0) == opt_place_regs(x),
        rewritten(opt_place(x), opt_place(subst_opt_place(x, b)->Ok_0), b),
        subst_opt_place(x, b)->Ok_0 is Some == x is Some,
{
    reveal(subst_opt_place);
    if let Some(p) = x {
        law_place_rewritten(p, b);
    }
}

proof fn lemma_places(xs: Seq<Option<MirPlaceModel>>, b: BindingsModel)
    requires
        subst_places(xs, b) is Ok,
    ensures
        subst_places(xs, b)->Ok_0.len() == xs.len(),
        places_regs(subst_places(xs, b)->Ok_0) == places_regs(xs),
        rewritten(present_places(xs), present_places(subst_places(xs, b)->Ok_0), b),
    decreases xs.len(),
{
    reveal(subst_places);
    let results = subst_place_results(xs, b);
    lemma_collected_all(results);
    if xs.len() > 0 {
        let before = xs.drop_last();
        assert(subst_place_results(before, b) =~= results.drop_last());
        lemma_places(before, b);
        assert(results.last() == subst_opt_place(xs.last(), b));
        lemma_opt_place(xs.last(), b);
        let ys = collect(results)->Ok_0;
        lemma_rewritten_join(
            present_places(before),
            opt_place(xs.last()),
            present_places(ys.drop_last()),
            opt_place(ys.last()),
            b,
        );
    }
}

proof fn lemma_loans(xs: Seq<MirLoanModel>, b: BindingsModel)
    requires
        subst_loans(xs, b) is Ok,
    ensures
        loans_regs(subst_loans(xs, b)->Ok_0) == loans_regs(xs),
        rewritten(
            Seq::new(xs.len(), |i: int| xs[i].place),
            Seq::new(subst_loans(xs, b)->Ok_0.len(), |i: int| subst_loans(xs, b)->Ok_0[i].place),
            b,
        ),
    decreases xs.len(),
{
    reveal(subst_loans);
    reveal(subst_loan);
    let results = subst_loan_results(xs, b);
    lemma_collected_all(results);
    let ys = collect(results)->Ok_0;
    assert forall|i: int| 0 <= i < xs.len() implies subst_place(#[trigger] xs[i].place, b) == Ok::<
        MirPlaceModel,
        MonoErrorModel,
    >(ys[i].place) by {
        assert(results[i] == subst_loan(xs[i], b));
    }
    if xs.len() > 0 {
        let before = xs.drop_last();
        assert(subst_loan_results(before, b) =~= results.drop_last());
        lemma_loans(before, b);
        assert(xs[xs.len() - 1].place == xs.last().place);
        law_place_rewritten(xs.last().place, b);
    }
}

proof fn lemma_captures(xs: Seq<MirCaptureModel>, b: BindingsModel)
    requires
        subst_captures(xs, b) is Ok,
    ensures
        captures_regs(subst_captures(xs, b)->Ok_0) == captures_regs(xs),
        rewritten(
            Seq::new(xs.len(), |i: int| xs[i].place),
            Seq::new(subst_captures(xs, b)->Ok_0.len(), |i: int| subst_captures(xs, b)->Ok_0[i].place),
            b,
        ),
    decreases xs.len(),
{
    reveal(subst_captures);
    reveal(subst_capture);
    let results = subst_capture_results(xs, b);
    lemma_collected_all(results);
    let ys = collect(results)->Ok_0;
    assert forall|i: int| 0 <= i < xs.len() implies subst_place(#[trigger] xs[i].place, b) == Ok::<
        MirPlaceModel,
        MonoErrorModel,
    >(ys[i].place) by {
        assert(results[i] == subst_capture(xs[i], b));
    }
    if xs.len() > 0 {
        let before = xs.drop_last();
        assert(subst_capture_results(before, b) =~= results.drop_last());
        lemma_captures(before, b);
        assert(xs[xs.len() - 1].place == xs.last().place);
        law_place_rewritten(xs.last().place, b);
    }
}

/// A rewritten instruction reads and writes the registers that it did, in order, and
/// names the same places with their types substituted.
#[verifier::rlimit(40)]
pub proof fn law_instruction_rewritten(x: MirInstrModel, b: BindingsModel)
    requires
        !(x is Try),
        subst_instr(x, b) is Ok,
    ensures
        result_regs(subst_instr(x, b)->Ok_0) == result_regs(x),
        operand_regs(subst_instr(x, b)->Ok_0) == operand_regs(x),
        rewritten(places_of(x), places_of(subst_instr(x, b)->Ok_0), b),
{
    let y = subst_instr(x, b)->Ok_0;
    match x {
        MirInstrModel::EstablishLoans { loans, .. } => lemma_loans(loans, b),
        MirInstrModel::MakeClosure { captures, .. } => lemma_captures(captures, b),
        MirInstrModel::MakeRef { place, .. } => law_place_rewritten(place, b),
        MirInstrModel::MovePlace { place, .. } => law_place_rewritten(place, b),
        MirInstrModel::LoadPlace { place, .. } => law_place_rewritten(place, b),
        MirInstrModel::ConsumePlace { place, .. } => law_place_rewritten(place, b),
        MirInstrModel::Store { place, .. } => law_place_rewritten(place, b),
        MirInstrModel::StoreRef { place, .. } => law_place_rewritten(place, b),
        MirInstrModel::VariantSet { place, .. } => law_place_rewritten(place, b),
        MirInstrModel::VariantSetInitWith { place, .. } => law_place_rewritten(place, b),
        MirInstrModel::VariantReplace { place, .. } => law_place_rewritten(place, b),
        MirInstrModel::Call { arg_places, kwarg_places, .. } => {
            lemma_places(arg_places, b);
            lemma_places(kwarg_places, b);
            lemma_rewritten_join(
                present_places(arg_places),
                present_places(kwarg_places),
                present_places(y->Call_arg_places),
                present_places(y->Call_kwarg_places),
                b,
            );
        },
        MirInstrModel::CallIndirect { callee_place, arg_places, kwarg_places, .. } => {
            lemma_opt_place(callee_place, b);
            lemma_places(arg_places, b);
            lemma_places(kwarg_places, b);
            lemma_rewritten_join(
                opt_place(callee_place),
                present_places(arg_places),
                opt_place(y->CallIndirect_callee_place),
                present_places(y->CallIndirect_arg_places),
                b,
            );
            lemma_rewritten_join(
                opt_place(callee_place) + present_places(arg_places),
                present_places(kwarg_places),
                opt_place(y->CallIndirect_callee_place) + present_places(y->CallIndirect_arg_places),
                present_places(y->CallIndirect_kwarg_places),
                b,
            );
        },
        MirInstrModel::MethodCall { recv_place, arg_places, kwarg_places, .. } => {
            lemma_opt_place(recv_place, b);
            lemma_places(arg_places, b);
            lemma_places(kwarg_places, b);
            lemma_rewritten_join(
                opt_place(recv_place),
                present_places(arg_places),
                opt_place(y->MethodCall_recv_place),
                present_places(y->MethodCall_arg_places),
                b,
            );
            lemma_rewritten_join(
                opt_place(recv_place) + present_places(arg_places),
                present_places(kwarg_places),
                opt_place(y->MethodCall_recv_place) + present_places(y->MethodCall_arg_places),
                present_places(y->MethodCall_kwarg_places),
                b,
            );
        },
        MirInstrModel::Index { base_place, index_place, call, .. } => {
            reveal(subst_opt_subscript);
            reveal(subst_subscript);
            lemma_opt_place(base_place, b);
            lemma_opt_place(index_place, b);
            lemma_rewritten_join(
                opt_place(base_place),
                opt_place(index_place),
                opt_place(y->Index_base_place),
                opt_place(y->Index_index_place),
                b,
            );
        },
        MirInstrModel::Slice { object_place, arg_places, call, .. } => {
            reveal(subst_opt_subscript);
            reveal(subst_subscript);
            lemma_opt_place(object_place, b);
            lemma_places(arg_places, b);
            lemma_rewritten_join(
                opt_place(object_place),
                present_places(arg_places),
                opt_place(y->Slice_object_place),
                present_places(y->Slice_arg_places),
                b,
            );
        },
        MirInstrModel::MultiIndex { object_place, arg_places, call, .. } => {
            reveal(subst_opt_subscript);
            reveal(subst_subscript);
            lemma_opt_place(object_place, b);
            lemma_places(arg_places, b);
            lemma_rewritten_join(
                opt_place(object_place),
                present_places(arg_places),
                opt_place(y->MultiIndex_object_place),
                present_places(y->MultiIndex_arg_places),
                b,
            );
        },
        MirInstrModel::MultiSet { receiver_place, arg_places, value_place, call, .. } => {
            reveal(subst_subscript);
            lemma_opt_place(receiver_place, b);
            lemma_places(arg_places, b);
            lemma_opt_place(value_place, b);
            lemma_rewritten_join(
                opt_place(receiver_place),
                present_places(arg_places),
                opt_place(y->MultiSet_receiver_place),
                present_places(y->MultiSet_arg_places),
                b,
            );
            lemma_rewritten_join(
                opt_place(receiver_place) + present_places(arg_places),
                opt_place(value_place),
                opt_place(y->MultiSet_receiver_place) + present_places(y->MultiSet_arg_places),
                opt_place(y->MultiSet_value_place),
                b,
            );
        },
        MirInstrModel::ConstructTypeParam { .. } => {
            assert(operand_regs(y) =~= Seq::<Reg>::empty());
            assert(places_of(y) =~= Seq::<MirPlaceModel>::empty());
        },
        _ => {},
    }
}

/// The types that an instruction carries are substituted, each of them.
#[verifier::rlimit(40)]
pub proof fn law_types_rewritten(x: MirInstrModel, b: BindingsModel)
    requires
        subst_instr(x, b) is Ok,
    ensures
        ({
            let y = subst_instr(x, b)->Ok_0;
            &&& x is SizeOf ==> y is SizeOf && subst_ty(x->SizeOf_ty, b) == Ok::<TyModel, MonoErrorModel>(y->SizeOf_ty)
            &&& x is MaterializeLiteral ==> y is MaterializeLiteral
                && subst_ty(x->MaterializeLiteral_target, b) == Ok::<
                TyModel,
                MonoErrorModel,
            >(y->MaterializeLiteral_target)
            &&& x is DefVar ==> y is DefVar && y->DefVar_var == x->DefVar_var
                && (x->DefVar_binding_ty is Some ==> y->DefVar_binding_ty is Some && subst_ty(
                x->DefVar_binding_ty->Some_0,
                b,
            ) == Ok::<TyModel, MonoErrorModel>(y->DefVar_binding_ty->Some_0))
            &&& x is MakeVariant ==> y is MakeVariant && y->MakeVariant_index == x->MakeVariant_index
                && y->MakeVariant_alternatives.len() == x->MakeVariant_alternatives.len() && forall|i: int|
                0 <= i < x->MakeVariant_alternatives.len() ==> subst_ty(#[trigger] x->MakeVariant_alternatives[i], b)
                    == Ok::<TyModel, MonoErrorModel>(y->MakeVariant_alternatives[i])
            &&& x is Call ==> y is Call && y->Call_func == x->Call_func
                && y->Call_raises is Some == x->Call_raises is Some
            &&& x is MethodCall ==> y is MethodCall && y->MethodCall_resolved == x->MethodCall_resolved
                && y->MethodCall_method == x->MethodCall_method && y->MethodCall_raises is Some
                == x->MethodCall_raises is Some
            &&& x is PointerStorageTake ==> subst_ty(x->PointerStorageTake_element, b) == Ok::<TyModel, MonoErrorModel>(
                y->PointerStorageTake_element,
            )
            &&& x is UninitStorageTake ==> subst_ty(x->UninitStorageTake_element, b) == Ok::<TyModel, MonoErrorModel>(
                y->UninitStorageTake_element,
            )
            &&& x is ConstructTypeParam ==> b.types.dom().contains(x->ConstructTypeParam_param)
                && b.types[x->ConstructTypeParam_param] is Struct && y is Call && y->Call_func.0
                == b.types[x->ConstructTypeParam_param]->Struct_0
            &&& x is Const || x is UseVar || x is BinOp || x is UnOp || x is Raise || x is Drop ==> y == x
        }),
{
    reveal(ty_with);
    reveal(subst_opt_ty);
    reveal(subst_tys);
    if x is MakeVariant {
        let results = subst_results(x->MakeVariant_alternatives, b);
        lemma_collected_all(results);
        assert forall|i: int| 0 <= i < x->MakeVariant_alternatives.len() implies subst_ty(
            #[trigger] x->MakeVariant_alternatives[i],
            b,
        ) == Ok::<TyModel, MonoErrorModel>(subst_instr(x, b)->Ok_0->MakeVariant_alternatives[i]) by {
            assert(results[i] == subst_ty(x->MakeVariant_alternatives[i], b));
        }
    }
}

/// What an instruction reads is listed: the operands of operators, every argument of a
/// call with the registers that index its places, and what is stored, raised or dropped.
pub proof fn law_operands_listed(x: MirInstrModel, i: int)
    ensures
        x is BinOp ==> operand_regs(x) == seq![x->BinOp_a, x->BinOp_b],
        x is UnOp ==> operand_regs(x) == seq![x->UnOp_a],
        x is Raise ==> operand_regs(x) == seq![x->Raise_src],
        x is DefVar ==> operand_regs(x) == seq![x->DefVar_src],
        x is Call && 0 <= i < x->Call_args.len() ==> operand_regs(x)[i] == x->Call_args[i],
        x is MethodCall ==> operand_regs(x)[0] == x->MethodCall_recv,
        x is MethodCall && 0 <= i < x->MethodCall_args.len() ==> operand_regs(x)[i + 1] == x->MethodCall_args[i],
        x is CallIndirect ==> operand_regs(x)[0] == x->CallIndirect_callee,
        x is CallIndirect && 0 <= i < x->CallIndirect_args.len() ==> operand_regs(x)[i + 1] == x->CallIndirect_args[i],
        x is Index ==> operand_regs(x)[0] == x->Index_base && operand_regs(x)[1] == x->Index_index,
        x is MakeTuple ==> operand_regs(x) == x->MakeTuple_elems,
        x is WriteRef ==> operand_regs(x) == seq![x->WriteRef_reference, x->WriteRef_value],
        x is ReadRef ==> operand_regs(x) == seq![x->ReadRef_reference] && result_regs(x) == seq![x->ReadRef_dest],
        x is BinOp ==> result_regs(x) == seq![x->BinOp_dest],
        x is Call ==> result_regs(x) == seq![x->Call_dest],
        x is Store || x is DefVar || x is Raise || x is WriteRef ==> result_regs(x).len() == 0,
{
    if x is BinOp {
        assert(operand_regs(x) =~= seq![x->BinOp_a, x->BinOp_b]);
    }
    if x is WriteRef {
        assert(operand_regs(x) =~= seq![x->WriteRef_reference, x->WriteRef_value]);
    }
}

} // verus!
