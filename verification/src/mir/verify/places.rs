//! Verification of terminators and places.

use crate::data::strings_view;
use crate::mir::{
    MirCapture, MirDeclarations, MirDeclarationsModel, MirFunction, MirFunctionDeclaration,
    MirFunctionDeclarationModel, MirFunctionModel, MirInstr, MirInstrModel, MirLoan, MirPlace,
    MirPlaceModel, MirStructDeclaration, MirStructDeclarationModel, MirTerm, MirTermModel, Proj,
    ProjModel, Reg, captures_view, function_declarations_view, loans_view, opt_place_view,
    opt_places_view, projs_view, struct_declarations_view,
};
use crate::mir::verify::{
    Checker, RegionContext, block_prefix, found_view, needs_place, passes_place, peel_ref,
    prefix_of, referent_of, report, rule,
};
use crate::mir::verify::intrinsics::{
    element_fits, fits_element, indexed_elements, indexed_place_element_types, indexer, is_indexer,
};
use crate::mir::verify::types::{
    any_runtime_pack, compat, contains_runtime_pack, has_runtime_pack, types_compatible,
};
use crate::origin::pointer_storage;
use crate::runtime::Value;
use crate::table::table_get;
use crate::text::{cat2, cat3, cat4, cat5, cat6, cat7, cat9, dec, dec_text, dec_text_usize, str_eq};
use crate::types::{
    ParamDecl, ParamDeclModel, Ty, TyArg, TyArgModel, TyModel, decl_name, param_decls_view,
    string_tys_view, ty_args_view, ty_text, tys_view,
};
use vstd::prelude::*;

verus! {

/// The issues of a jump target.
pub open spec fn target_issue(prefix: Seq<char>, text: Seq<char>, target: usize, len: usize) -> Seq<Seq<char>> {
    rule(target >= len, prefix + text + dec(target as nat))
}

fn verify_target(prefix: &str, text: &str, target: usize, len: usize, errors: &mut Vec<String>)
    ensures
        strings_view(*final(errors)) == strings_view(*old(errors)) + target_issue(prefix@, text@, target, len),
{
    if target >= len {
        report(errors, cat3(prefix, text, &dec_text_usize(target)));
    }
    assert(strings_view(*errors) =~= strings_view(*old(errors)) + target_issue(prefix@, text@, target, len));
}

/// The issues of a returned value. A return without a value is also what an
/// unfinished block holds, so only values are checked.
pub open spec fn return_issues<C: Checker>(
    c: C,
    prefix: Seq<char>,
    function: MirFunctionModel,
    value: Option<Reg>,
) -> Seq<
    Seq<char>,
> {
    match value {
        Some(register) => if function.returns_reference {
            Seq::empty()
        } else {
            match (table_get(function.reg_types, register.0), function.ret_ty) {
                (Some(found), Some(expected)) => rule(
                    !compat(c, found, expected),
                    prefix + ": return of "@ + ty_text(found) + " from a function returning "@ + ty_text(expected),
                ),
                _ => Seq::empty(),
            }
        },
        None => Seq::empty(),
    }
}

fn verify_return<C: Checker>(
    c: &C,
    prefix: &str,
    function: &MirFunction,
    value: &Option<Reg>,
    errors: &mut Vec<String>,
)
    ensures
        strings_view(*final(errors)) == strings_view(*old(errors)) + return_issues(
            *c,
            prefix@,
            function@,
            *value,
        ),
{
    let ghost start = strings_view(*errors);
    if let Some(register) = value {
        if !function.returns_reference {
            if let (Some(found), Some(expected)) = (function.reg_types.get(register.0), &function.ret_ty) {
                if !types_compatible(c, found, expected) {
                    report(
                        errors,
                        cat5(
                            prefix,
                            ": return of ",
                            &found.text(),
                            " from a function returning ",
                            &expected.text(),
                        ),
                    );
                }
            }
        }
    }
    assert(strings_view(*errors) =~= start + return_issues(*c, prefix@, function@, *value));
}

/// The issues of the variables that a return cleans up.
pub open spec fn cleanup_issues(prefix: Seq<char>, n_vars: usize, cleanup: Seq<u32>) -> Seq<Seq<char>>
    decreases cleanup.len(),
{
    if cleanup.len() == 0 {
        Seq::empty()
    } else {
        cleanup_issues(prefix, n_vars, cleanup.drop_last()) + rule(
            cleanup.last() >= n_vars,
            prefix + ": return cleanup uses invalid variable "@ + dec(cleanup.last() as nat),
        )
    }
}

fn verify_cleanup(prefix: &str, n_vars: usize, cleanup: &Vec<u32>, errors: &mut Vec<String>)
    ensures
        strings_view(*final(errors)) == strings_view(*old(errors)) + cleanup_issues(prefix@, n_vars, cleanup@),
{
    let ghost start = strings_view(*errors);
    assert(start =~= start + cleanup_issues(prefix@, n_vars, cleanup@.take(0)));
    for i in 0..cleanup.len()
        invariant
            strings_view(*errors) == start + cleanup_issues(prefix@, n_vars, cleanup@.take(i as int)),
    {
        assert(cleanup@.take(i + 1).drop_last() =~= cleanup@.take(i as int));
        let variable: u32 = cleanup[i];
        if variable as u64 >= n_vars as u64 {
            report(
                errors,
                cat3(prefix, ": return cleanup uses invalid variable ", &dec_text(variable as u64)),
            );
        }
        assert(strings_view(*errors) =~= start + cleanup_issues(prefix@, n_vars, cleanup@.take(i + 1)));
    }
    assert(cleanup@.take(cleanup@.len() as int) =~= cleanup@);
}

/// The issues of a block's terminator.
pub open spec fn terminator_issues<C: Checker>(
    c: C,
    prefix: Seq<char>,
    function: MirFunctionModel,
    terminator: MirTermModel,
    context: RegionContext,
) -> Seq<Seq<char>> {
    match terminator {
        MirTermModel::Jump(target) => target_issue(
            prefix,
            ": jump to invalid block "@,
            target,
            context.region_len,
        ),
        MirTermModel::Branch { cond, then_b, else_b } => target_issue(
            prefix,
            ": branch to invalid block "@,
            then_b,
            context.region_len,
        ) + target_issue(prefix, ": branch to invalid block "@, else_b, context.region_len) + (match table_get(
            function.reg_types,
            cond.0,
        ) {
            Some(found) => rule(!(found is Bool), prefix + ": branch condition has type "@ + ty_text(found)),
            None => Seq::empty(),
        }),
        MirTermModel::Return(value) => return_issues(c, prefix, function, value),
        MirTermModel::ReturnWithCleanup { value, cleanup } => return_issues(c, prefix, function, value) + cleanup_issues(
            prefix,
            function.n_vars,
            cleanup,
        ),
        MirTermModel::FallOff => rule(
            !context.in_try_region,
            prefix + ": FallOff terminator outside a try region"@,
        ),
        MirTermModel::EscapeJump { target, .. } => rule(
            !context.in_try_region,
            prefix + ": EscapeJump terminator outside a try region"@,
        ) + target_issue(prefix, ": escape to invalid block "@, target, context.function_len),
    }
}

/// Verifies a block's terminator against the region the block is in.
pub fn verify_terminator<C: Checker>(
    c: &C,
    name: &str,
    function: &MirFunction,
    block_index: usize,
    terminator: &MirTerm,
    context: &RegionContext,
    errors: &mut Vec<String>,
)
    ensures
        strings_view(*final(errors)) == strings_view(*old(errors)) + terminator_issues(
            *c,
            block_prefix(name@, block_index as nat),
            function@,
            terminator@,
            *context,
        ),
{
    let ghost start = strings_view(*errors);
    let prefix_text: String = prefix_of(name, block_index);
    let prefix: &str = &prefix_text;
    match terminator {
        MirTerm::Jump(target) => {
            verify_target(prefix, ": jump to invalid block ", *target, context.region_len, errors);
        },
        MirTerm::Branch { cond, then_b, else_b } => {
            verify_target(prefix, ": branch to invalid block ", *then_b, context.region_len, errors);
            verify_target(prefix, ": branch to invalid block ", *else_b, context.region_len, errors);
            if let Some(found) = function.reg_types.get(cond.0) {
                match found {
                    Ty::Bool => {},
                    _ => {
                        report(errors, cat3(prefix, ": branch condition has type ", &found.text()));
                    },
                }
            }
        },
        MirTerm::Return(value) => {
            verify_return(c, prefix, function, value, errors);
        },
        MirTerm::ReturnWithCleanup { value, cleanup } => {
            verify_return(c, prefix, function, value, errors);
            verify_cleanup(prefix, function.n_vars, cleanup, errors);
        },
        MirTerm::FallOff => {
            if !context.in_try_region {
                report(errors, cat2(prefix, ": FallOff terminator outside a try region"));
            }
        },
        MirTerm::EscapeJump { target, .. } => {
            if !context.in_try_region {
                report(errors, cat2(prefix, ": EscapeJump terminator outside a try region"));
            }
            verify_target(prefix, ": escape to invalid block ", *target, context.function_len, errors);
        },
    }
    assert(
        strings_view(*errors) =~= start + terminator_issues(*c, prefix@, function@, terminator@, *context)
    );
}

/// The model of a list of places.
pub open spec fn place_refs_view(places: Seq<&MirPlace>) -> Seq<MirPlaceModel> {
    Seq::new(places.len(), |i: int| places[i]@)
}

/// The place of an optional operand.
pub open spec fn opt_place(place: Option<MirPlaceModel>) -> Seq<MirPlaceModel> {
    match place {
        Some(place) => seq![place],
        None => Seq::empty(),
    }
}

/// The places that are present, in order.
pub open spec fn present_places(places: Seq<Option<MirPlaceModel>>) -> Seq<MirPlaceModel>
    decreases places.len(),
{
    if places.len() == 0 {
        Seq::empty()
    } else {
        present_places(places.drop_last()) + opt_place(places.last())
    }
}

/// The places an instruction names.
pub open spec fn places_of(instruction: MirInstrModel) -> Seq<MirPlaceModel> {
    match instruction {
        MirInstrModel::EstablishLoans { loans, .. } => Seq::new(loans.len(), |i: int| loans[i].place),
        MirInstrModel::MakeRef { place, .. } => seq![place],
        MirInstrModel::MovePlace { place, .. } => seq![place],
        MirInstrModel::Store { place, .. } => seq![place],
        MirInstrModel::StoreRef { place, .. } => seq![place],
        MirInstrModel::LoadPlace { place, .. } => seq![place],
        MirInstrModel::VariantSet { place, .. } => seq![place],
        MirInstrModel::VariantSetInitWith { place, .. } => seq![place],
        MirInstrModel::VariantReplace { place, .. } => seq![place],
        MirInstrModel::ConsumePlace { place, .. } => seq![place],
        MirInstrModel::MakeClosure { captures, .. } => Seq::new(captures.len(), |i: int| captures[i].place),
        MirInstrModel::Call {
            arg_places,
            kwarg_places,
            ..
        } => present_places(arg_places) + present_places(kwarg_places),
        MirInstrModel::CallIndirect { callee_place, arg_places, kwarg_places, .. } => opt_place(callee_place)
            + present_places(arg_places) + present_places(kwarg_places),
        MirInstrModel::MethodCall {
            recv_place,
            arg_places,
            kwarg_places,
            ..
        } => opt_place(recv_place) + present_places(
            arg_places,
        ) + present_places(kwarg_places),
        MirInstrModel::Index {
            base_place,
            index_place,
            ..
        } => opt_place(base_place) + opt_place(index_place),
        MirInstrModel::Slice {
            object_place,
            arg_places,
            ..
        } => opt_place(object_place) + present_places(arg_places),
        MirInstrModel::MultiIndex {
            object_place,
            arg_places,
            ..
        } => opt_place(object_place) + present_places(arg_places),
        MirInstrModel::MultiSet { receiver_place, arg_places, value_place, .. } => opt_place(receiver_place)
            + present_places(arg_places) + opt_place(value_place),
        _ => Seq::empty(),
    }
}

fn push_opt_place<'a>(place: &'a Option<MirPlace>, out: &mut Vec<&'a MirPlace>)
    ensures
        place_refs_view(final(out)@) == place_refs_view(old(out)@) + opt_place(opt_place_view(*place)),
{
    if let Some(found) = place {
        out.push(found);
    }
    assert(place_refs_view(out@) =~= place_refs_view(old(out)@) + opt_place(opt_place_view(*place)));
}

fn push_present_places<'a>(places: &'a Vec<Option<MirPlace>>, out: &mut Vec<&'a MirPlace>)
    ensures
        place_refs_view(final(out)@) == place_refs_view(old(out)@) + present_places(opt_places_view(*places)),
{
    let ghost start = place_refs_view(out@);
    let ghost model = opt_places_view(*places);
    assert(start =~= start + present_places(model.take(0)));
    for i in 0..places.len()
        invariant
            model == opt_places_view(*places),
            place_refs_view(out@) == start + present_places(model.take(i as int)),
    {
        assert(model.take(i + 1).drop_last() =~= model.take(i as int));
        assert(model[i as int] == opt_place_view(places@[i as int]));
        push_opt_place(&places[i], out);
        assert(place_refs_view(out@) =~= start + present_places(model.take(i + 1)));
    }
    assert(model.take(model.len() as int) =~= model);
}

fn loan_places<'a>(loans: &'a Vec<MirLoan>) -> (r: Vec<&'a MirPlace>)
    ensures
        place_refs_view(r@) == Seq::new(loans@.len(), |i: int| loans_view(*loans)[i].place),
{
    let mut out: Vec<&'a MirPlace> = Vec::new();
    for i in 0..loans.len()
        invariant
            out@.len() == i,
            forall|j: int| 0 <= j < i ==> (#[trigger] out@[j])@ == loans_view(*loans)[j].place,
    {
        assert(loans_view(*loans)[i as int] == loans@[i as int]@);
        out.push(&loans[i].place);
    }
    assert(place_refs_view(out@) =~= Seq::new(loans@.len(), |i: int| loans_view(*loans)[i].place));
    out
}

fn capture_places<'a>(captures: &'a Vec<MirCapture>) -> (r: Vec<&'a MirPlace>)
    ensures
        place_refs_view(r@) == Seq::new(captures@.len(), |i: int| captures_view(*captures)[i].place),
{
    let mut out: Vec<&'a MirPlace> = Vec::new();
    for i in 0..captures.len()
        invariant
            out@.len() == i,
            forall|j: int| 0 <= j < i ==> (#[trigger] out@[j])@ == captures_view(*captures)[j].place,
    {
        assert(captures_view(*captures)[i as int] == captures@[i as int]@);
        out.push(&captures[i].place);
    }
    assert(place_refs_view(out@) =~= Seq::new(captures@.len(), |i: int| captures_view(*captures)[i].place));
    out
}

fn one_place<'a>(place: &'a MirPlace) -> (r: Vec<&'a MirPlace>)
    ensures
        place_refs_view(r@) == seq![place@],
{
    let mut out: Vec<&'a MirPlace> = Vec::new();
    out.push(place);
    assert(place_refs_view(out@) =~= seq![place@]);
    out
}

fn places_around<'a>(
    first: &'a Option<MirPlace>,
    middle: &'a Vec<Option<MirPlace>>,
    last: &'a Option<MirPlace>,
) -> (r: Vec<&'a MirPlace>)
    ensures
        place_refs_view(r@) == opt_place(opt_place_view(*first)) + present_places(opt_places_view(*middle)) + opt_place(
            opt_place_view(*last),
        ),
{
    let mut out: Vec<&'a MirPlace> = Vec::new();
    assert(place_refs_view(out@) =~= Seq::empty());
    push_opt_place(first, &mut out);
    push_present_places(middle, &mut out);
    push_opt_place(last, &mut out);
    assert(place_refs_view(out@) =~= opt_place(opt_place_view(*first)) + present_places(opt_places_view(*middle))
        + opt_place(opt_place_view(*last)));
    out
}

fn places_before<'a>(
    first: &'a Option<MirPlace>,
    args: &'a Vec<Option<MirPlace>>,
    kwargs: &'a Vec<Option<MirPlace>>,
) -> (r: Vec<&'a MirPlace>)
    ensures
        place_refs_view(r@) == opt_place(opt_place_view(*first)) + present_places(opt_places_view(*args)) + present_places(
            opt_places_view(*kwargs),
        ),
{
    let mut out: Vec<&'a MirPlace> = Vec::new();
    assert(place_refs_view(out@) =~= Seq::empty());
    push_opt_place(first, &mut out);
    push_present_places(args, &mut out);
    push_present_places(kwargs, &mut out);
    assert(place_refs_view(out@) =~= opt_place(opt_place_view(*first)) + present_places(opt_places_view(*args))
        + present_places(opt_places_view(*kwargs)));
    out
}

fn places_of_object<'a>(
    object: &'a Option<MirPlace>,
    args: &'a Vec<Option<MirPlace>>,
) -> (r: Vec<&'a MirPlace>)
    ensures
        place_refs_view(r@) == opt_place(opt_place_view(*object)) + present_places(opt_places_view(*args)),
{
    let mut out: Vec<&'a MirPlace> = Vec::new();
    assert(place_refs_view(out@) =~= Seq::empty());
    push_opt_place(object, &mut out);
    push_present_places(args, &mut out);
    assert(
        place_refs_view(out@) =~= opt_place(opt_place_view(*object)) + present_places(opt_places_view(*args))
    );
    out
}

/// The places an instruction names.
pub fn instruction_places<'a>(instruction: &'a MirInstr) -> (r: Vec<&'a MirPlace>)
    ensures
        place_refs_view(r@) == places_of(instruction@),
{
    match instruction {
        MirInstr::EstablishLoans { loans, .. } => {
            assert(loans_view(*loans).len() == loans@.len());
            loan_places(loans)
        },
        MirInstr::MakeRef { place, .. } => one_place(place),
        MirInstr::MovePlace { place, .. } => one_place(place),
        MirInstr::Store { place, .. } => one_place(place),
        MirInstr::StoreRef { place, .. } => one_place(place),
        MirInstr::LoadPlace { place, .. } => one_place(place),
        MirInstr::VariantSet { place, .. } => one_place(place),
        MirInstr::VariantSetInitWith { place, .. } => one_place(place),
        MirInstr::VariantReplace { place, .. } => one_place(place),
        MirInstr::ConsumePlace { place, .. } => one_place(place),
        MirInstr::MakeClosure { captures, .. } => {
            assert(captures_view(*captures).len() == captures@.len());
            capture_places(captures)
        },
        MirInstr::Call { arg_places, kwarg_places, .. } => {
            let r: Vec<&'a MirPlace> = places_before(&None, arg_places, kwarg_places);
            assert(place_refs_view(r@) =~= present_places(opt_places_view(*arg_places)) + present_places(
                opt_places_view(*kwarg_places),
            ));
            r
        },
        MirInstr::CallIndirect { callee_place, arg_places, kwarg_places, .. } => places_before(
            callee_place,
            arg_places,
            kwarg_places,
        ),
        MirInstr::MethodCall { recv_place, arg_places, kwarg_places, .. } => places_before(
            recv_place,
            arg_places,
            kwarg_places,
        ),
        MirInstr::Index { base_place, index_place, .. } => {
            let mut out: Vec<&'a MirPlace> = Vec::new();
            assert(place_refs_view(out@) =~= Seq::empty());
            push_opt_place(base_place, &mut out);
            push_opt_place(index_place, &mut out);
            assert(place_refs_view(out@) =~= opt_place(opt_place_view(*base_place)) + opt_place(
                opt_place_view(*index_place),
            ));
            out
        },
        MirInstr::Slice { object_place, arg_places, .. } => places_of_object(object_place, arg_places),
        MirInstr::MultiIndex { object_place, arg_places, .. } => places_of_object(object_place, arg_places),
        MirInstr::MultiSet { receiver_place, arg_places, value_place, .. } => places_around(
            receiver_place,
            arg_places,
            value_place,
        ),
        _ => {
            let out: Vec<&'a MirPlace> = Vec::new();
            assert(place_refs_view(out@) =~= Seq::empty());
            out
        },
    }
}

/// Whether a place carries every checked type along its path.
pub open spec fn place_typed(place: MirPlaceModel) -> bool {
    place.root_ty is Some && place.ty is Some && place.projection_tys.len() == place.proj.len()
}

impl MirPlace {
    /// Whether the place carries every checked type along its path.
    pub fn is_typed(&self) -> (r: bool)
        ensures
            r == place_typed(self@),
    {
        assert(self@.projection_tys.len() == self.projection_tys@.len());
        assert(self@.proj.len() == self.proj@.len());
        self.root_ty.is_some() && self.ty.is_some() && self.projection_tys.len() == self.proj.len()
    }
}

/// The element of inline storage that may be uninitialized.
pub open spec fn uninit_element(ty: TyModel) -> Option<TyModel> {
    match ty {
        TyModel::Struct(name, args) => if name == "__UninitStorage"@ && args.len() == 1 {
            match args[0] {
                TyArgModel::Ty(element) => Some(element),
                _ => None,
            }
        } else {
            None
        },
        _ => None,
    }
}

/// The element of inline storage that may be uninitialized.
pub fn uninit_storage_element(ty: &Ty) -> (r: Option<&Ty>)
    ensures
        found_view(r) == uninit_element(ty@),
{
    match ty {
        Ty::Struct(name, args) => {
            assert(ty_args_view(*args).len() == args@.len());
            if str_eq(name, "__UninitStorage") && args.len() == 1 {
                assert(ty_args_view(*args)[0] == args@[0]@);
                match &args[0] {
                    TyArg::Ty(element) => Some(element),
                    _ => None,
                }
            } else {
                None
            }
        },
        _ => None,
    }
}

/// The first struct with the name.
pub open spec fn struct_of(
    structs: Seq<MirStructDeclarationModel>,
    name: Seq<char>,
) -> Option<MirStructDeclarationModel>
    decreases structs.len(),
{
    if structs.len() == 0 {
        None
    } else if structs[0].name == name {
        Some(structs[0])
    } else {
        struct_of(structs.skip(1), name)
    }
}

/// The first struct with the name.
pub fn struct_declared<'a>(
    declarations: &'a MirDeclarations,
    name: &str,
) -> (r: Option<&'a MirStructDeclaration>)
    ensures
        match r {
            Some(d) => struct_of(declarations@.structs, name@) == Some(d@),
            None => struct_of(declarations@.structs, name@) is None,
        },
{
    let ghost model = declarations@.structs;
    assert(model.skip(0) =~= model);
    for i in 0..declarations.structs.len()
        invariant
            model == struct_declarations_view(declarations.structs),
            struct_of(model, name@) == struct_of(model.skip(i as int), name@),
    {
        assert(model.skip(i as int)[0] == declarations.structs@[i as int]@);
        assert(model.skip(i as int).skip(1) =~= model.skip(i + 1));
        if str_eq(&declarations.structs[i].name, name) {
            return Some(&declarations.structs[i]);
        }
    }
    None
}

/// The type of the first field with the name.
pub open spec fn field_of(fields: Seq<(Seq<char>, TyModel)>, name: Seq<char>) -> Option<TyModel>
    decreases fields.len(),
{
    if fields.len() == 0 {
        None
    } else if fields[0].0 == name {
        Some(fields[0].1)
    } else {
        field_of(fields.skip(1), name)
    }
}

/// The type of the first field with the name.
pub fn field_declared<'a>(fields: &'a Vec<(String, Ty)>, name: &str) -> (r: Option<&'a Ty>)
    ensures
        found_view(r) == field_of(string_tys_view(*fields), name@),
{
    let ghost model = string_tys_view(*fields);
    assert(model.skip(0) =~= model);
    for i in 0..fields.len()
        invariant
            model == string_tys_view(*fields),
            field_of(model, name@) == field_of(model.skip(i as int), name@),
    {
        assert(model.skip(i as int)[0] == (fields@[i as int].0@, fields@[i as int].1@));
        assert(model.skip(i as int).skip(1) =~= model.skip(i + 1));
        if str_eq(&fields[i].0, name) {
            return Some(&fields[i].1);
        }
    }
    None
}

/// Whether a value parameter has the name.
pub open spec fn has_value_param(decls: Seq<ParamDeclModel>, name: Seq<char>) -> bool {
    exists|i: int| 0 <= i < decls.len() && (#[trigger] decls[i]) is Value && decl_name(decls[i]) == name
}

/// Whether a value parameter has the name.
pub fn value_param_declared(decls: &Vec<ParamDecl>, name: &str) -> (r: bool)
    ensures
        r == has_value_param(param_decls_view(*decls), name@),
{
    let ghost model = param_decls_view(*decls);
    for i in 0..decls.len()
        invariant
            model == param_decls_view(*decls),
            forall|j: int| 0 <= j < i ==> !((#[trigger] model[j]) is Value && decl_name(model[j]) == name@),
    {
        assert(model[i as int] == decls@[i as int]@);
        if let ParamDecl::Value { name: found, .. } = &decls[i] {
            if str_eq(found, name) {
                return true;
            }
        }
    }
    false
}

/// The issues of the root slot of a place.
pub open spec fn root_issues<C: Checker>(
    c: C,
    prefix: Seq<char>,
    function: MirFunctionModel,
    place: MirPlaceModel,
) -> Seq<
    Seq<char>,
> {
    if place.root >= function.n_vars {
        seq![prefix + " place has invalid root slot "@ + dec(place.root as nat)]
    } else {
        match (table_get(function.var_tys, place.root), place.root_ty) {
            (Some(declared), Some(recorded)) => rule(
                !compat(c, recorded, declared),
                prefix + " place root slot "@ + dec(place.root as nat) + " is typed "@ + ty_text(recorded) + ", declared "@ + ty_text(declared),
            ),
            _ => Seq::empty(),
        }
    }
}

fn verify_root<C: Checker>(
    c: &C,
    prefix: &str,
    function: &MirFunction,
    place: &MirPlace,
    errors: &mut Vec<String>,
)
    ensures
        strings_view(*final(errors)) == strings_view(*old(errors)) + root_issues(
            *c,
            prefix@,
            function@,
            place@,
        ),
{
    let ghost start = strings_view(*errors);
    if place.root as u64 >= function.n_vars as u64 {
        report(errors, cat3(prefix, " place has invalid root slot ", &dec_text(place.root as u64)));
    } else if let (Some(declared), Some(recorded)) = (function.var_tys.get(place.root), &place.root_ty) {
        if !types_compatible(c, recorded, declared) {
            report(
                errors,
                cat7(
                    prefix,
                    " place root slot ",
                    &dec_text(place.root as u64),
                    " is typed ",
                    &recorded.text(),
                    ", declared ",
                    &declared.text(),
                ),
            );
        }
    }
    assert(strings_view(*errors) =~= start + root_issues(*c, prefix@, function@, place@));
}

/// Whether the function's receiver is itself a reference capability.
pub open spec fn has_receiver_handle(functions: Seq<MirFunctionDeclarationModel>, name: Seq<char>) -> bool {
    exists|i: int|
        0 <= i < functions.len()
            && (#[trigger] functions[i]).lowered_name == name
            && functions[i].has_receiver
            && passes_place(
            functions[i].receiver_convention,
        )
}

fn receiver_handle(declarations: &MirDeclarations, name: &str) -> (r: bool)
    ensures
        r == has_receiver_handle(declarations@.functions, name@),
{
    let ghost model = declarations@.functions;
    for i in 0..declarations.functions.len()
        invariant
            model == function_declarations_view(declarations.functions),
            forall|j: int|
                0 <= j < i ==> !((#[trigger] model[j]).lowered_name == name@ && model[j].has_receiver && passes_place(
                    model[j].receiver_convention,
                )),
    {
        let declaration: &MirFunctionDeclaration = &declarations.functions[i];
        assert(model[i as int] == declaration@);
        if str_eq(&declaration.lowered_name, name) && declaration.has_receiver && needs_place(
            &declaration.receiver_convention,
        ) {
            return true;
        }
    }
    false
}

/// Whether a slot holds a reference or a pointer that designates storage.
pub open spec fn holds_reference(ty: Option<TyModel>) -> bool {
    match ty {
        Some(TyModel::Ref(_)) => true,
        Some(TyModel::Pointer { origin, .. }) => pointer_storage(origin) is Some,
        _ => false,
    }
}

fn reference_held(ty: Option<&Ty>) -> (r: bool)
    ensures
        r == holds_reference(found_view(ty)),
{
    match ty {
        Some(Ty::Ref(_)) => true,
        Some(Ty::Pointer { origin, .. }) => origin.as_origin().is_some(),
        _ => false,
    }
}

/// Whether the slot is a checked reference capability of the function.
pub open spec fn is_handle(
    name: Seq<char>,
    function: MirFunctionModel,
    functions: Seq<MirFunctionDeclarationModel>,
    slot: u32,
) -> bool {
    ||| slot < function.n_params && slot < function.ref_params.len() && function.ref_params[slot as int]
    ||| slot == 0 && has_receiver_handle(functions, name)
    ||| holds_reference(table_get(function.var_tys, slot))
}

/// The issues of the reference that a place was reached through.
pub open spec fn through_issues(
    name: Seq<char>,
    prefix: Seq<char>,
    function: MirFunctionModel,
    functions: Seq<MirFunctionDeclarationModel>,
    through: Option<u32>,
) -> Seq<Seq<char>> {
    match through {
        Some(slot) => if slot >= function.n_vars {
            seq![prefix + " place has invalid through-reference slot "@ + dec(slot as nat)]
        } else {
            let declared = match table_get(function.var_tys, slot) {
                Some(ty) => ty_text(ty),
                None => "<untyped>"@,
            };
            rule(
                !is_handle(name, function, functions, slot),
                prefix + " place through slot "@ + dec(slot as nat) + " is not a checked reference-capability binding (declared "@ + declared + ")"@,
            )
        },
        None => Seq::empty(),
    }
}

fn verify_through(
    name: &str,
    prefix: &str,
    function: &MirFunction,
    declarations: &MirDeclarations,
    through: &Option<u32>,
    errors: &mut Vec<String>,
)
    ensures
        strings_view(*final(errors)) == strings_view(*old(errors)) + through_issues(
            name@,
            prefix@,
            function@,
            declarations@.functions,
            *through,
        ),
{
    let ghost start = strings_view(*errors);
    if let Some(slot) = through {
        let slot: u32 = *slot;
        if slot as u64 >= function.n_vars as u64 {
            report(
                errors,
                cat3(prefix, " place has invalid through-reference slot ", &dec_text(slot as u64)),
            );
        } else {
            let parameter: bool = (slot as usize) < function.n_params && (slot as usize) < function.ref_params.len()
                && function.ref_params[slot as usize];
            let receiver: bool = slot == 0 && receiver_handle(declarations, name);
            let local: bool = reference_held(function.var_tys.get(slot));
            if !parameter && !receiver && !local {
                let declared: String = match function.var_tys.get(slot) {
                    Some(ty) => ty.text(),
                    None => "<untyped>".to_owned(),
                };
                report(
                    errors,
                    cat6(
                        prefix,
                        " place through slot ",
                        &dec_text(slot as u64),
                        " is not a checked reference-capability binding (declared ",
                        &declared,
                        ")",
                    ),
                );
            }
        }
    }
    assert(strings_view(*errors) =~= start + through_issues(
        name@,
        prefix@,
        function@,
        declarations@.functions,
        *through,
    ));
}

/// The issues of a dynamic element step.
pub open spec fn index_step_issues<C: Checker>(
    c: C,
    prefix: Seq<char>,
    function: MirFunctionModel,
    executable: bool,
    current: TyModel,
    register: Reg,
    projected: TyModel,
) -> Seq<Seq<char>> {
    (if register.0 >= function.n_regs {
        seq![prefix + " place index uses invalid register r"@ + dec(register.0 as nat)]
    } else {
        match table_get(function.reg_types, register.0) {
            Some(ty) => rule(
                !is_indexer(c, ty),
                prefix + " place index register r"@ + dec(register.0 as nat) + " has non-Indexer type "@ + ty_text(ty),
            ),
            None => Seq::empty(),
        }
    }) + (match indexed_elements(c, current) {
        Some(candidates) => rule(
            !element_fits(c, projected, candidates),
            prefix + " place dynamic element typed "@ + ty_text(projected) + ", incompatible with checked base type "@ + ty_text(current),
        ),
        None => rule(
            executable,
            prefix + " dynamic element projection requires checked indexed storage, got "@ + ty_text(current),
        ),
    })
}

fn verify_index_step<C: Checker>(
    c: &C,
    prefix: &str,
    function: &MirFunction,
    executable: bool,
    current: &Ty,
    register: Reg,
    projected: &Ty,
    errors: &mut Vec<String>,
)
    ensures
        strings_view(*final(errors)) == strings_view(*old(errors)) + index_step_issues(
            *c,
            prefix@,
            function@,
            executable,
            current@,
            register,
            projected@,
        ),
{
    let ghost start = strings_view(*errors);
    if register.0 >= function.n_regs {
        report(errors, cat3(prefix, " place index uses invalid register r", &dec_text(register.0 as u64)));
    } else if let Some(ty) = function.reg_types.get(register.0) {
        if !indexer(c, ty) {
            report(
                errors,
                cat5(
                    prefix,
                    " place index register r",
                    &dec_text(register.0 as u64),
                    " has non-Indexer type ",
                    &ty.text(),
                ),
            );
        }
    }
    match indexed_place_element_types(c, current) {
        Some(candidates) => {
            if !fits_element(c, projected, &candidates) {
                report(
                    errors,
                    cat5(
                        prefix,
                        " place dynamic element typed ",
                        &projected.text(),
                        ", incompatible with checked base type ",
                        &current.text(),
                    ),
                );
            }
        },
        None => {
            if executable {
                report(
                    errors,
                    cat3(
                        prefix,
                        " dynamic element projection requires checked indexed storage, got ",
                        &current.text(),
                    ),
                );
            }
        },
    }
    assert(strings_view(*errors) =~= start + index_step_issues(
        *c,
        prefix@,
        function@,
        executable,
        current@,
        register,
        projected@,
    ));
}

/// The issues of a field step. Only a struct without arguments is held to its
/// declared layout; a value parameter reads through field syntax.
pub open spec fn field_step_issues<C: Checker>(
    c: C,
    prefix: Seq<char>,
    structs: Seq<MirStructDeclarationModel>,
    current: TyModel,
    field: Seq<char>,
    projected: TyModel,
) -> Seq<Seq<char>> {
    match current {
        TyModel::Struct(owner, arguments) => if arguments.len() > 0 {
            Seq::empty()
        } else {
            match struct_of(structs, owner) {
                None => Seq::empty(),
                Some(declaration) => match field_of(declaration.fields, field) {
                    None => rule(
                        !has_value_param(declaration.param_decls, field),
                        prefix + " place projects unknown field '"@ + field + "' of '"@ + owner + "'"@,
                    ),
                    Some(declared) => rule(
                        !compat(c, projected, declared),
                        prefix + " place field '"@ + field + "' of '"@ + owner + "' typed "@ + ty_text(projected) + ", declared "@ + ty_text(declared),
                    ),
                },
            }
        },
        _ => Seq::empty(),
    }
}

fn verify_field_step<C: Checker>(
    c: &C,
    prefix: &str,
    declarations: &MirDeclarations,
    current: &Ty,
    field: &str,
    projected: &Ty,
    errors: &mut Vec<String>,
)
    ensures
        strings_view(*final(errors)) == strings_view(*old(errors)) + field_step_issues(
            *c,
            prefix@,
            declarations@.structs,
            current@,
            field@,
            projected@,
        ),
{
    let ghost start = strings_view(*errors);
    if let Ty::Struct(owner, arguments) = current {
        assert(ty_args_view(*arguments).len() == arguments@.len());
        if arguments.len() == 0 {
            if let Some(declaration) = struct_declared(declarations, owner) {
                match field_declared(&declaration.fields, field) {
                    None => {
                        if !value_param_declared(&declaration.param_decls, field) {
                            report(
                                errors,
                                cat6(prefix, " place projects unknown field '", field, "' of '", owner, "'"),
                            );
                        }
                    },
                    Some(declared) => {
                        if !types_compatible(c, projected, declared) {
                            report(
                                errors,
                                cat9(
                                    prefix,
                                    " place field '",
                                    field,
                                    "' of '",
                                    owner,
                                    "' typed ",
                                    &projected.text(),
                                    ", declared ",
                                    &declared.text(),
                                ),
                            );
                        }
                    },
                }
            }
        }
    }
    assert(strings_view(*errors) =~= start + field_step_issues(
        *c,
        prefix@,
        declarations@.structs,
        current@,
        field@,
        projected@,
    ));
}

/// The issues of a constant element step.
pub open spec fn const_step_issues<C: Checker>(
    c: C,
    prefix: Seq<char>,
    current: TyModel,
    index: usize,
    projected: TyModel,
) -> Seq<Seq<char>> {
    match current {
        TyModel::Tuple(elements) => if index >= elements.len() {
            seq![
                prefix + " place projects Tuple element "@ + dec(index as nat) + " out of "@ + dec(elements.len() as nat)
            ]
        } else {
            let element = elements[index as int];
            rule(
                !compat(c, projected, element),
                prefix + " place Tuple element "@ + dec(index as nat) + " typed "@ + ty_text(projected) + ", declared "@ + ty_text(element),
            )
        },
        _ => seq![
            prefix + " constant element projection requires compiler-private Tuple storage, got "@ + ty_text(current),
        ],
    }
}

fn verify_const_step<C: Checker>(
    c: &C,
    prefix: &str,
    current: &Ty,
    index: usize,
    projected: &Ty,
    errors: &mut Vec<String>,
)
    ensures
        strings_view(*final(errors)) == strings_view(*old(errors)) + const_step_issues(
            *c,
            prefix@,
            current@,
            index,
            projected@,
        ),
{
    let ghost start = strings_view(*errors);
    match current {
        Ty::Tuple(elements) => {
            assert(tys_view(*elements).len() == elements@.len());
            if index >= elements.len() {
                report(
                    errors,
                    cat5(
                        prefix,
                        " place projects Tuple element ",
                        &dec_text_usize(index as usize),
                        " out of ",
                        &dec_text_usize(elements.len() as usize),
                    ),
                );
            } else {
                let element: &Ty = &elements[index];
                assert(tys_view(*elements)[index as int] == element@);
                if !types_compatible(c, projected, element) {
                    report(
                        errors,
                        cat7(
                            prefix,
                            " place Tuple element ",
                            &dec_text_usize(index as usize),
                            " typed ",
                            &projected.text(),
                            ", declared ",
                            &element.text(),
                        ),
                    );
                }
            }
        },
        _ => {
            report(
                errors,
                cat3(
                    prefix,
                    " constant element projection requires compiler-private Tuple storage, got ",
                    &current.text(),
                ),
            );
        },
    }
    assert(strings_view(*errors) =~= start + const_step_issues(*c, prefix@, current@, index, projected@));
}

/// The issues of one projection step from a value of type `current`.
pub open spec fn step_issues<C: Checker>(
    c: C,
    prefix: Seq<char>,
    function: MirFunctionModel,
    declarations: MirDeclarationsModel,
    executable: bool,
    current: TyModel,
    step: ProjModel,
    projected: TyModel,
) -> Seq<Seq<char>> {
    match step {
        ProjModel::Index(register) => index_step_issues(
            c,
            prefix,
            function,
            executable,
            current,
            register,
            projected,
        ),
        ProjModel::ConstIndex(index) => const_step_issues(c, prefix, current, index, projected),
        ProjModel::Field(field) => field_step_issues(
            c,
            prefix,
            declarations.structs,
            current,
            field,
            projected,
        ),
        ProjModel::Variant(index) => match current {
            TyModel::Variant(alternatives) => rule(
                index >= alternatives.len(),
                prefix + " place projects variant alternative "@ + dec(index as nat) + " out of "@ + dec(alternatives.len() as nat),
            ),
            _ => Seq::empty(),
        },
        ProjModel::UninitPayload => match uninit_element(current) {
            Some(element) => rule(
                !compat(c, projected, element),
                prefix + " place uninit payload typed "@ + ty_text(projected) + ", declared "@ + ty_text(element),
            ),
            None => seq![
                prefix + " payload projection requires compiler-private inline uninit storage, got "@ + ty_text(current),
            ],
        },
    }
}

fn verify_step<C: Checker>(
    c: &C,
    prefix: &str,
    function: &MirFunction,
    declarations: &MirDeclarations,
    executable: bool,
    current: &Ty,
    step: &Proj,
    projected: &Ty,
    errors: &mut Vec<String>,
)
    ensures
        strings_view(*final(errors)) == strings_view(*old(errors)) + step_issues(
            *c,
            prefix@,
            function@,
            declarations@,
            executable,
            current@,
            step@,
            projected@,
        ),
{
    let ghost start = strings_view(*errors);
    match step {
        Proj::Index(register) => {
            verify_index_step(c, prefix, function, executable, current, *register, projected, errors);
        },
        Proj::ConstIndex(index) => {
            verify_const_step(c, prefix, current, *index, projected, errors);
        },
        Proj::Field(field) => {
            verify_field_step(c, prefix, declarations, current, field, projected, errors);
        },
        Proj::Variant(index) => {
            if let Ty::Variant(alternatives) = current {
                assert(tys_view(*alternatives).len() == alternatives@.len());
                if *index >= alternatives.len() {
                    report(
                        errors,
                        cat5(
                            prefix,
                            " place projects variant alternative ",
                            &dec_text_usize(*index as usize),
                            " out of ",
                            &dec_text_usize(alternatives.len() as usize),
                        ),
                    );
                }
            }
        },
        Proj::UninitPayload => match uninit_storage_element(current) {
            Some(element) => {
                if !types_compatible(c, projected, element) {
                    report(
                        errors,
                        cat5(
                            prefix,
                            " place uninit payload typed ",
                            &projected.text(),
                            ", declared ",
                            &element.text(),
                        ),
                    );
                }
            },
            None => {
                report(
                    errors,
                    cat3(
                        prefix,
                        " payload projection requires compiler-private inline uninit storage, got ",
                        &current.text(),
                    ),
                );
            },
        },
    }
    assert(strings_view(*errors) =~= start + step_issues(
        *c,
        prefix@,
        function@,
        declarations@,
        executable,
        current@,
        step@,
        projected@,
    ));
}

/// The type that the projections of a typed place start from. A place that is
/// rooted in a hidden reference slot addresses the referent.
pub open spec fn place_base(place: MirPlaceModel) -> TyModel {
    let root = place.root_ty->Some_0;
    if root is Ref && place.through is Some && (place.proj.len() > 0 || place.ty != place.root_ty) {
        referent_of(root)
    } else {
        root
    }
}

/// The type after the first `n` projection steps.
pub open spec fn place_ty_after(place: MirPlaceModel, n: nat) -> TyModel {
    if n == 0 { place_base(place) } else { place.projection_tys[n - 1] }
}

/// The issues of the first `n` projection steps.
pub open spec fn steps_issues<C: Checker>(
    c: C,
    prefix: Seq<char>,
    function: MirFunctionModel,
    declarations: MirDeclarationsModel,
    executable: bool,
    place: MirPlaceModel,
    n: nat,
) -> Seq<Seq<char>>
    decreases n,
{
    if n == 0 {
        Seq::empty()
    } else {
        let m = (n - 1) as nat;
        steps_issues(c, prefix, function, declarations, executable, place, m) + step_issues(
            c,
            prefix,
            function,
            declarations,
            executable,
            place_ty_after(place, m),
            place.proj[m as int],
            place.projection_tys[m as int],
        )
    }
}

/// Whether a place mentions a runtime pack.
pub open spec fn place_has_pack(place: MirPlaceModel) -> bool {
    has_runtime_pack(place.root_ty->Some_0) || any_runtime_pack(place.projection_tys) || has_runtime_pack(
        place.ty->Some_0,
    )
}

/// The issues of the path of a typed place.
pub open spec fn path_issues<C: Checker>(
    c: C,
    prefix: Seq<char>,
    function: MirFunctionModel,
    declarations: MirDeclarationsModel,
    executable: bool,
    place: MirPlaceModel,
) -> Seq<Seq<char>> {
    let current = place_ty_after(place, place.proj.len());
    let terminal = place.ty->Some_0;
    rule(
        place_has_pack(place),
        prefix + " place rooted at slot "@ + dec(place.root as nat) + " retains ABI-only RuntimePack type metadata"@,
    ) + steps_issues(c, prefix, function, declarations, executable, place, place.proj.len()) + rule(
        !compat(c, terminal, current),
        prefix + " place terminal type "@ + ty_text(terminal) + " does not match projected type "@ + ty_text(current),
    )
}

/// The issues of a place.
#[verifier::opaque]
pub open spec fn place_issues<C: Checker>(
    c: C,
    name: Seq<char>,
    block: nat,
    function: MirFunctionModel,
    declarations: MirDeclarationsModel,
    place: MirPlaceModel,
    executable: bool,
) -> Seq<Seq<char>> {
    let prefix = block_prefix(name, block);
    root_issues(c, prefix, function, place) + through_issues(
        name,
        prefix,
        function,
        declarations.functions,
        place.through,
    )
        + (if place_typed(place) {
        path_issues(c, prefix, function, declarations, executable, place)
    } else {
        seq![
            prefix + " place rooted at slot "@ + dec(place.root as nat) + " lacks complete checked type metadata"@
        ]
    })
}

fn any_pack(tys: &Vec<Ty>) -> (r: bool)
    ensures
        r == any_runtime_pack(tys_view(*tys)),
{
    let ghost model = tys_view(*tys);
    for i in 0..tys.len()
        invariant
            model == tys_view(*tys),
            forall|j: int| 0 <= j < i ==> !has_runtime_pack(#[trigger] model[j]),
    {
        if contains_runtime_pack(&tys[i]) {
            assert(has_runtime_pack(model[i as int]));
            return true;
        }
    }
    false
}

fn verify_path<C: Checker>(
    c: &C,
    prefix: &str,
    function: &MirFunction,
    declarations: &MirDeclarations,
    executable: bool,
    place: &MirPlace,
    root_ty: &Ty,
    terminal: &Ty,
    errors: &mut Vec<String>,
)
    requires
        place_typed(place@),
        place@.root_ty == Some(root_ty@),
        place@.ty == Some(terminal@),
    ensures
        strings_view(*final(errors)) == strings_view(*old(errors)) + path_issues(
            *c,
            prefix@,
            function@,
            declarations@,
            executable,
            place@,
        ),
{
    let ghost start = strings_view(*errors);
    let ghost model = place@;
    assert(model.proj == projs_view(place.proj) && model.projection_tys == tys_view(place.projection_tys));
    assert(model.proj.len() == place.proj@.len());
    assert(model.projection_tys.len() == place.projection_tys@.len());
    if contains_runtime_pack(root_ty) || any_pack(&place.projection_tys) || contains_runtime_pack(terminal) {
        report(
            errors,
            cat4(
                prefix,
                " place rooted at slot ",
                &dec_text(place.root as u64),
                " retains ABI-only RuntimePack type metadata",
            ),
        );
    }
    let ghost first = strings_view(*errors);
    let mut current: &Ty = root_ty;
    if let Ty::Ref(_) = root_ty {
        if place.through.is_some() && (place.proj.len() > 0 || !terminal.same(root_ty)) {
            current = peel_ref(root_ty);
        }
    }
    assert(current@ == place_base(model));
    assert(first =~= first + steps_issues(*c, prefix@, function@, declarations@, executable, model, 0));
    for i in 0..place.proj.len()
        invariant
            model == place@,
            model.proj == projs_view(place.proj),
            model.projection_tys == tys_view(place.projection_tys),
            place.proj@.len() == place.projection_tys@.len(),
            current@ == place_ty_after(model, i as nat),
            strings_view(*errors) == first + steps_issues(
                *c,
                prefix@,
                function@,
                declarations@,
                executable,
                model,
                i as nat,
            ),
    {
        let projected: &Ty = &place.projection_tys[i];
        assert(model.proj[i as int] == place.proj@[i as int]@);
        assert(model.projection_tys[i as int] == projected@);
        verify_step(
            c,
            prefix,
            function,
            declarations,
            executable,
            current,
            &place.proj[i],
            projected,
            errors,
        );
        assert(strings_view(*errors) =~= first + steps_issues(
            *c,
            prefix@,
            function@,
            declarations@,
            executable,
            model,
            (i + 1) as nat,
        ));
        current = projected;
    }
    if !types_compatible(c, terminal, current) {
        report(
            errors,
            cat5(
                prefix,
                " place terminal type ",
                &terminal.text(),
                " does not match projected type ",
                &current.text(),
            ),
        );
    }
    assert(
        strings_view(*errors) =~= start + path_issues(
            *c,
            prefix@,
            function@,
            declarations@,
            executable,
            place@,
        )
    );
}

/// Verifies one place: its slots, its checked types and each projection step. A
/// place of an executed instruction is held to indexed storage.
pub fn verify_place<C: Checker>(
    c: &C,
    function_name: &str,
    block: usize,
    function: &MirFunction,
    declarations: &MirDeclarations,
    place: &MirPlace,
    executable: bool,
    errors: &mut Vec<String>,
)
    ensures
        strings_view(*final(errors)) == strings_view(*old(errors)) + place_issues(
            *c,
            function_name@,
            block as nat,
            function@,
            declarations@,
            place@,
            executable,
        ),
{
    proof {
        reveal(place_issues);
    }
    let ghost start = strings_view(*errors);
    let prefix_text: String = prefix_of(function_name, block);
    let prefix: &str = &prefix_text;
    verify_root(c, prefix, function, place, errors);
    verify_through(function_name, prefix, function, declarations, &place.through, errors);
    if !place.is_typed() {
        report(
            errors,
            cat4(
                prefix,
                " place rooted at slot ",
                &dec_text(place.root as u64),
                " lacks complete checked type metadata",
            ),
        );
    } else if let (Some(root_ty), Some(terminal)) = (&place.root_ty, &place.ty) {
        verify_path(c, prefix, function, declarations, executable, place, root_ty, terminal, errors);
    }
    assert(strings_view(*errors) =~= start + place_issues(
        *c,
        function_name@,
        block as nat,
        function@,
        declarations@,
        place@,
        executable,
    ));
}

} // verus!
