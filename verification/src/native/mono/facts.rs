//! Compile-time facts of a function body and the arguments of an instance.

use crate::ct::{CtValue, CtValueModel};
use crate::data::opt_string_view;
use crate::literal::literal_value;
use crate::mir::{
    Const, ConstModel, MirBlock, MirBlockModel, MirFunction, MirFunctionDeclaration,
    MirFunctionModel, MirInstr, MirInstrModel, MirParamArg, MirParamArgModel, Reg, blocks_view,
    captures_view, instrs_view, param_args_view,
};
use crate::native::mono::{MonoError, MonoErrorModel};
use crate::native::mono::bindings::{Bindings, BindingsModel};
use crate::native::mono::rewrite::{sub_ty, ty_with};
use crate::native::mono::subst::{ct_solution, eval_ct};
use crate::native::mono::unify::{peel_refs, peeled};
use crate::outcome::{collect, lemma_collect_err, lemma_collect_ok};
use crate::symbol::{InstanceArg, InstanceArgModel, instance_args_view};
use crate::table::{IdMap, table_get};
use crate::text::{cat3, dec, dec_text, trim_stars, without_stars};
use crate::types::{
    ParamDecl, ParamDeclModel, Ty, TyModel, decl_name, param_decls_view, tys_view, u32_tys_view,
};
use vstd::prelude::*;

verus! {

/// Whether an instruction defines `reg` as a constant or as a materialized
/// literal.
pub open spec fn defines_constant(x: MirInstrModel, reg: Reg) -> bool {
    match x {
        MirInstrModel::Const { dest, .. } => dest == reg,
        MirInstrModel::MaterializeLiteral { dest, .. } => dest == reg,
        _ => false,
    }
}

/// The first such definition among instructions in order.
pub open spec fn instrs_definition(xs: Seq<MirInstrModel>, reg: Reg) -> Option<MirInstrModel>
    decreases xs.len(),
{
    if xs.len() == 0 {
        None
    } else if defines_constant(xs[0], reg) {
        Some(xs[0])
    } else {
        instrs_definition(xs.skip(1), reg)
    }
}

/// The first such definition among blocks in order. Regions of a `try` are not
/// searched.
pub open spec fn blocks_definition(xs: Seq<MirBlockModel>, reg: Reg) -> Option<MirInstrModel>
    decreases xs.len(),
{
    if xs.len() == 0 {
        None
    } else if instrs_definition(xs[0].instrs, reg) is Some {
        instrs_definition(xs[0].instrs, reg)
    } else {
        blocks_definition(xs.skip(1), reg)
    }
}

/// The compile-time value of a constant operand, where it has one.
pub open spec fn const_value(k: ConstModel) -> Option<CtValueModel> {
    match k {
        ConstModel::Int(v) => Some(CtValueModel::Int(v)),
        ConstModel::IntLiteral(literal) => if i64::MIN <= literal_value(literal) <= i64::MAX {
            Some(CtValueModel::Int(literal_value(literal) as i64))
        } else {
            None
        },
        ConstModel::Bool(v) => Some(CtValueModel::Bool(v)),
        ConstModel::Function(name) => Some(CtValueModel::Str(name)),
        _ => None,
    }
}

/// The registers that are not visited.
pub open spec fn unvisited(visited: Set<u32>) -> Set<u32> {
    Set::new(|r: u32| !visited.contains(r))
}

/// Any set of registers is finite, and visiting one more leaves fewer unvisited.
pub proof fn lemma_visit(visited: Set<u32>, reg: u32)
    requires
        !visited.contains(reg),
    ensures
        unvisited(visited.insert(reg)).len() < unvisited(visited).len(),
{
    let range = vstd::set_lib::set_int_range(0, 0x1_0000_0000);
    vstd::set_lib::lemma_int_range(0, 0x1_0000_0000);
    let all = range.map(|i: int| i as u32);
    range.lemma_map_finite(|i: int| i as u32);
    assert forall|r: u32| all.contains(r) by {
        assert(range.contains(r as int));
        assert((r as int) as u32 == r);
    }
    let before = unvisited(visited);
    let after = unvisited(visited.insert(reg));
    vstd::set_lib::lemma_len_subset(before, all);
    assert(after =~= before.remove(reg));
}

/// The compile-time value of a register, found by following its definitions. A
/// chain of materialized literals that comes back to a visited register has none.
pub open spec fn chained_value(
    blocks: Seq<MirBlockModel>,
    reg: Reg,
    visited: Set<u32>,
) -> Option<CtValueModel>
    decreases unvisited(visited).len(),
{
    if visited.contains(reg.0) {
        None
    } else {
        proof {
            lemma_visit(visited, reg.0);
        }
        match blocks_definition(blocks, reg) {
            Some(MirInstrModel::Const { k, .. }) => const_value(k),
            Some(MirInstrModel::MaterializeLiteral { value, .. }) => chained_value(
                blocks,
                value,
                visited.insert(reg.0),
            ),
            _ => None,
        }
    }
}

/// The compile-time value of a register.
pub open spec fn register_value(f: MirFunctionModel, reg: Reg) -> Option<CtValueModel> {
    chained_value(f.blocks, reg, Set::empty())
}

/// The model of an optional value.
pub open spec fn opt_ct_value_view(value: Option<CtValue>) -> Option<CtValueModel> {
    match value {
        Some(v) => Some(v@),
        None => None,
    }
}

fn find_in_instrs(xs: &Vec<MirInstr>, reg: Reg) -> (r: Option<&MirInstr>)
    ensures
        match r {
            Some(x) => instrs_definition(instrs_view(*xs), reg) == Some(x@) && defines_constant(x@, reg),
            None => instrs_definition(instrs_view(*xs), reg) is None,
        },
{
    let ghost model = instrs_view(*xs);
    assert(model.skip(0) =~= model);
    for i in 0..xs.len()
        invariant
            model == instrs_view(*xs),
            instrs_definition(model, reg) == instrs_definition(model.skip(i as int), reg),
    {
        assert(model.skip(i as int)[0] == xs@[i as int]@);
        assert(model.skip(i as int).skip(1) =~= model.skip(i + 1));
        let found: bool = match &xs[i] {
            MirInstr::Const { dest, .. } => *dest == reg,
            MirInstr::MaterializeLiteral { dest, .. } => *dest == reg,
            _ => false,
        };
        if found {
            return Some(&xs[i]);
        }
    }
    None
}

fn find_in_blocks(xs: &Vec<MirBlock>, reg: Reg) -> (r: Option<&MirInstr>)
    ensures
        match r {
            Some(x) => blocks_definition(blocks_view(*xs), reg) == Some(x@) && defines_constant(x@, reg),
            None => blocks_definition(blocks_view(*xs), reg) is None,
        },
{
    let ghost model = blocks_view(*xs);
    assert(model.skip(0) =~= model);
    for i in 0..xs.len()
        invariant
            model == blocks_view(*xs),
            blocks_definition(model, reg) == blocks_definition(model.skip(i as int), reg),
    {
        assert(model.skip(i as int)[0] == xs@[i as int]@);
        assert(model.skip(i as int).skip(1) =~= model.skip(i + 1));
        if let Some(x) = find_in_instrs(&xs[i].instrs, reg) {
            return Some(x);
        }
    }
    None
}

/// The compile-time value of a constant operand.
fn constant_value(k: &Const) -> (r: Option<CtValue>)
    ensures
        opt_ct_value_view(r) == const_value(k@),
{
    match k {
        Const::Int(v) => Some(CtValue::Int(*v)),
        Const::IntLiteral(literal) => match literal.to_i64() {
            Some(v) => Some(CtValue::Int(v)),
            None => None,
        },
        Const::Bool(v) => Some(CtValue::Bool(*v)),
        Const::Function(name) => Some(CtValue::Str(name.clone())),
        _ => None,
    }
}

/// The compile-time value of a register, given the registers visited on the way.
pub fn const_reg_value_inner(
    function: &MirFunction,
    reg: Reg,
    visiting: &mut Vec<u32>,
) -> (r: Option<CtValue>)
    ensures
        opt_ct_value_view(r) == chained_value(function@.blocks, reg, old(visiting)@.to_set()),
    decreases unvisited(visiting@.to_set()).len(),
{
    for i in 0..visiting.len()
        invariant
            *visiting == *old(visiting),
            forall|j: int| 0 <= j < i ==> visiting@[j] != reg.0,
    {
        if visiting[i] == reg.0 {
            assert(visiting@.to_set().contains(visiting@[i as int]));
            return None;
        }
    }
    proof {
        let before = old(visiting)@;
        assert(!before.to_set().contains(reg.0));
        lemma_visit(before.to_set(), reg.0);
        assert(before.push(reg.0).to_set() =~= before.to_set().insert(reg.0)) by {
            assert forall|r: u32| #[trigger] before.push(reg.0).to_set().contains(r) == before.to_set().insert(reg.0).contains(r) by {
                if before.push(reg.0).contains(r) {
                    let k = choose|k: int| 0 <= k < before.push(reg.0).len() && before.push(reg.0)[k] == r;
                    if k < before.len() {
                        assert(before[k] == r);
                    }
                }
                if before.contains(r) {
                    let k = choose|k: int| 0 <= k < before.len() && before[k] == r;
                    assert(before.push(reg.0)[k] == r);
                }
                assert(before.push(reg.0)[before.len() as int] == reg.0);
            }
        }
    }
    visiting.push(reg.0);
    match find_in_blocks(&function.blocks, reg) {
        Some(x) => match x {
            MirInstr::Const { k, .. } => constant_value(k),
            MirInstr::MaterializeLiteral { value, .. } => const_reg_value_inner(function, *value, visiting),
            _ => None,
        },
        None => None,
    }
}

/// The compile-time value of a register defined by a constant, where that has
/// one.
pub fn const_reg_value(function: &MirFunction, reg: Reg) -> (r: Option<CtValue>)
    ensures
        opt_ct_value_view(r) == register_value(function@, reg),
{
    let mut visiting: Vec<u32> = Vec::new();
    assert(visiting@.to_set() =~= Set::<u32>::empty());
    const_reg_value_inner(function, reg, &mut visiting)
}

/// Whether the table has an entry for the register.
pub open spec fn has_register(table: Seq<(u32, TyModel)>, reg: u32) -> bool {
    exists|i: int| 0 <= i < table.len() && (#[trigger] table[i]).0 == reg
}

/// The compile-time values of the typed registers that have one.
pub open spec fn constant_values(f: MirFunctionModel) -> Map<u32, CtValueModel> {
    Map::new(
        |r: u32| has_register(f.reg_types, r) && register_value(f, Reg(r)) is Some,
        |r: u32| register_value(f, Reg(r))->Some_0,
    )
}

/// The model of a table of values.
pub open spec fn id_values_view(values: Map<u32, CtValue>) -> Map<u32, CtValueModel> {
    values.map_values(|v: CtValue| v@)
}

/// The compile-time values of the typed registers that have one.
pub fn function_constant_values(function: &MirFunction) -> (r: IdMap<CtValue>)
    ensures
        id_values_view(r@) == constant_values(function@),
{
    let mut out: IdMap<CtValue> = IdMap::new();
    let ghost f = function@;
    let ghost table = f.reg_types;
    for i in 0..function.reg_types.entries.len()
        invariant
            f == function@,
            table == f.reg_types,
            table == u32_tys_view(function.reg_types.entries),
            forall|r: u32|
                #[trigger] id_values_view(out@).dom().contains(r) <==> (exists|j: int|
                    0 <= j < i && (#[trigger] table[j]).0 == r) && register_value(f, Reg(r)) is Some,
            forall|r: u32|
                #[trigger] id_values_view(out@).dom().contains(r) ==> id_values_view(out@)[r] == register_value(
                    f,
                    Reg(r),
                )->Some_0,
    {
        let reg: u32 = function.reg_types.entries[i].0;
        let ghost before = out@;
        assert(table[i as int].0 == reg);
        if let Some(value) = const_reg_value(function, Reg(reg)) {
            out.insert(reg, value);
        }
        assert forall|r: u32| #[trigger] id_values_view(out@).dom().contains(r) <==> (exists|j: int|
            0 <= j < i + 1 && (#[trigger] table[j]).0 == r) && register_value(f, Reg(r)) is Some by {
            assert(id_values_view(out@).dom().contains(r) == out@.dom().contains(r));
            assert(id_values_view(before).dom().contains(r) == before.dom().contains(r));
            if id_values_view(out@).dom().contains(r) {
                if r == reg {
                    assert(table[i as int].0 == r);
                } else {
                    assert(id_values_view(before).dom().contains(r));
                    let j = choose|j: int| 0 <= j < i && (#[trigger] table[j]).0 == r;
                    assert(table[j].0 == r);
                }
            }
            if (exists|j: int| 0 <= j < i + 1 && (#[trigger] table[j]).0 == r) && register_value(f, Reg(r)) is Some {
                let j = choose|j: int| 0 <= j < i + 1 && (#[trigger] table[j]).0 == r;
                if j < i {
                    assert(id_values_view(before).dom().contains(r));
                }
            }
        }
        assert forall|r: u32| #[trigger] id_values_view(out@).dom().contains(r) implies id_values_view(out@)[r]
            == register_value(f, Reg(r))->Some_0 by {
            if r != reg {
                assert(id_values_view(before).dom().contains(r));
                assert(id_values_view(before)[r] == id_values_view(out@)[r]);
            }
        }
    }
    assert(id_values_view(out@) =~= constant_values(f));
    out
}

/// A statically known callable: its function, and whether its environment is
/// empty.
pub type TargetModel = (Seq<char>, bool);

/// The callables that registers and variables hold, and whether the walk so far
/// learnt anything.
#[verifier::ext_equal]
pub struct TargetsModel {
    pub registers: Map<u32, TargetModel>,
    pub variables: Map<u32, TargetModel>,
    pub changed: bool,
}

/// Records what a register holds.
pub open spec fn put_register(s: TargetsModel, reg: u32, target: TargetModel) -> TargetsModel {
    if s.registers.dom().contains(reg) && s.registers[reg] == target {
        s
    } else {
        TargetsModel { registers: s.registers.insert(reg, target), changed: true, ..s }
    }
}

/// Records what a variable holds.
pub open spec fn put_variable(s: TargetsModel, var: u32, target: TargetModel) -> TargetsModel {
    if s.variables.dom().contains(var) && s.variables[var] == target {
        s
    } else {
        TargetsModel { variables: s.variables.insert(var, target), changed: true, ..s }
    }
}

/// What one instruction teaches.
pub open spec fn targets_instr(x: MirInstrModel, s: TargetsModel) -> TargetsModel
    decreases x, 0int,
{
    match x {
        MirInstrModel::MakeClosure { dest, function, captures } => put_register(
            s,
            dest.0,
            (function, captures.len() == 0),
        ),
        MirInstrModel::Const {
            dest,
            k: ConstModel::Function(function),
        } => put_register(s, dest.0, (function, true)),
        MirInstrModel::CopyValue { dest, value } => if s.registers.dom().contains(value.0) {
            put_register(s, dest.0, s.registers[value.0])
        } else {
            s
        },
        MirInstrModel::UseVar { dest, var } => if s.variables.dom().contains(var) {
            put_register(s, dest.0, s.variables[var])
        } else {
            s
        },
        MirInstrModel::DefVar { var, src, .. } => if s.registers.dom().contains(src.0) {
            put_variable(s, var, s.registers[src.0])
        } else {
            s
        },
        MirInstrModel::Try { body, handler, orelse, finalbody } => {
            let s1 = targets_blocks(body, s);
            let s2 = match handler {
                Some(h) => targets_blocks(h.1, s1),
                None => s1,
            };
            let s3 = match orelse {
                Some(blocks) => targets_blocks(blocks, s2),
                None => s2,
            };
            match finalbody {
                Some(blocks) => targets_blocks(blocks, s3),
                None => s3,
            }
        },
        _ => s,
    }
}

/// What instructions teach in order.
pub open spec fn targets_instrs(xs: Seq<MirInstrModel>, s: TargetsModel) -> TargetsModel
    decreases xs, 0int,
{
    if xs.len() == 0 {
        s
    } else {
        targets_instr(xs.last(), targets_instrs(xs.drop_last(), s))
    }
}

/// What blocks teach in order.
pub open spec fn targets_blocks(xs: Seq<MirBlockModel>, s: TargetsModel) -> TargetsModel
    decreases xs, 0int,
{
    if xs.len() == 0 {
        s
    } else {
        targets_instrs(xs.last().instrs, targets_blocks(xs.drop_last(), s))
    }
}

/// One walk over the function.
pub open spec fn targets_pass(blocks: Seq<MirBlockModel>, s: TargetsModel) -> TargetsModel {
    targets_blocks(blocks, TargetsModel { changed: false, ..s })
}

/// The state after `n` walks.
pub open spec fn targets_after(blocks: Seq<MirBlockModel>, n: nat) -> TargetsModel
    decreases n,
{
    if n == 0 {
        TargetsModel { registers: Map::empty(), variables: Map::empty(), changed: false }
    } else {
        targets_pass(blocks, targets_after(blocks, (n - 1) as nat))
    }
}

/// After `n` walks another one learns nothing.
pub open spec fn targets_stable(blocks: Seq<MirBlockModel>, n: nat) -> bool {
    !targets_pass(blocks, targets_after(blocks, n)).changed
}

/// Some number of walks is enough. Where a variable takes different callables in
/// turn, none is.
pub open spec fn targets_settle(blocks: Seq<MirBlockModel>) -> bool {
    exists|n: nat| #[trigger] targets_stable(blocks, n)
}

/// The callables that registers hold once the walks have settled.
pub open spec fn callable_targets(blocks: Seq<MirBlockModel>) -> Map<u32, TargetModel> {
    targets_after(blocks, choose|n: nat| #[trigger] targets_stable(blocks, n)).registers
}

/// Walking never unlearns that something changed, and a walk that changed nothing
/// leaves the tables as they were.
proof fn lemma_targets_instr_unchanged(x: MirInstrModel, s: TargetsModel)
    ensures
        s.changed ==> targets_instr(x, s).changed,
        !targets_instr(x, s).changed ==> targets_instr(x, s) == s,
    decreases x, 0int,
{
    match x {
        MirInstrModel::Try { body, handler, orelse, finalbody } => {
            let s1 = targets_blocks(body, s);
            lemma_targets_blocks_unchanged(body, s);
            let s2 = match handler {
                Some(h) => targets_blocks(h.1, s1),
                None => s1,
            };
            if let Some(h) = handler {
                lemma_targets_blocks_unchanged(h.1, s1);
            }
            let s3 = match orelse {
                Some(blocks) => targets_blocks(blocks, s2),
                None => s2,
            };
            if let Some(blocks) = orelse {
                lemma_targets_blocks_unchanged(blocks, s2);
            }
            if let Some(blocks) = finalbody {
                lemma_targets_blocks_unchanged(blocks, s3);
            }
        },
        _ => {},
    }
}

proof fn lemma_targets_instrs_unchanged(xs: Seq<MirInstrModel>, s: TargetsModel)
    ensures
        s.changed ==> targets_instrs(xs, s).changed,
        !targets_instrs(xs, s).changed ==> targets_instrs(xs, s) == s,
    decreases xs, 0int,
{
    if xs.len() > 0 {
        lemma_targets_instrs_unchanged(xs.drop_last(), s);
        lemma_targets_instr_unchanged(xs.last(), targets_instrs(xs.drop_last(), s));
    }
}

proof fn lemma_targets_blocks_unchanged(xs: Seq<MirBlockModel>, s: TargetsModel)
    ensures
        s.changed ==> targets_blocks(xs, s).changed,
        !targets_blocks(xs, s).changed ==> targets_blocks(xs, s) == s,
    decreases xs, 0int,
{
    if xs.len() > 0 {
        lemma_targets_blocks_unchanged(xs.drop_last(), s);
        lemma_targets_instrs_unchanged(xs.last().instrs, targets_blocks(xs.drop_last(), s));
    }
}

/// Once stable, further walks change neither table.
proof fn lemma_targets_stay(blocks: Seq<MirBlockModel>, n: nat, m: nat)
    requires
        targets_stable(blocks, n),
        n <= m,
    ensures
        targets_after(blocks, m).registers == targets_after(blocks, n).registers,
        targets_after(blocks, m).variables == targets_after(blocks, n).variables,
    decreases m,
{
    if n < m {
        lemma_targets_stay(blocks, n, (m - 1) as nat);
        let a = TargetsModel { changed: false, ..targets_after(blocks, n) };
        let b = TargetsModel { changed: false, ..targets_after(blocks, (m - 1) as nat) };
        assert(a == b);
        lemma_targets_blocks_unchanged(blocks, a);
    }
}

/// Every number of walks after which the tables are stable gives the same
/// callables.
pub proof fn law_settled_targets_are_unique(blocks: Seq<MirBlockModel>, n: nat)
    requires
        targets_stable(blocks, n),
    ensures
        callable_targets(blocks) == targets_after(blocks, n).registers,
{
    let m = choose|m: nat| #[trigger] targets_stable(blocks, m);
    if n <= m {
        lemma_targets_stay(blocks, n, m);
    } else {
        lemma_targets_stay(blocks, m, n);
    }
}

/// The callables that registers and variables hold, and whether the walk so far
/// learnt anything.
pub struct Targets {
    pub registers: IdMap<(String, bool)>,
    pub variables: IdMap<(String, bool)>,
    pub changed: bool,
}

/// The model of a table of callables.
pub open spec fn target_map_view(m: Map<u32, (String, bool)>) -> Map<u32, TargetModel> {
    m.map_values(|t: (String, bool)| (t.0@, t.1))
}

impl View for Targets {
    type V = TargetsModel;

    open spec fn view(&self) -> TargetsModel {
        TargetsModel {
            registers: target_map_view(self.registers@),
            variables: target_map_view(self.variables@),
            changed: self.changed,
        }
    }
}

impl Targets {
    fn learn_register(&mut self, reg: u32, name: String, empty: bool)
        ensures
            final(self)@ == put_register(old(self)@, reg, (name@, empty)),
    {
        if let Some(known) = self.registers.get(reg) {
            if known.0 == name && known.1 == empty {
                return;
            }
        }
        self.registers.insert(reg, (name, empty));
        self.changed = true;
        assert(
            target_map_view(self.registers@) =~= target_map_view(old(self).registers@).insert(reg, (name@, empty))
        );
    }

    fn learn_variable(&mut self, var: u32, name: String, empty: bool)
        ensures
            final(self)@ == put_variable(old(self)@, var, (name@, empty)),
    {
        if let Some(known) = self.variables.get(var) {
            if known.0 == name && known.1 == empty {
                return;
            }
        }
        self.variables.insert(var, (name, empty));
        self.changed = true;
        assert(
            target_map_view(self.variables@) =~= target_map_view(old(self).variables@).insert(var, (name@, empty))
        );
    }

    fn visit_instr(&mut self, x: &MirInstr)
        ensures
            final(self)@ == targets_instr(x@, old(self)@),
        decreases x, 0int,
    {
        match x {
            MirInstr::MakeClosure { dest, function, captures } => {
                assert(captures_view(*captures).len() == captures@.len());
                self.learn_register(dest.0, function.clone(), captures.len() == 0);
            },
            MirInstr::Const { dest, k } => {
                if let Const::Function(function) = k {
                    self.learn_register(dest.0, function.clone(), true);
                }
            },
            MirInstr::CopyValue { dest, value } => {
                let found: Option<(String, bool)> = match self.registers.get(value.0) {
                    Some(t) => Some((t.0.clone(), t.1)),
                    None => None,
                };
                if let Some((name, empty)) = found {
                    self.learn_register(dest.0, name, empty);
                }
            },
            MirInstr::UseVar { dest, var } => {
                let found: Option<(String, bool)> = match self.variables.get(*var) {
                    Some(t) => Some((t.0.clone(), t.1)),
                    None => None,
                };
                if let Some((name, empty)) = found {
                    self.learn_register(dest.0, name, empty);
                }
            },
            MirInstr::DefVar { var, src, .. } => {
                let found: Option<(String, bool)> = match self.registers.get(src.0) {
                    Some(t) => Some((t.0.clone(), t.1)),
                    None => None,
                };
                if let Some((name, empty)) = found {
                    self.learn_variable(*var, name, empty);
                }
            },
            MirInstr::Try { body, handler, orelse, finalbody } => {
                self.visit_blocks(body);
                if let Some(h) = handler {
                    self.visit_blocks(&h.1);
                }
                if let Some(blocks) = orelse {
                    self.visit_blocks(blocks);
                }
                if let Some(blocks) = finalbody {
                    self.visit_blocks(blocks);
                }
            },
            _ => {},
        }
    }

    fn visit_instrs(&mut self, xs: &Vec<MirInstr>)
        ensures
            final(self)@ == targets_instrs(instrs_view(*xs), old(self)@),
        decreases xs, 0int,
    {
        let ghost start = self@;
        let ghost model = instrs_view(*xs);
        for i in 0..xs.len()
            invariant
                model == instrs_view(*xs),
                self@ == targets_instrs(model.take(i as int), start),
        {
            assert(model.take(i + 1).drop_last() =~= model.take(i as int));
            self.visit_instr(&xs[i]);
        }
        assert(model.take(model.len() as int) =~= model);
    }

    fn visit_blocks(&mut self, xs: &Vec<MirBlock>)
        ensures
            final(self)@ == targets_blocks(blocks_view(*xs), old(self)@),
        decreases xs, 0int,
    {
        let ghost start = self@;
        let ghost model = blocks_view(*xs);
        for i in 0..xs.len()
            invariant
                model == blocks_view(*xs),
                self@ == targets_blocks(model.take(i as int), start),
        {
            assert(model.take(i + 1).drop_last() =~= model.take(i as int));
            assert(model[i as int] == xs@[i as int]@);
            self.visit_instrs(&xs[i].instrs);
        }
        assert(model.take(model.len() as int) =~= model);
    }
}

/// Resolves statically named callable values through the registers and variables
/// that carry them. The flag tells whether the environment is empty, so that a
/// direct call may erase it.
pub fn function_callable_targets(function: &MirFunction) -> (r: IdMap<(String, bool)>)
    requires
        targets_settle(function@.blocks),
    ensures
        target_map_view(r@) == callable_targets(function@.blocks),
{
    let mut t: Targets = Targets { registers: IdMap::new(), variables: IdMap::new(), changed: false };
    let ghost blocks = function@.blocks;
    let ghost last = choose|n: nat| #[trigger] targets_stable(blocks, n);
    let ghost mut n: nat = 0;
    assert(t@ =~= targets_after(blocks, 0));
    loop
        invariant
            blocks == function@.blocks,
            blocks == blocks_view(function.blocks),
            targets_stable(blocks, last),
            n <= last,
            t@ == targets_after(blocks, n),
        decreases last - n,
    {
        t.changed = false;
        t.visit_blocks(&function.blocks);
        assert(t@ == targets_pass(blocks, targets_after(blocks, n)));
        if !t.changed {
            proof {
                assert(targets_stable(blocks, n));
                law_settled_targets_are_unique(blocks, n);
                lemma_targets_blocks_unchanged(
                    blocks,
                    TargetsModel { changed: false, ..targets_after(blocks, n) },
                );
            }
            return t.registers;
        }
        proof {
            n = n + 1;
        }
    }
}

/// How many leading method parameters restate the owner's: all of the owner's, or
/// none.
pub open spec fn covered_prefix(owner: Seq<ParamDeclModel>, method: Seq<ParamDeclModel>) -> nat {
    if owner.len() <= method.len() && forall|i: int|
        0 <= i < owner.len() ==> decl_name(#[trigger] owner[i]) == decl_name(method[i]) {
        owner.len()
    } else {
        0
    }
}

/// How many leading method parameters restate the owner's.
pub fn owner_covered_prefix(struct_params: &Vec<ParamDecl>, method_params: &Vec<ParamDecl>) -> (r: usize)
    ensures
        r == covered_prefix(param_decls_view(*struct_params), param_decls_view(*method_params)),
{
    let ghost (owner, method) = (param_decls_view(*struct_params), param_decls_view(*method_params));
    if method_params.len() < struct_params.len() {
        return 0;
    }
    for i in 0..struct_params.len()
        invariant
            owner == param_decls_view(*struct_params),
            method == param_decls_view(*method_params),
            struct_params@.len() <= method_params@.len(),
            forall|j: int| 0 <= j < i ==> decl_name(#[trigger] owner[j]) == decl_name(method[j]),
    {
        if *struct_params[i].name() != *method_params[i].name() {
            assert(decl_name(owner[i as int]) != decl_name(method[i as int]));
            return 0;
        }
    }
    struct_params.len()
}

/// A register without a type.
pub open spec fn untyped_register(reg: Reg, owner: Seq<char>) -> MonoErrorModel {
    MonoErrorModel {
        function: Some(owner),
        construct: "register r"@ + dec(reg.0 as nat) + " lacks a concrete type"@,
    }
}

/// The type of a register, or the error that it has none.
pub fn reg_ty<'a>(function: &'a MirFunction, reg: Reg, owner: &str) -> (r: Result<&'a Ty, MonoError>)
    ensures
        match r {
            Ok(ty) => table_get(function@.reg_types, reg.0) == Some(ty@),
            Err(e) => table_get(function@.reg_types, reg.0) is None && e@ == untyped_register(reg, owner@),
        },
{
    match function.reg_types.get(reg.0) {
        Some(ty) => Ok(ty),
        None => Err(
            MonoError {
                function: Some(owner.to_owned()),
                construct: cat3("register r", &dec_text(reg.0 as u64), " lacks a concrete type"),
            },
        ),
    }
}

/// Whether a declared parameter has the name, leading stars aside.
pub open spec fn declares(decls: Seq<ParamDeclModel>, name: Seq<char>) -> bool {
    exists|i: int| 0 <= i < decls.len() && without_stars(decl_name(#[trigger] decls[i])) == name
}

fn is_declared(decls: &Vec<ParamDecl>, name: &String) -> (r: bool)
    ensures
        r == declares(param_decls_view(*decls), name@),
{
    let ghost model = param_decls_view(*decls);
    for i in 0..decls.len()
        invariant
            model == param_decls_view(*decls),
            forall|j: int| 0 <= j < i ==> without_stars(decl_name(#[trigger] model[j])) != name@,
    {
        if trim_stars(decls[i].name()) == *name {
            assert(without_stars(decl_name(model[i as int])) == name@);
            return true;
        }
    }
    false
}

/// The identity arguments of the infer-only parameters among `tys`: bound, not
/// declared, and not bound to the builtin string.
pub open spec fn sugar_args(
    tys: Seq<TyModel>,
    decls: Seq<ParamDeclModel>,
    b: BindingsModel,
) -> Seq<InstanceArgModel>
    decreases tys.len(),
{
    if tys.len() == 0 {
        Seq::empty()
    } else {
        let before = sugar_args(tys.drop_last(), decls, b);
        match peeled(tys.last()) {
            TyModel::Param { name, .. } => if !declares(decls, name) && b.types.dom().contains(name) && !(b.types[name]
                is StringLiteral) {
                before.push(InstanceArgModel::Ty(b.types[name]))
            } else {
                before
            },
            _ => before,
        }
    }
}

/// Pushes the identity arguments of the infer-only parameters of a declaration:
/// each binding selects a different body.
pub fn push_sugar_arguments(
    declaration: &MirFunctionDeclaration,
    bindings: &Bindings,
    arguments: &mut Vec<InstanceArg>,
)
    ensures
        instance_args_view(*final(arguments)) == instance_args_view(*old(arguments)) + sugar_args(
            declaration@.param_types,
            declaration@.param_decls,
            bindings@,
        ),
{
    let ghost start = instance_args_view(*arguments);
    let ghost model = declaration@.param_types;
    let ghost decls = declaration@.param_decls;
    assert(start + sugar_args(model.take(0), decls, bindings@) =~= start);
    for i in 0..declaration.param_types.len()
        invariant
            model == tys_view(declaration.param_types),
            decls == param_decls_view(declaration.param_decls),
            instance_args_view(*arguments) == start + sugar_args(model.take(i as int), decls, bindings@),
    {
        let ghost before = instance_args_view(*arguments);
        assert(model.take(i + 1).drop_last() =~= model.take(i as int));
        assert(model[i as int] == declaration.param_types@[i as int]@);
        if let Ty::Param { name, .. } = peel_refs(&declaration.param_types[i]) {
            if !is_declared(&declaration.param_decls, name) {
                if let Some(bound) = bindings.ty(name) {
                    let builtin_string: bool = match bound {
                        Ty::StringLiteral => true,
                        _ => false,
                    };
                    if !builtin_string {
                        arguments.push(InstanceArg::Ty(bound.copy()));
                        assert(instance_args_view(*arguments) =~= before.push(InstanceArgModel::Ty(bound@)));
                    }
                }
            }
        }
        assert(instance_args_view(*arguments) =~= start + sugar_args(model.take(i + 1), decls, bindings@));
    }
    assert(model.take(model.len() as int) =~= model);
}

/// The solution of one declared parameter.
pub open spec fn declared_argument(decl: ParamDeclModel, b: BindingsModel, target: Seq<char>) -> Result<
    InstanceArgModel,
    MonoErrorModel,
> {
    let unresolved = MonoErrorModel {
        function: Some(target),
        construct: "monomorphization cannot resolve parameter `"@ + decl_name(decl) + "`"@,
    };
    match decl {
        ParamDeclModel::Type { name, .. } => if b.types.dom().contains(name) {
            Ok(InstanceArgModel::Ty(b.types[name]))
        } else {
            Err(unresolved)
        },
        ParamDeclModel::Value { name, .. } => if b.values.dom().contains(name) {
            Ok(InstanceArgModel::Value(b.values[name]))
        } else {
            Err(unresolved)
        },
    }
}

/// The solutions of declared parameters in order, or the first that has none.
#[verifier::opaque]
pub open spec fn declared_arguments(
    decls: Seq<ParamDeclModel>,
    b: BindingsModel,
    target: Seq<char>,
) -> Result<
    Seq<InstanceArgModel>,
    MonoErrorModel,
> {
    collect(decls.map_values(|decl: ParamDeclModel| declared_argument(decl, b, target)))
}

/// The solutions of declared parameters in order.
pub fn ordered_arguments(
    decls: &Vec<ParamDecl>,
    bindings: &Bindings,
    target: &str,
) -> (r: Result<Vec<InstanceArg>, MonoError>)
    ensures
        match r {
            Ok(args) => declared_arguments(param_decls_view(*decls), bindings@, target@) == Ok::<
                Seq<InstanceArgModel>,
                MonoErrorModel,
            >(instance_args_view(args)),
            Err(e) => declared_arguments(param_decls_view(*decls), bindings@, target@) == Err::<
                Seq<InstanceArgModel>,
                MonoErrorModel,
            >(e@),
        },
{
    let ghost model = param_decls_view(*decls);
    let ghost results = model.map_values(|decl: ParamDeclModel| declared_argument(decl, bindings@, target@));
    let mut out: Vec<InstanceArg> = Vec::new();
    for i in 0..decls.len()
        invariant
            model == param_decls_view(*decls),
            results == model.map_values(|decl: ParamDeclModel| declared_argument(decl, bindings@, target@)),
            out@.len() == i,
            forall|j: int| 0 <= j < i ==> #[trigger] results[j] == Ok::<InstanceArgModel, MonoErrorModel>(
                instance_args_view(out)[j],
            ),
    {
        assert(results[i as int] == declared_argument(decls@[i as int]@, bindings@, target@));
        let found: Option<InstanceArg> = match &decls[i] {
            ParamDecl::Type { name, .. } => match bindings.ty(name) {
                Some(ty) => Some(InstanceArg::Ty(ty.copy())),
                None => None,
            },
            ParamDecl::Value { name, .. } => match bindings.value(name) {
                Some(value) => Some(InstanceArg::Value(value.copy())),
                None => None,
            },
        };
        match found {
            Some(arg) => {
                let ghost before = out;
                out.push(arg);
                assert forall|j: int| 0 <= j < i + 1 implies #[trigger] results[j] == Ok::<InstanceArgModel, MonoErrorModel>(
                    instance_args_view(out)[j],
                ) by {
                    if j < i {
                        assert(instance_args_view(before)[j] == instance_args_view(out)[j]);
                    }
                }
            },
            None => {
                let e: MonoError = MonoError {
                    function: Some(target.to_owned()),
                    construct: cat3("monomorphization cannot resolve parameter `", decls[i].name(), "`"),
                };
                proof {
                    reveal(declared_arguments);
                    lemma_collect_err(results, i as int, e@);
                }
                return Err(e);
            },
        }
    }
    proof {
        reveal(declared_arguments);
        lemma_collect_ok(results, instance_args_view(out));
    }
    Ok(out)
}

/// Bindings after a step that may fail, and the failure, if any.
#[verifier::ext_equal]
pub struct Bound {
    pub bindings: BindingsModel,
    pub error: Option<MonoErrorModel>,
}

/// The model of an executable step.
pub open spec fn bound_view(bindings: Bindings, r: Result<(), MonoError>) -> Bound {
    Bound {
        bindings: bindings@,
        error: match r {
            Ok(()) => None,
            Err(e) => Some(e@),
        },
    }
}

/// Filling in one default, where the parameter has one and no solution.
pub open spec fn default_step(decl: ParamDeclModel, b: BindingsModel) -> Bound {
    match decl {
        ParamDeclModel::Type { name, default: Some(default), .. } => if b.types.dom().contains(name) {
            Bound { bindings: b, error: None }
        } else {
            match ty_with(*default, b) {
                Ok(ty) => Bound {
                    bindings: BindingsModel { types: b.types.insert(name, ty), ..b },
                    error: None,
                },
                Err(e) => Bound { bindings: b, error: Some(e) },
            }
        },
        ParamDeclModel::Value { name, default: Some(default), .. } => if b.values.dom().contains(name) {
            Bound { bindings: b, error: None }
        } else {
            match ct_solution(default, b) {
                Ok(value) => Bound {
                    bindings: BindingsModel { values: b.values.insert(name, value), ..b },
                    error: None,
                },
                Err(e) => Bound { bindings: b, error: Some(e) },
            }
        },
        _ => Bound { bindings: b, error: None },
    }
}

/// Filling in the defaults of the first `n` parameters in order: a default may
/// use earlier solutions.
pub open spec fn defaults(decls: Seq<ParamDeclModel>, n: nat, b: BindingsModel) -> Bound
    decreases n,
{
    if n == 0 {
        Bound { bindings: b, error: None }
    } else {
        let s = defaults(decls, (n - 1) as nat, b);
        if s.error is Some { s } else { default_step(decls[n - 1], s.bindings) }
    }
}

proof fn lemma_defaults_error(decls: Seq<ParamDeclModel>, n: nat, m: nat, b: BindingsModel)
    requires
        n <= m,
        defaults(decls, n, b).error is Some,
    ensures
        defaults(decls, m, b) == defaults(decls, n, b),
    decreases m,
{
    if n < m {
        lemma_defaults_error(decls, n, (m - 1) as nat, b);
    }
}

fn apply_default(decl: &ParamDecl, bindings: &mut Bindings) -> (r: Result<(), MonoError>)
    ensures
        bound_view(*final(bindings), r) == default_step(decl@, old(bindings)@),
{
    match decl {
        ParamDecl::Type { name, default, .. } => {
            if let Some(default) = default {
                if bindings.ty(name).is_none() {
                    match sub_ty(default, bindings) {
                        Ok(ty) => bindings.set_type(name.clone(), ty),
                        Err(e) => return Err(e),
                    }
                }
            }
        },
        ParamDecl::Value { name, default, .. } => {
            if let Some(default) = default {
                if bindings.value(name).is_none() {
                    match eval_ct(default, bindings) {
                        Ok(value) => bindings.set_value(name.clone(), value),
                        Err(e) => return Err(e),
                    }
                }
            }
        },
    }
    Ok(())
}

/// Fills in the defaults of the parameters that have no solution.
pub fn apply_defaults(decls: &Vec<ParamDecl>, bindings: &mut Bindings) -> (r: Result<(), MonoError>)
    ensures
        bound_view(*final(bindings), r) == defaults(param_decls_view(*decls), decls@.len(), old(bindings)@),
{
    let ghost model = param_decls_view(*decls);
    let ghost start = bindings@;
    for i in 0..decls.len()
        invariant
            model == param_decls_view(*decls),
            start == old(bindings)@,
            defaults(model, i as nat, start) == (Bound { bindings: bindings@, error: None }),
    {
        let step: Result<(), MonoError> = apply_default(&decls[i], bindings);
        assert(defaults(model, (i + 1) as nat, start) == bound_view(*bindings, step));
        if step.is_err() {
            proof {
                lemma_defaults_error(model, (i + 1) as nat, decls@.len(), start);
            }
            return step;
        }
    }
    Ok(())
}

/// The position of the first declaration with the name.
pub open spec fn decl_position(decls: Seq<ParamDeclModel>, name: Seq<char>) -> Option<int>
    decreases decls.len(),
{
    if decls.len() == 0 {
        None
    } else {
        match decl_position(decls.drop_last(), name) {
            Some(i) => Some(i),
            None => if decl_name(decls.last()) == name { Some(decls.len() - 1) } else { None },
        }
    }
}

fn find_decl(decls: &Vec<ParamDecl>, name: &String) -> (r: Option<usize>)
    ensures
        match r {
            Some(i) => decl_position(param_decls_view(*decls), name@) == Some(i as int) && i < decls@.len(),
            None => decl_position(param_decls_view(*decls), name@) is None,
        },
{
    let ghost model = param_decls_view(*decls);
    let mut found: Option<usize> = None;
    for i in 0..decls.len()
        invariant
            model == param_decls_view(*decls),
            match found {
                Some(k) => decl_position(model.take(i as int), name@) == Some(k as int) && k < i,
                None => decl_position(model.take(i as int), name@) is None,
            },
    {
        assert(model.take(i + 1).drop_last() =~= model.take(i as int));
        if found.is_none() && *decls[i].name() == *name {
            found = Some(i);
        }
    }
    assert(model.take(model.len() as int) =~= model);
    found
}

/// A walk over explicit compile-time arguments: the next position, the bindings,
/// and the failure, if any.
#[verifier::ext_equal]
pub struct Walk {
    pub positional: nat,
    pub bindings: BindingsModel,
    pub error: Option<MonoErrorModel>,
}

/// Binding one explicit argument. A type argument takes a position and binds
/// nothing; a value argument binds the value parameter it names or stands at.
pub open spec fn explicit_step(
    decls: Seq<ParamDeclModel>,
    arg: MirParamArgModel,
    values: Map<u32, CtValueModel>,
    target: Seq<char>,
    s: Walk,
) -> Walk {
    let positional = if arg.name is None { s.positional + 1 } else { s.positional };
    let moved = Walk { positional, ..s };
    match arg.value {
        None => moved,
        Some(reg) => {
            let at = match arg.name {
                Some(name) => decl_position(decls, name),
                None => if s.positional < decls.len() { Some(s.positional as int) } else { None },
            };
            match at {
                Some(i) => match decls[i] {
                    ParamDeclModel::Value { name, .. } => if values.dom().contains(reg.0) {
                        Walk {
                            bindings: BindingsModel {
                                values: s.bindings.values.insert(name, values[reg.0]),
                                ..s.bindings
                            },
                            ..moved
                        }
                    } else {
                        Walk {
                            error: Some(
                                MonoErrorModel {
                                    function: Some(target),
                                    construct: "value parameter `"@ + name + "` is not compile-time constant"@,
                                },
                            ),
                            ..moved
                        }
                    },
                    _ => moved,
                },
                None => moved,
            }
        },
    }
}

/// Binding the first `n` explicit arguments, up to the first failure.
pub open spec fn explicit_walk(
    decls: Seq<ParamDeclModel>,
    args: Seq<MirParamArgModel>,
    n: nat,
    values: Map<u32, CtValueModel>,
    target: Seq<char>,
    b: BindingsModel,
) -> Walk
    decreases n,
{
    if n == 0 {
        Walk { positional: 0, bindings: b, error: None }
    } else {
        let s = explicit_walk(decls, args, (n - 1) as nat, values, target, b);
        if s.error is Some { s } else { explicit_step(decls, args[n - 1], values, target, s) }
    }
}

proof fn lemma_explicit_walk(
    decls: Seq<ParamDeclModel>,
    args: Seq<MirParamArgModel>,
    n: nat,
    m: nat,
    values: Map<u32, CtValueModel>,
    target: Seq<char>,
    b: BindingsModel,
)
    requires
        n <= m,
    ensures
        explicit_walk(decls, args, n, values, target, b).positional <= n,
        explicit_walk(
            decls,
            args,
            n,
            values,
            target,
            b,
        ).error is Some ==> explicit_walk(decls, args, m, values, target, b)
            == explicit_walk(decls, args, n, values, target, b),
    decreases m, n,
{
    if n < m {
        lemma_explicit_walk(decls, args, n, (m - 1) as nat, values, target, b);
    } else if n > 0 {
        lemma_explicit_walk(decls, args, (n - 1) as nat, (n - 1) as nat, values, target, b);
    }
}

/// Binds the value parameters that a call gives explicitly.
pub fn bind_explicit_value_arguments(
    decls: &Vec<ParamDecl>,
    arguments: &Vec<MirParamArg>,
    constant_values: &IdMap<CtValue>,
    bindings: &mut Bindings,
    target: &str,
) -> (r: Result<(), MonoError>)
    ensures
        ({
            let s = explicit_walk(
                param_decls_view(*decls),
                param_args_view(*arguments),
                arguments@.len(),
                id_values_view(constant_values@),
                target@,
                old(bindings)@,
            );
            bound_view(*final(bindings), r) == (Bound { bindings: s.bindings, error: s.error })
        }),
{
    let ghost model = param_decls_view(*decls);
    let ghost args = param_args_view(*arguments);
    let ghost values = id_values_view(constant_values@);
    let ghost start = bindings@;
    let mut positional: usize = 0;
    for i in 0..arguments.len()
        invariant
            model == param_decls_view(*decls),
            args == param_args_view(*arguments),
            values == id_values_view(constant_values@),
            start == old(bindings)@,
            positional <= i,
            explicit_walk(model, args, i as nat, values, target@, start) == (Walk {
                positional: positional as nat,
                bindings: bindings@,
                error: None,
            }),
    {
        let argument: &MirParamArg = &arguments[i];
        assert(args[i as int] == argument@);
        let at: Option<usize> = match &argument.name {
            Some(name) => find_decl(decls, name),
            None => if positional < decls.len() { Some(positional) } else { None },
        };
        if argument.name.is_none() {
            positional = positional + 1;
        }
        if let Some(reg) = argument.value {
            if let Some(k) = at {
                assert(model[k as int] == decls@[k as int]@);
                if let ParamDecl::Value { name, .. } = &decls[k] {
                    match constant_values.get(reg.0) {
                        Some(value) => {
                            assert(values[reg.0] == value@);
                            bindings.set_value(name.clone(), value.copy());
                        },
                        None => {
                            let e: MonoError = MonoError {
                                function: Some(target.to_owned()),
                                construct: cat3("value parameter `", name, "` is not compile-time constant"),
                            };
                            proof {
                                assert(
                                    explicit_walk(
                                        model,
                                        args,
                                        (i + 1) as nat,
                                        values,
                                        target@,
                                        start,
                                    ).error == Some(e@)
                                );
                                lemma_explicit_walk(
                                    model,
                                    args,
                                    (i + 1) as nat,
                                    arguments@.len(),
                                    values,
                                    target@,
                                    start,
                                );
                            }
                            return Err(e);
                        },
                    }
                }
            }
        }
    }
    Ok(())
}

/// A method call that is still to be resolved.
pub open spec fn unresolved_method_call(
    dest: Reg,
    recv: Reg,
    method: Seq<char>,
    resolved: Option<Seq<char>>,
    args: Seq<Reg>,
) -> MirInstrModel {
    MirInstrModel::MethodCall {
        dest,
        recv,
        method,
        resolved,
        raises: None,
        reference_result: None,
        result_adapter: None,
        args,
        kwargs: Seq::empty(),
        recv_place: None,
        recv_writes: false,
        arg_places: Seq::empty(),
        kwarg_places: Seq::empty(),
        capture_accesses: Seq::empty(),
        param_arg_regs: Seq::empty(),
        param_decls: Seq::empty(),
    }
}

/// A method call for an operation that is dispatched by name.
pub fn dunder_method_call(
    dest: Reg,
    recv: Reg,
    method: &str,
    resolved: Option<String>,
    args: Vec<Reg>,
) -> (r: MirInstr)
    ensures
        r@ == unresolved_method_call(dest, recv, method@, opt_string_view(resolved), args@),
{
    let r: MirInstr = MirInstr::MethodCall {
        dest,
        recv,
        method: method.to_owned(),
        resolved,
        raises: None,
        reference_result: None,
        result_adapter: None,
        args,
        kwargs: Vec::new(),
        recv_place: None,
        recv_writes: false,
        arg_places: Vec::new(),
        kwarg_places: Vec::new(),
        capture_accesses: Vec::new(),
        param_arg_regs: Vec::new(),
        param_decls: Vec::new(),
    };
    assert(r@ =~~= unresolved_method_call(dest, recv, method@, opt_string_view(resolved), args@));
    r
}

/// The callables that registers hold, where one of the first `passes` passes over
/// the body learns nothing.
pub open spec fn targets_within(blocks: Seq<MirBlockModel>, passes: nat) -> Option<Map<u32, TargetModel>> {
    if exists|n: nat| n < passes && #[trigger] targets_stable(blocks, n) {
        Some(callable_targets(blocks))
    } else {
        None
    }
}

/// Resolves statically named callable values, in at most so many passes.
pub fn settled_callable_targets(function: &MirFunction, passes: u64) -> (r: Option<IdMap<(String, bool)>>)
    ensures
        match r {
            Some(targets) => targets_within(
                function@.blocks,
                passes as nat,
            ) == Some(target_map_view(targets@)),
            None => targets_within(function@.blocks, passes as nat) is None,
        },
{
    let mut t: Targets = Targets { registers: IdMap::new(), variables: IdMap::new(), changed: false };
    let ghost blocks = function@.blocks;
    let mut n: u64 = 0;
    assert(t@ =~= targets_after(blocks, 0));
    while n < passes
        invariant
            n <= passes,
            blocks == function@.blocks,
            blocks == blocks_view(function.blocks),
            t@ == targets_after(blocks, n as nat),
            forall|k: nat| k < n ==> !#[trigger] targets_stable(blocks, k),
        decreases passes - n,
    {
        t.changed = false;
        t.visit_blocks(&function.blocks);
        assert(t@ == targets_pass(blocks, targets_after(blocks, n as nat)));
        if !t.changed {
            proof {
                assert(targets_stable(blocks, n as nat));
                law_settled_targets_are_unique(blocks, n as nat);
                lemma_targets_blocks_unchanged(
                    blocks,
                    TargetsModel { changed: false, ..targets_after(blocks, n as nat) },
                );
            }
            return Some(t.registers);
        }
        assert(!targets_stable(blocks, n as nat));
        n = n + 1;
    }
    None
}

} // verus!
