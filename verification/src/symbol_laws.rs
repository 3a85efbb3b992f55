//! What symbols promise: their parts can be told apart, and constants in them are exact.

use crate::ast::{
    ArgConvention, ExprModel, FnParamModel, InfixOp, MethodModel, StmtModel, TypeParamModel,
    operator_method,
};
use crate::ct::CtValueModel;
use crate::debug::operator_name;
use crate::literal::literal_value;
use crate::runtime::{StopModel, ValueModel};
use crate::runtime::laws::{ints, law_int_product, law_int_sum, same_low};
use crate::runtime::scalar::Answers;
use crate::symbol::{
    InstanceArgModel, SetsModel, SignatureModel, comptime_infix, comptime_int, count_definition,
    declared_bounds, declared_signature, instance_name, instance_part, keyword_boundary,
    lifecycle_shape, lowered_def, member_part, method_name, overload_of, overloaded, owner_part,
    plain_names, raw_ty, received, receiver_key, registered_name, retargeted, scan_program,
    signature_suffix, template_of, variadic_position,
};
use crate::text::{concat, first_occurrence, last_occurrence, occurs_at};
use crate::types::TyModel;
use vstd::prelude::*;

verus! {

/// The instance of a template goes back to that template.
pub proof fn law_template_of_instance(base: Seq<char>, args: Seq<InstanceArgModel>)
    requires
        forall|at: int| !#[trigger] occurs_at(base, "$mono"@, at),
    ensures
        template_of(instance_name(base, args)) == base,
        template_of(base) == base,
{
    let mark = "$mono"@;
    let tail = concat(args.map_values(|arg: InstanceArgModel| instance_part(arg)));
    let name = instance_name(base, args);
    assert(name =~= base + mark + tail);
    lemma_mark(base, tail);
    lemma_first(name, mark, base.len() as int);
    assert(name.take(base.len() as int) =~= base);
    assert(first_occurrence(base, mark) is None) by {
        reveal(first_occurrence);
    }
}

proof fn lemma_first(whole: Seq<char>, part: Seq<char>, at: int)
    requires
        occurs_at(whole, part, at),
        forall|k: int| 0 <= k < at ==> !#[trigger] occurs_at(whole, part, k),
    ensures
        first_occurrence(whole, part) == Some(at),
{
    reveal(first_occurrence);
    let found = choose|at: int| #[trigger]
        occurs_at(whole, part, at) && forall|k: int| 0 <= k < at ==> !occurs_at(whole, part, k);
    assert(occurs_at(whole, part, found) && forall|k: int| 0 <= k < found ==> !occurs_at(whole, part, k));
    assert(found == at);
}

proof fn lemma_mark(base: Seq<char>, tail: Seq<char>)
    requires
        forall|at: int| !#[trigger] occurs_at(base, "$mono"@, at),
    ensures
        occurs_at(base + "$mono"@ + tail, "$mono"@, base.len() as int),
        forall|k: int| 0 <= k < base.len() ==> !#[trigger] occurs_at(base + "$mono"@ + tail, "$mono"@, k),
{
    reveal_strlit("$mono");
    let mark = "$mono"@;
    let name = base + mark + tail;
    let n = base.len() as int;
    assert(name.subrange(n, n + mark.len()) =~= mark);
    assert forall|k: int| 0 <= k < n implies !#[trigger] occurs_at(name, mark, k) by {
        lemma_no_earlier(base, mark, tail, k);
    }
}

proof fn lemma_no_earlier(base: Seq<char>, mark: Seq<char>, tail: Seq<char>, k: int)
    requires
        mark.len() == 5,
        mark[0] == '$',
        mark[1] != '$' && mark[2] != '$' && mark[3] != '$' && mark[4] != '$',
        0 <= k < base.len(),
        !occurs_at(base, mark, k),
    ensures
        !occurs_at(base + mark + tail, mark, k),
{
    let name = base + mark + tail;
    let n = base.len() as int;
    if occurs_at(name, mark, k) {
        let found = name.subrange(k, k + 5);
        assert(found == mark);
        if k + 5 <= n {
            assert(base.subrange(k, k + 5) =~= found);
        } else {
            let d = n - k;
            assert(0 < d < 5);
            assert(found[d] == name[n]);
            assert(name[n] == mark[0]);
            assert(d == 1 || d == 2 || d == 3 || d == 4);
        }
    }
}

/// A member symbol is its owner, a dot and its member, and the member has no dot; where
/// there is no dot there is neither.
pub proof fn law_symbol_parts(symbol: Seq<char>)
    ensures
        member_part(symbol) is Some <==> owner_part(symbol) is Some,
        member_part(symbol) is Some ==> symbol == owner_part(symbol)->Some_0 + seq!['.'] + member_part(symbol)->Some_0,
        member_part(symbol) matches Some(m) ==> forall|i: int| 0 <= i < m.len() ==> #[trigger] m[i] != '.',
        member_part(symbol) is None ==> forall|i: int| 0 <= i < symbol.len() ==> #[trigger] symbol[i] != '.',
{
    reveal_strlit(".");
    let dot = "."@;
    assert(dot =~= seq!['.']);
    assert forall|i: int| 0 <= i < symbol.len() && #[trigger] symbol[i] == '.' implies occurs_at(symbol, dot, i) by {
        assert(symbol.subrange(i, i + 1) =~= dot);
    }
    match last_occurrence(symbol, dot) {
        Some(at) => {
            lemma_last_dot(symbol, dot);
            assert(occurs_at(symbol, dot, at));
            assert(symbol.subrange(at, at + 1)[0] == '.');
            assert(symbol =~= symbol.take(at) + seq!['.'] + symbol.skip(at + 1));
            let m = symbol.skip(at + 1);
            assert forall|i: int| 0 <= i < m.len() implies #[trigger] m[i] != '.' by {
                assert(m[i] == symbol[at + 1 + i]);
                if symbol[at + 1 + i] == '.' {
                    assert(occurs_at(symbol, dot, at + 1 + i));
                }
            }
        },
        None => {
            reveal(last_occurrence);
        },
    }
}

proof fn lemma_last_dot(symbol: Seq<char>, dot: Seq<char>)
    requires
        dot == seq!['.'],
        last_occurrence(symbol, dot) is Some,
    ensures
        occurs_at(symbol, dot, last_occurrence(symbol, dot)->Some_0),
        forall|k: int| last_occurrence(symbol, dot)->Some_0 < k ==> !#[trigger] occurs_at(symbol, dot, k),
{
    reveal(last_occurrence);
    let at = choose|at: int| occurs_at(symbol, dot, at);
    lemma_greatest(symbol, dot, at);
}

proof fn lemma_greatest(symbol: Seq<char>, dot: Seq<char>, at: int)
    requires
        dot.len() == 1,
        occurs_at(symbol, dot, at),
    ensures
        exists|m: int| #[trigger] occurs_at(symbol, dot, m) && forall|k: int| m < k ==> !occurs_at(symbol, dot, k),
    decreases symbol.len() - at,
{
    if exists|k: int| at < k && occurs_at(symbol, dot, k) {
        let k = choose|k: int| at < k && occurs_at(symbol, dot, k);
        lemma_greatest(symbol, dot, k);
    }
}

/// Retargeting a symbol exchanges its owner and keeps its member.
pub proof fn law_retargeted_parts(symbol: Seq<char>, owner: Seq<char>)
    requires
        member_part(symbol) is Some,
    ensures
        retargeted(symbol, owner) == Some(owner + seq!['.'] + member_part(symbol)->Some_0),
        retargeted(symbol, owner_part(symbol)->Some_0) == Some(symbol),
{
    reveal_strlit(".");
    assert("."@ =~= seq!['.']);
    law_symbol_parts(symbol);
}

/// A constant expression in a type has its exact value, or none where that does not fit;
/// sums, differences and products are what they are at run time where nothing wraps.
pub proof fn law_constant_expressions(t: Answers, left: i64, right: i64)
    ensures
        comptime_infix(InfixOp::Add, left, right) is Some <==> i64::MIN <= left + right <= i64::MAX,
        comptime_infix(InfixOp::Add, left, right) is Some ==> comptime_infix(InfixOp::Add, left, right)->Some_0 - right
            == left,
        comptime_infix(InfixOp::Sub, left, right) is Some <==> i64::MIN <= left - right <= i64::MAX,
        comptime_infix(InfixOp::Sub, left, right) is Some ==> comptime_infix(InfixOp::Sub, left, right)->Some_0 + right
            == left,
        comptime_infix(InfixOp::Mul, left, right) is Some <==> i64::MIN <= left * right <= i64::MAX,
        forall|op: InfixOp|
            #![trigger comptime_infix(op, left, right)]
            (op is Add || op is Sub || op is Mul) && comptime_infix(op, left, right) is Some
                ==> ints(t, op, left, right)
                == Ok::<ValueModel, StopModel>(ValueModel::Int(comptime_infix(op, left, right)->Some_0)),
        right < 0 ==> comptime_infix(InfixOp::Pow, left, right) is None,
        forall|op: InfixOp|
            !(op is Add || op is Sub || op is Mul || op is FloorDiv || op is Mod || op is Pow)
                ==> #[trigger] comptime_infix(op, left, right) is None,
{
    law_int_sum(t, left, right);
    law_int_product(t, left, right, left);
    lemma_in_range(left + right);
    lemma_in_range(left - right);
    lemma_in_range(left * right);
}

proof fn lemma_in_range(n: int)
    ensures
        forall|v: i64| i64::MIN <= n <= i64::MAX && #[trigger] same_low(v as int, n) ==> v == n,
{
}

/// A quotient and a remainder in a type give the dividend back, with a remainder that is
/// not negative and smaller than the divisor.
pub proof fn law_constant_quotients(left: i64, right: i64)
    ensures
        right == 0 ==> comptime_infix(InfixOp::FloorDiv, left, right) is None && comptime_infix(
            InfixOp::Mod,
            left,
            right,
        ) is None,
        right != 0 && !(left == i64::MIN && right == -1) ==> {
            let q = comptime_infix(InfixOp::FloorDiv, left, right);
            let m = comptime_infix(InfixOp::Mod, left, right);
            &&& q is Some && m is Some
            &&& left == q->Some_0 * right + m->Some_0
            &&& 0 <= m->Some_0
            &&& m->Some_0 < right || m->Some_0 < -right
        },
{
    if right != 0 {
        let (p, q) = (left as int, right as int);
        crate::ct::lemma_quotient(p, q);
        vstd::arithmetic::div_mod::lemma_fundamental_div_mod(p, q);
        assert(q * (p / q) == (p / q) * q) by (nonlinear_arith);
        assert(0 <= p % q && (p % q < q || p % q < -q));
    }
}

/// A literal is its value where it fits, a name what is known of it, and a negation the
/// number that cancels it.
pub proof fn law_constant_leaves(e: ExprModel, known: Map<Seq<char>, i64>)
    ensures
        e.kind is Int ==> (comptime_int(e, known) is Some
            <==> i64::MIN <= literal_value(e.kind->Int_0) <= i64::MAX) && (
        comptime_int(e, known) is Some ==> comptime_int(e, known)->Some_0 == literal_value(e.kind->Int_0)),
        e.kind is Identifier ==> (comptime_int(e, known) is Some <==> known.dom().contains(e.kind->Identifier_0)) && (
        comptime_int(e, known) is Some ==> comptime_int(e, known) == Some(known[e.kind->Identifier_0])),
        e.kind is Prefix && comptime_int(e, known) is Some ==> e.kind->Prefix_0 is Neg && comptime_int(
            *e.kind->Prefix_1,
            known,
        ) is Some && comptime_int(e, known)->Some_0 + comptime_int(*e.kind->Prefix_1, known)->Some_0 == 0,
        e.kind is Infix && comptime_int(e, known) is Some ==> comptime_int(*e.kind->Infix_1, known) is Some
            && comptime_int(
            *e.kind->Infix_2,
            known,
        ) is Some && comptime_int(e, known) == comptime_infix(
            e.kind->Infix_0,
            comptime_int(*e.kind->Infix_1, known)->Some_0,
            comptime_int(*e.kind->Infix_2, known)->Some_0,
        ),
        e.kind is Bool || e.kind is Str || e.kind is Call ==> comptime_int(e, known) is None,
{
}

/// The receivers of methods are told apart by their conventions; only saying nothing is
/// the same as saying `imm`.
pub proof fn law_receiver_keys(a: Option<ArgConvention>, b: Option<ArgConvention>)
    ensures
        receiver_key(None) == receiver_key(Some(ArgConvention::Imm)),
        a is Some && b is Some && receiver_key(a) == receiver_key(b) ==> a == b,
{
    reveal_strlit("SelfRead");
    reveal_strlit("SelfMut");
    reveal_strlit("SelfVar");
    reveal_strlit("SelfOut");
    reveal_strlit("SelfRef");
    reveal_strlit("SelfDeinit");
    assert("SelfRead"@.len() == 8 && "SelfMut"@.len() == 7 && "SelfVar"@.len() == 7 && "SelfOut"@.len() == 7
        && "SelfRef"@.len() == 7 && "SelfDeinit"@.len() == 10);
    assert("SelfMut"@[4] == 'M' && "SelfVar"@[4] == 'V' && "SelfOut"@[4] == 'O' && "SelfRef"@[4] == 'R');
}

/// A name is overloaded exactly where it is defined more than once, and once with that
/// many parameters; one definition alone never is.
pub proof fn law_overloading(
    counts: Map<Seq<char>, Seq<usize>>,
    name: Seq<char>,
    arity: usize,
    other: Seq<char>,
)
    ensures
        !counts.dom().contains(name) ==> !overloaded(count_definition(counts, name, arity), name, arity),
        counts.dom().contains(name) && counts[name].len() >= 1 ==> overloaded(
            count_definition(counts, name, arity),
            name,
            arity,
        ),
        other != name ==> forall|n: usize|
            overloaded(count_definition(counts, name, arity), other, n) == #[trigger] overloaded(counts, other, n),
        !overloaded(Map::empty(), name, arity),
{
    let after = count_definition(counts, name, arity);
    if counts.dom().contains(name) && counts[name].len() >= 1 {
        assert(after[name].last() == arity);
        assert(after[name].contains(arity));
    }
}

/// A function that is not overloaded keeps its name; one that is becomes an overload of
/// it.
pub proof fn law_lowered_names(
    name: Seq<char>,
    type_params: Seq<TypeParamModel>,
    params: Seq<FnParamModel>,
    sets: SetsModel,
)
    ensures
        !overloaded(sets.functions, name, params.len() as usize)
            ==> lowered_def(name, type_params, params, sets) == name,
        overloaded(sets.functions, name, params.len() as usize) ==> overload_of(
            lowered_def(name, type_params, params, sets),
            name,
        ),
{
    if overloaded(sets.functions, name, params.len() as usize) {
        crate::symbol::law_function_symbol_is_overload(
            name,
            declared_signature(params, sets.comptimes, declared_bounds(type_params)),
        );
    }
}

/// Scanning a program counts each function where it is defined and keeps the constants
/// that have a value.
pub proof fn law_scan(program: Seq<StmtModel>, stmt: StmtModel)
    ensures
        ({
            let (before, after) = (scan_program(program), scan_program(program.push(stmt)));
            &&& stmt.kind is Def ==> after.functions == count_definition(
                before.functions,
                stmt.kind->Def_name,
                stmt.kind->Def_params.len() as usize,
            ) && after.methods == before.methods && after.comptimes == before.comptimes
            &&& stmt.kind is Comptime && comptime_int(stmt.kind->Comptime_value, before.comptimes) is Some
                ==> after.comptimes.dom().contains(stmt.kind->Comptime_name)
                    && after.comptimes[stmt.kind->Comptime_name]
                == comptime_int(stmt.kind->Comptime_value, before.comptimes)->Some_0 && after.functions
                == before.functions
            &&& stmt.kind is Expr || stmt.kind is Assign || stmt.kind is If ==> after == before
        }),
{
    assert(program.push(stmt).drop_last() =~= program);
}

/// A method keeps its name unless it is the constructor that copies or moves: then it is
/// registered as that.
pub proof fn law_registered_names(m: MethodModel)
    ensures
        m.name != "__init__"@ ==> registered_name(m) == m.name,
        m.params.len() != 1 ==> registered_name(m) == m.name,
        lifecycle_shape(m, "copy"@, None) ==> registered_name(m) == "__copyinit__"@,
        lifecycle_shape(m, "move"@, Some(ArgConvention::Deinit)) ==> registered_name(m) == "__moveinit__"@,
{
}

/// Only plain parameters behind the marker, or behind the variadic one, are passed by
/// keyword alone.
pub proof fn law_keyword_names(params: Seq<FnParamModel>, from: nat)
    ensures
        plain_names(params, from).len() <= if params.len() > from { params.len() - from } else { 0 },
        forall|n: Seq<char>|
            plain_names(params, from).contains(n) ==> exists|i: int|
                from <= i < params.len() && (#[trigger] params[i]).kind is Regular && params[i].name == n,
        forall|i: int|
            from <= i < params.len() && (#[trigger] params[i]).kind is Regular ==> plain_names(params, from).contains(
                params[i].name,
            ),
        keyword_boundary(params, None) is None <==> variadic_position(params) is None,
    decreases params.len(),
{
    if params.len() > from {
        let before = params.drop_last();
        law_keyword_names(before, from);
        let (x, y) = (plain_names(before, from), plain_names(params, from));
        let last = params.last();
        assert forall|i: int| 0 <= i < before.len() implies before[i] == params[i] by {}
        assert forall|n: Seq<char>| y.contains(n) implies exists|i: int|
            from <= i < params.len() && (#[trigger] params[i]).kind is Regular && params[i].name == n by {
            let k = choose|k: int| 0 <= k < y.len() && y[k] == n;
            if k < x.len() {
                assert(x[k] == n);
                assert(x.contains(n));
                let i = choose|i: int|
                    from <= i < before.len() && (#[trigger] before[i]).kind is Regular && before[i].name == n;
                assert(params[i] == before[i]);
            } else {
                assert(params[params.len() - 1] == last);
            }
        }
        assert forall|i: int| from <= i < params.len() && (#[trigger] params[i]).kind is Regular implies y.contains(
            params[i].name,
        ) by {
            if i < before.len() {
                assert(before[i].kind is Regular);
                assert(x.contains(before[i].name));
                let k = choose|k: int| 0 <= k < x.len() && x[k] == before[i].name;
                assert(y[k] == before[i].name);
            } else {
                assert(y[x.len() as int] == last.name);
            }
        }
    }
}

/// A letter in lower case.
pub open spec fn lower_letter(c: char) -> char {
    if 'A' <= c <= 'Z' { (c as u32 + 32) as char } else { c }
}

/// The method of an operator is named after it, between double underscores; both
/// membership tests share one, and the logical operators have none.
pub proof fn law_operator_methods(op: InfixOp)
    ensures
        op is Add || op is Sub || op is Mul || op is FloorDiv || op is Mod || op is Pow || op is MatMul || op is Lt
            || op is Gt || op is Le || op is Ge || op is Eq || op is Ne ==> operator_method(op) == Some(
            seq!['_', '_'] + operator_name(op).map_values(|c: char| lower_letter(c)) + seq!['_', '_'],
        ),
        operator_method(op) is None <==> op is And || op is Or,
        operator_method(InfixOp::In) == operator_method(InfixOp::NotIn),
{
    let f = |c: char| lower_letter(c);
    assert(lower_letter('A') == 'a' && lower_letter('S') == 's' && lower_letter('M') == 'm' && lower_letter('F') == 'f'
        && lower_letter('D') == 'd' && lower_letter('P') == 'p' && lower_letter('L') == 'l' && lower_letter('G') == 'g'
        && lower_letter('E') == 'e' && lower_letter('N') == 'n');
    let us = seq!['_', '_'];
    match op {
        InfixOp::Add => {
            reveal_strlit("Add");
            reveal_strlit("__add__");
            assert(us + "Add"@.map_values(f) + us =~= "__add__"@);
        },
        InfixOp::Sub => {
            reveal_strlit("Sub");
            reveal_strlit("__sub__");
            assert(us + "Sub"@.map_values(f) + us =~= "__sub__"@);
        },
        InfixOp::Mul => {
            reveal_strlit("Mul");
            reveal_strlit("__mul__");
            assert(us + "Mul"@.map_values(f) + us =~= "__mul__"@);
        },
        InfixOp::FloorDiv => {
            reveal_strlit("FloorDiv");
            reveal_strlit("__floordiv__");
            assert(us + "FloorDiv"@.map_values(f) + us =~= "__floordiv__"@);
        },
        InfixOp::Mod => {
            reveal_strlit("Mod");
            reveal_strlit("__mod__");
            assert(us + "Mod"@.map_values(f) + us =~= "__mod__"@);
        },
        InfixOp::Pow => {
            reveal_strlit("Pow");
            reveal_strlit("__pow__");
            assert(us + "Pow"@.map_values(f) + us =~= "__pow__"@);
        },
        InfixOp::MatMul => {
            reveal_strlit("MatMul");
            reveal_strlit("__matmul__");
            assert(us + "MatMul"@.map_values(f) + us =~= "__matmul__"@);
        },
        InfixOp::Lt => {
            reveal_strlit("Lt");
            reveal_strlit("__lt__");
            assert(us + "Lt"@.map_values(f) + us =~= "__lt__"@);
        },
        InfixOp::Gt => {
            reveal_strlit("Gt");
            reveal_strlit("__gt__");
            assert(us + "Gt"@.map_values(f) + us =~= "__gt__"@);
        },
        InfixOp::Le => {
            reveal_strlit("Le");
            reveal_strlit("__le__");
            assert(us + "Le"@.map_values(f) + us =~= "__le__"@);
        },
        InfixOp::Ge => {
            reveal_strlit("Ge");
            reveal_strlit("__ge__");
            assert(us + "Ge"@.map_values(f) + us =~= "__ge__"@);
        },
        InfixOp::Eq => {
            reveal_strlit("Eq");
            reveal_strlit("__eq__");
            assert(us + "Eq"@.map_values(f) + us =~= "__eq__"@);
        },
        InfixOp::Ne => {
            reveal_strlit("Ne");
            reveal_strlit("__ne__");
            assert(us + "Ne"@.map_values(f) + us =~= "__ne__"@);
        },
        _ => {},
    }
}

/// The plain types have keys of their own; a literal shares that of the number it
/// becomes.
pub proof fn law_plain_type_keys(a: TyModel, b: TyModel)
    requires
        a is Int || a is UInt || a is Float64 || a is Bool || a is StringLiteral || a is NoneType,
        b is Int || b is UInt || b is Float64 || b is Bool || b is StringLiteral || b is NoneType,
        raw_ty(a) == raw_ty(b),
    ensures
        a == b,
        raw_ty(TyModel::IntLiteral) == raw_ty(TyModel::Int),
        raw_ty(TyModel::FloatLiteral) == raw_ty(TyModel::Float64),
{
    reveal_strlit("Int");
    reveal_strlit("UInt");
    reveal_strlit("Float64");
    reveal_strlit("Bool");
    reveal_strlit("String");
    reveal_strlit("None");
    assert("Int"@.len() == 3 && "UInt"@.len() == 4 && "Float64"@.len() == 7 && "Bool"@.len() == 4 && "String"@.len() == 6
        && "None"@.len() == 4);
    assert("UInt"@[0] == 'U' && "Bool"@[0] == 'B' && "None"@[0] == 'N');
}

/// A type and a value never give an instance the same part of its name.
pub proof fn law_instance_parts(ty: TyModel, value: CtValueModel)
    ensures
        instance_part(InstanceArgModel::Ty(ty)) != instance_part(InstanceArgModel::Value(value)),
{
    reveal_strlit("$T");
    reveal_strlit("$V");
    assert(instance_part(InstanceArgModel::Ty(ty))[1] == 'T');
    assert(instance_part(InstanceArgModel::Value(value))[1] == 'V');
}

/// A method of a type is the owner, a dot, the method and the suffix of its signature.
pub proof fn law_method_parts(owner: Seq<char>, method: Seq<char>, sig: SignatureModel)
    ensures
        method_name(owner, method, sig).take(owner.len() as int) == owner,
        method_name(owner, method, sig)[owner.len() as int] == '.',
        method_name(owner, method, sig).skip(owner.len() as int + 1) == method + signature_suffix(sig),
        received(sig, Some(ArgConvention::Mut)).types.len() == sig.types.len() + 1,
        received(sig, Some(ArgConvention::Mut)).types.skip(1) == sig.types,
{
    reveal_strlit(".");
    let name = method_name(owner, method, sig);
    assert(name.take(owner.len() as int) =~= owner);
    assert(name.skip(owner.len() as int + 1) =~= method + signature_suffix(sig));
    assert(received(sig, Some(ArgConvention::Mut)).types.skip(1) =~= sig.types);
}

} // verus!
