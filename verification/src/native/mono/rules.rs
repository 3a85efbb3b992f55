//! Name resolution and argument binding of calls.

use crate::data::{opt_string_view, strings_view};
use crate::mir::{
    MirFunction, MirFunctionDeclaration, MirFunctionDeclarationModel, MirFunctionModel,
    MirStructDeclaration, MirStructDeclarationModel, Reg, function_declarations_view,
    string_functions_view, string_regs_view, struct_declarations_view,
};
use crate::outcome::{collect, lemma_collect_err, lemma_collect_ok};
use crate::symbol::{is_overload_of, method_symbol, overload_of, retarget_method_symbol, retargeted};
use crate::text::{cat3, str_eq};
use vstd::prelude::*;

verus! {

/// Where a parameter takes its argument from.
#[derive(Debug, Clone, Copy, PartialEq, Eq, Structural)]
pub enum ArgSlot {
    Positional(usize),
    Keyword(usize),
    Default,
}

/// How the arguments of a call fill the parameters.
#[derive(Debug)]
pub struct CallSlots {
    pub slots: Vec<ArgSlot>,
    /// The positional arguments past the parameters.
    pub positional_overflow: Vec<usize>,
}

/// Mathematical model of [`CallSlots`].
#[verifier::ext_equal]
pub struct SlotsModel {
    pub slots: Seq<ArgSlot>,
    pub positional_overflow: Seq<usize>,
}

impl View for CallSlots {
    type V = SlotsModel;

    open spec fn view(&self) -> SlotsModel {
        SlotsModel { slots: self.slots@, positional_overflow: self.positional_overflow@ }
    }
}

/// Whether a slot names an argument that the call has.
pub open spec fn slot_exists(slot: ArgSlot, positional: nat, keywords: nat) -> bool {
    match slot {
        ArgSlot::Positional(i) => i < positional,
        ArgSlot::Keyword(i) => i < keywords,
        ArgSlot::Default => true,
    }
}

/// Whether the slots name only arguments that the call has.
pub open spec fn slots_exist(s: SlotsModel, positional: nat, keywords: nat) -> bool {
    &&& forall|i: int| 0 <= i < s.slots.len() ==> slot_exists(#[trigger] s.slots[i], positional, keywords)
    &&& forall|i: int| 0 <= i < s.positional_overflow.len() ==> #[trigger] s.positional_overflow[i] < positional
}

/// What monomorphization takes from name resolution and from argument binding.
pub trait CallRules: Sized {
    /// The function that a method call on a struct reaches.
    spec fn method_symbol(
        &self,
        functions: Seq<(Seq<char>, MirFunctionModel)>,
        owner: Seq<char>,
        method: Seq<char>,
        selected: Option<Seq<char>>,
        positional: nat,
        keywords: nat,
    ) -> Seq<char>;

    fn resolve_method_symbol(
        &self,
        functions: &Vec<(String, MirFunction)>,
        owner: &str,
        method: &str,
        selected: &Option<String>,
        positional: usize,
        keywords: usize,
    ) -> (r: String)
        ensures
            r@ == self.method_symbol(
                string_functions_view(*functions),
                owner@,
                method@,
                opt_string_view(*selected),
                positional as nat,
                keywords as nat,
            ),
    ;

    /// The function that a call by name reaches.
    spec fn callable_symbol(
        &self,
        functions: Seq<(Seq<char>, MirFunctionModel)>,
        base: Seq<char>,
        positional: nat,
        keywords: nat,
    ) -> Seq<char>;

    fn resolve_callable_symbol(
        &self,
        functions: &Vec<(String, MirFunction)>,
        base: &str,
        positional: usize,
        keywords: usize,
    ) -> (r: String)
        ensures
            r@ == self.callable_symbol(
                string_functions_view(*functions),
                base@,
                positional as nat,
                keywords as nat,
            ),
    ;

    /// How a call binds its arguments to a declaration, or why it cannot.
    spec fn call_slots(
        &self,
        declaration: MirFunctionDeclarationModel,
        positional: nat,
        keywords: Seq<(Seq<char>, Reg)>,
    ) -> Result<SlotsModel, Seq<char>>;

    fn match_call_slots(
        &self,
        declaration: &MirFunctionDeclaration,
        positional: usize,
        keywords: &Vec<(String, Reg)>,
    ) -> (r: Result<CallSlots, String>)
        ensures
            match r {
                Ok(slots) => self.call_slots(
                    declaration@,
                    positional as nat,
                    string_regs_view(*keywords),
                ) == Ok::<
                    SlotsModel,
                    Seq<char>,
                >(slots@) && slots_exist(slots@, positional as nat, keywords@.len()),
                Err(e) => self.call_slots(
                    declaration@,
                    positional as nat,
                    string_regs_view(*keywords),
                ) == Err::<
                    SlotsModel,
                    Seq<char>,
                >(e@),
            },
    ;
}

/// The last function with the name.
pub open spec fn body_of(
    functions: Seq<(Seq<char>, MirFunctionModel)>,
    name: Seq<char>,
) -> Option<MirFunctionModel>
    decreases functions.len(),
{
    if functions.len() == 0 {
        None
    } else if functions.last().0 == name {
        Some(functions.last().1)
    } else {
        body_of(functions.drop_last(), name)
    }
}

/// The last function with the name.
pub fn find_body<'a>(functions: &'a Vec<(String, MirFunction)>, name: &str) -> (r: Option<&'a MirFunction>)
    ensures
        match r {
            Some(f) => body_of(string_functions_view(*functions), name@) == Some(f@),
            None => body_of(string_functions_view(*functions), name@) is None,
        },
{
    let ghost model = string_functions_view(*functions);
    let mut n: usize = functions.len();
    assert(model.take(n as int) =~= model);
    while n > 0
        invariant
            model == string_functions_view(*functions),
            n <= functions@.len(),
            body_of(model, name@) == body_of(model.take(n as int), name@),
        decreases n,
    {
        assert(model.take(n as int).last() == (functions@[n - 1].0@, functions@[n - 1].1@));
        assert(model.take(n as int).drop_last() =~= model.take(n - 1));
        if str_eq(&functions[n - 1].0, name) {
            return Some(&functions[n - 1].1);
        }
        n = n - 1;
    }
    None
}

/// The last declaration with the lowered name.
pub open spec fn facts_of(declarations: Seq<MirFunctionDeclarationModel>, name: Seq<char>) -> Option<
    MirFunctionDeclarationModel,
>
    decreases declarations.len(),
{
    if declarations.len() == 0 {
        None
    } else if declarations.last().lowered_name == name {
        Some(declarations.last())
    } else {
        facts_of(declarations.drop_last(), name)
    }
}

/// The last declaration with the lowered name.
pub fn find_facts<'a>(
    declarations: &'a Vec<MirFunctionDeclaration>,
    name: &str,
) -> (r: Option<&'a MirFunctionDeclaration>)
    ensures
        match r {
            Some(d) => facts_of(function_declarations_view(*declarations), name@) == Some(d@),
            None => facts_of(function_declarations_view(*declarations), name@) is None,
        },
{
    let ghost model = function_declarations_view(*declarations);
    let mut n: usize = declarations.len();
    assert(model.take(n as int) =~= model);
    while n > 0
        invariant
            model == function_declarations_view(*declarations),
            n <= declarations@.len(),
            facts_of(model, name@) == facts_of(model.take(n as int), name@),
        decreases n,
    {
        assert(model.take(n as int).last() == declarations@[n - 1]@);
        assert(model.take(n as int).drop_last() =~= model.take(n - 1));
        if str_eq(&declarations[n - 1].lowered_name, name) {
            return Some(&declarations[n - 1]);
        }
        n = n - 1;
    }
    None
}

/// The last struct with the name.
pub open spec fn struct_template(structs: Seq<MirStructDeclarationModel>, name: Seq<char>) -> Option<
    MirStructDeclarationModel,
>
    decreases structs.len(),
{
    if structs.len() == 0 {
        None
    } else if structs.last().name == name {
        Some(structs.last())
    } else {
        struct_template(structs.drop_last(), name)
    }
}

/// The last struct with the name.
pub fn find_struct<'a>(
    structs: &'a Vec<MirStructDeclaration>,
    name: &str,
) -> (r: Option<&'a MirStructDeclaration>)
    ensures
        match r {
            Some(d) => struct_template(struct_declarations_view(*structs), name@) == Some(d@),
            None => struct_template(struct_declarations_view(*structs), name@) is None,
        },
{
    let ghost model = struct_declarations_view(*structs);
    let mut n: usize = structs.len();
    assert(model.take(n as int) =~= model);
    while n > 0
        invariant
            model == struct_declarations_view(*structs),
            n <= structs@.len(),
            struct_template(model, name@) == struct_template(model.take(n as int), name@),
        decreases n,
    {
        assert(model.take(n as int).last() == structs@[n - 1]@);
        assert(model.take(n as int).drop_last() =~= model.take(n - 1));
        if str_eq(&structs[n - 1].name, name) {
            return Some(&structs[n - 1]);
        }
        n = n - 1;
    }
    None
}

/// The first overload of a name that takes so many parameters.
pub open spec fn overload_with(
    functions: Seq<(Seq<char>, MirFunctionModel)>,
    base: Seq<char>,
    params: nat,
) -> Option<Seq<char>>
    decreases functions.len(),
{
    if functions.len() == 0 {
        None
    } else if overload_of(functions[0].0, base) && functions[0].1.n_params == params {
        Some(functions[0].0)
    } else {
        overload_with(functions.skip(1), base, params)
    }
}

/// Resolution by name: an exact symbol, else the first overload that takes the
/// arguments and a receiver, else the name as it stands.
pub open spec fn named_symbol(
    functions: Seq<(Seq<char>, MirFunctionModel)>,
    base: Seq<char>,
    params: nat,
) -> Seq<char> {
    if body_of(functions, base) is Some {
        base
    } else {
        match overload_with(functions, base, params) {
            Some(name) => name,
            None => base,
        }
    }
}

fn find_overload(
    functions: &Vec<(String, MirFunction)>,
    base: &str,
    positional: usize,
    keywords: usize,
) -> (r: Option<String>)
    ensures
        opt_string_view(r) == overload_with(
            string_functions_view(*functions),
            base@,
            (positional + keywords + 1) as nat,
        ),
{
    let ghost model = string_functions_view(*functions);
    let ghost params = (positional + keywords + 1) as nat;
    assert(model.skip(0) =~= model);
    for i in 0..functions.len()
        invariant
            model == string_functions_view(*functions),
            params == positional + keywords + 1,
            overload_with(model, base@, params) == overload_with(model.skip(i as int), base@, params),
    {
        assert(model.skip(i as int)[0] == (functions@[i as int].0@, functions@[i as int].1@));
        assert(model.skip(i as int).skip(1) =~= model.skip(i + 1));
        let n: usize = functions[i].1.n_params;
        if is_overload_of(&functions[i].0, base)
            && n > positional
            && n - positional > keywords
            && n - positional - keywords
            == 1 {
            return Some(functions[i].0.clone());
        }
    }
    None
}

fn symbol_named(
    functions: &Vec<(String, MirFunction)>,
    base: &str,
    positional: usize,
    keywords: usize,
) -> (r: String)
    ensures
        r@ == named_symbol(string_functions_view(*functions), base@, (positional + keywords + 1) as nat),
{
    if find_body(functions, base).is_some() {
        return base.to_owned();
    }
    match find_overload(functions, base, positional, keywords) {
        Some(name) => name,
        None => base.to_owned(),
    }
}

/// Resolution by the program's own symbols, and binding of arguments in
/// declaration order.
#[derive(Debug, Clone, Copy)]
pub struct DirectRules;

/// The method that a selected symbol names on a struct, if the program has it.
pub open spec fn selected_method(
    functions: Seq<(Seq<char>, MirFunctionModel)>,
    owner: Seq<char>,
    selected: Option<Seq<char>>,
) -> Option<Seq<char>> {
    match selected {
        Some(symbol) => match retargeted(symbol, owner) {
            Some(name) => if body_of(functions, name) is Some { Some(name) } else { None },
            None => None,
        },
        None => None,
    }
}

fn method_selected(
    functions: &Vec<(String, MirFunction)>,
    owner: &str,
    selected: &Option<String>,
) -> (r: Option<String>)
    ensures
        opt_string_view(r) == selected_method(
            string_functions_view(*functions),
            owner@,
            opt_string_view(*selected),
        ),
{
    match selected {
        Some(symbol) => match retarget_method_symbol(symbol, owner) {
            Some(name) => if find_body(functions, &name).is_some() { Some(name) } else { None },
            None => None,
        },
        None => None,
    }
}

/// The first keyword argument with the name.
pub open spec fn keyword_at(keywords: Seq<(Seq<char>, Reg)>, name: Seq<char>, from: int) -> Option<usize>
    decreases keywords.len() - from,
{
    if from < 0 || from >= keywords.len() {
        None
    } else if keywords[from].0 == name {
        Some(from as usize)
    } else {
        keyword_at(keywords, name, from + 1)
    }
}

/// How many leading parameters positional arguments can fill.
pub open spec fn positional_params(declaration: MirFunctionDeclarationModel) -> nat {
    match declaration.keyword_only {
        Some(n) => if n < declaration.param_names.len() { n as nat } else { declaration.param_names.len() },
        None => declaration.param_names.len(),
    }
}

/// What fills one parameter: its positional argument, the keyword that names it,
/// or its default.
pub open spec fn direct_slot(
    declaration: MirFunctionDeclarationModel,
    positional: nat,
    keywords: Seq<(Seq<char>, Reg)>,
    i: int,
) -> Result<ArgSlot, Seq<char>> {
    let name = declaration.param_names[i];
    let keyword = if declaration.positional_only is Some && i < declaration.positional_only->Some_0 {
        None
    } else {
        keyword_at(keywords, name, 0)
    };
    if i < positional && i < positional_params(declaration) {
        if keyword is Some {
            Err("parameter '"@ + name + "' is supplied more than once"@)
        } else {
            Ok(ArgSlot::Positional(i as usize))
        }
    } else {
        match keyword {
            Some(k) => Ok(ArgSlot::Keyword(k)),
            None => if i < declaration.required.len() && !declaration.required[i] {
                Ok(ArgSlot::Default)
            } else {
                Err("parameter '"@ + name + "' is missing"@)
            },
        }
    }
}

/// What fills each parameter.
pub open spec fn direct_slots(
    declaration: MirFunctionDeclarationModel,
    positional: nat,
    keywords: Seq<(Seq<char>, Reg)>,
) -> Seq<Result<ArgSlot, Seq<char>>> {
    Seq::new(declaration.param_names.len(), |i: int| direct_slot(declaration, positional, keywords, i))
}

/// The first keyword at or past `from` that no parameter takes.
pub open spec fn stray_keyword(
    declaration: MirFunctionDeclarationModel,
    keywords: Seq<(Seq<char>, Reg)>,
    from: int,
) -> Option<
    Seq<char>,
>
    decreases keywords.len() - from,
{
    if from < 0 || from >= keywords.len() {
        None
    } else if !declaration.param_names.contains(keywords[from].0) {
        Some(keywords[from].0)
    } else {
        stray_keyword(declaration, keywords, from + 1)
    }
}

/// The numbers from `from` up to `to`.
pub open spec fn counted(from: nat, to: nat) -> Seq<usize> {
    Seq::new(if from < to { (to - from) as nat } else { 0 }, |i: int| (from + i) as usize)
}

fn find_keyword(keywords: &Vec<(String, Reg)>, name: &str) -> (r: Option<usize>)
    ensures
        r == keyword_at(string_regs_view(*keywords), name@, 0),
        r is Some ==> r->Some_0 < keywords@.len(),
{
    let ghost model = string_regs_view(*keywords);
    for i in 0..keywords.len()
        invariant
            model == string_regs_view(*keywords),
            keyword_at(model, name@, 0) == keyword_at(model, name@, i as int),
    {
        assert(model[i as int] == (keywords@[i as int].0@, keywords@[i as int].1));
        if str_eq(&keywords[i].0, name) {
            return Some(i);
        }
    }
    None
}

fn names_contain(names: &Vec<String>, name: &String) -> (r: bool)
    ensures
        r == strings_view(*names).contains(name@),
{
    let ghost model = strings_view(*names);
    for i in 0..names.len()
        invariant
            model == strings_view(*names),
            forall|j: int| 0 <= j < i ==> model[j] != name@,
    {
        if names[i] == *name {
            assert(model[i as int] == name@);
            return true;
        }
    }
    false
}

fn find_stray<'a>(
    declaration: &MirFunctionDeclaration,
    keywords: &'a Vec<(String, Reg)>,
) -> (r: Option<&'a String>)
    ensures
        match r {
            Some(name) => stray_keyword(declaration@, string_regs_view(*keywords), 0) == Some(name@),
            None => stray_keyword(declaration@, string_regs_view(*keywords), 0) is None,
        },
{
    let ghost model = string_regs_view(*keywords);
    for i in 0..keywords.len()
        invariant
            model == string_regs_view(*keywords),
            stray_keyword(declaration@, model, 0) == stray_keyword(declaration@, model, i as int),
    {
        assert(model[i as int] == (keywords@[i as int].0@, keywords@[i as int].1));
        if !names_contain(&declaration.param_names, &keywords[i].0) {
            return Some(&keywords[i].0);
        }
    }
    None
}

fn slot_of(
    declaration: &MirFunctionDeclaration,
    fixed: usize,
    positional: usize,
    keywords: &Vec<(String, Reg)>,
    i: usize,
) -> (r: Result<ArgSlot, String>)
    requires
        i < declaration.param_names@.len(),
        fixed == positional_params(declaration@),
    ensures
        match r {
            Ok(slot) => direct_slot(
                declaration@,
                positional as nat,
                string_regs_view(*keywords),
                i as int,
            ) == Ok::<
                ArgSlot,
                Seq<char>,
            >(slot) && slot_exists(slot, positional as nat, keywords@.len()),
            Err(e) => direct_slot(
                declaration@,
                positional as nat,
                string_regs_view(*keywords),
                i as int,
            ) == Err::<
                ArgSlot,
                Seq<char>,
            >(e@),
        },
{
    let name: &String = &declaration.param_names[i];
    assert(declaration@.param_names[i as int] == name@);
    let hidden: bool = match declaration.positional_only {
        Some(n) => i < n,
        None => false,
    };
    let keyword: Option<usize> = if hidden { None } else { find_keyword(keywords, name) };
    if i < positional && i < fixed {
        if keyword.is_some() {
            Err(cat3("parameter '", name, "' is supplied more than once"))
        } else {
            Ok(ArgSlot::Positional(i))
        }
    } else {
        match keyword {
            Some(k) => Ok(ArgSlot::Keyword(k)),
            None => if i < declaration.required.len() && !declaration.required[i] {
                Ok(ArgSlot::Default)
            } else {
                Err(cat3("parameter '", name, "' is missing"))
            },
        }
    }
}

impl CallRules for DirectRules {
    open spec fn method_symbol(
        &self,
        functions: Seq<(Seq<char>, MirFunctionModel)>,
        owner: Seq<char>,
        method: Seq<char>,
        selected: Option<Seq<char>>,
        positional: nat,
        keywords: nat,
    ) -> Seq<char> {
        match selected_method(functions, owner, selected) {
            Some(name) => name,
            None => named_symbol(functions, owner + "."@ + method, positional + keywords + 1),
        }
    }

    fn resolve_method_symbol(
        &self,
        functions: &Vec<(String, MirFunction)>,
        owner: &str,
        method: &str,
        selected: &Option<String>,
        positional: usize,
        keywords: usize,
    ) -> (r: String) {
        match method_selected(functions, owner, selected) {
            Some(name) => name,
            None => symbol_named(functions, &cat3(owner, ".", method), positional, keywords),
        }
    }

    open spec fn callable_symbol(
        &self,
        functions: Seq<(Seq<char>, MirFunctionModel)>,
        base: Seq<char>,
        positional: nat,
        keywords: nat,
    ) -> Seq<char> {
        named_symbol(functions, base, positional + keywords + 1)
    }

    fn resolve_callable_symbol(
        &self,
        functions: &Vec<(String, MirFunction)>,
        base: &str,
        positional: usize,
        keywords: usize,
    ) -> (r: String) {
        symbol_named(functions, base, positional, keywords)
    }

    open spec fn call_slots(
        &self,
        declaration: MirFunctionDeclarationModel,
        positional: nat,
        keywords: Seq<(Seq<char>, Reg)>,
    ) -> Result<SlotsModel, Seq<char>> {
        let fixed = positional_params(declaration);
        if positional > fixed && declaration.variadic is None {
            Err("too many positional arguments"@)
        } else if stray_keyword(declaration, keywords, 0) is Some && declaration.kw_variadic is None {
            Err("unexpected keyword argument '"@ + stray_keyword(declaration, keywords, 0)->Some_0 + "'"@)
        } else {
            match collect(direct_slots(declaration, positional, keywords)) {
                Ok(slots) => Ok(SlotsModel { slots, positional_overflow: counted(fixed, positional) }),
                Err(e) => Err(e),
            }
        }
    }

    fn match_call_slots(
        &self,
        declaration: &MirFunctionDeclaration,
        positional: usize,
        keywords: &Vec<(String, Reg)>,
    ) -> (r: Result<CallSlots, String>) {
        let ghost model = string_regs_view(*keywords);
        assert(declaration@.param_names.len() == declaration.param_names@.len());
        assert(model.len() == keywords@.len());
        let count: usize = declaration.param_names.len();
        let fixed: usize = match declaration.keyword_only {
            Some(n) => if n < count { n } else { count },
            None => count,
        };
        if positional > fixed && declaration.variadic.is_none() {
            return Err("too many positional arguments".to_owned());
        }
        if declaration.kw_variadic.is_none() {
            if let Some(name) = find_stray(declaration, keywords) {
                return Err(cat3("unexpected keyword argument '", name, "'"));
            }
        }
        let ghost results = direct_slots(declaration@, positional as nat, model);
        let mut slots: Vec<ArgSlot> = Vec::new();
        for i in 0..count
            invariant
                model == string_regs_view(*keywords),
                results == direct_slots(declaration@, positional as nat, model),
                results.len() == count,
                count == declaration.param_names@.len(),
                fixed == positional_params(declaration@),
                !(positional > fixed && declaration@.variadic is None),
                !(stray_keyword(declaration@, model, 0) is Some && declaration@.kw_variadic is None),
                slots@.len() == i,
                forall|j: int| 0 <= j < i ==> #[trigger] results[j] == Ok::<ArgSlot, Seq<char>>(slots@[j]),
                forall|j: int| 0 <= j < i ==> slot_exists(
                    #[trigger] slots@[j],
                    positional as nat,
                    keywords@.len(),
                ),
        {
            match slot_of(declaration, fixed, positional, keywords, i) {
                Ok(slot) => {
                    assert(results[i as int] == Ok::<ArgSlot, Seq<char>>(slot));
                    slots.push(slot);
                },
                Err(e) => {
                    proof {
                        lemma_collect_err(results, i as int, e@);
                    }
                    return Err(e);
                },
            }
        }
        proof {
            lemma_collect_ok(results, slots@);
        }
        let mut overflow: Vec<usize> = Vec::new();
        let mut next: usize = fixed;
        while next < positional
            invariant
                fixed <= next,
                next <= positional || next == fixed,
                overflow@ == counted(fixed as nat, next as nat),
                forall|j: int| 0 <= j < overflow@.len() ==> #[trigger] overflow@[j] < positional,
            decreases positional - next,
        {
            overflow.push(next);
            next = next + 1;
            assert(overflow@ =~= counted(fixed as nat, next as nat));
        }
        assert(overflow@ =~= counted(fixed as nat, positional as nat));
        Ok(CallSlots { slots, positional_overflow: overflow })
    }
}

} // verus!
