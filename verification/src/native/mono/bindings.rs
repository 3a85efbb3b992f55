//! What the parameters of a template stand for.

use crate::ct::{CtValue, CtValueModel, values_view};
use crate::data::strings_view;
use crate::table::NameMap;
use crate::types::{Ty, TyModel, opt_string_ty_view};
use vstd::prelude::*;

verus! {

/// What the parameters of a template stand for in one instance.
#[derive(Debug, PartialEq, Eq)]
pub struct Bindings {
    pub types: NameMap<Ty>,
    pub values: NameMap<CtValue>,
    pub callables: NameMap<String>,
    /// The solutions of associated types, by their text.
    pub associated: NameMap<Ty>,
    /// For a method of a generic struct: the owner's template name and its
    /// concrete instance type. The bare in-body `self` spelling of the template
    /// stands for that type.
    pub self_instance: Option<(String, Ty)>,
    /// The generic struct templates of the program: a concrete application of
    /// one takes its instance symbol.
    pub generic_templates: Vec<String>,
    /// The call-site arity of a variadic callee: a pack of `T` becomes that many
    /// `T`s.
    pub variadic_arity: Option<usize>,
}

/// Mathematical model of [`Bindings`].
#[verifier::ext_equal]
pub struct BindingsModel {
    pub types: Map<Seq<char>, TyModel>,
    pub values: Map<Seq<char>, CtValueModel>,
    pub callables: Map<Seq<char>, Seq<char>>,
    pub associated: Map<Seq<char>, TyModel>,
    pub self_instance: Option<(Seq<char>, TyModel)>,
    pub generic_templates: Seq<Seq<char>>,
    pub variadic_arity: Option<usize>,
}

/// The types that parameters stand for.
pub open spec fn types_view(types: Map<Seq<char>, Ty>) -> Map<Seq<char>, TyModel> {
    types.map_values(|ty: Ty| ty@)
}

/// The functions that parameters stand for.
pub open spec fn callables_view(callables: Map<Seq<char>, String>) -> Map<Seq<char>, Seq<char>> {
    callables.map_values(|name: String| name@)
}

impl View for Bindings {
    type V = BindingsModel;

    open spec fn view(&self) -> BindingsModel {
        BindingsModel {
            types: types_view(self.types@),
            values: values_view(self.values@),
            callables: callables_view(self.callables@),
            associated: types_view(self.associated@),
            self_instance: opt_string_ty_view(self.self_instance),
            generic_templates: strings_view(self.generic_templates),
            variadic_arity: self.variadic_arity,
        }
    }
}

/// Bindings of nothing.
pub open spec fn no_bindings(generic_templates: Seq<Seq<char>>) -> BindingsModel {
    BindingsModel {
        types: Map::empty(),
        values: Map::empty(),
        callables: Map::empty(),
        associated: Map::empty(),
        self_instance: None,
        generic_templates,
        variadic_arity: None,
    }
}

impl Bindings {
    /// Bindings of nothing, in a program with these generic templates.
    pub fn with_templates(generic_templates: Vec<String>) -> (r: Bindings)
        ensures
            r@ == no_bindings(strings_view(generic_templates)),
    {
        let r: Bindings = Bindings {
            types: NameMap::new(),
            values: NameMap::new(),
            callables: NameMap::new(),
            associated: NameMap::new(),
            self_instance: None,
            generic_templates,
            variadic_arity: None,
        };
        assert(r@ =~~= no_bindings(strings_view(generic_templates)));
        r
    }

    /// Binds a type parameter.
    pub fn set_type(&mut self, name: String, ty: Ty)
        ensures
            final(self)@ == (BindingsModel { types: old(self)@.types.insert(name@, ty@), ..old(self)@ }),
    {
        self.types.insert(name, ty);
        assert(types_view(self.types@) =~= types_view(old(self).types@).insert(name@, ty@));
    }

    /// Binds a value parameter.
    pub fn set_value(&mut self, name: String, value: CtValue)
        ensures
            final(self)@ == (BindingsModel { values: old(self)@.values.insert(name@, value@), ..old(self)@ }),
    {
        self.values.insert(name, value);
        assert(values_view(self.values@) =~= values_view(old(self).values@).insert(name@, value@));
    }

    /// Binds a callable parameter.
    pub fn set_callable(&mut self, name: String, target: String)
        ensures
            final(self)@ == (BindingsModel { callables: old(self)@.callables.insert(name@, target@), ..old(self)@ }),
    {
        self.callables.insert(name, target);
        assert(
            callables_view(self.callables@) =~= callables_view(old(self).callables@).insert(name@, target@)
        );
    }

    /// Solves an associated type.
    pub fn set_associated(&mut self, text: String, ty: Ty)
        ensures
            final(self)@ == (BindingsModel { associated: old(self)@.associated.insert(text@, ty@), ..old(self)@ }),
    {
        self.associated.insert(text, ty);
        assert(types_view(self.associated@) =~= types_view(old(self).associated@).insert(text@, ty@));
    }

    /// The solution of an associated type.
    pub fn associated_ty(&self, text: &str) -> (r: Option<&Ty>)
        ensures
            match r {
                Some(ty) => self@.associated.dom().contains(text@) && self@.associated[text@] == ty@,
                None => !self@.associated.dom().contains(text@),
            },
    {
        self.associated.get(text)
    }

    /// The type a parameter stands for.
    pub fn ty(&self, name: &str) -> (r: Option<&Ty>)
        ensures
            match r {
                Some(ty) => self@.types.dom().contains(name@) && self@.types[name@] == ty@,
                None => !self@.types.dom().contains(name@),
            },
    {
        self.types.get(name)
    }

    /// The value a parameter stands for.
    pub fn value(&self, name: &str) -> (r: Option<&CtValue>)
        ensures
            match r {
                Some(value) => self@.values.dom().contains(name@) && self@.values[name@] == value@,
                None => !self@.values.dom().contains(name@),
            },
    {
        self.values.get(name)
    }

    /// The function a parameter stands for.
    pub fn callable(&self, name: &str) -> (r: Option<&String>)
        ensures
            match r {
                Some(target) => self@.callables.dom().contains(name@) && self@.callables[name@] == target@,
                None => !self@.callables.dom().contains(name@),
            },
    {
        self.callables.get(name)
    }
}

impl Default for Bindings {
    fn default() -> (r: Bindings)
        ensures
            r@ == no_bindings(Seq::empty()),
    {
        let none: Vec<String> = Vec::new();
        assert(strings_view(none) =~= Seq::<Seq<char>>::empty());
        Bindings::with_templates(none)
    }
}

} // verus!
