//! Backend-private monomorphization.
//!
//! Consumes verified, drop-elaborated MIR and returns an owned entry-rooted
//! concrete graph. It never mutates the canonical MIR artifact.

pub mod bindings;
pub mod bodies;
pub mod call_laws;
pub mod discover;
pub mod discover_laws;
pub mod facts;
pub mod function;
pub mod function_laws;
pub mod growth;
pub mod infer;
pub mod instances;
pub mod laws;
pub mod requests;
pub mod retarget;
pub mod retarget_laws;
pub mod rewrite;
pub mod rewrite_laws;
pub mod rules;
pub mod specialize;
pub mod subst;
pub mod unify;

use crate::data::{copy_opt_string, same_opt_string};
use vstd::prelude::*;

verus! {

/// A source-template-oriented specialization failure.
#[derive(Debug, PartialEq, Eq)]
pub struct MonoError {
    pub function: Option<String>,
    pub construct: String,
}

/// Mathematical model of [`MonoError`].
#[verifier::ext_equal]
pub struct MonoErrorModel {
    pub function: Option<Seq<char>>,
    pub construct: Seq<char>,
}

/// The model of a [`MonoError`].
pub open spec fn mono_error_view(x: MonoError) -> MonoErrorModel
    decreases x,
{
    MonoErrorModel {
        function: match x.function { Some(x) => Some(x@), None => None },
        construct: x.construct@,
    }
}

impl View for MonoError {
    type V = MonoErrorModel;

    open spec fn view(&self) -> MonoErrorModel {
        mono_error_view(*self)
    }
}

impl MonoError {
    /// A structural copy.
    pub fn copy(&self) -> (r: MonoError)
        ensures
            r@ == self@,
        decreases self,
    {
        MonoError {
            function: copy_opt_string(&self.function),
            construct: self.construct.clone(),
        }
    }

    /// Structural equality.
    pub fn same(&self, other: &MonoError) -> (r: bool)
        ensures
            r == (self@ == other@),
        decreases self,
    {
        same_opt_string(&self.function, &other.function)
            && self.construct == other.construct
    }
}

impl Clone for MonoError {
    fn clone(&self) -> (r: MonoError)
        ensures
            r@ == self@,
    {
        self.copy()
    }
}

} // verus!
