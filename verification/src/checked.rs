//! Facts that checking attaches to calls.

use crate::origin::{RefTy, RefTyModel, copy_opt_ref_ty, ref_ty_view, same_opt_ref_ty};
use crate::types::{Ty, TyModel, copy_opt_ty, same_opt_ty, ty_view};
use vstd::prelude::*;

verus! {

/// How a loop takes its source.
#[derive(Debug, Clone, Copy, PartialEq, Eq, Hash, Structural)]
pub enum IterationMode {
    Borrowed,
    Owned,
}

/// A conversion of a call result that the checker selected.
#[derive(Debug, Clone, Copy, PartialEq, Eq, Hash, Structural)]
pub enum CheckedResultAdapter {
    CopyIteratorReference,
}

/// Where a selected call takes one argument from.
#[derive(Debug, Clone, Copy, PartialEq, Eq, Hash, Structural)]
pub enum CheckedCallArgumentSource {
    Positional(usize),
    Keyword(usize),
    Default,
}

/// A checked call of an iterator protocol operation.
#[derive(Debug, PartialEq, Eq)]
pub struct CheckedIteratorCall {
    pub target: String,
    pub result_ty: Ty,
    pub raises: Option<Ty>,
    pub reference_result: Option<RefTy>,
    pub result_adapter: Option<CheckedResultAdapter>,
}

/// Mathematical model of [`CheckedIteratorCall`].
#[verifier::ext_equal]
pub struct CheckedIteratorCallModel {
    pub target: Seq<char>,
    pub result_ty: TyModel,
    pub raises: Option<TyModel>,
    pub reference_result: Option<RefTyModel>,
    pub result_adapter: Option<CheckedResultAdapter>,
}

/// The model of a [`CheckedIteratorCall`].
pub open spec fn checked_iterator_call_view(x: CheckedIteratorCall) -> CheckedIteratorCallModel
    decreases x,
{
    CheckedIteratorCallModel {
        target: x.target@,
        result_ty: ty_view(x.result_ty),
        raises: match x.raises { Some(x) => Some(ty_view(x)), None => None },
        reference_result: match x.reference_result { Some(x) => Some(ref_ty_view(x)), None => None },
        result_adapter: x.result_adapter,
    }
}

impl View for CheckedIteratorCall {
    type V = CheckedIteratorCallModel;

    open spec fn view(&self) -> CheckedIteratorCallModel {
        checked_iterator_call_view(*self)
    }
}

impl CheckedIteratorCall {
    /// A structural copy.
    pub fn copy(&self) -> (r: CheckedIteratorCall)
        ensures
            r@ == self@,
        decreases self,
    {
        CheckedIteratorCall {
            target: self.target.clone(),
            result_ty: self.result_ty.copy(),
            raises: copy_opt_ty(&self.raises),
            reference_result: copy_opt_ref_ty(&self.reference_result),
            result_adapter: self.result_adapter,
        }
    }

    /// Structural equality.
    pub fn same(&self, other: &CheckedIteratorCall) -> (r: bool)
        ensures
            r == (self@ == other@),
        decreases self,
    {
        self.target == other.target
            && self.result_ty.same(&other.result_ty)
            && same_opt_ty(&self.raises, &other.raises)
            && same_opt_ref_ty(&self.reference_result, &other.reference_result)
            && self.result_adapter == other.result_adapter
    }
}

impl Clone for CheckedIteratorCall {
    fn clone(&self) -> (r: CheckedIteratorCall)
        ensures
            r@ == self@,
    {
        self.copy()
    }
}

/// Model of an `Option<CheckedIteratorCall>`.
pub open spec fn opt_checked_iterator_call_view(
    v: Option<CheckedIteratorCall>
) -> Option<CheckedIteratorCallModel> {
    match v {
        Some(x) => Some(checked_iterator_call_view(x)),
        None => None,
    }
}

pub fn copy_opt_checked_iterator_call(v: &Option<CheckedIteratorCall>) -> (r: Option<CheckedIteratorCall>)
    ensures
        opt_checked_iterator_call_view(r) == opt_checked_iterator_call_view(*v),
    decreases v,
{
    match v {
        Some(x) => Some(x.copy()),
        None => None,
    }
}

} // verus!
