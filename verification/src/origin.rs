//! Canonical checked representation for origins and reference permissions.
//!
//! Past the checker boundary, origins use stable binding identities and
//! deliberately lose source names.

use crate::native::mono::facts::Bound;
use crate::order::{
    Order, bool_order, flip, int_order, lemma_lower, lemma_lower_unique, lemma_put_sorted,
    lemma_sorted_set, lemma_sorted_set_order_free, lemma_str_order, lemma_strictly_sorted_unique,
    lower, order_bool, order_str, order_u64, put_sorted, sorted_set, str_order, strict_total,
    strictly_sorted, then_order,
};
use crate::text::{cat2, cat3, cat4, concat, dec, dec_text, join, join_push, lemma_concat_push};
use crate::types::{Ty, TyModel, ty_view};
use vstd::prelude::*;

verus! {

/// Stable identity of a value binding in one checker run.
#[derive(Debug, Clone, Copy, PartialEq, Eq, PartialOrd, Ord, Hash, Structural)]
pub struct OwnerId(pub u32);

/// Stable identity of a declared or inferred origin parameter.
#[derive(Debug, Clone, Copy, PartialEq, Eq, PartialOrd, Ord, Hash, Structural)]
pub struct OriginParamId(pub u32);

/// Stable identity of an `OriginSet` parameter appearing in a callable
/// environment contract: the declaration-order identity, not a source spelling.
#[derive(Debug, Clone, Copy, PartialEq, Eq, PartialOrd, Ord, Hash, Structural)]
pub struct CaptureSetParamId(pub u32);

/// One projection step within an origin-tracked place.
#[derive(Debug, PartialEq, Eq)]
pub enum OriginSeg {
    /// A named struct field.
    Field(String),
    /// An index whose value is not part of the static origin identity.
    AnyIndex,
    /// Storage owned behind a container, identified by a compile-time tag.
    Interior(String),
    /// Everything below: the conservative end of a path.
    Subtree,
}

/// Mathematical model of [`OriginSeg`].
#[verifier::ext_equal]
pub enum OriginSegModel {
    Field(Seq<char>),
    AnyIndex,
    Interior(Seq<char>),
    Subtree,
}

/// Stable owner plus its statically known projection path.
#[derive(Debug, PartialEq, Eq)]
pub struct OriginPlace {
    pub root: OwnerId,
    pub path: Vec<OriginSeg>,
}

/// Mathematical model of [`OriginPlace`].
#[verifier::ext_equal]
pub struct OriginPlaceModel {
    pub root: OwnerId,
    pub path: Seq<OriginSegModel>,
}

/// Canonical checked description of storage a reference may designate.
#[derive(Debug, PartialEq, Eq)]
pub enum Origin {
    Param(OriginParamId),
    Place(OriginPlace),
    Union(Vec<Origin>),
    Static,
    Untracked { mutable: bool },
}

/// Mathematical model of [`Origin`].
#[verifier::ext_equal]
pub enum OriginModel {
    Param(OriginParamId),
    Place(OriginPlaceModel),
    Union(Seq<OriginModel>),
    Static,
    Untracked { mutable: bool },
}

/// Access performed through one captured origin when a callable is invoked.
#[derive(Debug, Clone, Copy, PartialEq, Eq, PartialOrd, Ord, Hash, Structural)]
pub enum CaptureAccess {
    Read,
    Write,
}

/// One canonical concrete dependency in a capturing callable environment.
#[derive(Debug, PartialEq, Eq)]
pub struct CaptureOrigin {
    pub origin: Origin,
    pub access: CaptureAccess,
}

/// Mathematical model of [`CaptureOrigin`].
#[verifier::ext_equal]
pub struct CaptureOriginModel {
    pub origin: OriginModel,
    pub access: CaptureAccess,
}

/// The origin dependencies of a parametric capturing callable.
#[derive(Debug, PartialEq, Eq)]
pub enum CaptureOriginSet {
    /// The checked placeholder introduced by `capturing[_]`.
    Infer,
    /// A source `OriginSet` binder after resolution.
    Param(CaptureSetParamId),
    /// The canonical set attached to a materialized environment.
    Concrete(Vec<CaptureOrigin>),
}

/// Mathematical model of [`CaptureOriginSet`].
#[verifier::ext_equal]
pub enum CaptureOriginSetModel {
    Infer,
    Param(CaptureSetParamId),
    Concrete(Seq<CaptureOriginModel>),
}

/// How a checked callable relates to an environment.
#[derive(Debug, PartialEq, Eq)]
pub enum CallableEnvironment {
    /// The unqualified `def(...)` callable constraint.
    Default,
    /// An explicitly non-capturing function.
    Thin,
    /// A function that retains its `OriginSet` contract.
    Capturing(CaptureOriginSet),
}

/// Mathematical model of [`CallableEnvironment`].
#[verifier::ext_equal]
pub enum CallableEnvironmentModel {
    Default,
    Thin,
    Capturing(CaptureOriginSetModel),
}

/// Permission available through a checked reference.
#[derive(Debug, Clone, Copy, PartialEq, Eq, Hash, Structural)]
pub enum Mutability {
    Immutable,
    Mutable,
    Param(OriginParamId),
}

/// Provenance retained by an origin-bearing unsafe pointer type.
#[derive(Debug, PartialEq, Eq)]
pub enum PointerOrigin {
    /// The one-argument compatibility spelling.
    Legacy,
    Place { place: OriginPlace, mutable: bool },
    Param { id: OriginParamId, mutability: Mutability },
    Static,
    Untracked { mutable: bool },
    UnsafeAny { mutable: bool },
}

/// Mathematical model of [`PointerOrigin`].
#[verifier::ext_equal]
pub enum PointerOriginModel {
    Legacy,
    Place { place: OriginPlaceModel, mutable: bool },
    Param { id: OriginParamId, mutability: Mutability },
    Static,
    Untracked { mutable: bool },
    UnsafeAny { mutable: bool },
}

/// Checked reference type: referent, storage origin, and access permission.
#[derive(Debug, PartialEq, Eq)]
pub struct RefTy {
    pub referent: Box<Ty>,
    pub origin: Origin,
    pub mutability: Mutability,
}

/// Mathematical model of [`RefTy`].
#[verifier::ext_equal]
pub struct RefTyModel {
    pub referent: Box<TyModel>,
    pub origin: OriginModel,
    pub mutability: Mutability,
}

/// An origin in a callable contract: roots name parameter slots rather than
/// checker-local bindings.
#[derive(Debug, PartialEq, Eq)]
pub enum SigOrigin {
    Self_,
    Param(usize),
    /// A concrete caller-side origin captured by an explicitly specialized
    /// function value.
    Bound(Origin),
    Static,
    Untracked { mutable: bool },
    Projected(Box<SigOrigin>, Vec<OriginSeg>),
    Union(Vec<SigOrigin>),
    Infer,
}

/// Mathematical model of [`SigOrigin`].
#[verifier::ext_equal]
pub enum SigOriginModel {
    Self_,
    Param(usize),
    Bound(OriginModel),
    Static,
    Untracked { mutable: bool },
    Projected(Box<SigOriginModel>, Seq<OriginSegModel>),
    Union(Seq<SigOriginModel>),
    Infer,
}

/// Mutability component of a callable reference contract.
#[derive(Debug, Clone, Copy, PartialEq, Eq, Hash, Structural)]
pub enum SigMutability {
    Immutable,
    Mutable,
    /// Position of the compile-time `Bool` binder controlling an origin's
    /// mutability.
    BoolParam(usize),
    Infer,
}

/// Reference result or parameter contract retained in a callable signature.
#[derive(Debug, PartialEq, Eq)]
pub struct RefSig {
    pub origin: SigOrigin,
    pub mutability: SigMutability,
}

/// Mathematical model of [`RefSig`].
#[verifier::ext_equal]
pub struct RefSigModel {
    pub origin: SigOriginModel,
    pub mutability: SigMutability,
}

/// The model of a [`OriginSeg`].
pub open spec fn origin_seg_view(x: OriginSeg) -> OriginSegModel
    decreases x,
{
    match x {
        OriginSeg::Field(a0) => OriginSegModel::Field(a0@),
        OriginSeg::AnyIndex => OriginSegModel::AnyIndex,
        OriginSeg::Interior(a0) => OriginSegModel::Interior(a0@),
        OriginSeg::Subtree => OriginSegModel::Subtree,
    }
}

impl View for OriginSeg {
    type V = OriginSegModel;

    open spec fn view(&self) -> OriginSegModel {
        origin_seg_view(*self)
    }
}

impl OriginSeg {
    /// A structural copy.
    pub fn copy(&self) -> (r: OriginSeg)
        ensures
            r@ == self@,
        decreases self,
    {
        match self {
            OriginSeg::Field(a0) => OriginSeg::Field(a0.clone()),
            OriginSeg::AnyIndex => OriginSeg::AnyIndex,
            OriginSeg::Interior(a0) => OriginSeg::Interior(a0.clone()),
            OriginSeg::Subtree => OriginSeg::Subtree,
        }
    }

    /// Structural equality.
    pub fn same(&self, other: &OriginSeg) -> (r: bool)
        ensures
            r == (self@ == other@),
        decreases self,
    {
        match self {
            OriginSeg::Field(a0) => match other {
                OriginSeg::Field(a02) => *a0 == *a02,
                _ => false,
            },
            OriginSeg::AnyIndex => match other { OriginSeg::AnyIndex => true, _ => false },
            OriginSeg::Interior(a0) => match other {
                OriginSeg::Interior(a02) => *a0 == *a02,
                _ => false,
            },
            OriginSeg::Subtree => match other { OriginSeg::Subtree => true, _ => false },
        }
    }
}

impl Clone for OriginSeg {
    fn clone(&self) -> (r: OriginSeg)
        ensures
            r@ == self@,
    {
        self.copy()
    }
}

/// The model of a [`OriginPlace`].
pub open spec fn origin_place_view(x: OriginPlace) -> OriginPlaceModel
    decreases x,
{
    OriginPlaceModel {
        root: x.root,
        path: origin_segs_view(x.path),
    }
}

impl View for OriginPlace {
    type V = OriginPlaceModel;

    open spec fn view(&self) -> OriginPlaceModel {
        origin_place_view(*self)
    }
}

impl OriginPlace {
    /// A structural copy.
    pub fn copy(&self) -> (r: OriginPlace)
        ensures
            r@ == self@,
        decreases self,
    {
        OriginPlace {
            root: self.root,
            path: copy_origin_segs(&self.path),
        }
    }

    /// Structural equality.
    pub fn same(&self, other: &OriginPlace) -> (r: bool)
        ensures
            r == (self@ == other@),
        decreases self,
    {
        self.root == other.root
            && same_origin_segs(&self.path, &other.path)
    }
}

impl Clone for OriginPlace {
    fn clone(&self) -> (r: OriginPlace)
        ensures
            r@ == self@,
    {
        self.copy()
    }
}

/// The model of a [`Origin`].
pub open spec fn origin_view(x: Origin) -> OriginModel
    decreases x,
{
    match x {
        Origin::Param(a0) => OriginModel::Param(a0),
        Origin::Place(a0) => OriginModel::Place(origin_place_view(a0)),
        Origin::Union(a0) => OriginModel::Union(origins_view(a0)),
        Origin::Static => OriginModel::Static,
        Origin::Untracked { mutable } => OriginModel::Untracked { mutable },
    }
}

impl View for Origin {
    type V = OriginModel;

    open spec fn view(&self) -> OriginModel {
        origin_view(*self)
    }
}

impl Origin {
    /// A structural copy.
    pub fn copy(&self) -> (r: Origin)
        ensures
            r@ == self@,
        decreases self,
    {
        match self {
            Origin::Param(a0) => Origin::Param(*a0),
            Origin::Place(a0) => Origin::Place(a0.copy()),
            Origin::Union(a0) => Origin::Union(copy_origins(a0)),
            Origin::Static => Origin::Static,
            Origin::Untracked { mutable } => Origin::Untracked { mutable: *mutable },
        }
    }

    /// Structural equality.
    pub fn same(&self, other: &Origin) -> (r: bool)
        ensures
            r == (self@ == other@),
        decreases self,
    {
        match self {
            Origin::Param(a0) => match other {
                Origin::Param(a02) => *a0 == *a02,
                _ => false,
            },
            Origin::Place(a0) => match other {
                Origin::Place(a02) => a0.same(a02),
                _ => false,
            },
            Origin::Union(a0) => match other {
                Origin::Union(a02) => same_origins(a0, a02),
                _ => false,
            },
            Origin::Static => match other { Origin::Static => true, _ => false },
            Origin::Untracked { mutable } => match other {
                Origin::Untracked { mutable: mutable2 } => *mutable == *mutable2,
                _ => false,
            },
        }
    }
}

impl Clone for Origin {
    fn clone(&self) -> (r: Origin)
        ensures
            r@ == self@,
    {
        self.copy()
    }
}

/// The model of a [`CaptureOrigin`].
pub open spec fn capture_origin_view(x: CaptureOrigin) -> CaptureOriginModel
    decreases x,
{
    CaptureOriginModel {
        origin: origin_view(x.origin),
        access: x.access,
    }
}

impl View for CaptureOrigin {
    type V = CaptureOriginModel;

    open spec fn view(&self) -> CaptureOriginModel {
        capture_origin_view(*self)
    }
}

impl CaptureOrigin {
    /// A structural copy.
    pub fn copy(&self) -> (r: CaptureOrigin)
        ensures
            r@ == self@,
        decreases self,
    {
        CaptureOrigin {
            origin: self.origin.copy(),
            access: self.access,
        }
    }

    /// Structural equality.
    pub fn same(&self, other: &CaptureOrigin) -> (r: bool)
        ensures
            r == (self@ == other@),
        decreases self,
    {
        self.origin.same(&other.origin)
            && self.access == other.access
    }
}

impl Clone for CaptureOrigin {
    fn clone(&self) -> (r: CaptureOrigin)
        ensures
            r@ == self@,
    {
        self.copy()
    }
}

/// The model of a [`CaptureOriginSet`].
pub open spec fn capture_origin_set_view(x: CaptureOriginSet) -> CaptureOriginSetModel
    decreases x,
{
    match x {
        CaptureOriginSet::Infer => CaptureOriginSetModel::Infer,
        CaptureOriginSet::Param(a0) => CaptureOriginSetModel::Param(a0),
        CaptureOriginSet::Concrete(a0) => CaptureOriginSetModel::Concrete(capture_origins_view(a0)),
    }
}

impl View for CaptureOriginSet {
    type V = CaptureOriginSetModel;

    open spec fn view(&self) -> CaptureOriginSetModel {
        capture_origin_set_view(*self)
    }
}

impl CaptureOriginSet {
    /// A structural copy.
    pub fn copy(&self) -> (r: CaptureOriginSet)
        ensures
            r@ == self@,
        decreases self,
    {
        match self {
            CaptureOriginSet::Infer => CaptureOriginSet::Infer,
            CaptureOriginSet::Param(a0) => CaptureOriginSet::Param(*a0),
            CaptureOriginSet::Concrete(a0) => CaptureOriginSet::Concrete(copy_capture_origins(a0)),
        }
    }

    /// Structural equality.
    pub fn same(&self, other: &CaptureOriginSet) -> (r: bool)
        ensures
            r == (self@ == other@),
        decreases self,
    {
        match self {
            CaptureOriginSet::Infer => match other { CaptureOriginSet::Infer => true, _ => false },
            CaptureOriginSet::Param(a0) => match other {
                CaptureOriginSet::Param(a02) => *a0 == *a02,
                _ => false,
            },
            CaptureOriginSet::Concrete(a0) => match other {
                CaptureOriginSet::Concrete(a02) => same_capture_origins(a0, a02),
                _ => false,
            },
        }
    }
}

impl Clone for CaptureOriginSet {
    fn clone(&self) -> (r: CaptureOriginSet)
        ensures
            r@ == self@,
    {
        self.copy()
    }
}

/// The model of a [`CallableEnvironment`].
pub open spec fn callable_environment_view(x: CallableEnvironment) -> CallableEnvironmentModel
    decreases x,
{
    match x {
        CallableEnvironment::Default => CallableEnvironmentModel::Default,
        CallableEnvironment::Thin => CallableEnvironmentModel::Thin,
        CallableEnvironment::Capturing(a0) => CallableEnvironmentModel::Capturing(capture_origin_set_view(a0)),
    }
}

impl View for CallableEnvironment {
    type V = CallableEnvironmentModel;

    open spec fn view(&self) -> CallableEnvironmentModel {
        callable_environment_view(*self)
    }
}

impl CallableEnvironment {
    /// A structural copy.
    pub fn copy(&self) -> (r: CallableEnvironment)
        ensures
            r@ == self@,
        decreases self,
    {
        match self {
            CallableEnvironment::Default => CallableEnvironment::Default,
            CallableEnvironment::Thin => CallableEnvironment::Thin,
            CallableEnvironment::Capturing(a0) => CallableEnvironment::Capturing(a0.copy()),
        }
    }

    /// Structural equality.
    pub fn same(&self, other: &CallableEnvironment) -> (r: bool)
        ensures
            r == (self@ == other@),
        decreases self,
    {
        match self {
            CallableEnvironment::Default => match other { CallableEnvironment::Default => true, _ => false },
            CallableEnvironment::Thin => match other { CallableEnvironment::Thin => true, _ => false },
            CallableEnvironment::Capturing(a0) => match other {
                CallableEnvironment::Capturing(a02) => a0.same(a02),
                _ => false,
            },
        }
    }
}

impl Clone for CallableEnvironment {
    fn clone(&self) -> (r: CallableEnvironment)
        ensures
            r@ == self@,
    {
        self.copy()
    }
}

/// The model of a [`PointerOrigin`].
pub open spec fn pointer_origin_view(x: PointerOrigin) -> PointerOriginModel
    decreases x,
{
    match x {
        PointerOrigin::Legacy => PointerOriginModel::Legacy,
        PointerOrigin::Place { place, mutable } => PointerOriginModel::Place {
            place: origin_place_view(place),
            mutable,
        },
        PointerOrigin::Param { id, mutability } => PointerOriginModel::Param { id, mutability },
        PointerOrigin::Static => PointerOriginModel::Static,
        PointerOrigin::Untracked { mutable } => PointerOriginModel::Untracked { mutable },
        PointerOrigin::UnsafeAny { mutable } => PointerOriginModel::UnsafeAny { mutable },
    }
}

impl View for PointerOrigin {
    type V = PointerOriginModel;

    open spec fn view(&self) -> PointerOriginModel {
        pointer_origin_view(*self)
    }
}

impl PointerOrigin {
    /// A structural copy.
    pub fn copy(&self) -> (r: PointerOrigin)
        ensures
            r@ == self@,
        decreases self,
    {
        match self {
            PointerOrigin::Legacy => PointerOrigin::Legacy,
            PointerOrigin::Place { place, mutable } => PointerOrigin::Place {
                place: place.copy(),
                mutable: *mutable,
            },
            PointerOrigin::Param { id, mutability } => PointerOrigin::Param {
                id: *id,
                mutability: *mutability,
            },
            PointerOrigin::Static => PointerOrigin::Static,
            PointerOrigin::Untracked { mutable } => PointerOrigin::Untracked { mutable: *mutable },
            PointerOrigin::UnsafeAny { mutable } => PointerOrigin::UnsafeAny { mutable: *mutable },
        }
    }

    /// Structural equality.
    pub fn same(&self, other: &PointerOrigin) -> (r: bool)
        ensures
            r == (self@ == other@),
        decreases self,
    {
        match self {
            PointerOrigin::Legacy => match other { PointerOrigin::Legacy => true, _ => false },
            PointerOrigin::Place { place, mutable } => match other {
                PointerOrigin::Place {
                    place: place2,
                    mutable: mutable2,
                } => place.same(place2) && *mutable == *mutable2,
                _ => false,
            },
            PointerOrigin::Param { id, mutability } => match other {
                PointerOrigin::Param {
                    id: id2,
                    mutability: mutability2,
                } => *id == *id2 && *mutability == *mutability2,
                _ => false,
            },
            PointerOrigin::Static => match other { PointerOrigin::Static => true, _ => false },
            PointerOrigin::Untracked { mutable } => match other {
                PointerOrigin::Untracked { mutable: mutable2 } => *mutable == *mutable2,
                _ => false,
            },
            PointerOrigin::UnsafeAny { mutable } => match other {
                PointerOrigin::UnsafeAny { mutable: mutable2 } => *mutable == *mutable2,
                _ => false,
            },
        }
    }
}

impl Clone for PointerOrigin {
    fn clone(&self) -> (r: PointerOrigin)
        ensures
            r@ == self@,
    {
        self.copy()
    }
}

/// The model of a [`RefTy`].
pub open spec fn ref_ty_view(x: RefTy) -> RefTyModel
    decreases x,
{
    RefTyModel {
        referent: Box::new(ty_view(*x.referent)),
        origin: origin_view(x.origin),
        mutability: x.mutability,
    }
}

impl View for RefTy {
    type V = RefTyModel;

    open spec fn view(&self) -> RefTyModel {
        ref_ty_view(*self)
    }
}

impl RefTy {
    /// A structural copy.
    pub fn copy(&self) -> (r: RefTy)
        ensures
            r@ == self@,
        decreases self,
    {
        RefTy {
            referent: Box::new(self.referent.copy()),
            origin: self.origin.copy(),
            mutability: self.mutability,
        }
    }

    /// Structural equality.
    pub fn same(&self, other: &RefTy) -> (r: bool)
        ensures
            r == (self@ == other@),
        decreases self,
    {
        self.referent.same(&other.referent)
            && self.origin.same(&other.origin)
            && self.mutability == other.mutability
    }
}

impl Clone for RefTy {
    fn clone(&self) -> (r: RefTy)
        ensures
            r@ == self@,
    {
        self.copy()
    }
}

/// The model of a [`SigOrigin`].
pub open spec fn sig_origin_view(x: SigOrigin) -> SigOriginModel
    decreases x,
{
    match x {
        SigOrigin::Self_ => SigOriginModel::Self_,
        SigOrigin::Param(a0) => SigOriginModel::Param(a0),
        SigOrigin::Bound(a0) => SigOriginModel::Bound(origin_view(a0)),
        SigOrigin::Static => SigOriginModel::Static,
        SigOrigin::Untracked { mutable } => SigOriginModel::Untracked { mutable },
        SigOrigin::Projected(a0, a1) => SigOriginModel::Projected(
            Box::new(sig_origin_view(*a0)),
            origin_segs_view(a1),
        ),
        SigOrigin::Union(a0) => SigOriginModel::Union(sig_origins_view(a0)),
        SigOrigin::Infer => SigOriginModel::Infer,
    }
}

impl View for SigOrigin {
    type V = SigOriginModel;

    open spec fn view(&self) -> SigOriginModel {
        sig_origin_view(*self)
    }
}

impl SigOrigin {
    /// A structural copy.
    pub fn copy(&self) -> (r: SigOrigin)
        ensures
            r@ == self@,
        decreases self,
    {
        match self {
            SigOrigin::Self_ => SigOrigin::Self_,
            SigOrigin::Param(a0) => SigOrigin::Param(*a0),
            SigOrigin::Bound(a0) => SigOrigin::Bound(a0.copy()),
            SigOrigin::Static => SigOrigin::Static,
            SigOrigin::Untracked { mutable } => SigOrigin::Untracked { mutable: *mutable },
            SigOrigin::Projected(a0, a1) => SigOrigin::Projected(Box::new(a0.copy()), copy_origin_segs(a1)),
            SigOrigin::Union(a0) => SigOrigin::Union(copy_sig_origins(a0)),
            SigOrigin::Infer => SigOrigin::Infer,
        }
    }

    /// Structural equality.
    pub fn same(&self, other: &SigOrigin) -> (r: bool)
        ensures
            r == (self@ == other@),
        decreases self,
    {
        match self {
            SigOrigin::Self_ => match other { SigOrigin::Self_ => true, _ => false },
            SigOrigin::Param(a0) => match other {
                SigOrigin::Param(a02) => *a0 == *a02,
                _ => false,
            },
            SigOrigin::Bound(a0) => match other {
                SigOrigin::Bound(a02) => a0.same(a02),
                _ => false,
            },
            SigOrigin::Static => match other { SigOrigin::Static => true, _ => false },
            SigOrigin::Untracked { mutable } => match other {
                SigOrigin::Untracked { mutable: mutable2 } => *mutable == *mutable2,
                _ => false,
            },
            SigOrigin::Projected(a0, a1) => match other {
                SigOrigin::Projected(a02, a12) => a0.same(a02) && same_origin_segs(a1, a12),
                _ => false,
            },
            SigOrigin::Union(a0) => match other {
                SigOrigin::Union(a02) => same_sig_origins(a0, a02),
                _ => false,
            },
            SigOrigin::Infer => match other { SigOrigin::Infer => true, _ => false },
        }
    }
}

impl Clone for SigOrigin {
    fn clone(&self) -> (r: SigOrigin)
        ensures
            r@ == self@,
    {
        self.copy()
    }
}

/// The model of a [`RefSig`].
pub open spec fn ref_sig_view(x: RefSig) -> RefSigModel
    decreases x,
{
    RefSigModel {
        origin: sig_origin_view(x.origin),
        mutability: x.mutability,
    }
}

impl View for RefSig {
    type V = RefSigModel;

    open spec fn view(&self) -> RefSigModel {
        ref_sig_view(*self)
    }
}

impl RefSig {
    /// A structural copy.
    pub fn copy(&self) -> (r: RefSig)
        ensures
            r@ == self@,
        decreases self,
    {
        RefSig {
            origin: self.origin.copy(),
            mutability: self.mutability,
        }
    }

    /// Structural equality.
    pub fn same(&self, other: &RefSig) -> (r: bool)
        ensures
            r == (self@ == other@),
        decreases self,
    {
        self.origin.same(&other.origin)
            && self.mutability == other.mutability
    }
}

impl Clone for RefSig {
    fn clone(&self) -> (r: RefSig)
        ensures
            r@ == self@,
    {
        self.copy()
    }
}

/// Model of a `Vec<OriginSeg>`.
pub open spec fn origin_segs_view(v: Vec<OriginSeg>) -> Seq<OriginSegModel>
    decreases v,
{
    Seq::new(v@.len(), |i: int| if 0 <= i < v@.len() { origin_seg_view(v@[i]) } else { arbitrary() })
}

pub fn copy_origin_segs(v: &Vec<OriginSeg>) -> (r: Vec<OriginSeg>)
    ensures
        origin_segs_view(r) == origin_segs_view(*v),
    decreases v,
{
    let mut out: Vec<OriginSeg> = Vec::new();
    for i in 0..v.len()
        invariant
            out@.len() == i,
            forall|j: int| 0 <= j < i ==> origin_segs_view(out)[j] == origin_segs_view(*v)[j],
    {
        let ghost before = out;
        out.push(v[i].copy());
        assert forall|j: int| 0 <= j < i + 1 implies origin_segs_view(out)[j] == origin_segs_view(*v)[j] by {
            if j < i {
                assert(out@[j] == before@[j]);
                assert(origin_segs_view(before)[j] == origin_segs_view(*v)[j]);
            }
        }
    }
    assert(origin_segs_view(out) =~= origin_segs_view(*v));
    out
}

pub fn same_origin_segs(a: &Vec<OriginSeg>, b: &Vec<OriginSeg>) -> (r: bool)
    ensures
        r == (origin_segs_view(*a) == origin_segs_view(*b)),
    decreases a,
{
    if a.len() != b.len() {
        assert(origin_segs_view(*a).len() != origin_segs_view(*b).len());
        return false;
    }
    for i in 0..a.len()
        invariant
            a@.len() == b@.len(),
            forall|j: int| 0 <= j < i ==> origin_segs_view(*a)[j] == origin_segs_view(*b)[j],
    {
        if !(a[i].same(&b[i])) {
            assert(origin_segs_view(*a)[i as int] != origin_segs_view(*b)[i as int]);
            return false;
        }
    }
    assert(origin_segs_view(*a) =~= origin_segs_view(*b));
    true
}

/// Model of a `Vec<Origin>`.
pub open spec fn origins_view(v: Vec<Origin>) -> Seq<OriginModel>
    decreases v,
{
    Seq::new(v@.len(), |i: int| if 0 <= i < v@.len() { origin_view(v@[i]) } else { arbitrary() })
}

pub fn copy_origins(v: &Vec<Origin>) -> (r: Vec<Origin>)
    ensures
        origins_view(r) == origins_view(*v),
    decreases v,
{
    let mut out: Vec<Origin> = Vec::new();
    for i in 0..v.len()
        invariant
            out@.len() == i,
            forall|j: int| 0 <= j < i ==> origins_view(out)[j] == origins_view(*v)[j],
    {
        let ghost before = out;
        out.push(v[i].copy());
        assert forall|j: int| 0 <= j < i + 1 implies origins_view(out)[j] == origins_view(*v)[j] by {
            if j < i {
                assert(out@[j] == before@[j]);
                assert(origins_view(before)[j] == origins_view(*v)[j]);
            }
        }
    }
    assert(origins_view(out) =~= origins_view(*v));
    out
}

pub fn same_origins(a: &Vec<Origin>, b: &Vec<Origin>) -> (r: bool)
    ensures
        r == (origins_view(*a) == origins_view(*b)),
    decreases a,
{
    if a.len() != b.len() {
        assert(origins_view(*a).len() != origins_view(*b).len());
        return false;
    }
    for i in 0..a.len()
        invariant
            a@.len() == b@.len(),
            forall|j: int| 0 <= j < i ==> origins_view(*a)[j] == origins_view(*b)[j],
    {
        if !(a[i].same(&b[i])) {
            assert(origins_view(*a)[i as int] != origins_view(*b)[i as int]);
            return false;
        }
    }
    assert(origins_view(*a) =~= origins_view(*b));
    true
}

/// Model of a `Vec<CaptureOrigin>`.
pub open spec fn capture_origins_view(v: Vec<CaptureOrigin>) -> Seq<CaptureOriginModel>
    decreases v,
{
    Seq::new(v@.len(), |i: int| if 0 <= i < v@.len() { capture_origin_view(v@[i]) } else { arbitrary() })
}

pub fn copy_capture_origins(v: &Vec<CaptureOrigin>) -> (r: Vec<CaptureOrigin>)
    ensures
        capture_origins_view(r) == capture_origins_view(*v),
    decreases v,
{
    let mut out: Vec<CaptureOrigin> = Vec::new();
    for i in 0..v.len()
        invariant
            out@.len() == i,
            forall|j: int| 0 <= j < i ==> capture_origins_view(out)[j] == capture_origins_view(*v)[j],
    {
        let ghost before = out;
        out.push(v[i].copy());
        assert forall|j: int| 0 <= j < i + 1 implies capture_origins_view(out)[j] == capture_origins_view(*v)[j] by {
            if j < i {
                assert(out@[j] == before@[j]);
                assert(capture_origins_view(before)[j] == capture_origins_view(*v)[j]);
            }
        }
    }
    assert(capture_origins_view(out) =~= capture_origins_view(*v));
    out
}

pub fn same_capture_origins(a: &Vec<CaptureOrigin>, b: &Vec<CaptureOrigin>) -> (r: bool)
    ensures
        r == (capture_origins_view(*a) == capture_origins_view(*b)),
    decreases a,
{
    if a.len() != b.len() {
        assert(capture_origins_view(*a).len() != capture_origins_view(*b).len());
        return false;
    }
    for i in 0..a.len()
        invariant
            a@.len() == b@.len(),
            forall|j: int| 0 <= j < i ==> capture_origins_view(*a)[j] == capture_origins_view(*b)[j],
    {
        if !(a[i].same(&b[i])) {
            assert(capture_origins_view(*a)[i as int] != capture_origins_view(*b)[i as int]);
            return false;
        }
    }
    assert(capture_origins_view(*a) =~= capture_origins_view(*b));
    true
}

/// Model of a `Vec<SigOrigin>`.
pub open spec fn sig_origins_view(v: Vec<SigOrigin>) -> Seq<SigOriginModel>
    decreases v,
{
    Seq::new(v@.len(), |i: int| if 0 <= i < v@.len() { sig_origin_view(v@[i]) } else { arbitrary() })
}

pub fn copy_sig_origins(v: &Vec<SigOrigin>) -> (r: Vec<SigOrigin>)
    ensures
        sig_origins_view(r) == sig_origins_view(*v),
    decreases v,
{
    let mut out: Vec<SigOrigin> = Vec::new();
    for i in 0..v.len()
        invariant
            out@.len() == i,
            forall|j: int| 0 <= j < i ==> sig_origins_view(out)[j] == sig_origins_view(*v)[j],
    {
        let ghost before = out;
        out.push(v[i].copy());
        assert forall|j: int| 0 <= j < i + 1 implies sig_origins_view(out)[j] == sig_origins_view(*v)[j] by {
            if j < i {
                assert(out@[j] == before@[j]);
                assert(sig_origins_view(before)[j] == sig_origins_view(*v)[j]);
            }
        }
    }
    assert(sig_origins_view(out) =~= sig_origins_view(*v));
    out
}

pub fn same_sig_origins(a: &Vec<SigOrigin>, b: &Vec<SigOrigin>) -> (r: bool)
    ensures
        r == (sig_origins_view(*a) == sig_origins_view(*b)),
    decreases a,
{
    if a.len() != b.len() {
        assert(sig_origins_view(*a).len() != sig_origins_view(*b).len());
        return false;
    }
    for i in 0..a.len()
        invariant
            a@.len() == b@.len(),
            forall|j: int| 0 <= j < i ==> sig_origins_view(*a)[j] == sig_origins_view(*b)[j],
    {
        if !(a[i].same(&b[i])) {
            assert(sig_origins_view(*a)[i as int] != sig_origins_view(*b)[i as int]);
            return false;
        }
    }
    assert(sig_origins_view(*a) =~= sig_origins_view(*b));
    true
}

/// Model of a `Vec<Option<RefSig>>`.
pub open spec fn opt_ref_sigs_view(v: Vec<Option<RefSig>>) -> Seq<Option<RefSigModel>>
    decreases v,
{
    Seq::new(
        v@.len(),
        |i: int| if 0 <= i < v@.len() { match v@[i] { Some(x) => Some(ref_sig_view(x)), None => None } } else { arbitrary() },
    )
}

pub fn copy_opt_ref_sigs(v: &Vec<Option<RefSig>>) -> (r: Vec<Option<RefSig>>)
    ensures
        opt_ref_sigs_view(r) == opt_ref_sigs_view(*v),
    decreases v,
{
    let mut out: Vec<Option<RefSig>> = Vec::new();
    for i in 0..v.len()
        invariant
            out@.len() == i,
            forall|j: int| 0 <= j < i ==> opt_ref_sigs_view(out)[j] == opt_ref_sigs_view(*v)[j],
    {
        let ghost before = out;
        out.push(copy_opt_ref_sig(&v[i]));
        assert forall|j: int| 0 <= j < i + 1 implies opt_ref_sigs_view(out)[j] == opt_ref_sigs_view(*v)[j] by {
            if j < i {
                assert(out@[j] == before@[j]);
                assert(opt_ref_sigs_view(before)[j] == opt_ref_sigs_view(*v)[j]);
            }
        }
    }
    assert(opt_ref_sigs_view(out) =~= opt_ref_sigs_view(*v));
    out
}

pub fn same_opt_ref_sigs(a: &Vec<Option<RefSig>>, b: &Vec<Option<RefSig>>) -> (r: bool)
    ensures
        r == (opt_ref_sigs_view(*a) == opt_ref_sigs_view(*b)),
    decreases a,
{
    if a.len() != b.len() {
        assert(opt_ref_sigs_view(*a).len() != opt_ref_sigs_view(*b).len());
        return false;
    }
    for i in 0..a.len()
        invariant
            a@.len() == b@.len(),
            forall|j: int| 0 <= j < i ==> opt_ref_sigs_view(*a)[j] == opt_ref_sigs_view(*b)[j],
    {
        if !(same_opt_ref_sig(&a[i], &b[i])) {
            assert(opt_ref_sigs_view(*a)[i as int] != opt_ref_sigs_view(*b)[i as int]);
            return false;
        }
    }
    assert(opt_ref_sigs_view(*a) =~= opt_ref_sigs_view(*b));
    true
}

/// Model of an `Option<Box<RefSig>>`.
pub open spec fn opt_boxed_ref_sig_view(v: Option<Box<RefSig>>) -> Option<Box<RefSigModel>> {
    match v {
        Some(x) => Some(Box::new(ref_sig_view(*x))),
        None => None,
    }
}

pub fn copy_opt_boxed_ref_sig(v: &Option<Box<RefSig>>) -> (r: Option<Box<RefSig>>)
    ensures
        opt_boxed_ref_sig_view(r) == opt_boxed_ref_sig_view(*v),
    decreases v,
{
    match v {
        Some(x) => Some(Box::new(x.copy())),
        None => None,
    }
}

pub fn same_opt_boxed_ref_sig(a: &Option<Box<RefSig>>, b: &Option<Box<RefSig>>) -> (r: bool)
    ensures
        r == (opt_boxed_ref_sig_view(*a) == opt_boxed_ref_sig_view(*b)),
    decreases a,
{
    match a {
        Some(x) => match b {
            Some(y) => x.same(y),
            None => false,
        },
        None => match b {
            Some(_) => false,
            None => true,
        },
    }
}

/// Model of an `Option<RefTy>`.
pub open spec fn opt_ref_ty_view(v: Option<RefTy>) -> Option<RefTyModel> {
    match v {
        Some(x) => Some(ref_ty_view(x)),
        None => None,
    }
}

pub fn copy_opt_ref_ty(v: &Option<RefTy>) -> (r: Option<RefTy>)
    ensures
        opt_ref_ty_view(r) == opt_ref_ty_view(*v),
    decreases v,
{
    match v {
        Some(x) => Some(x.copy()),
        None => None,
    }
}

pub fn same_opt_ref_ty(a: &Option<RefTy>, b: &Option<RefTy>) -> (r: bool)
    ensures
        r == (opt_ref_ty_view(*a) == opt_ref_ty_view(*b)),
    decreases a,
{
    match a {
        Some(x) => match b {
            Some(y) => x.same(y),
            None => false,
        },
        None => match b {
            Some(_) => false,
            None => true,
        },
    }
}

/// Model of an `Option<Origin>`.
pub open spec fn opt_origin_view(v: Option<Origin>) -> Option<OriginModel> {
    match v {
        Some(x) => Some(origin_view(x)),
        None => None,
    }
}

/// Model of an `Option<RefSig>`.
pub open spec fn opt_ref_sig_view(v: Option<RefSig>) -> Option<RefSigModel> {
    match v {
        Some(x) => Some(ref_sig_view(x)),
        None => None,
    }
}

pub fn copy_opt_ref_sig(v: &Option<RefSig>) -> (r: Option<RefSig>)
    ensures
        opt_ref_sig_view(r) == opt_ref_sig_view(*v),
    decreases v,
{
    match v {
        Some(x) => Some(x.copy()),
        None => None,
    }
}

pub fn same_opt_ref_sig(a: &Option<RefSig>, b: &Option<RefSig>) -> (r: bool)
    ensures
        r == (opt_ref_sig_view(*a) == opt_ref_sig_view(*b)),
    decreases a,
{
    match a {
        Some(x) => match b {
            Some(y) => x.same(y),
            None => false,
        },
        None => match b {
            Some(_) => false,
            None => true,
        },
    }
}

/// The place of a segment kind in the order.
pub open spec fn seg_rank(s: OriginSegModel) -> int {
    match s {
        OriginSegModel::Field(_) => 0,
        OriginSegModel::AnyIndex => 1,
        OriginSegModel::Interior(_) => 2,
        OriginSegModel::Subtree => 3,
    }
}

/// Comparing two segments: by kind, then by name.
pub open spec fn seg_order(a: OriginSegModel, b: OriginSegModel) -> Order {
    match (a, b) {
        (OriginSegModel::Field(x), OriginSegModel::Field(y)) => str_order(x, y),
        (OriginSegModel::Interior(x), OriginSegModel::Interior(y)) => str_order(x, y),
        _ => int_order(seg_rank(a), seg_rank(b)),
    }
}

/// Comparing two paths segment by segment; a prefix comes first.
pub open spec fn path_order(a: Seq<OriginSegModel>, b: Seq<OriginSegModel>) -> Order
    decreases a.len(),
{
    if a.len() == 0 {
        if b.len() == 0 { Order::Same } else { Order::Less }
    } else if b.len() == 0 {
        Order::Greater
    } else {
        then_order(seg_order(a[0], b[0]), path_order(a.skip(1), b.skip(1)))
    }
}

/// Comparing two places: by owner, then by path.
pub open spec fn place_order(a: OriginPlaceModel, b: OriginPlaceModel) -> Order {
    then_order(int_order(a.root.0 as int, b.root.0 as int), path_order(a.path, b.path))
}

/// The place of an origin kind in the order.
pub open spec fn origin_rank(o: OriginModel) -> int {
    match o {
        OriginModel::Param(_) => 0,
        OriginModel::Place(_) => 1,
        OriginModel::Static => 2,
        OriginModel::Untracked { .. } => 3,
        OriginModel::Union(_) => 4,
    }
}

/// Comparing two origins: by kind, then by content; unions by length, then member
/// by member.
pub open spec fn origin_order(a: OriginModel, b: OriginModel) -> Order
    decreases a, 0int,
{
    match (a, b) {
        (OriginModel::Param(x), OriginModel::Param(y)) => int_order(x.0 as int, y.0 as int),
        (OriginModel::Place(x), OriginModel::Place(y)) => place_order(x, y),
        (OriginModel::Untracked { mutable: x }, OriginModel::Untracked { mutable: y }) => bool_order(x, y),
        (OriginModel::Union(x), OriginModel::Union(y)) => then_order(
            int_order(x.len() as int, y.len() as int),
            origins_order(x, y),
        ),
        _ => int_order(origin_rank(a), origin_rank(b)),
    }
}

/// Comparing two lists member by member, as far as both go.
pub open spec fn origins_order(a: Seq<OriginModel>, b: Seq<OriginModel>) -> Order
    decreases a, 0int,
{
    if a.len() == 0 || b.len() == 0 {
        Order::Same
    } else {
        then_order(origins_order(a.drop_last(), b.drop_last()), origin_order(a.last(), b.last()))
    }
}

proof fn lemma_seg_order(a: OriginSegModel, b: OriginSegModel, c: OriginSegModel)
    ensures
        seg_order(a, b) is Same <==> a == b,
        seg_order(b, a) == flip(seg_order(a, b)),
        seg_order(a, b) is Less && seg_order(b, c) is Less ==> seg_order(a, c) is Less,
{
    let name = |s: OriginSegModel| match s {
        OriginSegModel::Field(x) => x,
        OriginSegModel::Interior(x) => x,
        _ => Seq::<char>::empty(),
    };
    lemma_str_order(name(a), name(b), name(c));
}

proof fn lemma_path_order(a: Seq<OriginSegModel>, b: Seq<OriginSegModel>, c: Seq<OriginSegModel>)
    ensures
        path_order(a, b) is Same <==> a == b,
        path_order(b, a) == flip(path_order(a, b)),
        path_order(a, b) is Less && path_order(b, c) is Less ==> path_order(a, c) is Less,
    decreases a.len(),
{
    if a.len() > 0 && b.len() > 0 {
        let c0 = if c.len() > 0 { c[0] } else { a[0] };
        let c1 = if c.len() > 0 { c.skip(1) } else { c };
        lemma_path_order(a.skip(1), b.skip(1), c1);
        lemma_seg_order(a[0], b[0], c0);
        lemma_seg_order(b[0], c0, c0);
        lemma_seg_order(a[0], c0, c0);
        if a[0] == b[0] && a.skip(1) == b.skip(1) {
            assert(a =~= seq![a[0]] + a.skip(1));
            assert(b =~= seq![b[0]] + b.skip(1));
        }
        if a == b {
            assert(a.skip(1) == b.skip(1));
        }
    } else if a.len() == 0 && b.len() == 0 {
        assert(a =~= b);
    }
}

proof fn lemma_place_order(a: OriginPlaceModel, b: OriginPlaceModel, c: OriginPlaceModel)
    ensures
        place_order(a, b) is Same <==> a == b,
        place_order(b, a) == flip(place_order(a, b)),
        place_order(a, b) is Less && place_order(b, c) is Less ==> place_order(a, c) is Less,
{
    lemma_path_order(a.path, b.path, c.path);
}

/// The order of origins is total: only equal origins compare the same, exchanging
/// them flips the outcome, and it is transitive.
pub proof fn law_origin_order_total(a: OriginModel, b: OriginModel, c: OriginModel)
    ensures
        origin_order(a, b) is Same <==> a == b,
        origin_order(b, a) == flip(origin_order(a, b)),
        origin_order(a, b) is Less && !(origin_order(b, c) is Greater) ==> origin_order(a, c) is Less,
    decreases a, 0int,
{
    let place = |o: OriginModel| match o {
        OriginModel::Place(p) => p,
        _ => OriginPlaceModel { root: OwnerId(0), path: Seq::empty() },
    };
    lemma_place_order(place(a), place(b), place(c));
    lemma_place_order(place(b), place(c), place(c));
    match (a, b) {
        (OriginModel::Union(x), OriginModel::Union(y)) => {
            if x.len() == y.len() {
                match c {
                    OriginModel::Union(z) if z.len() == x.len() => {
                        lemma_origins_order(x, y, z);
                    },
                    _ => {
                        lemma_origins_order(x, y, y);
                    },
                }
            }
        },
        _ => {},
    }
}

proof fn lemma_origins_order(a: Seq<OriginModel>, b: Seq<OriginModel>, c: Seq<OriginModel>)
    requires
        a.len() == b.len(),
        b.len() == c.len(),
    ensures
        origins_order(a, b) is Same <==> a == b,
        origins_order(b, a) == flip(origins_order(a, b)),
        origins_order(a, b) is Less && !(origins_order(b, c) is Greater) ==> origins_order(a, c) is Less,
    decreases a, 0int,
{
    if a.len() > 0 {
        lemma_origins_order(a.drop_last(), b.drop_last(), c.drop_last());
        law_origin_order_total(a.last(), b.last(), c.last());
        if a.drop_last() == b.drop_last() && a.last() == b.last() {
            assert(a =~= a.drop_last().push(a.last()));
            assert(b =~= b.drop_last().push(b.last()));
        }
        if a == b {
            assert(a.drop_last() == b.drop_last());
        }
    } else {
        assert(a =~= b);
    }
}

/// Whether one origin comes before another.
pub open spec fn origin_less() -> spec_fn(OriginModel, OriginModel) -> bool {
    |a: OriginModel, b: OriginModel| origin_order(a, b) is Less
}

proof fn lemma_origin_less()
    ensures
        strict_total(origin_less()),
{
    let less = origin_less();
    assert forall|a: OriginModel, b: OriginModel| #[trigger] less(a, b) implies a != b && !less(b, a) by {
        law_origin_order_total(a, b, b);
    }
    assert forall|a: OriginModel, b: OriginModel| a == b || #[trigger] less(a, b) || less(b, a) by {
        law_origin_order_total(a, b, b);
    }
    assert forall|a: OriginModel, b: OriginModel, c: OriginModel| #[trigger] less(a, b) && #[trigger] less(b, c) implies less(
        a,
        c,
    ) by {
        law_origin_order_total(a, b, c);
    }
}

fn order_seg(a: &OriginSeg, b: &OriginSeg) -> (r: Order)
    ensures
        r == seg_order(a@, b@),
{
    match (a, b) {
        (OriginSeg::Field(x), OriginSeg::Field(y)) => order_str(x, y),
        (OriginSeg::Interior(x), OriginSeg::Interior(y)) => order_str(x, y),
        (OriginSeg::AnyIndex, OriginSeg::AnyIndex) => Order::Same,
        (OriginSeg::Field(_), _) => Order::Less,
        (_, OriginSeg::Field(_)) => Order::Greater,
        (OriginSeg::AnyIndex, _) => Order::Less,
        (_, OriginSeg::AnyIndex) => Order::Greater,
        (OriginSeg::Subtree, OriginSeg::Subtree) => Order::Same,
        (OriginSeg::Interior(_), OriginSeg::Subtree) => Order::Less,
        (OriginSeg::Subtree, OriginSeg::Interior(_)) => Order::Greater,
    }
}

fn order_path(a: &Vec<OriginSeg>, b: &Vec<OriginSeg>) -> (r: Order)
    ensures
        r == path_order(origin_segs_view(*a), origin_segs_view(*b)),
{
    let ghost (x, y) = (origin_segs_view(*a), origin_segs_view(*b));
    let mut i: usize = 0;
    assert(x.skip(0) =~= x);
    assert(y.skip(0) =~= y);
    loop
        invariant
            x == origin_segs_view(*a),
            y == origin_segs_view(*b),
            i <= a@.len(),
            i <= b@.len(),
            path_order(x, y) == path_order(x.skip(i as int), y.skip(i as int)),
        decreases a@.len() - i,
    {
        if i == a.len() {
            return if i == b.len() { Order::Same } else { Order::Less };
        }
        if i == b.len() {
            return Order::Greater;
        }
        let o: Order = order_seg(&a[i], &b[i]);
        if o != Order::Same {
            return o;
        }
        assert(x.skip(i as int).skip(1) =~= x.skip(i + 1));
        assert(y.skip(i as int).skip(1) =~= y.skip(i + 1));
        i = i + 1;
    }
}

fn rank_of_origin(o: &Origin) -> (r: u64)
    ensures
        r == origin_rank(o@),
{
    match o {
        Origin::Param(_) => 0,
        Origin::Place(_) => 1,
        Origin::Static => 2,
        Origin::Untracked { .. } => 3,
        Origin::Union(_) => 4,
    }
}

fn order_origin_list(a: &Vec<Origin>, b: &Vec<Origin>) -> (r: Order)
    requires
        a@.len() == b@.len(),
    ensures
        r == origins_order(origins_view(*a), origins_view(*b)),
    decreases a, 0int,
{
    let ghost (x, y) = (origins_view(*a), origins_view(*b));
    for i in 0..a.len()
        invariant
            x == origins_view(*a),
            y == origins_view(*b),
            a@.len() == b@.len(),
            origins_order(x.take(i as int), y.take(i as int)) is Same,
    {
        let o: Order = order_origins(&a[i], &b[i]);
        proof {
            assert(x.take(i + 1).drop_last() =~= x.take(i as int));
            assert(y.take(i + 1).drop_last() =~= y.take(i as int));
        }
        if o != Order::Same {
            proof {
                lemma_origins_order_prefix(x, y, i + 1);
            }
            return o;
        }
    }
    proof {
        assert(x.take(x.len() as int) =~= x);
        assert(y.take(y.len() as int) =~= y);
    }
    Order::Same
}

proof fn lemma_origins_order_prefix(x: Seq<OriginModel>, y: Seq<OriginModel>, n: int)
    requires
        x.len() == y.len(),
        0 <= n <= x.len(),
        !(origins_order(x.take(n), y.take(n)) is Same),
    ensures
        origins_order(x, y) == origins_order(x.take(n), y.take(n)),
    decreases x.len(),
{
    if n == x.len() {
        assert(x.take(n) =~= x);
        assert(y.take(n) =~= y);
    } else {
        assert(x.drop_last().take(n) =~= x.take(n));
        assert(y.drop_last().take(n) =~= y.take(n));
        lemma_origins_order_prefix(x.drop_last(), y.drop_last(), n);
    }
}

/// Compares two origins.
pub fn order_origins(a: &Origin, b: &Origin) -> (r: Order)
    ensures
        r == origin_order(a@, b@),
    decreases a, 0int,
{
    match (a, b) {
        (Origin::Param(x), Origin::Param(y)) => order_u64(x.0 as u64, y.0 as u64),
        (Origin::Place(x), Origin::Place(y)) => {
            let o: Order = order_u64(x.root.0 as u64, y.root.0 as u64);
            if o != Order::Same {
                o
            } else {
                order_path(&x.path, &y.path)
            }
        },
        (Origin::Untracked { mutable: x }, Origin::Untracked { mutable: y }) => order_bool(*x, *y),
        (Origin::Union(x), Origin::Union(y)) => {
            assert(origins_view(*x).len() == x@.len());
            assert(origins_view(*y).len() == y@.len());
            let o: Order = order_u64(x.len() as u64, y.len() as u64);
            if o != Order::Same {
                o
            } else {
                order_origin_list(x, y)
            }
        },
        _ => order_u64(rank_of_origin(a), rank_of_origin(b)),
    }
}

/// What an origin stands for: its leaves, with unions opened at every depth.
pub open spec fn origin_leaves(o: OriginModel) -> Seq<OriginModel>
    decreases o, 0int,
{
    match o {
        OriginModel::Union(inner) => union_members(inner),
        _ => seq![o],
    }
}

/// The members a list of origins stands for, with unions opened at every depth.
pub open spec fn union_members(origins: Seq<OriginModel>) -> Seq<OriginModel>
    decreases origins, 0int,
{
    if origins.len() == 0 {
        Seq::empty()
    } else {
        union_members(origins.drop_last()) + origin_leaves(origins.last())
    }
}

/// The members of a union in canonical order.
pub open spec fn canonical_members(origins: Seq<OriginModel>) -> Seq<OriginModel> {
    sorted_set(union_members(origins), origin_less())
}

/// The union of origins: its members sorted, each once; a single member stands
/// for itself.
pub open spec fn origin_union(origins: Seq<OriginModel>) -> OriginModel {
    let members = canonical_members(origins);
    if members.len() == 1 {
        members[0]
    } else {
        OriginModel::Union(members)
    }
}

/// Whether `leaf` is a leaf of one of the origins, at any depth.
pub open spec fn lists_leaf(origins: Seq<OriginModel>, leaf: OriginModel) -> bool
    decreases origins, 1int,
{
    exists|i: int| 0 <= i < origins.len() && has_leaf(#[trigger] origins[i], leaf)
}

proof fn lemma_leaves(o: OriginModel, leaf: OriginModel)
    ensures
        origin_leaves(o).contains(leaf) <==> has_leaf(o, leaf),
        has_leaf(o, leaf) ==> !(leaf is Union),
    decreases o, 0int,
{
    match o {
        OriginModel::Union(inner) => {
            lemma_union_leaves(inner, leaf);
        },
        _ => {
            assert(seq![o][0] == o);
        },
    }
}

proof fn lemma_union_leaves(origins: Seq<OriginModel>, leaf: OriginModel)
    ensures
        union_members(origins).contains(leaf) <==> lists_leaf(origins, leaf),
        lists_leaf(origins, leaf) ==> !(leaf is Union),
    decreases origins, 0int,
{
    if origins.len() > 0 {
        let shorter = origins.drop_last();
        let (x, y) = (union_members(shorter), origin_leaves(origins.last()));
        lemma_union_leaves(shorter, leaf);
        lemma_leaves(origins.last(), leaf);
        if x.contains(leaf) {
            let k = choose|k: int| 0 <= k < x.len() && x[k] == leaf;
            assert((x + y)[k] == leaf);
            let i = choose|i: int| 0 <= i < shorter.len() && has_leaf(#[trigger] shorter[i], leaf);
            assert(has_leaf(origins[i], leaf));
        }
        if y.contains(leaf) {
            let k = choose|k: int| 0 <= k < y.len() && y[k] == leaf;
            assert((x + y)[x.len() + k] == leaf);
            assert(has_leaf(origins[origins.len() - 1], leaf));
        }
        if (x + y).contains(leaf) {
            let k = choose|k: int| 0 <= k < (x + y).len() && (x + y)[k] == leaf;
            if k < x.len() {
                assert(x[k] == leaf);
            } else {
                assert(y[k - x.len()] == leaf);
            }
        }
        if lists_leaf(origins, leaf) {
            let i = choose|i: int| 0 <= i < origins.len() && has_leaf(#[trigger] origins[i], leaf);
            if i < shorter.len() {
                assert(has_leaf(shorter[i], leaf));
            }
        }
    }
}

/// A union depends on its leaves alone: not on their order, on repetition, or on how
/// they are grouped into unions, to any depth.
pub proof fn law_union_order_free(a: Seq<OriginModel>, b: Seq<OriginModel>)
    requires
        forall|o: OriginModel| #[trigger] lists_leaf(a, o) <==> lists_leaf(b, o),
    ensures
        origin_union(a) == origin_union(b),
{
    lemma_origin_less();
    assert forall|o: OriginModel| #[trigger] union_members(a).contains(o) <==> union_members(b).contains(o) by {
        lemma_union_leaves(a, o);
        lemma_union_leaves(b, o);
        assert(lists_leaf(a, o) <==> lists_leaf(b, o));
    }
    lemma_sorted_set_order_free(union_members(a), union_members(b), origin_less());
}

/// The members of a union are in strict order, so no member occurs twice; they are
/// exactly the leaves of what it was built from; and none of them is a union.
pub proof fn law_union_members(origins: Seq<OriginModel>)
    ensures
        strictly_sorted(canonical_members(origins), origin_less()),
        forall|o: OriginModel| #[trigger] canonical_members(origins).contains(o) <==> lists_leaf(origins, o),
        forall|i: int| 0 <= i < canonical_members(origins).len() ==> !(
            (#[trigger] canonical_members(origins)[i]) is Union
        ),
        origin_union(origins) matches OriginModel::Union(members) ==> members == canonical_members(origins)
            && members.len() != 1,
{
    lemma_origin_less();
    lemma_sorted_set(union_members(origins), origin_less());
    let members = canonical_members(origins);
    assert forall|o: OriginModel| #[trigger] members.contains(o) <==> lists_leaf(origins, o) by {
        lemma_union_leaves(origins, o);
    }
    assert forall|i: int| 0 <= i < members.len() implies !((#[trigger] members[i]) is Union) by {
        assert(members.contains(members[i]));
        lemma_union_leaves(origins, members[i]);
    }
    if members.len() == 1 {
        assert(!(members[0] is Union));
    }
}

/// The union of a union is that union.
pub proof fn law_union_idempotent(origins: Seq<OriginModel>)
    ensures
        origin_union(seq![origin_union(origins)]) == origin_union(origins),
{
    let u = origin_union(origins);
    let members = canonical_members(origins);
    law_union_members(origins);
    assert forall|o: OriginModel| #[trigger] lists_leaf(seq![u], o) <==> lists_leaf(origins, o) by {
        assert(lists_leaf(seq![u], o) <==> has_leaf(u, o)) by {
            assert(seq![u][0] == u);
        }
        assert(members.contains(o) <==> lists_leaf(origins, o));
        if members.len() != 1 {
            if has_leaf(u, o) {
                let i = choose|i: int| 0 <= i < members.len() && has_leaf(#[trigger] members[i], o);
                assert(!(members[i] is Union));
            }
            if members.contains(o) {
                let i = choose|i: int| 0 <= i < members.len() && members[i] == o;
                assert(!(members[i] is Union));
                assert(has_leaf(members[i], o));
            }
        } else {
            assert(!(members[0] is Union));
        }
    }
    law_union_order_free(seq![u], origins);
}

fn put_origin(members: &mut Vec<Origin>, x: Origin)
    ensures
        origins_view(*final(members)) == put_sorted(origins_view(*old(members)), x@, origin_less()),
{
    let ghost v = origins_view(*members);
    let mut p: usize = 0;
    while p < members.len() && order_origins(&members[p], &x) == Order::Less
        invariant
            v == origins_view(*members),
            p <= members@.len(),
            forall|i: int| 0 <= i < p ==> origin_less()(#[trigger] v[i], x@),
        decreases members@.len() - p,
    {
        p = p + 1;
    }
    proof {
        lemma_lower_unique(v, x@, origin_less(), p as int);
    }
    if p < members.len() && members[p].same(&x) {
        return;
    }
    members.insert(p, x);
    assert(origins_view(*members) =~= v.insert(p as int, x@));
}

impl Origin {
    /// The canonical union of origins: nesting flattened, duplicates removed,
    /// members sorted independently of source order.
    pub fn union(origins: Vec<Origin>) -> (r: Origin)
        ensures
            r@ == origin_union(origins_view(origins)),
    {
        let mut leaves: Vec<Origin> = Vec::new();
        assert(origins_view(leaves) =~= Seq::<OriginModel>::empty());
        push_union_members(&origins, &mut leaves);
        let ghost model = origins_view(leaves);
        assert(model =~= union_members(origins_view(origins)));
        let mut members: Vec<Origin> = Vec::new();
        assert(origins_view(members) =~= Seq::<OriginModel>::empty());
        for i in 0..leaves.len()
            invariant
                model == origins_view(leaves),
                origins_view(members) == sorted_set(model.take(i as int), origin_less()),
        {
            assert(model.take(i + 1).drop_last() =~= model.take(i as int));
            assert(model.take(i + 1).last() == leaves@[i as int]@);
            put_origin(&mut members, leaves[i].copy());
        }
        assert(model.take(model.len() as int) =~= model);
        if members.len() == 1 {
            assert(origins_view(members)[0] == members@[0]@);
            members[0].copy()
        } else {
            Origin::Union(members)
        }
    }
}

fn push_leaves(o: &Origin, out: &mut Vec<Origin>)
    ensures
        origins_view(*final(out)) == origins_view(*old(out)) + origin_leaves(o@),
    decreases o, 0int,
{
    let ghost before = origins_view(*out);
    match o {
        Origin::Union(inner) => push_union_members(inner, out),
        other => {
            out.push(other.copy());
            assert(origins_view(*out) =~= before + seq![o@]);
        },
    }
}

fn push_union_members(origins: &Vec<Origin>, out: &mut Vec<Origin>)
    ensures
        origins_view(*final(out)) == origins_view(*old(out)) + union_members(origins_view(*origins)),
    decreases origins, 0int,
{
    let ghost before = origins_view(*out);
    let ghost model = origins_view(*origins);
    assert(origins_view(*out) =~= before + union_members(model.take(0)));
    for i in 0..origins.len()
        invariant
            model == origins_view(*origins),
            origins_view(*out) == before + union_members(model.take(i as int)),
    {
        assert(model.take(i + 1).drop_last() =~= model.take(i as int));
        assert(model.take(i + 1).last() == origins@[i as int]@);
        push_leaves(&origins[i], out);
        assert(origins_view(*out) =~= before + union_members(model.take(i + 1)));
    }
    assert(model.take(model.len() as int) =~= model);
}

/// Whether a step may designate any storage: an index of unknown value, or everything
/// below.
pub open spec fn any_storage(s: OriginSegModel) -> bool {
    s is AnyIndex || s is Subtree
}

/// Whether two projected owner places may designate overlapping storage: the same
/// owner, and along the shorter path each step is equal or may designate any storage.
pub open spec fn place_overlap(a: OriginPlaceModel, b: OriginPlaceModel) -> bool {
    a.root == b.root && forall|i: int|
        0 <= i < a.path.len() && i < b.path.len() ==> (#[trigger] a.path[i] == b.path[i] || any_storage(a.path[i])
            || any_storage(b.path[i]))
}

/// Whether two origins may designate overlapping storage. Untracked origins
/// forfeit disjointness; a union overlaps where one of its members does.
pub open spec fn origin_overlap(a: OriginModel, b: OriginModel) -> bool
    decreases a, b,
{
    match (a, b) {
        (OriginModel::Union(left), _) => any_left_overlap(left, b),
        (_, OriginModel::Union(right)) => any_right_overlap(a, right),
        (OriginModel::Place(x), OriginModel::Place(y)) => place_overlap(x, y),
        (OriginModel::Param(x), OriginModel::Param(y)) => x == y,
        (OriginModel::Static, OriginModel::Static) => true,
        (OriginModel::Untracked { .. }, _) => true,
        (_, OriginModel::Untracked { .. }) => true,
        _ => false,
    }
}

/// Whether one of the origins on the left overlaps.
pub open spec fn any_left_overlap(left: Seq<OriginModel>, b: OriginModel) -> bool
    decreases left, b,
{
    exists|i: int| 0 <= i < left.len() && origin_overlap(#[trigger] left[i], b)
}

/// Whether one of the origins on the right overlaps.
pub open spec fn any_right_overlap(a: OriginModel, right: Seq<OriginModel>) -> bool
    decreases a, right,
{
    exists|i: int| 0 <= i < right.len() && origin_overlap(a, #[trigger] right[i])
}

/// Overlap of places is symmetric.
pub proof fn law_place_overlap_symmetric(a: OriginPlaceModel, b: OriginPlaceModel)
    ensures
        place_overlap(a, b) == place_overlap(b, a),
{
    if place_overlap(a, b) {
        assert forall|i: int| 0 <= i < b.path.len() && i < a.path.len() implies (#[trigger] b.path[i] == a.path[i]
            || any_storage(b.path[i]) || any_storage(a.path[i])) by {
            assert(a.path[i] == b.path[i] || any_storage(a.path[i]) || any_storage(b.path[i]));
        }
    }
    if place_overlap(b, a) {
        assert forall|i: int| 0 <= i < a.path.len() && i < b.path.len() implies (#[trigger] a.path[i] == b.path[i]
            || any_storage(a.path[i]) || any_storage(b.path[i])) by {
            assert(b.path[i] == a.path[i] || any_storage(b.path[i]) || any_storage(a.path[i]));
        }
    }
}

/// Whether `leaf` is a member of an origin that is no union, at any depth.
pub open spec fn has_leaf(o: OriginModel, leaf: OriginModel) -> bool
    decreases o,
{
    match o {
        OriginModel::Union(members) => exists|i: int| 0 <= i < members.len() && has_leaf(#[trigger] members[i], leaf),
        _ => leaf == o,
    }
}

/// Origins overlap exactly where some leaf of one overlaps some leaf of the other.
proof fn lemma_overlap_leaves(a: OriginModel, b: OriginModel)
    ensures
        origin_overlap(a, b) <==> exists|x: OriginModel, y: OriginModel|
            #[trigger] has_leaf(a, x)
                && #[trigger] has_leaf(b, y)
                && !(x is Union)
                && !(y is Union)
                && origin_overlap(x, y),
    decreases a, b,
{
    match (a, b) {
        (OriginModel::Union(left), _) => {
            if origin_overlap(a, b) {
                let i = choose|i: int| 0 <= i < left.len() && origin_overlap(#[trigger] left[i], b);
                lemma_overlap_leaves(left[i], b);
                let (x, y) = choose|x: OriginModel, y: OriginModel|
                    #[trigger] has_leaf(left[i], x)
                        && #[trigger] has_leaf(b, y)
                        && !(x is Union)
                        && !(y is Union)
                        && origin_overlap(x, y);
                assert(has_leaf(a, x) && has_leaf(b, y));
            }
            if exists|x: OriginModel, y: OriginModel|
                #[trigger] has_leaf(a, x)
                    && #[trigger] has_leaf(b, y)
                    && !(x is Union)
                    && !(y is Union)
                    && origin_overlap(
                    x,
                    y,
                ) {
                let (x, y) = choose|x: OriginModel, y: OriginModel|
                    #[trigger] has_leaf(a, x) && #[trigger] has_leaf(b, y) && !(x is Union) && !(y is Union)
                        && origin_overlap(x, y);
                let i = choose|i: int| 0 <= i < left.len() && has_leaf(#[trigger] left[i], x);
                lemma_overlap_leaves(left[i], b);
                assert(origin_overlap(left[i], b));
            }
        },
        (_, OriginModel::Union(right)) => {
            assert(has_leaf(a, a));
            if origin_overlap(a, b) {
                let j = choose|j: int| 0 <= j < right.len() && origin_overlap(a, #[trigger] right[j]);
                lemma_overlap_leaves(a, right[j]);
                let (x, y) = choose|x: OriginModel, y: OriginModel|
                    #[trigger] has_leaf(a, x)
                        && #[trigger] has_leaf(right[j], y)
                        && !(x is Union)
                        && !(y is Union)
                        && origin_overlap(x, y);
                assert(has_leaf(a, x) && has_leaf(b, y));
            }
            if exists|x: OriginModel, y: OriginModel|
                #[trigger] has_leaf(a, x)
                    && #[trigger] has_leaf(b, y)
                    && !(x is Union)
                    && !(y is Union)
                    && origin_overlap(
                    x,
                    y,
                ) {
                let (x, y) = choose|x: OriginModel, y: OriginModel|
                    #[trigger] has_leaf(a, x) && #[trigger] has_leaf(b, y) && !(x is Union) && !(y is Union)
                        && origin_overlap(x, y);
                let j = choose|j: int| 0 <= j < right.len() && has_leaf(#[trigger] right[j], y);
                lemma_overlap_leaves(a, right[j]);
                assert(origin_overlap(a, right[j]));
            }
        },
        _ => {
            assert(has_leaf(a, a));
            assert(has_leaf(b, b));
        },
    }
}

/// Overlap of origins is symmetric.
pub proof fn law_overlap_symmetric(a: OriginModel, b: OriginModel)
    ensures
        origin_overlap(a, b) == origin_overlap(b, a),
{
    lemma_overlap_leaves(a, b);
    lemma_overlap_leaves(b, a);
    if origin_overlap(a, b) {
        let (x, y) = choose|x: OriginModel, y: OriginModel|
            #[trigger] has_leaf(a, x)
                && #[trigger] has_leaf(b, y)
                && !(x is Union)
                && !(y is Union)
                && origin_overlap(x, y);
        lemma_leaf_overlap_symmetric(x, y);
        assert(has_leaf(b, y) && has_leaf(a, x));
    }
    if origin_overlap(b, a) {
        let (x, y) = choose|x: OriginModel, y: OriginModel|
            #[trigger] has_leaf(b, x)
                && #[trigger] has_leaf(a, y)
                && !(x is Union)
                && !(y is Union)
                && origin_overlap(x, y);
        lemma_leaf_overlap_symmetric(x, y);
        assert(has_leaf(a, y) && has_leaf(b, x));
    }
}

proof fn lemma_leaf_overlap_symmetric(x: OriginModel, y: OriginModel)
    requires
        !(x is Union),
        !(y is Union),
    ensures
        origin_overlap(x, y) == origin_overlap(y, x),
{
    match (x, y) {
        (OriginModel::Place(p), OriginModel::Place(q)) => {
            law_place_overlap_symmetric(p, q);
        },
        _ => {},
    }
}

/// Whether two projected owner places may designate overlapping storage.
pub fn places_overlap(left: &OriginPlace, right: &OriginPlace) -> (r: bool)
    ensures
        r == place_overlap(left@, right@),
{
    let ghost (x, y) = (left@, right@);
    if left.root != right.root {
        return false;
    }
    let n: usize = if left.path.len() < right.path.len() { left.path.len() } else { right.path.len() };
    for i in 0..n
        invariant
            x == left@,
            y == right@,
            x.path == origin_segs_view(left.path),
            y.path == origin_segs_view(right.path),
            n <= left.path@.len(),
            n <= right.path@.len(),
            n == left.path@.len() || n == right.path@.len(),
            x.root == y.root,
            forall|j: int|
                0 <= j < i ==> (#[trigger] x.path[j] == y.path[j] || any_storage(x.path[j]) || any_storage(y.path[j])),
    {
        let wild: bool = match (&left.path[i], &right.path[i]) {
            (OriginSeg::AnyIndex, _) | (OriginSeg::Subtree, _) => true,
            (_, OriginSeg::AnyIndex) | (_, OriginSeg::Subtree) => true,
            _ => false,
        };
        if !wild && !left.path[i].same(&right.path[i]) {
            assert(x.path[i as int] != y.path[i as int]);
            return false;
        }
    }
    true
}

fn any_overlaps_left(left: &Vec<Origin>, other: &Origin) -> (r: bool)
    ensures
        r == any_left_overlap(origins_view(*left), other@),
    decreases left, other,
{
    let ghost model = origins_view(*left);
    for i in 0..left.len()
        invariant
            model == origins_view(*left),
            forall|j: int| 0 <= j < i ==> !origin_overlap(#[trigger] model[j], other@),
    {
        if left[i].overlaps(other) {
            assert(origin_overlap(model[i as int], other@));
            return true;
        }
    }
    false
}

fn any_overlaps_right(origin: &Origin, right: &Vec<Origin>) -> (r: bool)
    ensures
        r == any_right_overlap(origin@, origins_view(*right)),
    decreases origin, right,
{
    let ghost model = origins_view(*right);
    for i in 0..right.len()
        invariant
            model == origins_view(*right),
            forall|j: int| 0 <= j < i ==> !origin_overlap(origin@, #[trigger] model[j]),
    {
        if origin.overlaps(&right[i]) {
            assert(origin_overlap(origin@, model[i as int]));
            return true;
        }
    }
    false
}

impl Origin {
    /// Whether two origins may designate overlapping storage.
    pub fn overlaps(&self, other: &Origin) -> (r: bool)
        ensures
            r == origin_overlap(self@, other@),
        decreases self, other,
    {
        match (self, other) {
            (Origin::Union(left), _) => any_overlaps_left(left, other),
            (_, Origin::Union(right)) => any_overlaps_right(self, right),
            (Origin::Place(left), Origin::Place(right)) => places_overlap(left, right),
            (Origin::Param(left), Origin::Param(right)) => *left == *right,
            (Origin::Static, Origin::Static) => true,
            (Origin::Untracked { .. }, _) => true,
            (_, Origin::Untracked { .. }) => true,
            _ => false,
        }
    }
}

/// The spelling of one projection step.
pub open spec fn seg_text(s: OriginSegModel) -> Seq<char> {
    match s {
        OriginSegModel::Field(name) => "."@ + name,
        OriginSegModel::AnyIndex => "[_]"@,
        OriginSegModel::Interior(tag) => ".<"@ + tag + ">"@,
        OriginSegModel::Subtree => ".*"@,
    }
}

/// The spelling of an origin.
pub open spec fn origin_text(o: OriginModel) -> Seq<char>
    decreases o,
{
    match o {
        OriginModel::Param(id) => "origin#"@ + dec(id.0 as nat),
        OriginModel::Place(place) => "origin_of(#"@ + dec(place.root.0 as nat) + concat(
            place.path.map_values(|s: OriginSegModel| seg_text(s)),
        ) + ")"@,
        OriginModel::Union(members) => join(origin_texts(members), " | "@),
        OriginModel::Static => "StaticOrigin"@,
        OriginModel::Untracked { mutable } => if mutable { "UnsafeAnyOrigin"@ } else { "UntrackedOrigin"@ },
    }
}

/// The spellings of origins.
pub open spec fn origin_texts(members: Seq<OriginModel>) -> Seq<Seq<char>>
    decreases members,
{
    Seq::new(
        members.len(),
        |i: int| if 0 <= i < members.len() { origin_text(members[i]) } else { arbitrary() },
    )
}

fn joined_origins(members: &Vec<Origin>) -> (r: String)
    ensures
        r@ == join(origin_texts(origins_view(*members)), " | "@),
    decreases members,
{
    let mut s: String = String::new();
    let ghost texts = origin_texts(origins_view(*members));
    for i in 0..members.len()
        invariant
            texts == origin_texts(origins_view(*members)),
            s@ == join(texts.take(i as int), " | "@),
    {
        assert(texts.take(i + 1) =~= texts.take(i as int).push(texts[i as int]));
        let part: String = members[i].text();
        join_push(&mut s, i == 0, " | ", &part, Ghost(texts.take(i as int)));
    }
    assert(texts.take(texts.len() as int) =~= texts);
    s
}

fn path_spelling(path: &Vec<OriginSeg>) -> (r: String)
    ensures
        r@ == concat(origin_segs_view(*path).map_values(|s: OriginSegModel| seg_text(s))),
{
    let mut s: String = String::new();
    let ghost texts = origin_segs_view(*path).map_values(|s: OriginSegModel| seg_text(s));
    assert(texts.take(0) =~= Seq::<Seq<char>>::empty());
    for i in 0..path.len()
        invariant
            texts == origin_segs_view(*path).map_values(|s: OriginSegModel| seg_text(s)),
            s@ == concat(texts.take(i as int)),
    {
        proof {
            assert(texts.take(i + 1) =~= texts.take(i as int).push(texts[i as int]));
            lemma_concat_push(texts.take(i as int), texts[i as int]);
        }
        let part: String = match &path[i] {
            OriginSeg::Field(name) => cat2(".", name),
            OriginSeg::AnyIndex => "[_]".to_owned(),
            OriginSeg::Interior(tag) => cat3(".<", tag, ">"),
            OriginSeg::Subtree => ".*".to_owned(),
        };
        s.append(&part);
    }
    assert(texts.take(texts.len() as int) =~= texts);
    s
}

impl Origin {
    /// The spelling of the origin.
    pub fn text(&self) -> (r: String)
        ensures
            r@ == origin_text(self@),
        decreases self,
    {
        match self {
            Origin::Param(id) => cat2("origin#", &dec_text(id.0 as u64)),
            Origin::Place(place) => cat4(
                "origin_of(#",
                &dec_text(place.root.0 as u64),
                &path_spelling(&place.path),
                ")",
            ),
            Origin::Union(members) => joined_origins(members),
            Origin::Static => "StaticOrigin".to_owned(),
            Origin::Untracked { mutable } => if *mutable {
                "UnsafeAnyOrigin".to_owned()
            } else {
                "UntrackedOrigin".to_owned()
            },
        }
    }
}

impl PointerOrigin {
    /// The loan-tracked origin a pointer provenance corresponds to, when it
    /// designates checked storage.
    pub fn as_origin(&self) -> (r: Option<Origin>)
        ensures
            opt_origin_view(r) == pointer_storage(self@),
    {
        match self {
            PointerOrigin::Place { place, .. } => Some(Origin::Place(place.copy())),
            PointerOrigin::Param { id, .. } => Some(Origin::Param(*id)),
            _ => None,
        }
    }
}

/// The checked storage a pointer provenance designates. Legacy, static, untracked
/// and unsafe pointers carry no owner loan.
pub open spec fn pointer_storage(p: PointerOriginModel) -> Option<OriginModel> {
    match p {
        PointerOriginModel::Place { place, .. } => Some(OriginModel::Place(place)),
        PointerOriginModel::Param { id, .. } => Some(OriginModel::Param(id)),
        _ => None,
    }
}

/// The stronger of two accesses: a write subsumes a read.
pub open spec fn stronger(a: CaptureAccess, b: CaptureAccess) -> CaptureAccess {
    if a is Write || b is Write { CaptureAccess::Write } else { CaptureAccess::Read }
}

/// The leaves of an origin, each captured with one access.
pub open spec fn captured_leaves(o: OriginModel, access: CaptureAccess) -> Seq<CaptureOriginModel> {
    origin_leaves(o).map_values(|origin: OriginModel| CaptureOriginModel { origin, access })
}

/// The captures a list stands for, with unions opened at every depth.
pub open spec fn capture_members(captures: Seq<CaptureOriginModel>) -> Seq<CaptureOriginModel>
    decreases captures.len(),
{
    if captures.len() == 0 {
        Seq::empty()
    } else {
        capture_members(captures.drop_last()) + captured_leaves(
            captures.last().origin,
            captures.last().access,
        )
    }
}

/// The origins of captures.
pub open spec fn capture_origins(captures: Seq<CaptureOriginModel>) -> Seq<OriginModel> {
    captures.map_values(|c: CaptureOriginModel| c.origin)
}

/// A sorted capture list with one more capture: an origin that is there already
/// takes the stronger access.
pub open spec fn put_capture(v: Seq<CaptureOriginModel>, x: CaptureOriginModel) -> Seq<CaptureOriginModel> {
    let p = lower(capture_origins(v), x.origin, origin_less()) as int;
    if p < v.len() && v[p].origin == x.origin {
        v.update(p, CaptureOriginModel { origin: x.origin, access: stronger(v[p].access, x.access) })
    } else {
        v.insert(p, x)
    }
}

/// Captures sorted by origin, each origin once.
pub open spec fn canonical_captures(s: Seq<CaptureOriginModel>) -> Seq<CaptureOriginModel>
    decreases s.len(),
{
    if s.len() == 0 {
        Seq::empty()
    } else {
        put_capture(canonical_captures(s.drop_last()), s.last())
    }
}

/// What a capture list says of an origin: whether it is captured, and whether it
/// may be written.
pub open spec fn captured(s: Seq<CaptureOriginModel>, origin: OriginModel, access: CaptureAccess) -> bool {
    exists|i: int| 0 <= i < s.len() && (#[trigger] s[i]).origin == origin && s[i].access == access
}

/// The canonical captures are in strict origin order; an origin is in them exactly
/// where some capture names it, and is written exactly where some capture writes
/// it.
pub proof fn law_capture_set(s: Seq<CaptureOriginModel>)
    ensures
        strictly_sorted(capture_origins(canonical_captures(s)), origin_less()),
        forall|o: OriginModel|
            #[trigger] captured(
                canonical_captures(s),
                o,
                CaptureAccess::Write,
            ) <==> captured(s, o, CaptureAccess::Write),
        forall|o: OriginModel|
            #[trigger] captured(
                canonical_captures(s),
                o,
                CaptureAccess::Read,
            ) <==> captured(s, o, CaptureAccess::Read)
                && !captured(s, o, CaptureAccess::Write),
    decreases s.len(),
{
    if s.len() > 0 {
        let shorter = s.drop_last();
        law_capture_set(shorter);
        lemma_origin_less();
        let v = canonical_captures(shorter);
        let x = s.last();
        let w = canonical_captures(s);
        let less = origin_less();
        let os = capture_origins(v);
        let p = lower(os, x.origin, less) as int;
        lemma_lower(os, x.origin, less);
        lemma_put_sorted(os, x.origin, less);
        if p < v.len() && v[p].origin == x.origin {
            assert(capture_origins(w) =~= os);
        } else {
            assert(capture_origins(w) =~= os.insert(p, x.origin));
            if p < os.len() {
                assert(os[p] != x.origin);
            }
            assert(put_sorted(os, x.origin, less) == os.insert(p, x.origin));
        }
        assert forall|o: OriginModel, a: CaptureAccess| #[trigger] captured(s, o, a) <==> captured(shorter, o, a) || (x.origin
            == o && x.access == a) by {
            if captured(s, o, a) {
                let i = choose|i: int| 0 <= i < s.len() && (#[trigger] s[i]).origin == o && s[i].access == a;
                if i < s.len() - 1 {
                    assert(shorter[i] == s[i]);
                }
            }
            if captured(shorter, o, a) {
                let i = choose|i: int| 0 <= i < shorter.len()
                    && (#[trigger] shorter[i]).origin == o
                    && shorter[i].access == a;
                assert(s[i] == shorter[i]);
            }
            assert(s[s.len() - 1] == x);
        }
        assert forall|o: OriginModel| o != x.origin implies (#[trigger] captured(w, o, CaptureAccess::Write) == captured(
            v,
            o,
            CaptureAccess::Write,
        ) && captured(w, o, CaptureAccess::Read) == captured(v, o, CaptureAccess::Read)) by {
            lemma_put_capture_other(v, x, o, CaptureAccess::Write);
            lemma_put_capture_other(v, x, o, CaptureAccess::Read);
        }
        assert forall|o: OriginModel| o != x.origin implies (#[trigger] captured(w, o, CaptureAccess::Read) == captured(
            v,
            o,
            CaptureAccess::Read,
        )) by {
            lemma_put_capture_other(v, x, o, CaptureAccess::Read);
        }
        lemma_put_capture_own(v, x);
    }
}

proof fn lemma_captures_flat(captures: Seq<CaptureOriginModel>, i: int)
    requires
        0 <= i < capture_members(captures).len(),
    ensures
        !(capture_members(captures)[i].origin is Union),
    decreases captures.len(),
{
    let shorter = captures.drop_last();
    let last = captures.last();
    if i < capture_members(shorter).len() {
        lemma_captures_flat(shorter, i);
        assert(capture_members(captures)[i] == capture_members(shorter)[i]);
    } else {
        let k = i - capture_members(shorter).len();
        let leaves = origin_leaves(last.origin);
        assert(capture_members(captures)[i].origin == leaves[k]);
        assert(leaves.contains(leaves[k]));
        lemma_leaves(last.origin, leaves[k]);
    }
}

/// No capture of a concrete set is of a union: unions are flattened at every depth.
pub proof fn law_captures_flat(captures: Seq<CaptureOriginModel>, i: int)
    requires
        0 <= i < canonical_captures(capture_members(captures)).len(),
    ensures
        !(canonical_captures(capture_members(captures))[i].origin is Union),
{
    let s = capture_members(captures);
    let c = canonical_captures(s)[i];
    law_capture_set(s);
    assert(captured(canonical_captures(s), c.origin, c.access));
    assert(captured(s, c.origin, CaptureAccess::Write) || captured(s, c.origin, CaptureAccess::Read)) by {
        if c.access is Write {
            assert(captured(canonical_captures(s), c.origin, CaptureAccess::Write));
        } else {
            assert(captured(canonical_captures(s), c.origin, CaptureAccess::Read));
        }
    }
    let access = if captured(
        s,
        c.origin,
        CaptureAccess::Write,
    ) { CaptureAccess::Write } else { CaptureAccess::Read };
    let k = choose|k: int| 0 <= k < s.len() && (#[trigger] s[k]).origin == c.origin && s[k].access == access;
    lemma_captures_flat(captures, k);
}

/// Whether captures name a leaf with an access, unions opened at every depth.
pub open spec fn captures_leaf(
    captures: Seq<CaptureOriginModel>,
    leaf: OriginModel,
    access: CaptureAccess,
) -> bool {
    exists|i: int| 0 <= i < captures.len()
        && (#[trigger] captures[i]).access == access
        && has_leaf(captures[i].origin, leaf)
}

proof fn lemma_captures_leaf(captures: Seq<CaptureOriginModel>, leaf: OriginModel, access: CaptureAccess)
    ensures
        captured(capture_members(captures), leaf, access) <==> captures_leaf(captures, leaf, access),
    decreases captures.len(),
{
    if captures.len() > 0 {
        let shorter = captures.drop_last();
        let last = captures.last();
        let (x, y) = (capture_members(shorter), captured_leaves(last.origin, last.access));
        let leaves = origin_leaves(last.origin);
        lemma_captures_leaf(shorter, leaf, access);
        lemma_leaves(last.origin, leaf);
        let whole = capture_members(captures);
        assert(whole == x + y);
        if captured(whole, leaf, access) {
            let k = choose|k: int| 0 <= k < whole.len()
                && (#[trigger] whole[k]).origin == leaf
                && whole[k].access == access;
            if k < x.len() {
                assert(x[k] == whole[k]);
                let i = choose|i: int|
                    0 <= i < shorter.len()
                        && (#[trigger] shorter[i]).access == access
                        && has_leaf(shorter[i].origin, leaf);
                assert(captures[i] == shorter[i]);
            } else {
                assert(y[k - x.len()] == whole[k]);
                assert(leaves[k - x.len()] == leaf);
                assert(captures[captures.len() - 1] == last);
            }
        }
        if captures_leaf(captures, leaf, access) {
            let i = choose|i: int|
                0 <= i < captures.len()
                    && (#[trigger] captures[i]).access == access
                    && has_leaf(captures[i].origin, leaf);
            if i < shorter.len() {
                assert(shorter[i] == captures[i]);
                let k = choose|k: int| 0 <= k < x.len()
                    && (#[trigger] x[k]).origin == leaf
                    && x[k].access == access;
                assert(whole[k] == x[k]);
            } else {
                let k = choose|k: int| 0 <= k < leaves.len() && leaves[k] == leaf;
                assert(whole[x.len() + k] == y[k]);
                assert(y[k].origin == leaf && y[k].access == access);
            }
        }
    }
}

/// A concrete capture set depends on the leaves that are captured and on those that
/// are written alone: not on order, on repetition, on how leaves are grouped into
/// unions to any depth, or on reads beside a write.
pub proof fn law_capture_set_order_free(a: Seq<CaptureOriginModel>, b: Seq<CaptureOriginModel>)
    requires
        forall|o: OriginModel| #[trigger]
            captures_leaf(a, o, CaptureAccess::Write) <==> captures_leaf(b, o, CaptureAccess::Write),
        forall|o: OriginModel| #[trigger]
            captures_leaf(a, o, CaptureAccess::Read) || captures_leaf(a, o, CaptureAccess::Write) <==> captures_leaf(
                b,
                o,
                CaptureAccess::Read,
            ) || captures_leaf(b, o, CaptureAccess::Write),
    ensures
        canonical_captures(capture_members(a)) == canonical_captures(capture_members(b)),
{
    let (s, t) = (capture_members(a), capture_members(b));
    let (x, y) = (canonical_captures(s), canonical_captures(t));
    law_capture_set(s);
    law_capture_set(t);
    assert forall|o: OriginModel| #[trigger] captured(x, o, CaptureAccess::Write) <==> captured(y, o, CaptureAccess::Write) by {
        lemma_captures_leaf(a, o, CaptureAccess::Write);
        lemma_captures_leaf(b, o, CaptureAccess::Write);
        assert(captures_leaf(a, o, CaptureAccess::Write) <==> captures_leaf(b, o, CaptureAccess::Write));
    }
    assert forall|o: OriginModel| #[trigger] captured(x, o, CaptureAccess::Read) <==> captured(y, o, CaptureAccess::Read) by {
        lemma_captures_leaf(a, o, CaptureAccess::Write);
        lemma_captures_leaf(b, o, CaptureAccess::Write);
        lemma_captures_leaf(a, o, CaptureAccess::Read);
        lemma_captures_leaf(b, o, CaptureAccess::Read);
        assert(captures_leaf(a, o, CaptureAccess::Write) <==> captures_leaf(b, o, CaptureAccess::Write));
        assert(captures_leaf(a, o, CaptureAccess::Read) || captures_leaf(a, o, CaptureAccess::Write) <==> captures_leaf(
            b,
            o,
            CaptureAccess::Read,
        ) || captures_leaf(b, o, CaptureAccess::Write));
    }
    lemma_same_captures(x, y);
}

/// The concrete set of a concrete set is that set.
pub proof fn law_capture_set_idempotent(captures: Seq<CaptureOriginModel>)
    ensures
        ({
            let set = canonical_captures(capture_members(captures));
            canonical_captures(capture_members(set)) == set
        }),
{
    let s = capture_members(captures);
    let set = canonical_captures(s);
    law_capture_set(s);
    assert forall|i: int| 0 <= i < set.len() implies !((#[trigger] set[i]).origin is Union) by {
        law_captures_flat(captures, i);
    }
    assert forall|o: OriginModel, a: CaptureAccess| #[trigger] captures_leaf(set, o, a) <==> captured(set, o, a) by {
        if captures_leaf(set, o, a) {
            let i = choose|i: int| 0 <= i < set.len()
                && (#[trigger] set[i]).access == a
                && has_leaf(set[i].origin, o);
            assert(!(set[i].origin is Union));
        }
        if captured(set, o, a) {
            let i = choose|i: int| 0 <= i < set.len()
                && (#[trigger] set[i]).origin == o
                && set[i].access == a;
            assert(!(set[i].origin is Union));
            assert(has_leaf(set[i].origin, o));
        }
    }
    assert forall|o: OriginModel| #[trigger]
        captures_leaf(set, o, CaptureAccess::Write) <==> captures_leaf(captures, o, CaptureAccess::Write) by {
        lemma_captures_leaf(captures, o, CaptureAccess::Write);
        assert(captured(set, o, CaptureAccess::Write) <==> captured(s, o, CaptureAccess::Write));
    }
    assert forall|o: OriginModel| #[trigger]
        captures_leaf(set, o, CaptureAccess::Read) || captures_leaf(set, o, CaptureAccess::Write) <==> captures_leaf(
            captures,
            o,
            CaptureAccess::Read,
        ) || captures_leaf(captures, o, CaptureAccess::Write) by {
        lemma_captures_leaf(captures, o, CaptureAccess::Write);
        lemma_captures_leaf(captures, o, CaptureAccess::Read);
        assert(captured(set, o, CaptureAccess::Write) <==> captured(s, o, CaptureAccess::Write));
        assert(captured(set, o, CaptureAccess::Read) <==> captured(s, o, CaptureAccess::Read) && !captured(
            s,
            o,
            CaptureAccess::Write,
        ));
    }
    law_capture_set_order_free(set, captures);
}

/// Whether each capture of one list is in another.
pub open spec fn captures_within(x: Seq<CaptureOriginModel>, y: Seq<CaptureOriginModel>) -> bool {
    forall|i: int| 0 <= i < x.len() ==> captured(y, (#[trigger] x[i]).origin, x[i].access)
}

proof fn lemma_captures_within(x: Seq<CaptureOriginModel>, y: Seq<CaptureOriginModel>)
    requires
        forall|o: OriginModel| #[trigger] captured(x, o, CaptureAccess::Write) <==> captured(y, o, CaptureAccess::Write),
        forall|o: OriginModel| #[trigger] captured(x, o, CaptureAccess::Read) <==> captured(y, o, CaptureAccess::Read),
    ensures
        captures_within(x, y),
{
    assert forall|i: int| 0 <= i < x.len() implies captured(y, (#[trigger] x[i]).origin, x[i].access) by {
        let o = x[i].origin;
        if x[i].access is Write {
            assert(captured(x, o, CaptureAccess::Write));
        } else {
            assert(captured(x, o, CaptureAccess::Read));
        }
    }
}

proof fn lemma_same_captures(x: Seq<CaptureOriginModel>, y: Seq<CaptureOriginModel>)
    requires
        strictly_sorted(capture_origins(x), origin_less()),
        strictly_sorted(capture_origins(y), origin_less()),
        forall|o: OriginModel| #[trigger] captured(x, o, CaptureAccess::Write) <==> captured(y, o, CaptureAccess::Write),
        forall|o: OriginModel| #[trigger] captured(x, o, CaptureAccess::Read) <==> captured(y, o, CaptureAccess::Read),
    ensures
        x == y,
{
    lemma_origin_less();
    lemma_captures_within(x, y);
    lemma_captures_within(y, x);
    let (p, q) = (capture_origins(x), capture_origins(y));
    assert forall|o: OriginModel| #[trigger] p.contains(o) <==> q.contains(o) by {
        if p.contains(o) {
            let i = choose|i: int| 0 <= i < p.len() && p[i] == o;
            assert(captured(y, x[i].origin, x[i].access));
            let j = choose|j: int| 0 <= j < y.len()
                && (#[trigger] y[j]).origin == o
                && y[j].access == x[i].access;
            assert(q[j] == o);
        }
        if q.contains(o) {
            let i = choose|i: int| 0 <= i < q.len() && q[i] == o;
            assert(captured(x, y[i].origin, y[i].access));
            let j = choose|j: int| 0 <= j < x.len()
                && (#[trigger] x[j]).origin == o
                && x[j].access == y[i].access;
            assert(p[j] == o);
        }
    }
    lemma_strictly_sorted_unique(p, q, origin_less());
    assert forall|i: int| 0 <= i < x.len() implies x[i] == y[i] by {
        assert(p[i] == q[i]);
        assert(captured(y, x[i].origin, x[i].access));
        let j = choose|j: int| 0 <= j < y.len()
            && (#[trigger] y[j]).origin == x[i].origin
            && y[j].access == x[i].access;
        let less = origin_less();
        assert(q[j] == q[i]);
        if i < j {
            assert(less(q[i], q[j]));
        } else if j < i {
            assert(less(q[j], q[i]));
        }
    }
    assert(p.len() == q.len());
    assert(x =~= y);
}

proof fn lemma_put_capture_other(
    v: Seq<CaptureOriginModel>,
    x: CaptureOriginModel,
    o: OriginModel,
    a: CaptureAccess,
)
    requires
        o != x.origin,
        lower(capture_origins(v), x.origin, origin_less()) <= v.len(),
    ensures
        captured(put_capture(v, x), o, a) == captured(v, o, a),
{
    let w = put_capture(v, x);
    let p = lower(capture_origins(v), x.origin, origin_less()) as int;
    let grew = !(p < v.len() && v[p].origin == x.origin);
    if captured(v, o, a) {
        let i = choose|i: int| 0 <= i < v.len() && (#[trigger] v[i]).origin == o && v[i].access == a;
        if !grew || i < p {
            assert(w[i] == v[i]);
        } else {
            assert(w[i + 1] == v[i]);
        }
    }
    if captured(w, o, a) {
        let i = choose|i: int| 0 <= i < w.len() && (#[trigger] w[i]).origin == o && w[i].access == a;
        if !grew || i < p {
            assert(w[i] == v[i]);
        } else {
            assert(w[i] == v[i - 1]);
        }
    }
}

proof fn lemma_put_capture_own(v: Seq<CaptureOriginModel>, x: CaptureOriginModel)
    requires
        strictly_sorted(capture_origins(v), origin_less()),
    ensures
        captured(
            put_capture(v, x),
            x.origin,
            CaptureAccess::Write,
        ) <==> captured(v, x.origin, CaptureAccess::Write)
            || x.access is Write,
        captured(
            put_capture(v, x),
            x.origin,
            CaptureAccess::Read,
        ) <==> !captured(v, x.origin, CaptureAccess::Write)
            && x.access is Read,
{
    lemma_origin_less();
    let os = capture_origins(v);
    let less = origin_less();
    lemma_lower(os, x.origin, less);
    let w = put_capture(v, x);
    let p = lower(os, x.origin, less) as int;
    let o = x.origin;
    assert forall|i: int| 0 <= i < v.len() && i != p implies (#[trigger] v[i]).origin != o by {
        assert(os[i] == v[i].origin);
        if i < p {
            assert(less(os[i], o));
        } else {
            assert(!less(os[p], o));
            assert(less(os[p], os[i]));
        }
    }
    if p < v.len() && v[p].origin == o {
        assert(w[p].origin == o);
        assert forall|i: int| 0 <= i < w.len() && i != p implies (#[trigger] w[i]).origin != o by {
            assert(w[i] == v[i]);
        }
        if captured(v, o, CaptureAccess::Write) {
            let i = choose|i: int| 0 <= i < v.len()
                && (#[trigger] v[i]).origin == o
                && v[i].access == CaptureAccess::Write;
            assert(i == p);
        }
        if v[p].access is Write {
            assert(captured(v, o, CaptureAccess::Write));
        }
    } else {
        assert(w[p] == x);
        assert forall|i: int| 0 <= i < w.len() && i != p implies (#[trigger] w[i]).origin != o by {
            if i < p {
                assert(w[i] == v[i]);
            } else {
                assert(w[i] == v[i - 1]);
                if i - 1 == p {
                    assert(v[p].origin != o);
                }
            }
        }
        if captured(v, o, CaptureAccess::Write) {
            let i = choose|i: int| 0 <= i < v.len()
                && (#[trigger] v[i]).origin == o
                && v[i].access == CaptureAccess::Write;
            assert(i == p);
        }
    }
    if captured(w, o, CaptureAccess::Write) {
        let i = choose|i: int| 0 <= i < w.len()
            && (#[trigger] w[i]).origin == o
            && w[i].access == CaptureAccess::Write;
        assert(i == p);
    }
    if captured(w, o, CaptureAccess::Read) {
        let i = choose|i: int| 0 <= i < w.len()
            && (#[trigger] w[i]).origin == o
            && w[i].access == CaptureAccess::Read;
        assert(i == p);
    }
    assert(w[p].origin == o);
}

fn insert_capture(members: &mut Vec<CaptureOrigin>, x: CaptureOrigin)
    ensures
        capture_origins_view(*final(members)) == put_capture(capture_origins_view(*old(members)), x@),
{
    let ghost v = capture_origins_view(*members);
    let ghost os = capture_origins(v);
    let mut p: usize = 0;
    while p < members.len() && order_origins(&members[p].origin, &x.origin) == Order::Less
        invariant
            v == capture_origins_view(*members),
            os == capture_origins(v),
            p <= members@.len(),
            forall|i: int| 0 <= i < p ==> origin_less()(#[trigger] os[i], x@.origin),
        decreases members@.len() - p,
    {
        assert(os[p as int] == members@[p as int].origin@);
        p = p + 1;
    }
    proof {
        if p < os.len() {
            assert(os[p as int] == members@[p as int].origin@);
        }
        lemma_lower_unique(os, x@.origin, origin_less(), p as int);
    }
    if p < members.len() && members[p].origin.same(&x.origin) {
        let writes: bool = members[p].access == CaptureAccess::Write || x.access == CaptureAccess::Write;
        let merged: CaptureOrigin = CaptureOrigin {
            origin: x.origin,
            access: if writes { CaptureAccess::Write } else { CaptureAccess::Read },
        };
        members.set(p, merged);
        assert(capture_origins_view(*members) =~= put_capture(v, x@));
    } else {
        members.insert(p, x);
        assert(capture_origins_view(*members) =~= put_capture(v, x@));
    }
}

fn insert_captures(
    members: &mut Vec<CaptureOrigin>,
    inner: &Vec<Origin>,
    access: CaptureAccess,
    Ghost(before): Ghost<Seq<CaptureOriginModel>>,
)
    requires
        capture_origins_view(*old(members)) == canonical_captures(before),
    ensures
        capture_origins_view(*final(members)) == canonical_captures(
            before + origins_view(*inner).map_values(
                |origin: OriginModel| CaptureOriginModel { origin, access }
            ),
        ),
{
    let ghost added = origins_view(*inner).map_values(
        |origin: OriginModel| CaptureOriginModel { origin, access }
    );
    assert(before + added.take(0) =~= before);
    for k in 0..inner.len()
        invariant
            added == origins_view(*inner).map_values(
                |origin: OriginModel| CaptureOriginModel { origin, access }
            ),
            capture_origins_view(*members) == canonical_captures(before + added.take(k as int)),
    {
        let x: CaptureOrigin = CaptureOrigin { origin: inner[k].copy(), access };
        proof {
            let longer = before + added.take(k + 1);
            assert(longer.drop_last() =~= before + added.take(k as int));
            assert(longer.last() == added[k as int]);
            assert(added[k as int] == x@);
        }
        insert_capture(members, x);
    }
    assert(added.take(added.len() as int) =~= added);
}

impl CaptureOrigin {
    /// A capture that is only read.
    pub fn read(origin: Origin) -> (r: CaptureOrigin)
        ensures
            r@ == (CaptureOriginModel { origin: origin@, access: CaptureAccess::Read }),
    {
        CaptureOrigin { origin, access: CaptureAccess::Read }
    }

    /// A capture that may be written.
    pub fn write(origin: Origin) -> (r: CaptureOrigin)
        ensures
            r@ == (CaptureOriginModel { origin: origin@, access: CaptureAccess::Write }),
    {
        CaptureOrigin { origin, access: CaptureAccess::Write }
    }
}

impl CaptureOriginSet {
    /// The concrete set of captures: unions flattened, duplicates removed, members
    /// in origin order. Where one origin is both read and written, the write
    /// subsumes the read.
    pub fn concrete(captures: Vec<CaptureOrigin>) -> (r: CaptureOriginSet)
        ensures
            r@ == CaptureOriginSetModel::Concrete(
                canonical_captures(capture_members(capture_origins_view(captures))),
            ),
    {
        let ghost model = capture_origins_view(captures);
        let mut members: Vec<CaptureOrigin> = Vec::new();
        assert(capture_origins_view(members) =~= Seq::<CaptureOriginModel>::empty());
        for i in 0..captures.len()
            invariant
                model == capture_origins_view(captures),
                capture_origins_view(members) == canonical_captures(capture_members(model.take(i as int))),
        {
            let ghost before = capture_members(model.take(i as int));
            assert(model.take(i + 1).drop_last() =~= model.take(i as int));
            assert(model.take(i + 1).last() == captures@[i as int]@);
            let mut leaves: Vec<Origin> = Vec::new();
            assert(origins_view(leaves) =~= Seq::<OriginModel>::empty());
            push_leaves(&captures[i].origin, &mut leaves);
            assert(origins_view(leaves) =~= origin_leaves(captures@[i as int]@.origin));
            insert_captures(&mut members, &leaves, captures[i].access, Ghost(before));
        }
        assert(model.take(model.len() as int) =~= model);
        CaptureOriginSet::Concrete(members)
    }

    /// The set of no captures.
    pub fn empty() -> (r: CaptureOriginSet)
        ensures
            r@ == CaptureOriginSetModel::Concrete(Seq::empty()),
    {
        let none: Vec<CaptureOrigin> = Vec::new();
        assert(capture_origins_view(none) =~= Seq::<CaptureOriginModel>::empty());
        CaptureOriginSet::Concrete(none)
    }
}

impl Default for CallableEnvironment {
    fn default() -> (r: CallableEnvironment)
        ensures
            r@ is Default,
    {
        CallableEnvironment::Default
    }
}

/// The place of a signature-origin kind in the order.
pub open spec fn sig_rank(o: SigOriginModel) -> int {
    match o {
        SigOriginModel::Self_ => 0,
        SigOriginModel::Param(_) => 1,
        SigOriginModel::Bound(_) => 2,
        SigOriginModel::Static => 3,
        SigOriginModel::Untracked { .. } => 4,
        SigOriginModel::Projected(..) => 5,
        SigOriginModel::Infer => 6,
        SigOriginModel::Union(_) => 7,
    }
}

/// Comparing two signature origins: by kind, then by content; projections by base,
/// then by path; unions by length, then member by member.
pub open spec fn sig_order(a: SigOriginModel, b: SigOriginModel) -> Order
    decreases a, 0int,
{
    match (a, b) {
        (SigOriginModel::Param(x), SigOriginModel::Param(y)) => int_order(x as int, y as int),
        (SigOriginModel::Bound(x), SigOriginModel::Bound(y)) => origin_order(x, y),
        (
            SigOriginModel::Untracked { mutable: x },
            SigOriginModel::Untracked { mutable: y },
        ) => bool_order(x, y),
        (SigOriginModel::Projected(a_base, a_path), SigOriginModel::Projected(b_base, b_path)) => then_order(
            sig_order(*a_base, *b_base),
            path_order(a_path, b_path),
        ),
        (SigOriginModel::Union(x), SigOriginModel::Union(y)) => then_order(
            int_order(x.len() as int, y.len() as int),
            sigs_order(x, y),
        ),
        _ => int_order(sig_rank(a), sig_rank(b)),
    }
}

/// Comparing two lists member by member, as far as both go.
pub open spec fn sigs_order(a: Seq<SigOriginModel>, b: Seq<SigOriginModel>) -> Order
    decreases a, 0int,
{
    if a.len() == 0 || b.len() == 0 {
        Order::Same
    } else {
        then_order(sigs_order(a.drop_last(), b.drop_last()), sig_order(a.last(), b.last()))
    }
}

/// The order of signature origins is total: only equal ones compare the same,
/// exchanging them flips the outcome, and it is transitive.
pub proof fn law_sig_order_total(a: SigOriginModel, b: SigOriginModel, c: SigOriginModel)
    ensures
        sig_order(a, b) is Same <==> a == b,
        sig_order(b, a) == flip(sig_order(a, b)),
        sig_order(a, b) is Less && !(sig_order(b, c) is Greater) ==> sig_order(a, c) is Less,
    decreases a, 0int,
{
    match (a, b) {
        (SigOriginModel::Bound(x), SigOriginModel::Bound(y)) => {
            let z = if c is Bound { c->Bound_0 } else { y };
            law_origin_order_total(x, y, z);
            law_origin_order_total(y, z, z);
        },
        (SigOriginModel::Projected(x, x_path), SigOriginModel::Projected(y, y_path)) => {
            match c {
                SigOriginModel::Projected(z, z_path) => {
                    law_sig_order_total(*x, *y, *z);
                    lemma_path_order(x_path, y_path, z_path);
                    lemma_path_order(y_path, z_path, z_path);
                },
                _ => {
                    law_sig_order_total(*x, *y, *y);
                    lemma_path_order(x_path, y_path, y_path);
                },
            }
        },
        (SigOriginModel::Union(x), SigOriginModel::Union(y)) => {
            if x.len() == y.len() {
                match c {
                    SigOriginModel::Union(z) if z.len() == x.len() => {
                        lemma_sigs_order(x, y, z);
                    },
                    _ => {
                        lemma_sigs_order(x, y, y);
                    },
                }
            }
        },
        _ => {},
    }
}

proof fn lemma_sigs_order(a: Seq<SigOriginModel>, b: Seq<SigOriginModel>, c: Seq<SigOriginModel>)
    requires
        a.len() == b.len(),
        b.len() == c.len(),
    ensures
        sigs_order(a, b) is Same <==> a == b,
        sigs_order(b, a) == flip(sigs_order(a, b)),
        sigs_order(a, b) is Less && !(sigs_order(b, c) is Greater) ==> sigs_order(a, c) is Less,
    decreases a, 0int,
{
    if a.len() > 0 {
        lemma_sigs_order(a.drop_last(), b.drop_last(), c.drop_last());
        law_sig_order_total(a.last(), b.last(), c.last());
        if a.drop_last() == b.drop_last() && a.last() == b.last() {
            assert(a =~= a.drop_last().push(a.last()));
            assert(b =~= b.drop_last().push(b.last()));
        }
        if a == b {
            assert(a.drop_last() == b.drop_last());
        }
    } else {
        assert(a =~= b);
    }
}

/// Whether one signature origin comes before another.
pub open spec fn sig_less() -> spec_fn(SigOriginModel, SigOriginModel) -> bool {
    |a: SigOriginModel, b: SigOriginModel| sig_order(a, b) is Less
}

proof fn lemma_sig_less()
    ensures
        strict_total(sig_less()),
{
    let less = sig_less();
    assert forall|a: SigOriginModel, b: SigOriginModel| #[trigger] less(a, b) implies a != b && !less(b, a) by {
        law_sig_order_total(a, b, b);
    }
    assert forall|a: SigOriginModel, b: SigOriginModel| a == b || #[trigger] less(a, b) || less(b, a) by {
        law_sig_order_total(a, b, b);
    }
    assert forall|a: SigOriginModel, b: SigOriginModel, c: SigOriginModel| #[trigger] less(a, b) && #[trigger] less(
        b,
        c,
    ) implies less(a, c) by {
        law_sig_order_total(a, b, c);
    }
}

/// A signature origin in canonical form: projected bases and unions are canonical
/// at every depth.
pub open spec fn canonical_sig(o: SigOriginModel) -> SigOriginModel
    decreases o, 0int,
{
    match o {
        SigOriginModel::Projected(base, path) => SigOriginModel::Projected(
            Box::new(canonical_sig(*base)),
            path,
        ),
        SigOriginModel::Union(members) => sig_union(members),
        _ => o,
    }
}

/// The canonical members of a union of signature origins, in source order.
pub open spec fn sig_members(origins: Seq<SigOriginModel>) -> Seq<SigOriginModel>
    decreases origins, 0int,
{
    if origins.len() == 0 {
        Seq::empty()
    } else {
        sig_members(origins.drop_last()) + (match canonical_sig(origins.last()) {
            SigOriginModel::Union(inner) => inner,
            other => seq![other],
        })
    }
}

/// The union of signature origins: its canonical members sorted, each once; a
/// single member stands for itself.
pub open spec fn sig_union(origins: Seq<SigOriginModel>) -> SigOriginModel
    decreases origins, 1int,
{
    let members = sorted_set(sig_members(origins), sig_less());
    if members.len() == 1 {
        members[0]
    } else {
        SigOriginModel::Union(members)
    }
}

/// Whether `leaf` is a leaf of a signature origin: a member that is no union, at any
/// depth of unions.
pub open spec fn has_sig_leaf(o: SigOriginModel, leaf: SigOriginModel) -> bool
    decreases o,
{
    match o {
        SigOriginModel::Union(members) => exists|i: int|
            0 <= i < members.len() && has_sig_leaf(#[trigger] members[i], leaf),
        _ => leaf == o,
    }
}

/// Whether `leaf` is a leaf of one of the signature origins.
pub open spec fn lists_sig_leaf(origins: Seq<SigOriginModel>, leaf: SigOriginModel) -> bool {
    exists|i: int| 0 <= i < origins.len() && has_sig_leaf(#[trigger] origins[i], leaf)
}

/// Whether a canonical origin is that of a leaf of one of the signature origins.
pub open spec fn lists_canonical(origins: Seq<SigOriginModel>, c: SigOriginModel) -> bool {
    exists|leaf: SigOriginModel| #[trigger] lists_sig_leaf(origins, leaf) && canonical_sig(leaf) == c
}

/// Whether two leaves differ only in how unions are spelled under at most `depth`
/// nested projections.
pub open spec fn leaf_regroups(x: SigOriginModel, y: SigOriginModel, depth: nat) -> bool
    decreases depth, 0int,
{
    match (x, y) {
        (SigOriginModel::Projected(a, p), SigOriginModel::Projected(b, q)) => x == y || (p == q && depth > 0 && regroups(
            seq![*a],
            seq![*b],
            (depth - 1) as nat,
        )),
        _ => x == y,
    }
}

/// Whether two lists have the same leaves: reordered, repeated, grouped into unions
/// to any depth, and with the unions under at most `depth` nested projections so
/// changed.
pub open spec fn regroups(a: Seq<SigOriginModel>, b: Seq<SigOriginModel>, depth: nat) -> bool
    decreases depth, 1int,
{
    &&& forall|x: SigOriginModel| #[trigger]
        lists_sig_leaf(a, x) ==> exists|y: SigOriginModel| #[trigger] lists_sig_leaf(b, y) && leaf_regroups(x, y, depth)
    &&& forall|y: SigOriginModel| #[trigger]
        lists_sig_leaf(b, y) ==> exists|x: SigOriginModel| #[trigger] lists_sig_leaf(a, x) && leaf_regroups(x, y, depth)
}

proof fn lemma_leaf_is_no_union(o: SigOriginModel, leaf: SigOriginModel)
    requires
        has_sig_leaf(o, leaf),
    ensures
        !(leaf is Union),
        !(canonical_sig(leaf) is Union),
    decreases o,
{
    if let SigOriginModel::Union(members) = o {
        let i = choose|i: int| 0 <= i < members.len() && has_sig_leaf(#[trigger] members[i], leaf);
        lemma_leaf_is_no_union(members[i], leaf);
    }
}

/// The canonical members that one signature origin adds to a union.
pub open spec fn opened_sig(o: SigOriginModel) -> Seq<SigOriginModel> {
    match canonical_sig(o) {
        SigOriginModel::Union(inner) => inner,
        other => seq![other],
    }
}

proof fn lemma_opened_sig(o: SigOriginModel, c: SigOriginModel)
    ensures
        opened_sig(o).contains(c) <==> lists_canonical(seq![o], c),
    decreases o, 0int,
{
    assert forall|leaf: SigOriginModel| #[trigger] lists_sig_leaf(seq![o], leaf) <==> has_sig_leaf(o, leaf) by {
        assert(seq![o][0] == o);
    }
    match o {
        SigOriginModel::Union(members) => {
            lemma_sig_members(members, c);
            lemma_sig_less();
            lemma_sorted_set(sig_members(members), sig_less());
            let sorted = sorted_set(sig_members(members), sig_less());
            assert(canonical_sig(o) == sig_union(members));
            assert(
                sig_union(members) == if sorted.len() == 1 { sorted[0] } else { SigOriginModel::Union(sorted) }
            );
            assert(opened_sig(o).contains(c) <==> sorted.contains(c)) by {
                if sorted.len() == 1 {
                    let only = sorted[0];
                    assert(sorted.contains(only));
                    lemma_sig_members(members, only);
                    let leaf = choose|leaf: SigOriginModel| #[trigger]
                        lists_sig_leaf(members, leaf) && canonical_sig(leaf) == only;
                    let i = choose|i: int| 0 <= i < members.len() && has_sig_leaf(#[trigger] members[i], leaf);
                    lemma_leaf_is_no_union(members[i], leaf);
                    assert(seq![only] =~= sorted);
                }
            }
            assert forall|leaf: SigOriginModel| #[trigger] lists_sig_leaf(seq![o], leaf) <==> lists_sig_leaf(members, leaf) by {
            }
            if lists_canonical(members, c) {
                let leaf = choose|leaf: SigOriginModel| #[trigger] lists_sig_leaf(members, leaf) && canonical_sig(leaf) == c;
                assert(lists_sig_leaf(seq![o], leaf));
            }
            if lists_canonical(seq![o], c) {
                let leaf = choose|leaf: SigOriginModel| #[trigger] lists_sig_leaf(seq![o], leaf) && canonical_sig(leaf) == c;
                assert(lists_sig_leaf(members, leaf));
            }
        },
        _ => {
            assert(has_sig_leaf(o, o));
            lemma_leaf_is_no_union(o, o);
            assert(opened_sig(o) == seq![canonical_sig(o)]);
            assert(seq![canonical_sig(o)][0] == canonical_sig(o));
            if opened_sig(o).contains(c) {
                assert(lists_sig_leaf(seq![o], o));
            }
        },
    }
}

proof fn lemma_sig_members(origins: Seq<SigOriginModel>, c: SigOriginModel)
    ensures
        sig_members(origins).contains(c) <==> lists_canonical(origins, c),
    decreases origins, 0int,
{
    if origins.len() > 0 {
        let shorter = origins.drop_last();
        let last = origins.last();
        let (x, y) = (sig_members(shorter), opened_sig(last));
        lemma_sig_members(shorter, c);
        lemma_opened_sig(last, c);
        assert(sig_members(origins) == x + y);
        if x.contains(c) {
            let k = choose|k: int| 0 <= k < x.len() && x[k] == c;
            assert((x + y)[k] == c);
            let leaf = choose|leaf: SigOriginModel| #[trigger] lists_sig_leaf(shorter, leaf) && canonical_sig(leaf) == c;
            let i = choose|i: int| 0 <= i < shorter.len() && has_sig_leaf(#[trigger] shorter[i], leaf);
            assert(has_sig_leaf(origins[i], leaf));
            assert(lists_sig_leaf(origins, leaf));
        }
        if y.contains(c) {
            let k = choose|k: int| 0 <= k < y.len() && y[k] == c;
            assert((x + y)[x.len() + k] == c);
            let leaf = choose|leaf: SigOriginModel| #[trigger] lists_sig_leaf(seq![last], leaf) && canonical_sig(leaf) == c;
            assert(has_sig_leaf(origins[origins.len() - 1], leaf));
            assert(lists_sig_leaf(origins, leaf));
        }
        if (x + y).contains(c) {
            let k = choose|k: int| 0 <= k < (x + y).len() && (x + y)[k] == c;
            if k < x.len() {
                assert(x[k] == c);
            } else {
                assert(y[k - x.len()] == c);
            }
        }
        if lists_canonical(origins, c) {
            let leaf = choose|leaf: SigOriginModel| #[trigger] lists_sig_leaf(origins, leaf) && canonical_sig(leaf) == c;
            let i = choose|i: int| 0 <= i < origins.len() && has_sig_leaf(#[trigger] origins[i], leaf);
            if i < shorter.len() {
                assert(has_sig_leaf(shorter[i], leaf));
                assert(lists_sig_leaf(shorter, leaf));
            } else {
                assert(has_sig_leaf(seq![last][0], leaf));
                assert(lists_sig_leaf(seq![last], leaf));
            }
        }
    } else {
        assert(!sig_members(origins).contains(c));
    }
}

proof fn lemma_leaf_regroups(x: SigOriginModel, y: SigOriginModel, depth: nat)
    requires
        leaf_regroups(x, y, depth),
    ensures
        canonical_sig(x) == canonical_sig(y),
    decreases depth, 0int,
{
    if x != y {
        if let (SigOriginModel::Projected(a, p), SigOriginModel::Projected(b, q)) = (x, y) {
            lemma_regroups(seq![*a], seq![*b], (depth - 1) as nat);
            lemma_sig_union_of_one(*a);
            lemma_sig_union_of_one(*b);
        }
    }
}

proof fn lemma_regroups(a: Seq<SigOriginModel>, b: Seq<SigOriginModel>, depth: nat)
    requires
        regroups(a, b, depth),
    ensures
        sig_union(a) == sig_union(b),
    decreases depth, 1int,
{
    assert forall|c: SigOriginModel| #[trigger] sig_members(a).contains(c) <==> sig_members(b).contains(c) by {
        lemma_sig_members(a, c);
        lemma_sig_members(b, c);
        if lists_canonical(a, c) {
            let x = choose|x: SigOriginModel| #[trigger] lists_sig_leaf(a, x) && canonical_sig(x) == c;
            let y = choose|y: SigOriginModel| #[trigger] lists_sig_leaf(b, y) && leaf_regroups(x, y, depth);
            lemma_leaf_regroups(x, y, depth);
            assert(lists_sig_leaf(b, y) && canonical_sig(y) == c);
        }
        if lists_canonical(b, c) {
            let y = choose|y: SigOriginModel| #[trigger] lists_sig_leaf(b, y) && canonical_sig(y) == c;
            let x = choose|x: SigOriginModel| #[trigger] lists_sig_leaf(a, x) && leaf_regroups(x, y, depth);
            lemma_leaf_regroups(x, y, depth);
            assert(lists_sig_leaf(a, x) && canonical_sig(x) == c);
        }
    }
    lemma_sig_less();
    lemma_sorted_set_order_free(sig_members(a), sig_members(b), sig_less());
}

/// A list that is strictly sorted is its own sorted set.
proof fn lemma_sorted_sig(s: Seq<SigOriginModel>)
    requires
        strictly_sorted(s, sig_less()),
    ensures
        sorted_set(s, sig_less()) == s,
{
    lemma_sig_less();
    lemma_sorted_set(s, sig_less());
    lemma_strictly_sorted_unique(sorted_set(s, sig_less()), s, sig_less());
}

proof fn lemma_canonical_shape(members: Seq<SigOriginModel>)
    ensures
        sig_union(members) matches SigOriginModel::Union(m) ==> m == sorted_set(
            sig_members(members),
            sig_less(),
        )
            && m.len() != 1,
        forall|i: int|
            0 <= i < sorted_set(sig_members(members), sig_less()).len() ==> !((#[trigger] sorted_set(
                sig_members(members),
                sig_less(),
            )[i]) is Union),
        strictly_sorted(sorted_set(sig_members(members), sig_less()), sig_less()),
{
    lemma_sig_less();
    lemma_sorted_set(sig_members(members), sig_less());
    let sorted = sorted_set(sig_members(members), sig_less());
    assert forall|i: int| 0 <= i < sorted.len() implies !((#[trigger] sorted[i]) is Union) by {
        assert(sorted.contains(sorted[i]));
        lemma_sig_members(members, sorted[i]);
        let leaf = choose|leaf: SigOriginModel| #[trigger]
            lists_sig_leaf(members, leaf) && canonical_sig(leaf) == sorted[i];
        let k = choose|k: int| 0 <= k < members.len() && has_sig_leaf(#[trigger] members[k], leaf);
        lemma_leaf_is_no_union(members[k], leaf);
    }
    if sorted.len() == 1 {
        assert(!(sorted[0] is Union));
    }
}

/// The union of one signature origin is its canonical form.
proof fn lemma_sig_union_of_one(o: SigOriginModel)
    ensures
        sig_union(seq![o]) == canonical_sig(o),
{
    assert(seq![o].drop_last() =~= Seq::<SigOriginModel>::empty());
    assert(sig_members(seq![o].drop_last()) =~= Seq::<SigOriginModel>::empty());
    assert(sig_members(seq![o]) =~= opened_sig(o));
    match canonical_sig(o) {
        SigOriginModel::Union(inner) => {
            if let SigOriginModel::Union(members) = o {
                lemma_canonical_shape(members);
                lemma_sorted_sig(inner);
            }
        },
        other => {
            let one = seq![other];
            assert(opened_sig(o) == one);
            assert(strictly_sorted(one, sig_less()));
            lemma_sorted_sig(one);
        },
    }
}

proof fn lemma_leaf_canonical_fixed(o: SigOriginModel, leaf: SigOriginModel)
    requires
        has_sig_leaf(o, leaf),
    ensures
        canonical_sig(canonical_sig(leaf)) == canonical_sig(leaf),
    decreases o, 0int,
{
    match o {
        SigOriginModel::Union(members) => {
            let i = choose|i: int| 0 <= i < members.len() && has_sig_leaf(#[trigger] members[i], leaf);
            lemma_leaf_canonical_fixed(members[i], leaf);
        },
        SigOriginModel::Projected(base, path) => {
            lemma_canonical_fixed(*base);
        },
        _ => {},
    }
}

/// A canonical signature origin is its own canonical form.
proof fn lemma_canonical_fixed(o: SigOriginModel)
    ensures
        canonical_sig(canonical_sig(o)) == canonical_sig(o),
    decreases o, 1int,
{
    match o {
        SigOriginModel::Union(members) => {
            let sorted = sorted_set(sig_members(members), sig_less());
            lemma_sig_less();
            lemma_sorted_set(sig_members(members), sig_less());
            lemma_canonical_shape(members);
            assert(canonical_sig(o) == sig_union(members));
            assert(
                sig_union(members) == if sorted.len() == 1 { sorted[0] } else { SigOriginModel::Union(sorted) }
            );
            assert forall|i: int| 0 <= i < sorted.len() implies canonical_sig(#[trigger] sorted[i]) == sorted[i] by {
                assert(sorted.contains(sorted[i]));
                lemma_sig_members(members, sorted[i]);
                let leaf = choose|leaf: SigOriginModel| #[trigger]
                    lists_sig_leaf(members, leaf) && canonical_sig(leaf) == sorted[i];
                let k = choose|k: int| 0 <= k < members.len() && has_sig_leaf(#[trigger] members[k], leaf);
                assert(has_sig_leaf(o, leaf));
                lemma_leaf_canonical_fixed(members[k], leaf);
            }
            if sorted.len() == 1 {
                assert(canonical_sig(sorted[0]) == sorted[0]);
            } else {
                assert forall|c: SigOriginModel| #[trigger] sig_members(sorted).contains(c) <==> sorted.contains(c) by {
                    lemma_sig_members(sorted, c);
                    if sorted.contains(c) {
                        let i = choose|i: int| 0 <= i < sorted.len() && sorted[i] == c;
                        assert(canonical_sig(sorted[i]) == c);
                        assert(!(sorted[i] is Union));
                        assert(has_sig_leaf(sorted[i], c));
                        assert(lists_sig_leaf(sorted, c));
                    }
                    if lists_canonical(sorted, c) {
                        let leaf = choose|leaf: SigOriginModel| #[trigger]
                            lists_sig_leaf(sorted, leaf) && canonical_sig(leaf) == c;
                        let i = choose|i: int| 0 <= i < sorted.len() && has_sig_leaf(#[trigger] sorted[i], leaf);
                        assert(!(sorted[i] is Union));
                        assert(canonical_sig(sorted[i]) == sorted[i]);
                    }
                }
                lemma_sorted_set_order_free(sig_members(sorted), sorted, sig_less());
                lemma_sorted_sig(sorted);
                assert(sig_union(sorted) == SigOriginModel::Union(sorted));
                assert(canonical_sig(SigOriginModel::Union(sorted)) == sig_union(sorted));
            }
        },
        SigOriginModel::Projected(base, path) => {
            lemma_canonical_fixed(*base);
        },
        _ => {},
    }
}

/// A union of signature origins depends on its leaves alone: not on their order, on
/// repetition, or on how they are grouped into unions to any depth, under projections
/// too.
pub proof fn law_sig_union_order_free(a: Seq<SigOriginModel>, b: Seq<SigOriginModel>, depth: nat)
    requires
        regroups(a, b, depth),
    ensures
        sig_union(a) == sig_union(b),
{
    lemma_regroups(a, b, depth);
}

/// The union of a union of signature origins is that union.
pub proof fn law_sig_union_idempotent(origins: Seq<SigOriginModel>)
    ensures
        sig_union(seq![sig_union(origins)]) == sig_union(origins),
{
    assert(sig_union(origins) == canonical_sig(SigOriginModel::Union(origins)));
    lemma_canonical_fixed(SigOriginModel::Union(origins));
    lemma_sig_union_of_one(sig_union(origins));
}

/// A union of signature origins that is a union has no members or at least two,
/// strictly sorted, none of them a union; and one distinct leaf comes back bare, in
/// canonical form.
pub proof fn law_sig_union_members(origins: Seq<SigOriginModel>)
    ensures
        sig_union(origins) matches SigOriginModel::Union(members) ==> {
            &&& members.len() != 1
            &&& strictly_sorted(members, sig_less())
            &&& forall|i: int| 0 <= i < members.len() ==> !((#[trigger] members[i]) is Union)
        },
        forall|leaf: SigOriginModel|
            lists_sig_leaf(origins, leaf) && (forall|other: SigOriginModel| #[trigger]
                lists_sig_leaf(origins, other) ==> canonical_sig(other) == canonical_sig(leaf)) ==> sig_union(origins)
                == #[trigger] canonical_sig(leaf),
{
    lemma_canonical_shape(origins);
    assert forall|leaf: SigOriginModel|
        lists_sig_leaf(origins, leaf) && (forall|other: SigOriginModel| #[trigger]
            lists_sig_leaf(origins, other) ==> canonical_sig(other) == canonical_sig(leaf)) implies sig_union(origins)
        == #[trigger] canonical_sig(leaf) by {
        let c = canonical_sig(leaf);
        let one = seq![c];
        assert forall|d: SigOriginModel| #[trigger] sig_members(origins).contains(d) <==> one.contains(d) by {
            lemma_sig_members(origins, d);
            assert(one[0] == c);
        }
        lemma_sig_less();
        lemma_sorted_set_order_free(sig_members(origins), one, sig_less());
        assert(strictly_sorted(one, sig_less()));
        lemma_sorted_sig(one);
    }
}

fn rank_of_sig(o: &SigOrigin) -> (r: u64)
    ensures
        r == sig_rank(o@),
{
    match o {
        SigOrigin::Self_ => 0,
        SigOrigin::Param(_) => 1,
        SigOrigin::Bound(_) => 2,
        SigOrigin::Static => 3,
        SigOrigin::Untracked { .. } => 4,
        SigOrigin::Projected(..) => 5,
        SigOrigin::Infer => 6,
        SigOrigin::Union(_) => 7,
    }
}

fn order_sig_list(a: &Vec<SigOrigin>, b: &Vec<SigOrigin>) -> (r: Order)
    requires
        a@.len() == b@.len(),
    ensures
        r == sigs_order(sig_origins_view(*a), sig_origins_view(*b)),
    decreases a, 0int,
{
    let ghost (x, y) = (sig_origins_view(*a), sig_origins_view(*b));
    for i in 0..a.len()
        invariant
            x == sig_origins_view(*a),
            y == sig_origins_view(*b),
            a@.len() == b@.len(),
            sigs_order(x.take(i as int), y.take(i as int)) is Same,
    {
        let o: Order = order_sig_origins(&a[i], &b[i]);
        proof {
            assert(x.take(i + 1).drop_last() =~= x.take(i as int));
            assert(y.take(i + 1).drop_last() =~= y.take(i as int));
        }
        if o != Order::Same {
            proof {
                lemma_sigs_order_prefix(x, y, i + 1);
            }
            return o;
        }
    }
    proof {
        assert(x.take(x.len() as int) =~= x);
        assert(y.take(y.len() as int) =~= y);
    }
    Order::Same
}

proof fn lemma_sigs_order_prefix(x: Seq<SigOriginModel>, y: Seq<SigOriginModel>, n: int)
    requires
        x.len() == y.len(),
        0 <= n <= x.len(),
        !(sigs_order(x.take(n), y.take(n)) is Same),
    ensures
        sigs_order(x, y) == sigs_order(x.take(n), y.take(n)),
    decreases x.len(),
{
    if n == x.len() {
        assert(x.take(n) =~= x);
        assert(y.take(n) =~= y);
    } else {
        assert(x.drop_last().take(n) =~= x.take(n));
        assert(y.drop_last().take(n) =~= y.take(n));
        lemma_sigs_order_prefix(x.drop_last(), y.drop_last(), n);
    }
}

/// Compares two signature origins.
pub fn order_sig_origins(a: &SigOrigin, b: &SigOrigin) -> (r: Order)
    ensures
        r == sig_order(a@, b@),
    decreases a, 0int,
{
    match (a, b) {
        (SigOrigin::Param(x), SigOrigin::Param(y)) => order_u64(*x as u64, *y as u64),
        (SigOrigin::Bound(x), SigOrigin::Bound(y)) => order_origins(x, y),
        (SigOrigin::Untracked { mutable: x }, SigOrigin::Untracked { mutable: y }) => order_bool(*x, *y),
        (SigOrigin::Projected(a_base, a_path), SigOrigin::Projected(b_base, b_path)) => {
            let o: Order = order_sig_origins(a_base, b_base);
            if o != Order::Same {
                o
            } else {
                order_path(a_path, b_path)
            }
        },
        (SigOrigin::Union(x), SigOrigin::Union(y)) => {
            assert(sig_origins_view(*x).len() == x@.len());
            assert(sig_origins_view(*y).len() == y@.len());
            let o: Order = order_u64(x.len() as u64, y.len() as u64);
            if o != Order::Same {
                o
            } else {
                order_sig_list(x, y)
            }
        },
        _ => order_u64(rank_of_sig(a), rank_of_sig(b)),
    }
}

fn put_sig(members: &mut Vec<SigOrigin>, x: SigOrigin)
    ensures
        sig_origins_view(*final(members)) == put_sorted(sig_origins_view(*old(members)), x@, sig_less()),
{
    let ghost v = sig_origins_view(*members);
    let mut p: usize = 0;
    while p < members.len() && order_sig_origins(&members[p], &x) == Order::Less
        invariant
            v == sig_origins_view(*members),
            p <= members@.len(),
            forall|i: int| 0 <= i < p ==> sig_less()(#[trigger] v[i], x@),
        decreases members@.len() - p,
    {
        p = p + 1;
    }
    proof {
        lemma_lower_unique(v, x@, sig_less(), p as int);
    }
    if p < members.len() && members[p].same(&x) {
        return;
    }
    members.insert(p, x);
    assert(sig_origins_view(*members) =~= v.insert(p as int, x@));
}

fn put_sigs(members: &mut Vec<SigOrigin>, inner: &Vec<SigOrigin>, Ghost(before): Ghost<Seq<SigOriginModel>>)
    requires
        sig_origins_view(*old(members)) == sorted_set(before, sig_less()),
    ensures
        sig_origins_view(*final(members)) == sorted_set(before + sig_origins_view(*inner), sig_less()),
{
    let ghost model = sig_origins_view(*inner);
    assert(before + model.take(0) =~= before);
    for k in 0..inner.len()
        invariant
            model == sig_origins_view(*inner),
            sig_origins_view(*members) == sorted_set(before + model.take(k as int), sig_less()),
    {
        proof {
            let longer = before + model.take(k + 1);
            assert(longer.drop_last() =~= before + model.take(k as int));
            assert(longer.last() == inner@[k as int]@);
        }
        put_sig(members, inner[k].copy());
    }
    assert(model.take(model.len() as int) =~= model);
}

fn canonical_sig_origin(origin: &SigOrigin) -> (r: SigOrigin)
    ensures
        r@ == canonical_sig(origin@),
    decreases origin, 0int,
{
    match origin {
        SigOrigin::Projected(base, path) => SigOrigin::Projected(
            Box::new(canonical_sig_origin(base)),
            copy_origin_segs(path),
        ),
        SigOrigin::Union(members) => union_of_sigs(members),
        other => other.copy(),
    }
}

fn union_of_sigs(origins: &Vec<SigOrigin>) -> (r: SigOrigin)
    ensures
        r@ == sig_union(sig_origins_view(*origins)),
    decreases origins, 1int,
{
    let ghost model = sig_origins_view(*origins);
    let mut members: Vec<SigOrigin> = Vec::new();
    assert(sig_origins_view(members) =~= Seq::<SigOriginModel>::empty());
    for i in 0..origins.len()
        invariant
            model == sig_origins_view(*origins),
            sig_origins_view(members) == sorted_set(sig_members(model.take(i as int)), sig_less()),
    {
        let ghost before = sig_members(model.take(i as int));
        assert(model.take(i + 1).drop_last() =~= model.take(i as int));
        let canonical: SigOrigin = canonical_sig_origin(&origins[i]);
        match &canonical {
            SigOrigin::Union(inner) => {
                put_sigs(&mut members, inner, Ghost(before));
            },
            other => {
                proof {
                    assert(before + seq![other@] =~= before.push(other@));
                    assert(before.push(other@).drop_last() =~= before);
                }
                put_sig(&mut members, other.copy());
            },
        }
    }
    assert(model.take(model.len() as int) =~= model);
    if members.len() == 1 {
        assert(sig_origins_view(members)[0] == members@[0]@);
        members[0].copy()
    } else {
        SigOrigin::Union(members)
    }
}

impl SigOrigin {
    /// The canonical union of signature origins. Callable contracts are compared
    /// structurally, so union order and duplicate spelling must not make otherwise
    /// identical contracts differ; projected bases are canonicalized too.
    pub fn union(origins: Vec<SigOrigin>) -> (r: SigOrigin)
        ensures
            r@ == sig_union(sig_origins_view(origins)),
    {
        union_of_sigs(&origins)
    }
}

/// Whether an origin designates anything: it is no union, or a union with a leaf.
pub open spec fn designates(o: OriginModel) -> bool {
    exists|leaf: OriginModel| has_leaf(o, leaf)
}

/// What designates anything overlaps itself.
pub proof fn law_overlap_reflexive(o: OriginModel)
    requires
        designates(o),
    ensures
        origin_overlap(o, o),
{
    let leaf = choose|leaf: OriginModel| has_leaf(o, leaf);
    lemma_leaves(o, leaf);
    lemma_overlap_leaves(o, o);
    assert(has_leaf(o, leaf) && !(leaf is Union) && origin_overlap(leaf, leaf));
}

/// Origins overlap exactly where a leaf of one overlaps a leaf of the other: a union
/// shares what its members share, at any depth.
pub proof fn law_overlap_by_leaves(a: OriginModel, b: OriginModel)
    ensures
        origin_overlap(a, b) <==> exists|x: OriginModel, y: OriginModel|
            #[trigger] has_leaf(a, x) && #[trigger] has_leaf(b, y) && origin_overlap(x, y),
{
    lemma_overlap_leaves(a, b);
    if exists|x: OriginModel, y: OriginModel|
        #[trigger] has_leaf(a, x) && #[trigger] has_leaf(b, y) && origin_overlap(x, y) {
        let (x, y) = choose|x: OriginModel, y: OriginModel|
            #[trigger] has_leaf(a, x) && #[trigger] has_leaf(b, y) && origin_overlap(x, y);
        lemma_leaves(a, x);
        lemma_leaves(b, y);
    }
}

/// An untracked origin overlaps everything that designates anything, whatever its
/// permission. Other origins overlap only their own kind: different parameters do not,
/// and static storage only meets itself.
pub proof fn law_overlap_of_kinds(a: OriginModel, b: OriginModel)
    requires
        !(a is Union),
        !(b is Union),
    ensures
        a is Untracked || b is Untracked ==> origin_overlap(a, b),
        a is Param && b is Param && a != b ==> !origin_overlap(a, b),
        a is Param && !(b is Param || b is Untracked) ==> !origin_overlap(a, b) && !origin_overlap(b, a),
        a is Static && !(b is Static || b is Untracked) ==> !origin_overlap(a, b) && !origin_overlap(b, a),
        a == b ==> origin_overlap(a, b),
{
}

/// Places of different owners never overlap; a place overlaps everything below it; two
/// places that part at different fields never meet again; an element of unknown index,
/// or a whole subtree, overlaps whatever stands beside it.
pub proof fn law_overlap_of_places(
    root: OwnerId,
    other: OwnerId,
    shared: Seq<OriginSegModel>,
    a: OriginSegModel,
    b: OriginSegModel,
    below_a: Seq<OriginSegModel>,
    below_b: Seq<OriginSegModel>,
)
    ensures
        root != other ==> !origin_overlap(
            OriginModel::Place(OriginPlaceModel { root, path: below_a }),
            OriginModel::Place(OriginPlaceModel { root: other, path: below_b }),
        ),
        origin_overlap(
            OriginModel::Place(OriginPlaceModel { root, path: shared }),
            OriginModel::Place(OriginPlaceModel { root, path: shared + below_b }),
        ),
        a is Field && b is Field && a != b ==> !origin_overlap(
            OriginModel::Place(OriginPlaceModel { root, path: shared.push(a) + below_a }),
            OriginModel::Place(OriginPlaceModel { root, path: shared.push(b) + below_b }),
        ),
        a is AnyIndex || a is Subtree ==> origin_overlap(
            OriginModel::Place(OriginPlaceModel { root, path: shared.push(a) }),
            OriginModel::Place(OriginPlaceModel { root, path: shared.push(b) + below_b }),
        ),
{
    let x = OriginPlaceModel { root, path: shared };
    let y = OriginPlaceModel { root, path: shared + below_b };
    assert(place_overlap(x, y)) by {
        assert forall|i: int| 0 <= i < x.path.len() && i < y.path.len() implies #[trigger] x.path[i] == y.path[i] by {}
    }
    let n = shared.len() as int;
    let (p, q) = (
        OriginPlaceModel { root, path: shared.push(a) + below_a },
        OriginPlaceModel { root, path: shared.push(b) + below_b },
    );
    assert(p.path[n] == a && q.path[n] == b);
    let s = OriginPlaceModel { root, path: shared.push(a) };
    if a is AnyIndex || a is Subtree {
        assert forall|i: int| 0 <= i < s.path.len() && i < q.path.len() implies (#[trigger] s.path[i] == q.path[i]
            || any_storage(s.path[i]) || any_storage(q.path[i])) by {}
        assert(place_overlap(s, q));
    }
}

/// Going further down a path never makes a place overlap more.
pub proof fn law_overlap_narrows(a: OriginPlaceModel, below: Seq<OriginSegModel>, b: OriginPlaceModel)
    ensures
        place_overlap(OriginPlaceModel { root: a.root, path: a.path + below }, b) ==> place_overlap(a, b),
{
    let longer = OriginPlaceModel { root: a.root, path: a.path + below };
    if place_overlap(longer, b) {
        assert forall|i: int| 0 <= i < a.path.len() && i < b.path.len() implies (#[trigger] a.path[i] == b.path[i]
            || any_storage(a.path[i]) || any_storage(b.path[i])) by {
            assert(longer.path[i] == a.path[i]);
        }
    }
}

/// A union has exactly the leaves of what it is made of, so it overlaps what one of
/// them overlaps.
pub proof fn law_union_overlap(origins: Seq<OriginModel>, other: OriginModel)
    ensures
        forall|leaf: OriginModel| has_leaf(origin_union(origins), leaf) <==> #[trigger] lists_leaf(origins, leaf),
        origin_overlap(origin_union(origins), other) <==> exists|i: int|
            0 <= i < origins.len() && origin_overlap(#[trigger] origins[i], other),
{
    let u = origin_union(origins);
    let members = canonical_members(origins);
    law_union_members(origins);
    assert forall|leaf: OriginModel| has_leaf(u, leaf) <==> #[trigger] lists_leaf(origins, leaf) by {
        assert(members.contains(leaf) <==> lists_leaf(origins, leaf));
        if members.len() != 1 {
            if has_leaf(u, leaf) {
                let i = choose|i: int| 0 <= i < members.len() && has_leaf(#[trigger] members[i], leaf);
                assert(!(members[i] is Union));
            }
            if members.contains(leaf) {
                let i = choose|i: int| 0 <= i < members.len() && members[i] == leaf;
                assert(!(members[i] is Union));
                assert(has_leaf(members[i], leaf));
            }
        } else {
            assert(!(members[0] is Union));
        }
    }
    law_overlap_by_leaves(u, other);
    if origin_overlap(u, other) {
        let (x, y) = choose|x: OriginModel, y: OriginModel|
            #[trigger] has_leaf(u, x) && #[trigger] has_leaf(other, y) && origin_overlap(x, y);
        assert(lists_leaf(origins, x));
        let i = choose|i: int| 0 <= i < origins.len() && has_leaf(#[trigger] origins[i], x);
        law_overlap_by_leaves(origins[i], other);
        assert(origin_overlap(origins[i], other));
    }
    if exists|i: int| 0 <= i < origins.len() && origin_overlap(#[trigger] origins[i], other) {
        let i = choose|i: int| 0 <= i < origins.len() && origin_overlap(#[trigger] origins[i], other);
        law_overlap_by_leaves(origins[i], other);
        let (x, y) = choose|x: OriginModel, y: OriginModel|
            #[trigger] has_leaf(origins[i], x) && #[trigger] has_leaf(other, y) && origin_overlap(x, y);
        assert(lists_leaf(origins, x));
        assert(has_leaf(u, x) && has_leaf(other, y));
    }
}

/// Parameters come before places, places before static storage, that before untracked
/// storage, and unions last; parameters go by their number, and places by their owner
/// before anything else, with a place before what lies below it.
pub proof fn law_origin_order_of_kinds(
    a: OriginModel,
    b: OriginModel,
    place: OriginPlaceModel,
    below: Seq<OriginSegModel>,
)
    ensures
        a is Param && !(b is Param) ==> origin_order(a, b) is Less,
        a is Place && (b is Static || b is Untracked || b is Union) ==> origin_order(a, b) is Less,
        a is Static && (b is Untracked || b is Union) ==> origin_order(a, b) is Less,
        a is Untracked && b is Union ==> origin_order(a, b) is Less,
        a is Param && b is Param ==> (origin_order(a, b) is Less <==> a->Param_0.0 < b->Param_0.0),
        a is Place && b is Place && a->Place_0.root.0 < b->Place_0.root.0 ==> origin_order(a, b) is Less,
        below.len() > 0 ==> origin_order(
            OriginModel::Place(place),
            OriginModel::Place(OriginPlaceModel { root: place.root, path: place.path + below }),
        ) is Less,
        a is Untracked && b is Untracked && !a->Untracked_mutable && b->Untracked_mutable
            ==> origin_order(a, b) is Less,
        a is Union && b is Union && a->Union_0.len() < b->Union_0.len() ==> origin_order(a, b) is Less,
{
    lemma_prefix_first(place.path, below);
}

proof fn lemma_prefix_first(path: Seq<OriginSegModel>, below: Seq<OriginSegModel>)
    ensures
        below.len() > 0 ==> path_order(path, path + below) is Less,
    decreases path.len(),
{
    if path.len() > 0 {
        lemma_prefix_first(path.skip(1), below);
        assert((path + below).skip(1) =~= path.skip(1) + below);
        lemma_seg_order(path[0], path[0], path[0]);
    }
}

/// A pointer designates checked storage exactly where it points to a place or carries an
/// origin parameter: that place or parameter, whatever its permission.
pub proof fn law_pointer_storage(p: PointerOriginModel)
    ensures
        pointer_storage(p) is Some <==> p is Place || p is Param,
        p is Place ==> pointer_storage(p) == Some(OriginModel::Place(p->Place_place)),
        p is Param ==> pointer_storage(p) == Some(OriginModel::Param(p->Param_id)),
{
}

/// Signature origins go by their kinds: the receiver, parameters, bound origins, static
/// and untracked storage, projections, inferred ones, and unions last; parameters go by
/// their position.
pub proof fn law_sig_order_of_kinds(a: SigOriginModel, b: SigOriginModel)
    ensures
        a is Self_ && !(b is Self_) ==> sig_order(a, b) is Less,
        a is Param && (b is Bound || b is Static || b is Untracked || b is Projected || b is Infer || b is Union)
            ==> sig_order(a, b) is Less,
        a is Bound && (b is Static || b is Untracked || b is Projected || b is Infer || b is Union)
            ==> sig_order(a, b) is Less,
        a is Static && (b is Untracked || b is Projected || b is Infer || b is Union) ==> sig_order(a, b) is Less,
        a is Untracked && (b is Projected || b is Infer || b is Union) ==> sig_order(a, b) is Less,
        a is Projected && (b is Infer || b is Union) ==> sig_order(a, b) is Less,
        a is Infer && b is Union ==> sig_order(a, b) is Less,
        a is Param && b is Param ==> (sig_order(a, b) is Less <==> a->Param_0 < b->Param_0),
{
}

} // verus!
