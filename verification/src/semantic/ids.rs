//! Ids of the elements of a program.
use vstd::prelude::*;

verus! {

/// An expression, by its place in the arena of the body it belongs to.
#[derive(Clone, Copy, Debug, PartialEq, Eq, Structural)]
pub struct ExprId(pub usize);

/// A statement, by its place in the arena of the body it belongs to.
#[derive(Clone, Copy, Debug, PartialEq, Eq, Structural)]
pub struct StatementId(pub usize);

/// A pattern, by its place in the arena of the body it belongs to.
#[derive(Clone, Copy, Debug, PartialEq, Eq, Structural)]
pub struct PatternId(pub usize);

/// A concrete function, by its place in the table of functions.
#[derive(Clone, Copy, Debug, PartialEq, Eq, Structural)]
pub struct FunctionId(pub usize);

/// A concrete struct, by its place in the table of structs.
#[derive(Clone, Copy, Debug, PartialEq, Eq, Structural)]
pub struct ConcreteStructId(pub usize);

/// A concrete enum, by its place in the table of enums.
#[derive(Clone, Copy, Debug, PartialEq, Eq, Structural)]
pub struct ConcreteEnumId(pub usize);

/// An impl, by its place in the table of impls.
#[derive(Clone, Copy, Debug, PartialEq, Eq, Structural)]
pub struct ImplId(pub usize);

/// A constant of a trait, by its place in the table of trait constants.
#[derive(Clone, Copy, Debug, PartialEq, Eq, Structural)]
pub struct TraitConstantId(pub usize);

/// A constant item of a module, by its place in the table of constants.
#[derive(Clone, Copy, Debug, PartialEq, Eq, Structural)]
pub struct ConstantId(pub usize);

#[derive(Clone, Copy, Debug, PartialEq, Eq, Structural)]
pub struct MemberId(pub u64);

#[derive(Clone, Copy, Debug, PartialEq, Eq, Structural)]
pub struct VariantId(pub u64);

#[derive(Clone, Copy, Debug, PartialEq, Eq, Structural)]
pub struct TraitId(pub u64);

#[derive(Clone, Copy, Debug, PartialEq, Eq, Structural)]
pub struct TraitFunctionId(pub u64);

#[derive(Clone, Copy, Debug, PartialEq, Eq, Structural)]
pub struct ExternFunctionId(pub u64);

#[derive(Clone, Copy, Debug, PartialEq, Eq, Structural)]
pub struct GenericParamId(pub u64);

/// An inference variable that stands for a constant.
#[derive(Clone, Copy, Debug, PartialEq, Eq, Structural)]
pub struct ConstVarId(pub u64);

#[derive(Clone, Copy, Debug, PartialEq, Eq, Structural)]
pub struct CrateId(pub u64);

/// A place in the source, which stays the same while the rest of the source changes.
#[derive(Clone, Copy, Debug, PartialEq, Eq, Structural)]
pub struct SyntaxStablePtrId(pub u64);

/// A variable of a function body.
#[derive(Clone, Copy, Debug, PartialEq, Eq, Structural)]
pub enum VarId {
    Param(u64),
    Local(u64),
}

/// The key of a variable in a map: parameters and locals are numbered separately.
pub type VarKey = (u8, u64);

impl VarId {
    pub open spec fn spec_key(self) -> VarKey {
        match self {
            VarId::Param(id) => (0u8, id),
            VarId::Local(id) => (1u8, id),
        }
    }

    pub fn key(self) -> (r: VarKey)
        ensures
            r == self.spec_key(),
    {
        match self {
            VarId::Param(id) => (0u8, id),
            VarId::Local(id) => (1u8, id),
        }
    }
}

/// Says that a diagnostic was reported, or that there is a reason to report none.
#[derive(Clone, Copy, Debug, PartialEq, Eq, Structural)]
pub struct DiagnosticAdded {}

/// A result that is missing only where a diagnostic says so.
pub type Maybe<T> = Result<T, DiagnosticAdded>;

/// Stands for a diagnostic that somebody else reports.
pub fn skip_diagnostic() -> (r: DiagnosticAdded)
    ensures
        r == (DiagnosticAdded {}),
{
    DiagnosticAdded {}
}

/// A type: one of the table of types, or a wrapper of the core library around a type.
#[derive(Debug)]
pub enum TypeId {
    /// A type, by its place in the table of types.
    Named(usize),
    /// `NonZero` of the core library.
    NonZero(Box<TypeId>),
    /// `Box` of the core library.
    Boxed(Box<TypeId>),
}

impl Clone for TypeId {
    fn clone(&self) -> (r: Self)
        ensures
            r == *self,
        decreases *self,
    {
        match self {
            TypeId::Named(idx) => TypeId::Named(*idx),
            TypeId::NonZero(inner) => TypeId::NonZero(Box::new((&**inner).clone())),
            TypeId::Boxed(inner) => TypeId::Boxed(Box::new((&**inner).clone())),
        }
    }
}

impl PartialEq for TypeId {
    fn eq(&self, other: &Self) -> (r: bool)
        decreases *self,
    {
        match (self, other) {
            (TypeId::Named(a), TypeId::Named(b)) => *a == *b,
            (TypeId::NonZero(a), TypeId::NonZero(b)) => (&**a).eq(&**b),
            (TypeId::Boxed(a), TypeId::Boxed(b)) => (&**a).eq(&**b),
            _ => false,
        }
    }
}

impl Eq for TypeId {

}

impl vstd::std_specs::cmp::PartialEqSpecImpl for TypeId {
    open spec fn obeys_eq_spec() -> bool {
        true
    }

    open spec fn eq_spec(&self, other: &Self) -> bool {
        *self == *other
    }
}

/// A variant of a concrete enum.
#[derive(Debug)]
pub struct ConcreteVariant {
    pub concrete_enum_id: ConcreteEnumId,
    pub id: VariantId,
    /// The type of the value that the variant holds.
    pub ty: TypeId,
    /// The place of the variant in its enum.
    pub idx: usize,
}

impl Clone for ConcreteVariant {
    fn clone(&self) -> (r: Self)
        ensures
            r == *self,
    {
        ConcreteVariant {
            concrete_enum_id: self.concrete_enum_id,
            id: self.id,
            ty: self.ty.clone(),
            idx: self.idx,
        }
    }
}

impl PartialEq for ConcreteVariant {
    fn eq(&self, other: &Self) -> (r: bool) {
        self.concrete_enum_id == other.concrete_enum_id && self.id == other.id && self.ty
            == other.ty && self.idx == other.idx
    }
}

impl Eq for ConcreteVariant {

}

impl vstd::std_specs::cmp::PartialEqSpecImpl for ConcreteVariant {
    open spec fn obeys_eq_spec() -> bool {
        true
    }

    open spec fn eq_spec(&self, other: &Self) -> bool {
        *self == *other
    }
}

} // verus!
