//! Constant values.
use vstd::prelude::*;

use crate::integer::Integer;
use crate::search::{keyed, lemma_first_where};
use crate::semantic::db::{param_with_id, SemanticDb};
use crate::semantic::ids::{
    ConcreteVariant, ConstVarId, DiagnosticAdded, GenericParamId, ImplId, Maybe, TraitConstantId,
    TraitId, TypeId,
};
use crate::text::concat3;

verus! {

/// A constant of an impl.
#[derive(Clone, Copy, Debug, PartialEq, Eq, Structural)]
pub struct ImplConstantId {
    /// The impl that the constant is in.
    impl_id: ImplId,
    /// The constant of the trait that it implements.
    trait_constant_id: TraitConstantId,
}

/// A constant value.
#[derive(Debug)]
pub enum ConstValue {
    Int(Integer, TypeId),
    Struct(Vec<ConstValue>, TypeId),
    Enum(ConcreteVariant, Box<ConstValue>),
    NonZero(Box<ConstValue>),
    Boxed(Box<ConstValue>),
    Generic(GenericParamId),
    ImplConstant(ImplConstantId),
    Var(ConstVarId, TypeId),
    /// A missing value, used in cases where the value is not known due to diagnostics.
    Missing(DiagnosticAdded),
}

/// A constant value as mathematics sees it.
#[verifier::ext_equal]
pub enum ConstView {
    Int(int, TypeId),
    Struct(Seq<ConstView>, TypeId),
    Enum(ConcreteVariant, Box<ConstView>),
    NonZero(Box<ConstView>),
    Boxed(Box<ConstView>),
    Generic(GenericParamId),
    ImplConstant(ImplConstantId),
    Var(ConstVarId, TypeId),
    Missing,
}

pub open spec fn const_view(value: ConstValue) -> ConstView
    decreases value,
{
    match value {
        ConstValue::Int(value, ty) => ConstView::Int(value@, ty),
        ConstValue::Struct(members, ty) => ConstView::Struct(
            Seq::new(
                members@.len(),
                |i: int|
                    if 0 <= i < members@.len() {
                        const_view(members@[i])
                    } else {
                        ConstView::Missing
                    },
            ),
            ty,
        ),
        ConstValue::Enum(variant, value) => ConstView::Enum(variant, Box::new(const_view(*value))),
        ConstValue::NonZero(value) => ConstView::NonZero(Box::new(const_view(*value))),
        ConstValue::Boxed(value) => ConstView::Boxed(Box::new(const_view(*value))),
        ConstValue::Generic(param) => ConstView::Generic(param),
        ConstValue::ImplConstant(id) => ConstView::ImplConstant(id),
        ConstValue::Var(var, ty) => ConstView::Var(var, ty),
        ConstValue::Missing(_) => ConstView::Missing,
    }
}

impl View for ConstValue {
    type V = ConstView;

    open spec fn view(&self) -> ConstView {
        const_view(*self)
    }
}

/// The views of a list of values.
pub open spec fn views(values: Seq<ConstValue>) -> Seq<ConstView> {
    Seq::new(values.len(), |i: int| values[i]@)
}

/// The view of a struct holds the views of its members.
pub proof fn lemma_struct_view(members: Vec<ConstValue>, ty: TypeId)
    ensures
        ConstValue::Struct(members, ty)@ == ConstView::Struct(views(members@), ty),
{
    assert(ConstValue::Struct(members, ty)@->Struct_0 =~= views(members@));
}

impl Clone for ConstValue {
    fn clone(&self) -> (r: Self)
        ensures
            r@ == self@,
        decreases *self,
    {
        match self {
            ConstValue::Int(value, ty) => ConstValue::Int(value.clone(), ty.clone()),
            ConstValue::Struct(members, ty) => {
                let mut copies: Vec<ConstValue> = Vec::new();
                let mut i: usize = 0;
                while i < members.len()
                    invariant
                        i <= members@.len(),
                        copies@.len() == i,
                        *self == ConstValue::Struct(*members, *ty),
                        forall|j: int| 0 <= j < i ==> (#[trigger] copies@[j])@ == members@[j]@,
                    decreases members@.len() - i,
                {
                    assert(decreases_to!(*self => self->Struct_0));
                    assert(decreases_to!(members@ => members@[i as int]));
                    copies.push((&members[i]).clone());
                    i += 1;
                }
                proof {
                    lemma_struct_view(*members, *ty);
                    lemma_struct_view(copies, *ty);
                    assert(views(copies@) =~= views(members@));
                }
                ConstValue::Struct(copies, ty.clone())
            },
            ConstValue::Enum(variant, value) => ConstValue::Enum(
                variant.clone(),
                Box::new((&**value).clone()),
            ),
            ConstValue::NonZero(value) => ConstValue::NonZero(Box::new((&**value).clone())),
            ConstValue::Boxed(value) => ConstValue::Boxed(Box::new((&**value).clone())),
            ConstValue::Generic(param) => ConstValue::Generic(*param),
            ConstValue::ImplConstant(id) => ConstValue::ImplConstant(*id),
            ConstValue::Var(var, ty) => ConstValue::Var(*var, ty.clone()),
            ConstValue::Missing(added) => ConstValue::Missing(*added),
        }
    }
}

impl PartialEq for ConstValue {
    fn eq(&self, other: &Self) -> (r: bool)
        decreases *self,
    {
        match (self, other) {
            (ConstValue::Int(a, a_ty), ConstValue::Int(b, b_ty)) => *a == *b && *a_ty == *b_ty,
            (ConstValue::Struct(a, a_ty), ConstValue::Struct(b, b_ty)) => {
                proof {
                    lemma_struct_view(*a, *a_ty);
                    lemma_struct_view(*b, *b_ty);
                }
                if a.len() != b.len() || !(*a_ty == *b_ty) {
                    assert(views(a@).len() == a@.len() && views(b@).len() == b@.len());
                    return false;
                }
                let mut i: usize = 0;
                while i < a.len()
                    invariant
                        i <= a@.len(),
                        a@.len() == b@.len(),
                        *self == ConstValue::Struct(*a, *a_ty),
                        *other == ConstValue::Struct(*b, *b_ty),
                        self@ == ConstView::Struct(views(a@), *a_ty),
                        other@ == ConstView::Struct(views(b@), *b_ty),
                        forall|j: int| 0 <= j < i ==> (#[trigger] a@[j])@ == b@[j]@,
                    decreases a@.len() - i,
                {
                    if !(&a[i]).eq(&b[i]) {
                        assert(views(a@)[i as int] != views(b@)[i as int]);
                        return false;
                    }
                    i += 1;
                }
                assert(views(a@) =~= views(b@));
                true
            },
            (ConstValue::Enum(a, a_value), ConstValue::Enum(b, b_value)) => *a == *b
                && (&**a_value).eq(&**b_value),
            (ConstValue::NonZero(a), ConstValue::NonZero(b)) => (&**a).eq(&**b),
            (ConstValue::Boxed(a), ConstValue::Boxed(b)) => (&**a).eq(&**b),
            (ConstValue::Generic(a), ConstValue::Generic(b)) => *a == *b,
            (ConstValue::ImplConstant(a), ConstValue::ImplConstant(b)) => *a == *b,
            (ConstValue::Var(a, a_ty), ConstValue::Var(b, b_ty)) => *a == *b && *a_ty == *b_ty,
            (ConstValue::Missing(_), ConstValue::Missing(_)) => true,
            _ => false,
        }
    }
}

impl Eq for ConstValue {

}

impl vstd::std_specs::cmp::PartialEqSpecImpl for ConstValue {
    open spec fn obeys_eq_spec() -> bool {
        true
    }

    open spec fn eq_spec(&self, other: &Self) -> bool {
        self@ == other@
    }
}

impl SemanticDb {
    pub open spec fn spec_const_ty(self, value: ConstView) -> Maybe<TypeId>
        decreases value,
    {
        match value {
            ConstView::Int(_, ty) => Ok(ty),
            ConstView::Struct(_, ty) => Ok(ty),
            ConstView::Enum(variant, _) => self.spec_enum_ty(variant.concrete_enum_id),
            ConstView::NonZero(value) => match self.spec_const_ty(*value) {
                Ok(ty) => Ok(TypeId::NonZero(Box::new(ty))),
                Err(added) => Err(added),
            },
            ConstView::Boxed(value) => match self.spec_const_ty(*value) {
                Ok(ty) => Ok(TypeId::Boxed(Box::new(ty))),
                Err(added) => Err(added),
            },
            ConstView::Generic(param) => self.spec_generic_param_ty(param),
            ConstView::ImplConstant(id) => self.spec_impl_constant_ty(id),
            ConstView::Var(_, ty) => Ok(ty),
            ConstView::Missing => Ok(self.core_info.missing),
        }
    }

    /// Whether the constant depends on no generics; `None` where that needs a type that is not
    /// known.
    pub open spec fn spec_is_fully_concrete(self, value: ConstView) -> Option<bool>
        decreases value, 0nat,
    {
        match self.spec_const_ty(value) {
            Err(_) => None,
            Ok(ty) => if !self.spec_type_is_fully_concrete(ty) {
                Some(false)
            } else {
                match value {
                    ConstView::Int(_, _) => Some(true),
                    ConstView::Struct(members, _) => self.spec_all_fully_concrete(members, 0),
                    ConstView::Enum(_, value) => self.spec_is_fully_concrete(*value),
                    ConstView::NonZero(value) => self.spec_is_fully_concrete(*value),
                    ConstView::Boxed(value) => self.spec_is_fully_concrete(*value),
                    _ => Some(false),
                }
            },
        }
    }

    /// [Self::spec_is_fully_concrete] of all the members from `from` on, up to the first that is
    /// not.
    pub open spec fn spec_all_fully_concrete(self, members: Seq<ConstView>, from: nat) -> Option<
        bool,
    >
        decreases members, members.len() - from,
    {
        if from >= members.len() {
            Some(true)
        } else {
            match self.spec_is_fully_concrete(members[from as int]) {
                Some(true) => self.spec_all_fully_concrete(members, from + 1),
                other => other,
            }
        }
    }

    /// Whether the constant holds no inference variables; `None` where that needs a type that is
    /// not known.
    pub open spec fn spec_is_var_free(self, value: ConstView) -> Option<bool>
        decreases value, 0nat,
    {
        match self.spec_const_ty(value) {
            Err(_) => None,
            Ok(ty) => if !self.spec_type_is_var_free(ty) {
                Some(false)
            } else {
                match value {
                    ConstView::Int(_, _) | ConstView::Generic(_) | ConstView::Missing => Some(true),
                    ConstView::Struct(members, _) => self.spec_all_var_free(members, 0),
                    ConstView::Enum(_, value) => self.spec_is_var_free(*value),
                    ConstView::NonZero(value) => self.spec_is_var_free(*value),
                    ConstView::Boxed(value) => self.spec_is_var_free(*value),
                    ConstView::Var(_, _) => Some(false),
                    ConstView::ImplConstant(id) => Some(
                        self.spec_impl_is_var_free(id.spec_impl_id()),
                    ),
                }
            },
        }
    }

    /// [Self::spec_is_var_free] of all the members from `from` on, up to the first that is not.
    pub open spec fn spec_all_var_free(self, members: Seq<ConstView>, from: nat) -> Option<bool>
        decreases members, members.len() - from,
    {
        if from >= members.len() {
            Some(true)
        } else {
            match self.spec_is_var_free(members[from as int]) {
                Some(true) => self.spec_all_var_free(members, from + 1),
                other => other,
            }
        }
    }
}

impl ConstValue {
    /// Returns the type of the const.
    pub fn ty(&self, db: &SemanticDb) -> (r: Maybe<TypeId>)
        ensures
            r == db.spec_const_ty(self@),
        decreases *self,
    {
        match self {
            ConstValue::Int(_, ty) => Ok(ty.clone()),
            ConstValue::Struct(_, ty) => Ok(ty.clone()),
            ConstValue::Enum(variant, _) => db.enum_ty(variant.concrete_enum_id),
            ConstValue::NonZero(value) => match value.ty(db) {
                Ok(ty) => Ok(TypeId::NonZero(Box::new(ty))),
                Err(added) => Err(added),
            },
            ConstValue::Boxed(value) => match value.ty(db) {
                Ok(ty) => Ok(TypeId::Boxed(Box::new(ty))),
                Err(added) => Err(added),
            },
            ConstValue::Generic(param) => db.generic_param_ty(*param),
            ConstValue::Var(_, ty) => Ok(ty.clone()),
            ConstValue::Missing(_) => Ok(db.core_info.missing.clone()),
            ConstValue::ImplConstant(id) => db.impl_constant_ty(*id),
        }
    }

    /// Returns true if the const does not depend on any generics.
    pub fn is_fully_concrete(&self, db: &SemanticDb) -> (r: bool)
        requires
            db.spec_is_fully_concrete(self@) is Some,
        ensures
            db.spec_is_fully_concrete(self@) == Some(r),
        decreases *self,
    {
        match self.ty(db) {
            Ok(ty) => if !db.type_is_fully_concrete(&ty) {
                return false;
            },
            Err(_) => {
                return false;
            },
        }
        match self {
            ConstValue::Int(_, _) => true,
            ConstValue::Struct(members, ty) => {
                proof {
                    lemma_struct_view(*members, *ty);
                }
                let mut i: usize = 0;
                while i < members.len()
                    invariant
                        i <= members@.len(),
                        *self == ConstValue::Struct(*members, *ty),
                        db.spec_is_fully_concrete(self@) is Some,
                        db.spec_is_fully_concrete(self@) == db.spec_all_fully_concrete(
                            views(members@),
                            i as nat,
                        ),
                    decreases members@.len() - i,
                {
                    assert(views(members@)[i as int] == members@[i as int]@);
                    assert(decreases_to!(*self => self->Struct_0));
                    assert(decreases_to!(members@ => members@[i as int]));
                    if !(&members[i]).is_fully_concrete(db) {
                        return false;
                    }
                    i += 1;
                }
                true
            },
            ConstValue::Enum(_, value) => value.is_fully_concrete(db),
            ConstValue::NonZero(value) => value.is_fully_concrete(db),
            ConstValue::Boxed(value) => value.is_fully_concrete(db),
            _ => false,
        }
    }

    /// Returns true if the const does not contain any inference variables.
    pub fn is_var_free(&self, db: &SemanticDb) -> (r: bool)
        requires
            db.spec_is_var_free(self@) is Some,
        ensures
            db.spec_is_var_free(self@) == Some(r),
        decreases *self,
    {
        match self.ty(db) {
            Ok(ty) => if !db.type_is_var_free(&ty) {
                return false;
            },
            Err(_) => {
                return false;
            },
        }
        match self {
            ConstValue::Int(_, _) | ConstValue::Generic(_) | ConstValue::Missing(_) => true,
            ConstValue::Struct(members, ty) => {
                proof {
                    lemma_struct_view(*members, *ty);
                }
                let mut i: usize = 0;
                while i < members.len()
                    invariant
                        i <= members@.len(),
                        *self == ConstValue::Struct(*members, *ty),
                        db.spec_is_var_free(self@) is Some,
                        db.spec_is_var_free(self@) == db.spec_all_var_free(
                            views(members@),
                            i as nat,
                        ),
                    decreases members@.len() - i,
                {
                    assert(views(members@)[i as int] == members@[i as int]@);
                    assert(decreases_to!(*self => self->Struct_0));
                    assert(decreases_to!(members@ => members@[i as int]));
                    if !(&members[i]).is_var_free(db) {
                        return false;
                    }
                    i += 1;
                }
                true
            },
            ConstValue::Enum(_, value) => value.is_var_free(db),
            ConstValue::NonZero(value) => value.is_var_free(db),
            ConstValue::Boxed(value) => value.is_var_free(db),
            ConstValue::Var(_, _) => false,
            ConstValue::ImplConstant(id) => db.impl_is_var_free(id.impl_id()),
        }
    }

    /// Returns the value of an int const.
    pub fn into_int(self) -> (r: Option<Integer>)
        ensures
            match r {
                Some(value) => self@ is Int && self@->Int_0 == value@,
                None => !(self@ is Int),
            },
    {
        match self {
            ConstValue::Int(value, _) => Some(value),
            _ => None,
        }
    }
}

impl ImplConstantId {
    pub closed spec fn spec_impl_id(self) -> ImplId {
        self.impl_id
    }

    pub closed spec fn spec_trait_constant_id(self) -> TraitConstantId {
        self.trait_constant_id
    }

    /// Creates a new impl constant id. For an impl constant of a concrete impl, the trait constant
    /// belongs to the trait that the impl implements.
    pub fn new(impl_id: ImplId, trait_constant_id: TraitConstantId, db: &SemanticDb) -> (r: Self)
        requires
            impl_id.0 < db.impls@.len(),
            trait_constant_id.0 < db.trait_constants@.len(),
            db.impls@[impl_id.0 as int].concrete_trait matches Some(concrete_trait)
                ==> concrete_trait == Ok::<TraitId, DiagnosticAdded>(
                db.trait_constants@[trait_constant_id.0 as int].trait_id,
            ),
        ensures
            r.spec_impl_id() == impl_id,
            r.spec_trait_constant_id() == trait_constant_id,
    {
        ImplConstantId { impl_id, trait_constant_id }
    }

    pub fn impl_id(&self) -> (r: ImplId)
        ensures
            r == self.spec_impl_id(),
    {
        self.impl_id
    }

    pub fn trait_constant_id(&self) -> (r: TraitConstantId)
        ensures
            r == self.spec_trait_constant_id(),
    {
        self.trait_constant_id
    }

    /// The text of the constant: the names of its impl and of the constant of the trait.
    pub open spec fn spec_format(self, db: SemanticDb) -> Seq<char> {
        db.impls@[self.spec_impl_id().0 as int].name@ + "::"@
            + db.trait_constants@[self.spec_trait_constant_id().0 as int].name@
    }

    /// The text of the constant.
    pub fn format(&self, db: &SemanticDb) -> (r: String)
        requires
            self.spec_impl_id().0 < db.impls@.len(),
            self.spec_trait_constant_id().0 < db.trait_constants@.len(),
        ensures
            r@ == self.spec_format(*db),
    {
        concat3(
            db.impls[self.impl_id.0].name.as_str(),
            "::",
            db.trait_constants[self.trait_constant_id.0].name.as_str(),
        )
    }
}

pub open spec fn member_at(members: Seq<ConstView>, i: int) -> ConstView {
    members[i]
}

/// Whether the value holds a part that is not known: a generic parameter, a constant of an impl, an
/// inference variable or a missing value.
pub open spec fn holds_unknown(value: ConstView) -> bool
    decreases value,
{
    match value {
        ConstView::Int(_, _) => false,
        ConstView::Struct(members, _) => exists|i: int|
            0 <= i < members.len() && holds_unknown(#[trigger] member_at(members, i)),
        ConstView::Enum(_, value) => holds_unknown(*value),
        ConstView::NonZero(value) => holds_unknown(*value),
        ConstView::Boxed(value) => holds_unknown(*value),
        _ => true,
    }
}

/// Whether the value holds an inference variable.
pub open spec fn holds_var(value: ConstView) -> bool
    decreases value,
{
    match value {
        ConstView::Struct(members, _) => exists|i: int|
            0 <= i < members.len() && holds_var(#[trigger] member_at(members, i)),
        ConstView::Enum(_, value) => holds_var(*value),
        ConstView::NonZero(value) => holds_var(*value),
        ConstView::Boxed(value) => holds_var(*value),
        ConstView::Var(_, _) => true,
        _ => false,
    }
}

/// All parts of a constant that depends on no generics are known.
pub proof fn concrete_values_are_known(db: SemanticDb, value: ConstView)
    requires
        db.spec_is_fully_concrete(value) == Some(true),
    ensures
        !holds_unknown(value),
    decreases value, 0nat,
{
    match value {
        ConstView::Struct(members, _) => {
            assert forall|i: int| 0 <= i < members.len() implies !holds_unknown(
                #[trigger] member_at(members, i),
            ) by {
                lemma_concrete_member(db, members, 0, i);
                assert(decreases_to!(value => members));
                assert(decreases_to!(members => members[i]));
                concrete_values_are_known(db, members[i]);
            }
        },
        ConstView::Enum(_, inner) => {
            concrete_values_are_known(db, *inner);
        },
        ConstView::NonZero(inner) => {
            concrete_values_are_known(db, *inner);
        },
        ConstView::Boxed(inner) => {
            concrete_values_are_known(db, *inner);
        },
        _ => {},
    }
}

proof fn lemma_concrete_member(db: SemanticDb, members: Seq<ConstView>, from: nat, at: int)
    requires
        from <= at < members.len(),
        db.spec_all_fully_concrete(members, from) == Some(true),
    ensures
        db.spec_is_fully_concrete(members[at]) == Some(true),
    decreases at - from,
{
    reveal_with_fuel(SemanticDb::spec_all_fully_concrete, 2);
    if from < at {
        lemma_concrete_member(db, members, from + 1, at);
    }
}

/// A constant without inference variables holds none in any of its parts.
pub proof fn var_free_values_hold_no_vars(db: SemanticDb, value: ConstView)
    requires
        db.spec_is_var_free(value) == Some(true),
    ensures
        !holds_var(value),
    decreases value, 0nat,
{
    match value {
        ConstView::Struct(members, _) => {
            assert forall|i: int| 0 <= i < members.len() implies !holds_var(
                #[trigger] member_at(members, i),
            ) by {
                lemma_var_free_member(db, members, 0, i);
                assert(decreases_to!(value => members));
                assert(decreases_to!(members => members[i]));
                var_free_values_hold_no_vars(db, members[i]);
            }
        },
        ConstView::Enum(_, inner) => {
            var_free_values_hold_no_vars(db, *inner);
        },
        ConstView::NonZero(inner) => {
            var_free_values_hold_no_vars(db, *inner);
        },
        ConstView::Boxed(inner) => {
            var_free_values_hold_no_vars(db, *inner);
        },
        _ => {},
    }
}

proof fn lemma_var_free_member(db: SemanticDb, members: Seq<ConstView>, from: nat, at: int)
    requires
        from <= at < members.len(),
        db.spec_all_var_free(members, from) == Some(true),
    ensures
        db.spec_is_var_free(members[at]) == Some(true),
    decreases at - from,
{
    reveal_with_fuel(SemanticDb::spec_all_var_free, 2);
    if from < at {
        lemma_var_free_member(db, members, from + 1, at);
    }
}

proof fn lemma_all_concrete(db: SemanticDb, members: Seq<ConstView>, from: nat)
    requires
        from <= members.len(),
        forall|i: int|
            from <= i < members.len() ==> db.spec_is_fully_concrete(#[trigger] members[i]) == Some(
                true,
            ),
    ensures
        db.spec_all_fully_concrete(members, from) == Some(true),
    decreases members.len() - from,
{
    reveal_with_fuel(SemanticDb::spec_all_fully_concrete, 2);
    if from < members.len() {
        lemma_all_concrete(db, members, from + 1);
    }
}

/// A constant depends on no generics exactly where its type does not, and none of its parts do.
/// What is not known depends on them.
pub proof fn concrete_where_all_parts_are(
    db: SemanticDb,
    members: Seq<ConstView>,
    ty: TypeId,
    value: ConstView,
    number: int,
)
    ensures
        db.spec_is_fully_concrete(ConstView::Int(number, ty)) == Some(
            db.spec_type_is_fully_concrete(ty),
        ),
        db.spec_is_fully_concrete(ConstView::Struct(members, ty)) == Some(true)
            <==> db.spec_type_is_fully_concrete(ty) && forall|i: int|
            0 <= i < members.len() ==> db.spec_is_fully_concrete(#[trigger] members[i]) == Some(
                true,
            ),
        db.spec_is_fully_concrete(ConstView::NonZero(Box::new(value))) == Some(true) ==> (
        db.spec_is_fully_concrete(value) == Some(true)),
        value is Generic || value is ImplConstant || value is Var || value is Missing ==> (
        db.spec_is_fully_concrete(value) != Some(true)),
{
    reveal_with_fuel(SemanticDb::spec_is_fully_concrete, 2);
    if db.spec_is_fully_concrete(ConstView::Struct(members, ty)) == Some(true) {
        assert forall|i: int| 0 <= i < members.len() implies db.spec_is_fully_concrete(
            #[trigger] members[i],
        ) == Some(true) by {
            lemma_concrete_member(db, members, 0, i);
        }
    }
    if forall|i: int|
        0 <= i < members.len() ==> db.spec_is_fully_concrete(#[trigger] members[i]) == Some(true) {
        lemma_all_concrete(db, members, 0);
    }
}

proof fn lemma_all_var_free(db: SemanticDb, members: Seq<ConstView>, from: nat)
    requires
        from <= members.len(),
        forall|i: int|
            from <= i < members.len() ==> db.spec_is_var_free(#[trigger] members[i]) == Some(true),
    ensures
        db.spec_all_var_free(members, from) == Some(true),
    decreases members.len() - from,
{
    reveal_with_fuel(SemanticDb::spec_all_var_free, 2);
    if from < members.len() {
        lemma_all_var_free(db, members, from + 1);
    }
}

/// A constant holds no inference variables exactly where its type does not, and none of its parts
/// do. An inference variable is one, and a constant of an impl holds those of the impl.
pub proof fn var_free_where_all_parts_are(
    db: SemanticDb,
    members: Seq<ConstView>,
    ty: TypeId,
    value: ConstView,
    number: int,
)
    ensures
        db.spec_is_var_free(ConstView::Int(number, ty)) == Some(db.spec_type_is_var_free(ty)),
        db.spec_is_var_free(ConstView::Struct(members, ty)) == Some(true)
            <==> db.spec_type_is_var_free(ty) && forall|i: int|
            0 <= i < members.len() ==> db.spec_is_var_free(#[trigger] members[i]) == Some(true),
        value is Var ==> db.spec_is_var_free(value) == Some(false),
        value is Generic || value is Missing ==> (db.spec_const_ty(value) matches Ok(ty)
            ==> db.spec_is_var_free(value) == Some(db.spec_type_is_var_free(ty))),
        value matches ConstView::ImplConstant(id) ==> (db.spec_is_var_free(value) == Some(true)
            ==> db.impls@[id.spec_impl_id().0 as int].is_var_free),
{
    reveal_with_fuel(SemanticDb::spec_is_var_free, 2);
    if db.spec_is_var_free(ConstView::Struct(members, ty)) == Some(true) {
        assert forall|i: int| 0 <= i < members.len() implies db.spec_is_var_free(
            #[trigger] members[i],
        ) == Some(true) by {
            lemma_var_free_member(db, members, 0, i);
        }
    }
    if forall|i: int|
        0 <= i < members.len() ==> db.spec_is_var_free(#[trigger] members[i]) == Some(true) {
        lemma_all_var_free(db, members, 0);
    }
}

/// The types of constants: numbers, structs and inference variables say their own, an enum has that
/// of its variant, and the wrapper of a value has the wrapper of its type.
pub proof fn types_of_constants(
    db: SemanticDb,
    value: ConstView,
    members: Seq<ConstView>,
    ty: TypeId,
    number: int,
    var: ConstVarId,
    variant: ConcreteVariant,
)
    requires
        db.spec_const_ty(value) == Ok::<TypeId, DiagnosticAdded>(ty),
        variant.concrete_enum_id.0 < db.enums@.len(),
    ensures
        db.spec_const_ty(ConstView::Int(number, ty)) == Ok::<TypeId, DiagnosticAdded>(ty),
        db.spec_const_ty(ConstView::Struct(members, ty)) == Ok::<TypeId, DiagnosticAdded>(ty),
        db.spec_const_ty(ConstView::Var(var, ty)) == Ok::<TypeId, DiagnosticAdded>(ty),
        db.spec_const_ty(ConstView::Missing) == Ok::<TypeId, DiagnosticAdded>(
            db.core_info.missing,
        ),
        db.spec_const_ty(ConstView::Enum(variant, Box::new(value))) == Ok::<
            TypeId,
            DiagnosticAdded,
        >(db.enums@[variant.concrete_enum_id.0 as int].ty),
        db.spec_const_ty(ConstView::NonZero(Box::new(value))) == Ok::<TypeId, DiagnosticAdded>(
            TypeId::NonZero(Box::new(ty)),
        ),
        db.spec_const_ty(ConstView::Boxed(Box::new(value))) == Ok::<TypeId, DiagnosticAdded>(
            TypeId::Boxed(Box::new(ty)),
        ),
{
    reveal_with_fuel(SemanticDb::spec_const_ty, 2);
}

/// A generic parameter, or a constant of an impl, has the type of its entry.
pub proof fn types_of_generic_constants(db: SemanticDb, at: int)
    ensures
        0 <= at < db.generic_const_params@.len() && (forall|i: int|
            0 <= i < at ==> (#[trigger] db.generic_const_params@[i]).id
                != db.generic_const_params@[at].id) ==> db.spec_const_ty(
            ConstView::Generic(db.generic_const_params@[at].id),
        ) == db.generic_const_params@[at].ty,
        0 <= at < db.impl_constant_types@.len() && (forall|i: int|
            0 <= i < at ==> (#[trigger] db.impl_constant_types@[i]).0
                != db.impl_constant_types@[at].0) ==> db.spec_const_ty(
            ConstView::ImplConstant(db.impl_constant_types@[at].0),
        ) == db.impl_constant_types@[at].1,
{
    lemma_first_where(
        db.generic_const_params@,
        param_with_id(db.generic_const_params@[at].id),
        0,
    );
    lemma_first_where(
        db.impl_constant_types@,
        keyed::<ImplConstantId, Maybe<TypeId>>(db.impl_constant_types@[at].0),
        0,
    );
}

/// Each kind of constant is seen as itself, with its parts in their order.
pub proof fn constants_are_seen_as_they_are(value: ConstValue)
    ensures
        match value {
            ConstValue::Int(number, ty) => value@ == ConstView::Int(number@, ty),
            ConstValue::Struct(members, ty) => {
                &&& value@ matches ConstView::Struct(all, seen_ty)
                &&& seen_ty == ty
                &&& all.len() == members@.len()
                &&& forall|i: int| 0 <= i < members@.len() ==> all[i] == (#[trigger] members@[i])@
            },
            ConstValue::Enum(variant, inner) => value@ == ConstView::Enum(
                variant,
                Box::new(inner@),
            ),
            ConstValue::NonZero(inner) => value@ == ConstView::NonZero(Box::new(inner@)),
            ConstValue::Boxed(inner) => value@ == ConstView::Boxed(Box::new(inner@)),
            ConstValue::Generic(param) => value@ == ConstView::Generic(param),
            ConstValue::ImplConstant(id) => value@ == ConstView::ImplConstant(id),
            ConstValue::Var(var, ty) => value@ == ConstView::Var(var, ty),
            ConstValue::Missing(_) => value@ == ConstView::Missing,
        },
{
    if let ConstValue::Struct(members, ty) = value {
        lemma_struct_view(members, ty);
    }
}

} // verus!
