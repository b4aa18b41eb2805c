//! The tables that describe a program: what the constant calculation asks of its types, structs,
//! enums and functions.
use vstd::prelude::*;

use crate::constant::value::{ConstValue, ConstView, ImplConstantId};
use crate::constant::ConstValueId;
use crate::integer::Integer;
use crate::search::{first_where, keyed, lemma_first_where};
use crate::semantic::diagnostics::LiteralError;
use crate::semantic::exprs::Arenas;
use crate::semantic::ids::{
    ConcreteEnumId, ConcreteStructId, ConcreteVariant, CrateId, DiagnosticAdded, ExprId,
    ExternFunctionId, FunctionId, GenericParamId, ImplId, Maybe, MemberId, TraitFunctionId, TraitId,
    TypeId, VariantId,
};

verus! {

/// A type of the table of types.
#[derive(Debug)]
pub struct TypeInfo {
    /// The full name of the type.
    pub name: String,
    /// Whether the type depends on no generic parameters.
    pub is_fully_concrete: bool,
    /// Whether the type holds no inference variables.
    pub is_var_free: bool,
    /// The smallest and the largest literal of the type, where it has literals.
    pub literal_range: Option<(Integer, Integer)>,
    /// The enum that the type is.
    pub enum_id: Option<ConcreteEnumId>,
}

#[derive(Debug)]
pub struct EnumInfo {
    pub name: String,
    /// The type that the enum is.
    pub ty: TypeId,
    pub variants: Maybe<Vec<ConcreteVariant>>,
    pub variant_names: Vec<(VariantId, String)>,
}

/// A signature: what the constant calculation needs of it.
#[derive(Debug)]
pub struct Signature {
    pub is_const: bool,
    /// The ids of the parameters.
    pub params: Vec<u64>,
}

#[derive(Debug)]
pub struct FunctionBody {
    pub arenas: Arenas,
    pub body_expr: ExprId,
}

/// What becomes of the constants, types and functions of a generic body in one instance of it.
/// What has no entry stays as it is.
#[derive(Debug)]
pub struct GenericSubstitution {
    pub consts: Vec<(ConstValueId, Maybe<ConstValue>)>,
    pub types: Vec<(TypeId, Maybe<TypeId>)>,
    pub functions: Vec<(FunctionId, Maybe<FunctionId>)>,
}

/// The generic function behind a body.
#[derive(Debug)]
pub enum GenericFunctionWithBodyId {
    /// A function of an impl: the crate of the impl, and the trait that it implements.
    Impl { owning_crate: CrateId, trait_id: Maybe<TraitId> },
    Other,
}

#[derive(Debug)]
pub struct FunctionWithBody {
    pub generic_function: GenericFunctionWithBodyId,
    pub signature: Maybe<Signature>,
    pub substitution: Maybe<GenericSubstitution>,
    pub body: Maybe<FunctionBody>,
}

/// The impl of a function of a trait.
#[derive(Debug)]
pub enum ImplLongId {
    /// A known impl; with the signature of its function for the trait's function, if it has one.
    Concrete { function_signature: Maybe<Option<Maybe<Signature>>> },
    Other,
}

/// A function of a trait, called for an impl.
#[derive(Debug)]
pub struct ImplGenericFunctionId {
    pub impl_id: ImplLongId,
    pub function: TraitFunctionId,
    pub trait_signature: Maybe<Signature>,
}

#[derive(Debug)]
pub enum GenericFunctionId {
    Free { signature: Maybe<Signature> },
    Extern { id: ExternFunctionId, signature: Maybe<Signature> },
    Impl(ImplGenericFunctionId),
}

#[derive(Debug)]
pub struct ConcreteFunction {
    pub generic_function: GenericFunctionId,
    pub full_path: String,
    pub body: Maybe<Option<FunctionWithBody>>,
}

/// A generic parameter that stands for a constant.
#[derive(Debug)]
pub struct GenericConstParam {
    pub id: GenericParamId,
    pub name: String,
    pub ty: Maybe<TypeId>,
}

#[derive(Debug)]
pub struct ImplInfo {
    pub name: String,
    pub is_var_free: bool,
    /// The trait of the impl, where the impl is concrete.
    pub concrete_trait: Option<Maybe<TraitId>>,
}

#[derive(Debug)]
pub struct TraitConstantInfo {
    pub name: String,
    pub trait_id: TraitId,
}

/// The items of the core library that the constant calculation knows.
#[derive(Debug)]
pub struct CoreInfo {
    pub felt252: TypeId,
    pub u128: TypeId,
    pub u256: TypeId,
    pub unit: TypeId,
    /// The type of what is missing.
    pub missing: TypeId,
    pub true_variant: ConcreteVariant,
    pub false_variant: ConcreteVariant,
    pub neg_fn: TraitFunctionId,
    pub add_fn: TraitFunctionId,
    pub sub_fn: TraitFunctionId,
    pub mul_fn: TraitFunctionId,
    pub div_fn: TraitFunctionId,
    pub rem_fn: TraitFunctionId,
    pub div_rem_fn: TraitFunctionId,
    pub bitand_fn: TraitFunctionId,
    pub bitor_fn: TraitFunctionId,
    pub bitxor_fn: TraitFunctionId,
    pub eq_fn: TraitFunctionId,
    pub ne_fn: TraitFunctionId,
    pub lt_fn: TraitFunctionId,
    pub le_fn: TraitFunctionId,
    pub gt_fn: TraitFunctionId,
    pub ge_fn: TraitFunctionId,
    pub not_fn: TraitFunctionId,
    pub neg_trt: TraitId,
    pub add_trt: TraitId,
    pub sub_trt: TraitId,
    pub mul_trt: TraitId,
    pub div_trt: TraitId,
    pub rem_trt: TraitId,
    pub div_rem_trt: TraitId,
    pub bitand_trt: TraitId,
    pub bitor_trt: TraitId,
    pub bitxor_trt: TraitId,
    pub partialeq_trt: TraitId,
    pub partialord_trt: TraitId,
    pub not_trt: TraitId,
}

impl CoreInfo {
    /// The functions of the traits that the constant calculation knows.
    pub open spec fn functions(self) -> Seq<TraitFunctionId> {
        seq![
            self.neg_fn,
            self.add_fn,
            self.sub_fn,
            self.mul_fn,
            self.div_fn,
            self.rem_fn,
            self.div_rem_fn,
            self.bitand_fn,
            self.bitor_fn,
            self.bitxor_fn,
            self.eq_fn,
            self.ne_fn,
            self.lt_fn,
            self.le_fn,
            self.gt_fn,
            self.ge_fn,
            self.not_fn,
        ]
    }

    /// The functions differ from each other, and so do the variants of `bool`.
    pub open spec fn wf(self) -> bool {
        &&& forall|i: int, j: int|
            0 <= i < j < self.functions().len() ==> #[trigger] self.functions()[i]
                != #[trigger] self.functions()[j]
        &&& self.true_variant != self.false_variant
    }
}

/// The tables of a program.
#[derive(Debug)]
pub struct SemanticDb {
    pub types: Vec<TypeInfo>,
    /// The full name of the wrapper of [TypeId::NonZero].
    pub nonzero_path: String,
    /// The full name of the wrapper of [TypeId::Boxed].
    pub box_path: String,
    /// The members of each struct, in the order of its definition.
    pub structs: Vec<Maybe<Vec<MemberId>>>,
    pub enums: Vec<EnumInfo>,
    pub functions: Vec<ConcreteFunction>,
    pub const_values: Vec<ConstValue>,
    pub generic_const_params: Vec<GenericConstParam>,
    pub impls: Vec<ImplInfo>,
    pub trait_constants: Vec<TraitConstantInfo>,
    /// The types of the constants of impls.
    pub impl_constant_types: Vec<(ImplConstantId, Maybe<TypeId>)>,
    pub core_crate: CrateId,
    pub core_info: CoreInfo,
}

pub open spec fn param_with_id(id: GenericParamId) -> spec_fn(GenericConstParam) -> bool {
    |param: GenericConstParam| param.id == id
}

/// What comes of looking up a missing entry.
pub open spec fn no_entry<T>() -> Maybe<T> {
    Err(DiagnosticAdded {  })
}

/// A substitution as mathematics sees it.
#[verifier::ext_equal]
pub struct SubstitutionView {
    pub consts: Seq<(ConstValueId, Maybe<ConstView>)>,
    pub types: Seq<(TypeId, Maybe<TypeId>)>,
    pub functions: Seq<(FunctionId, Maybe<FunctionId>)>,
}

pub open spec fn const_entry_view(entry: (ConstValueId, Maybe<ConstValue>)) -> (
    ConstValueId,
    Maybe<ConstView>,
) {
    (
        entry.0,
        match entry.1 {
            Ok(to) => Ok(to@),
            Err(added) => Err(added),
        },
    )
}

impl View for GenericSubstitution {
    type V = SubstitutionView;

    open spec fn view(&self) -> SubstitutionView {
        SubstitutionView {
            consts: Seq::new(self.consts@.len(), |i: int| const_entry_view(self.consts@[i])),
            types: self.types@,
            functions: self.functions@,
        }
    }
}

impl SubstitutionView {
    /// The substitution that changes nothing.
    pub open spec fn identity() -> SubstitutionView {
        SubstitutionView { consts: Seq::empty(), types: Seq::empty(), functions: Seq::empty() }
    }

    pub open spec fn wf(self, n_functions: nat) -> bool {
        forall|i: int|
            0 <= i < self.functions.len() ==> ((#[trigger] self.functions[i]).1 matches Ok(to)
                ==> to.0 < n_functions)
    }

    /// What becomes of the constant `id`, whose value is `value`.
    pub open spec fn substitute_const(self, id: ConstValueId, value: ConstView) -> Maybe<
        ConstView,
    > {
        match first_where(self.consts, keyed::<ConstValueId, Maybe<ConstView>>(id), 0) {
            Some(at) => self.consts[at].1,
            None => Ok(value),
        }
    }

    /// What becomes of the type `ty`.
    pub open spec fn substitute_type(self, ty: TypeId) -> Maybe<TypeId> {
        match first_where(self.types, keyed::<TypeId, Maybe<TypeId>>(ty), 0) {
            Some(at) => self.types[at].1,
            None => Ok(ty),
        }
    }

    /// What becomes of the function `function`.
    pub open spec fn substitute_function(self, function: FunctionId) -> Maybe<FunctionId> {
        match first_where(self.functions, keyed::<FunctionId, Maybe<FunctionId>>(function), 0) {
            Some(at) => self.functions[at].1,
            None => Ok(function),
        }
    }
}

impl GenericSubstitution {
    /// The substitution that changes nothing.
    pub fn new() -> (r: Self)
        ensures
            r@ == SubstitutionView::identity(),
    {
        let r = GenericSubstitution {
            consts: Vec::new(),
            types: Vec::new(),
            functions: Vec::new(),
        };
        assert(r@ =~= SubstitutionView::identity());
        r
    }

    /// What becomes of the constant `id`, whose value is `value`.
    pub fn substitute_const(&self, id: ConstValueId, value: &ConstValue) -> (r: Maybe<ConstValue>)
        ensures
            match r {
                Ok(to) => self@.substitute_const(id, value@) == Ok::<ConstView, DiagnosticAdded>(
                    to@,
                ),
                Err(added) => self@.substitute_const(id, value@) == Err::<
                    ConstView,
                    DiagnosticAdded,
                >(added),
            },
    {
        let ghost p = keyed::<ConstValueId, Maybe<ConstView>>(id);
        let mut i: usize = 0;
        while i < self.consts.len()
            invariant
                i <= self.consts@.len(),
                p == keyed::<ConstValueId, Maybe<ConstView>>(id),
                first_where(self@.consts, p, 0) == first_where(self@.consts, p, i as int),
            decreases self.consts@.len() - i,
        {
            assert(self@.consts[i as int] == const_entry_view(self.consts@[i as int]));
            if self.consts[i].0 == id {
                return match &self.consts[i].1 {
                    Ok(to) => Ok(to.clone()),
                    Err(added) => Err(*added),
                };
            }
            i += 1;
        }
        Ok(value.clone())
    }

    /// What becomes of the type `ty`.
    pub fn substitute_type(&self, ty: &TypeId) -> (r: Maybe<TypeId>)
        ensures
            r == self@.substitute_type(*ty),
    {
        let ghost p = keyed::<TypeId, Maybe<TypeId>>(*ty);
        let mut i: usize = 0;
        while i < self.types.len()
            invariant
                i <= self.types@.len(),
                p == keyed::<TypeId, Maybe<TypeId>>(*ty),
                first_where(self.types@, p, 0) == first_where(self.types@, p, i as int),
            decreases self.types@.len() - i,
        {
            if self.types[i].0 == *ty {
                return match &self.types[i].1 {
                    Ok(to) => Ok(to.clone()),
                    Err(added) => Err(*added),
                };
            }
            i += 1;
        }
        Ok(ty.clone())
    }

    /// What becomes of the function `function`.
    pub fn substitute_function(&self, function: FunctionId) -> (r: Maybe<FunctionId>)
        ensures
            r == self@.substitute_function(function),
    {
        let ghost p = keyed::<FunctionId, Maybe<FunctionId>>(function);
        let mut i: usize = 0;
        while i < self.functions.len()
            invariant
                i <= self.functions@.len(),
                p == keyed::<FunctionId, Maybe<FunctionId>>(function),
                first_where(self.functions@, p, 0) == first_where(self.functions@, p, i as int),
            decreases self.functions@.len() - i,
        {
            if self.functions[i].0 == function {
                return self.functions[i].1;
            }
            i += 1;
        }
        Ok(function)
    }
}

impl GenericFunctionId {
    /// The signature that decides whether the function may be called in a constant: for a function
    /// of a trait, that of the impl where the impl has one, else that of the trait.
    pub open spec fn declared_signature(self) -> Maybe<Signature> {
        match self {
            GenericFunctionId::Free { signature } => signature,
            GenericFunctionId::Extern { signature, .. } => signature,
            GenericFunctionId::Impl(imp) => match imp.impl_id {
                ImplLongId::Concrete { function_signature: Ok(Some(signature)) } => signature,
                _ => imp.trait_signature,
            },
        }
    }

    /// Whether the function is declared to be constant.
    pub fn is_declared_const(&self) -> (r: bool)
        ensures
            r == (self.declared_signature() matches Ok(signature) && signature.is_const),
    {
        let signature = match self {
            GenericFunctionId::Free { signature } => signature,
            GenericFunctionId::Extern { signature, .. } => signature,
            GenericFunctionId::Impl(imp) => match &imp.impl_id {
                ImplLongId::Concrete { function_signature: Ok(Some(signature)) } => signature,
                _ => &imp.trait_signature,
            },
        };
        match signature {
            Ok(signature) => signature.is_const,
            Err(_) => false,
        }
    }
}

impl FunctionBody {
    pub open spec fn wf(self, n_functions: nat, n_consts: nat) -> bool {
        self.arenas.wf(n_functions, n_consts) && self.body_expr.0 < self.arenas.exprs@.len()
    }
}

impl FunctionWithBody {
    pub open spec fn wf(self, n_functions: nat, n_consts: nat) -> bool {
        &&& self.body matches Ok(body) ==> body.wf(n_functions, n_consts)
        &&& self.substitution matches Ok(substitution) ==> substitution@.wf(n_functions)
    }
}

impl SemanticDb {
    /// The bodies of the functions are well formed, and the items of the core library differ.
    pub open spec fn wf(self) -> bool {
        &&& self.core_info.wf()
        &&& forall|i: int|
            0 <= i < self.functions@.len() ==> ((#[trigger] self.functions@[i]).body matches Ok(
                Some(body),
            ) ==> body.wf(self.functions@.len(), self.const_values@.len()))
    }

    /// Whether the arenas hold a body of this program.
    pub open spec fn holds(self, arenas: Arenas) -> bool {
        arenas.wf(self.functions@.len(), self.const_values@.len())
    }

    pub open spec fn spec_type_is_fully_concrete(self, ty: TypeId) -> bool
        decreases ty,
    {
        match ty {
            TypeId::Named(idx) => idx < self.types@.len()
                && self.types@[idx as int].is_fully_concrete,
            TypeId::NonZero(inner) => self.spec_type_is_fully_concrete(*inner),
            TypeId::Boxed(inner) => self.spec_type_is_fully_concrete(*inner),
        }
    }

    /// Whether the type depends on no generic parameters.
    pub fn type_is_fully_concrete(&self, ty: &TypeId) -> (r: bool)
        ensures
            r == self.spec_type_is_fully_concrete(*ty),
        decreases *ty,
    {
        match ty {
            TypeId::Named(idx) => *idx < self.types.len() && self.types[*idx].is_fully_concrete,
            TypeId::NonZero(inner) => self.type_is_fully_concrete(inner),
            TypeId::Boxed(inner) => self.type_is_fully_concrete(inner),
        }
    }

    pub open spec fn spec_type_is_var_free(self, ty: TypeId) -> bool
        decreases ty,
    {
        match ty {
            TypeId::Named(idx) => idx < self.types@.len() && self.types@[idx as int].is_var_free,
            TypeId::NonZero(inner) => self.spec_type_is_var_free(*inner),
            TypeId::Boxed(inner) => self.spec_type_is_var_free(*inner),
        }
    }

    /// Whether the type holds no inference variables.
    pub fn type_is_var_free(&self, ty: &TypeId) -> (r: bool)
        ensures
            r == self.spec_type_is_var_free(*ty),
        decreases *ty,
    {
        match ty {
            TypeId::Named(idx) => *idx < self.types.len() && self.types[*idx].is_var_free,
            TypeId::NonZero(inner) => self.type_is_var_free(inner),
            TypeId::Boxed(inner) => self.type_is_var_free(inner),
        }
    }

    /// The enum that the type is.
    pub open spec fn spec_type_enum(self, ty: TypeId) -> Option<ConcreteEnumId> {
        match ty {
            TypeId::Named(idx) if idx < self.types@.len() => self.types@[idx as int].enum_id,
            _ => None,
        }
    }

    /// The enum that the type is.
    pub fn type_enum(&self, ty: &TypeId) -> (r: Option<ConcreteEnumId>)
        ensures
            r == self.spec_type_enum(*ty),
    {
        match ty {
            TypeId::Named(idx) if *idx < self.types.len() => self.types[*idx].enum_id,
            _ => None,
        }
    }

    /// Whether `value` can be a literal of `ty`. A `NonZero` has the literals of the type that it
    /// wraps, but for zero.
    pub open spec fn spec_validate_literal(self, ty: TypeId, value: int) -> Result<
        (),
        LiteralError,
    >
        decreases ty,
    {
        match ty {
            TypeId::Named(idx) => if idx < self.types@.len() {
                match self.types@[idx as int].literal_range {
                    Some(range) => if range.0@ <= value <= range.1@ {
                        Ok(())
                    } else {
                        Err(LiteralError::OutOfRange(ty))
                    },
                    None => Err(LiteralError::InvalidTypeForLiteral(ty)),
                }
            } else {
                Err(LiteralError::InvalidTypeForLiteral(ty))
            },
            TypeId::NonZero(inner) => if value == 0 {
                Err(LiteralError::OutOfRange(ty))
            } else {
                self.spec_validate_literal(*inner, value)
            },
            TypeId::Boxed(_) => Err(LiteralError::InvalidTypeForLiteral(ty)),
        }
    }

    /// Checks that `value` can be a literal of `ty`.
    pub fn validate_literal(&self, ty: &TypeId, value: &Integer) -> (r: Result<(), LiteralError>)
        ensures
            r == self.spec_validate_literal(*ty, value@),
        decreases *ty,
    {
        match ty {
            TypeId::Named(idx) => if *idx < self.types.len() {
                match &self.types[*idx].literal_range {
                    Some(range) => if value.less(&range.0) || range.1.less(value) {
                        Err(LiteralError::OutOfRange(ty.clone()))
                    } else {
                        Ok(())
                    },
                    None => Err(LiteralError::InvalidTypeForLiteral(ty.clone())),
                }
            } else {
                Err(LiteralError::InvalidTypeForLiteral(ty.clone()))
            },
            TypeId::NonZero(inner) => if value.is_zero() {
                Err(LiteralError::OutOfRange(ty.clone()))
            } else {
                self.validate_literal(inner, value)
            },
            TypeId::Boxed(_) => Err(LiteralError::InvalidTypeForLiteral(ty.clone())),
        }
    }

    pub open spec fn spec_struct_members(self, id: ConcreteStructId) -> Maybe<Seq<MemberId>> {
        if id.0 < self.structs@.len() {
            match self.structs@[id.0 as int] {
                Ok(members) => Ok(members@),
                Err(added) => Err(added),
            }
        } else {
            no_entry()
        }
    }

    /// The members of the struct, in the order of its definition.
    pub fn concrete_struct_members(&self, id: ConcreteStructId) -> (r: Maybe<&Vec<MemberId>>)
        ensures
            match r {
                Ok(members) => self.spec_struct_members(id) == Ok::<Seq<MemberId>, DiagnosticAdded>(
                    members@,
                ),
                Err(added) => self.spec_struct_members(id) == Err::<
                    Seq<MemberId>,
                    DiagnosticAdded,
                >(added),
            },
    {
        if id.0 < self.structs.len() {
            match &self.structs[id.0] {
                Ok(members) => Ok(members),
                Err(added) => Err(*added),
            }
        } else {
            Err(DiagnosticAdded {  })
        }
    }

    pub open spec fn spec_enum_variants(self, id: ConcreteEnumId) -> Maybe<Seq<ConcreteVariant>> {
        if id.0 < self.enums@.len() {
            match self.enums@[id.0 as int].variants {
                Ok(variants) => Ok(variants@),
                Err(added) => Err(added),
            }
        } else {
            no_entry()
        }
    }

    /// The variants of the enum, in the order of its definition.
    pub fn concrete_enum_variants(&self, id: ConcreteEnumId) -> (r: Maybe<&Vec<ConcreteVariant>>)
        ensures
            match r {
                Ok(variants) => self.spec_enum_variants(id) == Ok::<
                    Seq<ConcreteVariant>,
                    DiagnosticAdded,
                >(variants@),
                Err(added) => self.spec_enum_variants(id) == Err::<
                    Seq<ConcreteVariant>,
                    DiagnosticAdded,
                >(added),
            },
    {
        if id.0 < self.enums.len() {
            match &self.enums[id.0].variants {
                Ok(variants) => Ok(variants),
                Err(added) => Err(*added),
            }
        } else {
            Err(DiagnosticAdded {  })
        }
    }

    pub open spec fn spec_enum_ty(self, id: ConcreteEnumId) -> Maybe<TypeId> {
        if id.0 < self.enums@.len() {
            Ok(self.enums@[id.0 as int].ty)
        } else {
            no_entry()
        }
    }

    /// The type that the enum is.
    pub fn enum_ty(&self, id: ConcreteEnumId) -> (r: Maybe<TypeId>)
        ensures
            r == self.spec_enum_ty(id),
    {
        if id.0 < self.enums.len() {
            Ok(self.enums[id.0].ty.clone())
        } else {
            Err(DiagnosticAdded {  })
        }
    }

    pub open spec fn spec_generic_param_ty(self, param: GenericParamId) -> Maybe<TypeId> {
        match first_where(
            self.generic_const_params@,
            param_with_id(param),
            0,
        ) {
            Some(at) => self.generic_const_params@[at].ty,
            None => no_entry(),
        }
    }

    /// The type of the constant that the generic parameter stands for.
    pub fn generic_param_ty(&self, param: GenericParamId) -> (r: Maybe<TypeId>)
        ensures
            r == self.spec_generic_param_ty(param),
    {
        let ghost p = param_with_id(param);
        let mut i: usize = 0;
        while i < self.generic_const_params.len()
            invariant
                i <= self.generic_const_params@.len(),
                p == param_with_id(param),
                first_where(self.generic_const_params@, p, 0) == first_where(
                    self.generic_const_params@,
                    p,
                    i as int,
                ),
            decreases self.generic_const_params@.len() - i,
        {
            if self.generic_const_params[i].id == param {
                return match &self.generic_const_params[i].ty {
                    Ok(ty) => Ok(ty.clone()),
                    Err(added) => Err(*added),
                };
            }
            i += 1;
        }
        Err(DiagnosticAdded {  })
    }

    pub open spec fn spec_impl_constant_ty(self, id: ImplConstantId) -> Maybe<TypeId> {
        match first_where(
            self.impl_constant_types@,
            keyed::<ImplConstantId, Maybe<TypeId>>(id),
            0,
        ) {
            Some(at) => self.impl_constant_types@[at].1,
            None => no_entry(),
        }
    }

    /// The type of the constant of an impl.
    pub fn impl_constant_ty(&self, id: ImplConstantId) -> (r: Maybe<TypeId>)
        ensures
            r == self.spec_impl_constant_ty(id),
    {
        let ghost p = keyed::<ImplConstantId, Maybe<TypeId>>(id);
        let mut i: usize = 0;
        while i < self.impl_constant_types.len()
            invariant
                i <= self.impl_constant_types@.len(),
                p == keyed::<ImplConstantId, Maybe<TypeId>>(id),
                first_where(self.impl_constant_types@, p, 0) == first_where(
                    self.impl_constant_types@,
                    p,
                    i as int,
                ),
            decreases self.impl_constant_types@.len() - i,
        {
            if self.impl_constant_types[i].0 == id {
                return match &self.impl_constant_types[i].1 {
                    Ok(ty) => Ok(ty.clone()),
                    Err(added) => Err(*added),
                };
            }
            i += 1;
        }
        Err(DiagnosticAdded {  })
    }

    pub open spec fn spec_impl_is_var_free(self, id: ImplId) -> bool {
        id.0 < self.impls@.len() && self.impls@[id.0 as int].is_var_free
    }

    /// Whether the impl holds no inference variables.
    pub fn impl_is_var_free(&self, id: ImplId) -> (r: bool)
        ensures
            r == self.spec_impl_is_var_free(id),
    {
        id.0 < self.impls.len() && self.impls[id.0].is_var_free
    }
}

impl SubstitutionView {
    /// What has no entry stays as it is.
    pub proof fn others_stay(
        self,
        id: ConstValueId,
        value: ConstView,
        ty: TypeId,
        function: FunctionId,
    )
        ensures
            (forall|i: int| 0 <= i < self.consts.len() ==> (#[trigger] self.consts[i]).0 != id)
                ==> self.substitute_const(id, value) == Ok::<ConstView, DiagnosticAdded>(value),
            (forall|i: int| 0 <= i < self.types.len() ==> (#[trigger] self.types[i]).0 != ty)
                ==> self.substitute_type(ty) == Ok::<TypeId, DiagnosticAdded>(ty),
            (forall|i: int|
                0 <= i < self.functions.len() ==> (#[trigger] self.functions[i]).0 != function)
                ==> self.substitute_function(function) == Ok::<FunctionId, DiagnosticAdded>(
                function,
            ),
    {
        lemma_first_where(self.consts, keyed::<ConstValueId, Maybe<ConstView>>(id), 0);
        lemma_first_where(self.types, keyed::<TypeId, Maybe<TypeId>>(ty), 0);
        lemma_first_where(self.functions, keyed::<FunctionId, Maybe<FunctionId>>(function), 0);
    }

    /// What has an entry becomes what the entry says, and the first entry counts.
    pub proof fn entries_are_substituted(self, at: int, value: ConstView)
        ensures
            0 <= at < self.consts.len() && (forall|i: int|
                0 <= i < at ==> (#[trigger] self.consts[i]).0 != self.consts[at].0)
                ==> self.substitute_const(self.consts[at].0, value) == self.consts[at].1,
            0 <= at < self.types.len() && (forall|i: int|
                0 <= i < at ==> (#[trigger] self.types[i]).0 != self.types[at].0)
                ==> self.substitute_type(self.types[at].0) == self.types[at].1,
            0 <= at < self.functions.len() && (forall|i: int|
                0 <= i < at ==> (#[trigger] self.functions[i]).0 != self.functions[at].0)
                ==> self.substitute_function(self.functions[at].0) == self.functions[at].1,
    {
        lemma_first_where(
            self.consts,
            keyed::<ConstValueId, Maybe<ConstView>>(self.consts[at].0),
            0,
        );
        lemma_first_where(self.types, keyed::<TypeId, Maybe<TypeId>>(self.types[at].0), 0);
        lemma_first_where(
            self.functions,
            keyed::<FunctionId, Maybe<FunctionId>>(self.functions[at].0),
            0,
        );
    }

    /// The substitution that changes nothing leaves everything as it is.
    pub proof fn identity_changes_nothing(
        id: ConstValueId,
        value: ConstView,
        ty: TypeId,
        function: FunctionId,
    )
        ensures
            Self::identity().substitute_const(id, value) == Ok::<ConstView, DiagnosticAdded>(value),
            Self::identity().substitute_type(ty) == Ok::<TypeId, DiagnosticAdded>(ty),
            Self::identity().substitute_function(function) == Ok::<FunctionId, DiagnosticAdded>(
                function,
            ),
    {
        Self::identity().others_stay(id, value, ty, function);
    }
}

impl SemanticDb {
    /// A type of the table has the literals of its range, and none where it has no range.
    pub proof fn literals_are_in_the_range_of_their_type(self, idx: usize, value: int)
        requires
            idx < self.types@.len(),
        ensures
            match self.types@[idx as int].literal_range {
                Some(range) => self.spec_validate_literal(TypeId::Named(idx), value) == (
                if range.0@ <= value && value <= range.1@ {
                    Ok::<(), LiteralError>(())
                } else {
                    Err(LiteralError::OutOfRange(TypeId::Named(idx)))
                }),
                None => self.spec_validate_literal(TypeId::Named(idx), value) == Err::<
                    (),
                    LiteralError,
                >(LiteralError::InvalidTypeForLiteral(TypeId::Named(idx))),
            },
    {
    }

    /// A `NonZero` has the literals of the type that it wraps, but for zero. A box has none.
    pub proof fn wrappers_have_the_literals_of_what_they_wrap(self, ty: TypeId, value: int)
        ensures
            self.spec_validate_literal(TypeId::NonZero(Box::new(ty)), value) is Ok <==> value != 0
                && self.spec_validate_literal(ty, value) is Ok,
            self.spec_validate_literal(TypeId::NonZero(Box::new(ty)), 0) == Err::<
                (),
                LiteralError,
            >(LiteralError::OutOfRange(TypeId::NonZero(Box::new(ty)))),
            self.spec_validate_literal(TypeId::Boxed(Box::new(ty)), value) == Err::<
                (),
                LiteralError,
            >(LiteralError::InvalidTypeForLiteral(TypeId::Boxed(Box::new(ty)))),
    {
        reveal_with_fuel(SemanticDb::spec_validate_literal, 2);
    }

    /// A type is concrete, or free of inference variables, where what it wraps is.
    pub proof fn wrappers_are_what_they_wrap(self, ty: TypeId, idx: usize)
        ensures
            self.spec_type_is_fully_concrete(TypeId::NonZero(Box::new(ty)))
                == self.spec_type_is_fully_concrete(ty),
            self.spec_type_is_fully_concrete(TypeId::Boxed(Box::new(ty)))
                == self.spec_type_is_fully_concrete(ty),
            self.spec_type_is_var_free(TypeId::NonZero(Box::new(ty)))
                == self.spec_type_is_var_free(ty),
            self.spec_type_is_var_free(TypeId::Boxed(Box::new(ty))) == self.spec_type_is_var_free(
                ty,
            ),
            idx < self.types@.len() ==> self.spec_type_is_fully_concrete(TypeId::Named(idx))
                == self.types@[idx as int].is_fully_concrete,
            idx < self.types@.len() ==> self.spec_type_is_var_free(TypeId::Named(idx))
                == self.types@[idx as int].is_var_free,
    {
        reveal_with_fuel(SemanticDb::spec_type_is_fully_concrete, 2);
        reveal_with_fuel(SemanticDb::spec_type_is_var_free, 2);
    }

    /// What is asked of a struct, an enum or a type is what its entry says.
    pub proof fn entries_say_what_is_asked(
        self,
        struct_id: ConcreteStructId,
        enum_id: ConcreteEnumId,
        idx: usize,
    )
        ensures
            struct_id.0 < self.structs@.len() ==> match self.structs@[struct_id.0 as int] {
                Ok(members) => self.spec_struct_members(struct_id) == Ok::<
                    Seq<MemberId>,
                    DiagnosticAdded,
                >(members@),
                Err(_) => self.spec_struct_members(struct_id) is Err,
            },
            enum_id.0 < self.enums@.len() ==> match self.enums@[enum_id.0 as int].variants {
                Ok(variants) => self.spec_enum_variants(enum_id) == Ok::<
                    Seq<ConcreteVariant>,
                    DiagnosticAdded,
                >(variants@),
                Err(_) => self.spec_enum_variants(enum_id) is Err,
            },
            enum_id.0 < self.enums@.len() ==> self.spec_enum_ty(enum_id) == Ok::<
                TypeId,
                DiagnosticAdded,
            >(self.enums@[enum_id.0 as int].ty),
            idx < self.types@.len() ==> self.spec_type_enum(TypeId::Named(idx))
                == self.types@[idx as int].enum_id,
    {
    }
}

} // verus!
