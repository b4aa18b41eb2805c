//! Expressions, statements and patterns, in the arenas of the body that they belong to.
use vstd::prelude::*;

use crate::constant::ConstValueId;
use crate::integer::Integer;
use crate::semantic::ids::{
    ConcreteStructId, ConcreteVariant, ExprId, FunctionId, MemberId, PatternId, StatementId,
    SyntaxStablePtrId, TypeId, VarId,
};

verus! {

/// An argument of a call.
#[derive(Debug)]
pub enum ExprFunctionCallArg {
    /// The value of an expression.
    Value(ExprId),
    /// A reference to a variable.
    Reference(SyntaxStablePtrId),
}

#[derive(Debug)]
pub struct ExprFunctionCall {
    pub function: FunctionId,
    pub args: Vec<ExprFunctionCallArg>,
    pub ty: TypeId,
    pub stable_ptr: SyntaxStablePtrId,
}

#[derive(Debug)]
pub struct ExprStructCtor {
    pub concrete_struct_id: ConcreteStructId,
    /// The expressions of the members, in the order in which they are written.
    pub members: Vec<(ExprId, MemberId)>,
    /// The struct that the other members come from.
    pub base_struct: Option<ExprId>,
    pub ty: TypeId,
    pub stable_ptr: SyntaxStablePtrId,
}

#[derive(Debug)]
pub struct ExprMemberAccess {
    pub expr: ExprId,
    pub concrete_struct_id: ConcreteStructId,
    pub member: MemberId,
    pub ty: TypeId,
    pub stable_ptr: SyntaxStablePtrId,
}

/// The elements of a fixed size array.
#[derive(Debug)]
pub enum FixedSizeArrayItems {
    /// One expression for each element.
    Items(Vec<ExprId>),
    /// The expression of all elements, and their number.
    ValueAndSize(ExprId, ConstValueId),
}

#[derive(Clone, Copy, Debug, PartialEq, Eq, Structural)]
pub enum LogicalOperator {
    AndAnd,
    OrOr,
}

#[derive(Debug)]
pub struct MatchArm {
    /// The alternatives of the arm.
    pub patterns: Vec<PatternId>,
    pub expression: ExprId,
}

#[derive(Debug)]
pub struct ExprMatch {
    pub matched_expr: ExprId,
    pub arms: Vec<MatchArm>,
    pub ty: TypeId,
    pub stable_ptr: SyntaxStablePtrId,
}

/// A condition of an `if`.
#[derive(Debug)]
pub enum Condition {
    BoolExpr(ExprId),
    /// `let` with the alternatives of its pattern.
    Let(ExprId, Vec<PatternId>),
}

#[derive(Debug)]
pub struct ExprIf {
    /// The conditions; all of them must hold.
    pub conditions: Vec<Condition>,
    pub if_block: ExprId,
    pub else_block: Option<ExprId>,
    pub ty: TypeId,
    pub stable_ptr: SyntaxStablePtrId,
}

#[allow(inconsistent_fields)]
#[derive(Debug)]
pub enum Expr {
    Var { var: VarId, ty: TypeId, stable_ptr: SyntaxStablePtrId },
    Constant { const_value_id: ConstValueId, ty: TypeId, stable_ptr: SyntaxStablePtrId },
    Block {
        statements: Vec<StatementId>,
        tail: Option<ExprId>,
        ty: TypeId,
        stable_ptr: SyntaxStablePtrId,
    },
    FunctionCall(ExprFunctionCall),
    Literal { value: Integer, ty: TypeId, stable_ptr: SyntaxStablePtrId },
    Tuple { items: Vec<ExprId>, ty: TypeId, stable_ptr: SyntaxStablePtrId },
    StructCtor(ExprStructCtor),
    EnumVariantCtor {
        variant: ConcreteVariant,
        value_expr: ExprId,
        ty: TypeId,
        stable_ptr: SyntaxStablePtrId,
    },
    MemberAccess(ExprMemberAccess),
    FixedSizeArray { items: FixedSizeArrayItems, ty: TypeId, stable_ptr: SyntaxStablePtrId },
    Snapshot { inner: ExprId, ty: TypeId, stable_ptr: SyntaxStablePtrId },
    Desnap { inner: ExprId, ty: TypeId, stable_ptr: SyntaxStablePtrId },
    LogicalOperator {
        lhs: ExprId,
        op: LogicalOperator,
        rhs: ExprId,
        ty: TypeId,
        stable_ptr: SyntaxStablePtrId,
    },
    Match(ExprMatch),
    If(ExprIf),
    /// An expression that could not be understood.
    Missing { ty: TypeId, stable_ptr: SyntaxStablePtrId },
    /// An expression of any other kind, such as a loop or an assignment.
    Other { ty: TypeId, stable_ptr: SyntaxStablePtrId },
}

impl Expr {
    pub open spec fn spec_ty(self) -> TypeId {
        match self {
            Expr::Var { ty, .. } => ty,
            Expr::Constant { ty, .. } => ty,
            Expr::Block { ty, .. } => ty,
            Expr::FunctionCall(expr) => expr.ty,
            Expr::Literal { ty, .. } => ty,
            Expr::Tuple { ty, .. } => ty,
            Expr::StructCtor(expr) => expr.ty,
            Expr::EnumVariantCtor { ty, .. } => ty,
            Expr::MemberAccess(expr) => expr.ty,
            Expr::FixedSizeArray { ty, .. } => ty,
            Expr::Snapshot { ty, .. } => ty,
            Expr::Desnap { ty, .. } => ty,
            Expr::LogicalOperator { ty, .. } => ty,
            Expr::Match(expr) => expr.ty,
            Expr::If(expr) => expr.ty,
            Expr::Missing { ty, .. } => ty,
            Expr::Other { ty, .. } => ty,
        }
    }

    /// The type of the expression.
    pub fn ty(&self) -> (r: TypeId)
        ensures
            r == self.spec_ty(),
    {
        match self {
            Expr::Var { ty, .. } => ty.clone(),
            Expr::Constant { ty, .. } => ty.clone(),
            Expr::Block { ty, .. } => ty.clone(),
            Expr::FunctionCall(expr) => expr.ty.clone(),
            Expr::Literal { ty, .. } => ty.clone(),
            Expr::Tuple { ty, .. } => ty.clone(),
            Expr::StructCtor(expr) => expr.ty.clone(),
            Expr::EnumVariantCtor { ty, .. } => ty.clone(),
            Expr::MemberAccess(expr) => expr.ty.clone(),
            Expr::FixedSizeArray { ty, .. } => ty.clone(),
            Expr::Snapshot { ty, .. } => ty.clone(),
            Expr::Desnap { ty, .. } => ty.clone(),
            Expr::LogicalOperator { ty, .. } => ty.clone(),
            Expr::Match(expr) => expr.ty.clone(),
            Expr::If(expr) => expr.ty.clone(),
            Expr::Missing { ty, .. } => ty.clone(),
            Expr::Other { ty, .. } => ty.clone(),
        }
    }

    pub open spec fn spec_stable_ptr(self) -> SyntaxStablePtrId {
        match self {
            Expr::Var { stable_ptr, .. } => stable_ptr,
            Expr::Constant { stable_ptr, .. } => stable_ptr,
            Expr::Block { stable_ptr, .. } => stable_ptr,
            Expr::FunctionCall(expr) => expr.stable_ptr,
            Expr::Literal { stable_ptr, .. } => stable_ptr,
            Expr::Tuple { stable_ptr, .. } => stable_ptr,
            Expr::StructCtor(expr) => expr.stable_ptr,
            Expr::EnumVariantCtor { stable_ptr, .. } => stable_ptr,
            Expr::MemberAccess(expr) => expr.stable_ptr,
            Expr::FixedSizeArray { stable_ptr, .. } => stable_ptr,
            Expr::Snapshot { stable_ptr, .. } => stable_ptr,
            Expr::Desnap { stable_ptr, .. } => stable_ptr,
            Expr::LogicalOperator { stable_ptr, .. } => stable_ptr,
            Expr::Match(expr) => expr.stable_ptr,
            Expr::If(expr) => expr.stable_ptr,
            Expr::Missing { stable_ptr, .. } => stable_ptr,
            Expr::Other { stable_ptr, .. } => stable_ptr,
        }
    }

    /// The place of the expression.
    pub fn stable_ptr(&self) -> (r: SyntaxStablePtrId)
        ensures
            r == self.spec_stable_ptr(),
    {
        match self {
            Expr::Var { stable_ptr, .. } => *stable_ptr,
            Expr::Constant { stable_ptr, .. } => *stable_ptr,
            Expr::Block { stable_ptr, .. } => *stable_ptr,
            Expr::FunctionCall(expr) => expr.stable_ptr,
            Expr::Literal { stable_ptr, .. } => *stable_ptr,
            Expr::Tuple { stable_ptr, .. } => *stable_ptr,
            Expr::StructCtor(expr) => expr.stable_ptr,
            Expr::EnumVariantCtor { stable_ptr, .. } => *stable_ptr,
            Expr::MemberAccess(expr) => expr.stable_ptr,
            Expr::FixedSizeArray { stable_ptr, .. } => *stable_ptr,
            Expr::Snapshot { stable_ptr, .. } => *stable_ptr,
            Expr::Desnap { stable_ptr, .. } => *stable_ptr,
            Expr::LogicalOperator { stable_ptr, .. } => *stable_ptr,
            Expr::Match(expr) => expr.stable_ptr,
            Expr::If(expr) => expr.stable_ptr,
            Expr::Missing { stable_ptr, .. } => *stable_ptr,
            Expr::Other { stable_ptr, .. } => *stable_ptr,
        }
    }
}

#[derive(Debug)]
pub enum Statement {
    Let { pattern: PatternId, expr: ExprId, stable_ptr: SyntaxStablePtrId },
    Expr { expr: ExprId, stable_ptr: SyntaxStablePtrId },
    /// A statement of any other kind, such as a `return`.
    Other { stable_ptr: SyntaxStablePtrId },
}

#[allow(inconsistent_fields)]
#[derive(Debug)]
pub enum Pattern {
    Literal,
    StringLiteral,
    Otherwise,
    Missing,
    /// Binds the value to the local variable with this number.
    Variable(u64),
    Struct { concrete_struct_id: ConcreteStructId, field_patterns: Vec<(PatternId, MemberId)> },
    Tuple { field_patterns: Vec<PatternId> },
    FixedSizeArray { elements_patterns: Vec<PatternId> },
    EnumVariant { variant: ConcreteVariant, inner_pattern: Option<PatternId> },
}

/// The expressions, statements and patterns of a body. Each is allocated after its parts.
#[derive(Debug)]
pub struct Arenas {
    pub exprs: Vec<Expr>,
    pub statements: Vec<Statement>,
    pub patterns: Vec<Pattern>,
}

impl Arenas {
    pub open spec fn has_pattern(self, id: PatternId) -> bool {
        id.0 < self.patterns@.len()
    }

    /// The parts of the statement are there, and its expression comes before `bound`.
    pub open spec fn statement_below(self, id: StatementId, bound: int) -> bool {
        id.0 < self.statements@.len() && match self.statements@[id.0 as int] {
            Statement::Let { pattern, expr, .. } => expr.0 < bound && self.has_pattern(pattern),
            Statement::Expr { expr, .. } => expr.0 < bound,
            Statement::Other { .. } => true,
        }
    }

    pub open spec fn arm_below(self, arm: MatchArm, bound: int) -> bool {
        &&& arm.expression.0 < bound
        &&& forall|i: int|
            0 <= i < arm.patterns@.len() ==> self.has_pattern(#[trigger] arm.patterns@[i])
    }

    pub open spec fn condition_below(self, condition: Condition, bound: int) -> bool {
        match condition {
            Condition::BoolExpr(id) => id.0 < bound,
            Condition::Let(id, patterns) => id.0 < bound && forall|i: int|
                0 <= i < patterns@.len() ==> self.has_pattern(#[trigger] patterns@[i]),
        }
    }

    /// The parts of an expression at the place `at` come before it, and the ids in it are those of
    /// one of `n_functions` functions or `n_consts` constant values.
    pub open spec fn expr_ok(self, at: int, n_functions: nat, n_consts: nat) -> bool {
        match self.exprs@[at] {
            Expr::Var { .. } | Expr::Literal { .. } | Expr::Missing { .. } | Expr::Other {
                ..
            } => true,
            Expr::Constant { const_value_id, .. } => const_value_id.0 < n_consts,
            Expr::Block { statements, tail, .. } => {
                &&& tail matches Some(inner) ==> inner.0 < at
                &&& forall|i: int|
                    0 <= i < statements@.len() ==> self.statement_below(
                        #[trigger] statements@[i],
                        at,
                    )
            },
            Expr::FunctionCall(expr) => {
                &&& expr.function.0 < n_functions
                &&& forall|i: int|
                    0 <= i < expr.args@.len() ==> ((#[trigger] expr.args@[i]) matches
                        ExprFunctionCallArg::Value(arg) ==> arg.0 < at)
            },
            Expr::Tuple { items, .. } => forall|i: int|
                0 <= i < items@.len() ==> (#[trigger] items@[i]).0 < at,
            Expr::StructCtor(expr) => forall|i: int|
                0 <= i < expr.members@.len() ==> (#[trigger] expr.members@[i]).0.0 < at,
            Expr::EnumVariantCtor { value_expr, .. } => value_expr.0 < at,
            Expr::MemberAccess(expr) => expr.expr.0 < at,
            Expr::FixedSizeArray { items, .. } => match items {
                FixedSizeArrayItems::Items(items) => forall|i: int|
                    0 <= i < items@.len() ==> (#[trigger] items@[i]).0 < at,
                FixedSizeArrayItems::ValueAndSize(value, size) => value.0 < at && size.0
                    < n_consts,
            },
            Expr::Snapshot { inner, .. } => inner.0 < at,
            Expr::Desnap { inner, .. } => inner.0 < at,
            Expr::LogicalOperator { lhs, rhs, .. } => lhs.0 < at && rhs.0 < at,
            Expr::Match(expr) => {
                &&& expr.matched_expr.0 < at
                &&& forall|i: int|
                    0 <= i < expr.arms@.len() ==> self.arm_below(#[trigger] expr.arms@[i], at)
            },
            Expr::If(expr) => {
                &&& expr.if_block.0 < at
                &&& expr.else_block matches Some(else_block) ==> else_block.0 < at
                &&& forall|i: int|
                    0 <= i < expr.conditions@.len() ==> self.condition_below(
                        #[trigger] expr.conditions@[i],
                        at,
                    )
            },
        }
    }

    /// The parts of a pattern at the place `at` come before it.
    pub open spec fn pattern_ok(self, at: int) -> bool {
        match self.patterns@[at] {
            Pattern::Struct { field_patterns, .. } => forall|i: int|
                0 <= i < field_patterns@.len() ==> (#[trigger] field_patterns@[i]).0.0 < at,
            Pattern::Tuple { field_patterns } => forall|i: int|
                0 <= i < field_patterns@.len() ==> (#[trigger] field_patterns@[i]).0 < at,
            Pattern::FixedSizeArray { elements_patterns } => forall|i: int|
                0 <= i < elements_patterns@.len() ==> (#[trigger] elements_patterns@[i]).0 < at,
            Pattern::EnumVariant { inner_pattern, .. } => inner_pattern matches Some(inner)
                ==> inner.0 < at,
            _ => true,
        }
    }

    /// Everything is allocated after its parts, and the ids are those of one of `n_functions`
    /// functions or `n_consts` constant values.
    pub open spec fn wf(self, n_functions: nat, n_consts: nat) -> bool {
        &&& forall|at: int|
            0 <= at < self.exprs@.len() ==> #[trigger] self.expr_ok(at, n_functions, n_consts)
        &&& forall|at: int| 0 <= at < self.patterns@.len() ==> #[trigger] self.pattern_ok(at)
    }
}

} // verus!
