//! What a constant expression is worth.
//!
//! The calculation of an expression starts in a state (the values of the variables, and the
//! diagnostics reported so far), and ends in another one with a value. What goes wrong in the
//! program that is compiled is reported, and the value is [ConstView::Missing]; a [Fault] is what
//! earlier stages of the compilation rule out.
use vstd::prelude::*;

use crate::constant::calc_info::{bool_view, unit_view, ConstCalcInfo};
use crate::constant::literal::{spec_value_as_const_value, NumericArg};
use crate::constant::value::ConstView;
use crate::containers::{flags, ids};
use crate::integer::{bits_and, bits_or, bits_xor, felt252_prime, quotient, remainder};
use crate::search::first_where;
use crate::semantic::db::{
    CoreInfo, GenericFunctionId, GenericFunctionWithBodyId, SemanticDb, SubstitutionView,
};
use crate::semantic::diagnostics::{DiagnosticView, KindView, LiteralError, NoteView};
use crate::semantic::exprs::{
    Arenas, Condition, Expr, ExprFunctionCall, ExprFunctionCallArg, ExprMatch, ExprMemberAccess,
    ExprStructCtor, FixedSizeArrayItems, LogicalOperator, MatchArm, Pattern, Statement,
};
use crate::semantic::ids::{
    ConcreteVariant, ExprId, FunctionId, MemberId, PatternId, StatementId, SyntaxStablePtrId,
    TraitFunctionId, TypeId, VarKey,
};

verus! {

/// The calls of a calculation may be nested up to this depth.
pub const MAX_CONST_EVAL_DEPTH: usize = 100;

/// What makes a calculation impossible: something that earlier stages of the compilation should
/// have ruled out.
#[derive(Clone, Copy, Debug, PartialEq, Eq, Structural)]
pub enum Fault {
    /// An expression is no part of the body.
    Unallocated,
    /// A literal does not fit its type.
    InvalidLiteral,
    /// The expression of a struct leaves out one of its members.
    MissingMember,
    /// A struct has fewer values than its definition has members.
    MissingValue,
    /// The size of an array is negative, or larger than a machine word.
    InvalidArraySize,
    /// A call has too few arguments.
    MissingArgument,
    /// A call of a function that is neither constant nor a function of a trait.
    NotAnImplFunction,
    /// A call of a function of a trait that has no constant calculation.
    UnexpectedFunction,
    /// A call of an extern function that has no constant calculation.
    UnexpectedExternFunction,
    /// `div_rem` by zero.
    DivisionByZero,
    /// A result of `div_rem` does not fit the type of the dividend.
    DivRemOutOfRange,
    /// A downcast into a type without literals.
    InvalidDowncastType,
}

/// What a calculation reads.
pub struct EvalEnv {
    pub db: SemanticDb,
    pub info: ConstCalcInfo,
    pub arenas: Arenas,
    pub substitution: SubstitutionView,
    /// The number of calls that led to the body.
    pub depth: nat,
}

/// What a calculation changes.
#[verifier::ext_equal]
pub struct EvalState {
    pub vars: Map<VarKey, ConstView>,
    pub diagnostics: Seq<DiagnosticView>,
}

/// The state after a part of a calculation, and what came of it.
pub type Step<T> = Result<(EvalState, T), Fault>;

impl EvalEnv {
    pub open spec fn wf(self) -> bool {
        &&& self.db.wf()
        &&& self.db.holds(self.arenas)
        &&& self.info.wf(self.db)
        &&& self.substitution.wf(self.db.functions@.len())
        &&& self.depth <= MAX_CONST_EVAL_DEPTH + 1
    }
}

impl EvalState {
    /// The state after a report.
    pub open spec fn report(self, stable_ptr: SyntaxStablePtrId, kind: KindView) -> EvalState {
        EvalState {
            diagnostics: self.diagnostics.push(DiagnosticView { stable_ptr, kind }),
            ..self
        }
    }
}

// Patterns.

pub open spec fn field_for(member: MemberId) -> spec_fn((PatternId, MemberId)) -> bool {
    |field: (PatternId, MemberId)| field.1 == member
}

/// The variables after the value is taken apart by the pattern. A pattern that does not fit the
/// value binds nothing.
pub open spec fn destructure(
    db: SemanticDb,
    arenas: Arenas,
    vars: Map<VarKey, ConstView>,
    id: PatternId,
    value: ConstView,
) -> Map<VarKey, ConstView>
    decreases id.0, 1nat, 0nat,
{
    match arenas.patterns@[id.0 as int] {
        Pattern::Variable(var) => vars.insert((1u8, var), value),
        Pattern::Struct { concrete_struct_id, field_patterns } => match (
            value,
            db.spec_struct_members(concrete_struct_id),
        ) {
            (ConstView::Struct(values, _), Ok(members)) => destructure_fields(
                db,
                arenas,
                vars,
                field_patterns@,
                members,
                values,
                id.0 as nat,
                if members.len() < values.len() {
                    members.len()
                } else {
                    values.len()
                },
            ),
            _ => vars,
        },
        Pattern::Tuple { field_patterns } => destructure_list(
            db,
            arenas,
            vars,
            field_patterns@,
            value,
            id.0 as nat,
        ),
        Pattern::FixedSizeArray { elements_patterns } => destructure_list(
            db,
            arenas,
            vars,
            elements_patterns@,
            value,
            id.0 as nat,
        ),
        Pattern::EnumVariant { variant, inner_pattern: Some(inner) } => match value {
            ConstView::Enum(value_variant, inner_value) => if variant == value_variant {
                destructure_below(db, arenas, vars, inner, *inner_value, id.0 as nat)
            } else {
                vars
            },
            _ => vars,
        },
        _ => vars,
    }
}

/// [destructure], for a pattern that was allocated before the place `bound`.
pub open spec fn destructure_below(
    db: SemanticDb,
    arenas: Arenas,
    vars: Map<VarKey, ConstView>,
    id: PatternId,
    value: ConstView,
    bound: nat,
) -> Map<VarKey, ConstView>
    decreases bound, 0nat, 0nat,
{
    if id.0 < bound {
        destructure(db, arenas, vars, id, value)
    } else {
        vars
    }
}

/// The variables after the first `n` values of a struct are taken apart, each by the first of the
/// `fields` that is for its member.
pub open spec fn destructure_fields(
    db: SemanticDb,
    arenas: Arenas,
    vars: Map<VarKey, ConstView>,
    fields: Seq<(PatternId, MemberId)>,
    members: Seq<MemberId>,
    values: Seq<ConstView>,
    bound: nat,
    n: nat,
) -> Map<VarKey, ConstView>
    decreases bound, 0nat, n,
{
    if n == 0 {
        vars
    } else {
        let before = destructure_fields(
            db,
            arenas,
            vars,
            fields,
            members,
            values,
            bound,
            (n - 1) as nat,
        );
        match first_where(fields, field_for(members[n - 1]), 0) {
            Some(at) => destructure_below(
                db,
                arenas,
                before,
                fields[at].0,
                values[n - 1],
                bound,
            ),
            None => before,
        }
    }
}

/// The variables after the values of a tuple or an array are taken apart, each by the pattern at
/// the same place.
pub open spec fn destructure_list(
    db: SemanticDb,
    arenas: Arenas,
    vars: Map<VarKey, ConstView>,
    patterns: Seq<PatternId>,
    value: ConstView,
    bound: nat,
) -> Map<VarKey, ConstView>
    decreases bound, 0nat, patterns.len() + 1,
{
    match value {
        ConstView::Struct(values, _) => destructure_first(
            db,
            arenas,
            vars,
            patterns,
            values,
            bound,
            if patterns.len() < values.len() {
                patterns.len()
            } else {
                values.len()
            },
        ),
        _ => vars,
    }
}

/// The variables after the first `n` values are taken apart by the first `n` patterns.
pub open spec fn destructure_first(
    db: SemanticDb,
    arenas: Arenas,
    vars: Map<VarKey, ConstView>,
    patterns: Seq<PatternId>,
    values: Seq<ConstView>,
    bound: nat,
    n: nat,
) -> Map<VarKey, ConstView>
    decreases bound, 0nat, n,
{
    if n == 0 {
        vars
    } else {
        destructure_below(
            db,
            arenas,
            destructure_first(db, arenas, vars, patterns, values, bound, (n - 1) as nat),
            patterns[n - 1],
            values[n - 1],
            bound,
        )
    }
}

/// Whether a pattern takes the variant with the given place in its enum, and if so, the pattern
/// for the value of the variant.
pub open spec fn pattern_choice(pattern: Pattern, idx: usize) -> Option<Option<PatternId>> {
    match pattern {
        Pattern::Otherwise => Some(None),
        Pattern::EnumVariant { variant, inner_pattern } => if variant.idx == idx {
            Some(inner_pattern)
        } else {
            None
        },
        _ => None,
    }
}

pub open spec fn takes_variant(arenas: Arenas, idx: usize) -> spec_fn(PatternId) -> bool {
    |id: PatternId| pattern_choice(arenas.patterns@[id.0 as int], idx) is Some
}

pub open spec fn arm_takes_variant(arenas: Arenas, idx: usize) -> spec_fn(MatchArm) -> bool {
    |arm: MatchArm| first_where(arm.patterns@, takes_variant(arenas, idx), 0) is Some
}

/// Whether the pattern is one for exactly this variant.
pub open spec fn is_variant(arenas: Arenas, variant: ConcreteVariant) -> spec_fn(
    PatternId,
) -> bool {
    |id: PatternId|
        match arenas.patterns@[id.0 as int] {
            Pattern::EnumVariant { variant: taken, .. } => taken == variant,
            _ => false,
        }
}

pub open spec fn variant_inner(pattern: Pattern) -> Option<PatternId> {
    match pattern {
        Pattern::EnumVariant { inner_pattern, .. } => inner_pattern,
        _ => None,
    }
}

/// The state after a value is taken apart by the pattern, where there is one.
pub open spec fn destructure_inner(
    c: EvalEnv,
    s: EvalState,
    inner: Option<PatternId>,
    value: ConstView,
) -> EvalState {
    match inner {
        Some(id) => EvalState { vars: destructure(c.db, c.arenas, s.vars, id, value), ..s },
        None => s,
    }
}

// Which functions a constant may call.

/// Whether the function may be called in a constant: it panics, it is declared to be constant, or
/// it is a function of one of certain traits of the core library.
pub open spec fn function_is_const(db: SemanticDb, info: ConstCalcInfo, id: FunctionId) -> bool {
    let function = db.functions@[id.0 as int];
    ||| id == info.panic_with_felt252
    ||| (function.generic_function.declared_signature() matches Ok(signature)
        && signature.is_const)
    ||| (function.body matches Ok(Some(body)) && body.generic_function matches
        GenericFunctionWithBodyId::Impl { owning_crate, trait_id: Ok(trait_id) } && owning_crate
        == db.core_crate && ids(info.const_traits).contains(trait_id.0))
}

// Validation.

pub open spec fn unsupported(stable_ptr: SyntaxStablePtrId) -> Seq<DiagnosticView> {
    seq![DiagnosticView { stable_ptr, kind: KindView::UnsupportedConstant }]
}

/// The expressions of the members of a struct expression.
pub open spec fn ctor_exprs(members: Seq<(ExprId, MemberId)>) -> Seq<ExprId> {
    members.map_values(|member: (ExprId, MemberId)| member.0)
}

pub open spec fn arm_exprs(arms: Seq<MatchArm>) -> Seq<ExprId> {
    arms.map_values(|arm: MatchArm| arm.expression)
}

pub open spec fn condition_expr(condition: Condition) -> ExprId {
    match condition {
        Condition::BoolExpr(id) => id,
        Condition::Let(id, _) => id,
    }
}

pub open spec fn condition_exprs(conditions: Seq<Condition>) -> Seq<ExprId> {
    conditions.map_values(|condition: Condition| condition_expr(condition))
}

/// The diagnostics of an expression that is to be a constant.
pub open spec fn validation(c: EvalEnv, id: ExprId) -> Seq<DiagnosticView>
    decreases id.0, 1nat, 0nat,
{
    let bound = id.0 as nat;
    match c.arenas.exprs@[id.0 as int] {
        Expr::Var { .. } | Expr::Constant { .. } | Expr::Missing { .. } => Seq::empty(),
        Expr::Block { statements, tail: Some(inner), .. } => validation_statements(
            c,
            statements@,
            bound,
            statements@.len(),
        ) + validation_below(c, inner, bound),
        Expr::FunctionCall(expr) => validation_args(c, expr.args@, bound, expr.args@.len()) + (
        if function_is_const(c.db, c.info, expr.function) {
            Seq::empty()
        } else {
            unsupported(expr.stable_ptr)
        }),
        Expr::Literal { value, ty, stable_ptr } => match c.db.spec_validate_literal(ty, value@) {
            Ok(_) => Seq::empty(),
            Err(err) => seq![DiagnosticView { stable_ptr, kind: KindView::LiteralError(err) }],
        },
        Expr::Tuple { items, .. } => validation_list(c, items@, bound, items@.len()),
        Expr::StructCtor(ExprStructCtor { members, base_struct: None, .. }) => validation_list(
            c,
            ctor_exprs(members@),
            bound,
            members@.len(),
        ),
        Expr::EnumVariantCtor { value_expr, .. } => validation_below(c, value_expr, bound),
        Expr::MemberAccess(expr) => validation_below(c, expr.expr, bound),
        Expr::FixedSizeArray { items, .. } => match items {
            FixedSizeArrayItems::Items(items) => validation_list(c, items@, bound, items@.len()),
            FixedSizeArrayItems::ValueAndSize(value, _) => validation_below(c, value, bound),
        },
        Expr::Snapshot { inner, .. } => validation_below(c, inner, bound),
        Expr::Desnap { inner, .. } => validation_below(c, inner, bound),
        Expr::LogicalOperator { lhs, rhs, .. } => validation_below(c, lhs, bound)
            + validation_below(c, rhs, bound),
        Expr::Match(expr) => validation_below(c, expr.matched_expr, bound) + validation_list(
            c,
            arm_exprs(expr.arms@),
            bound,
            expr.arms@.len(),
        ),
        Expr::If(expr) => validation_list(
            c,
            condition_exprs(expr.conditions@),
            bound,
            expr.conditions@.len(),
        ) + validation_below(c, expr.if_block, bound) + (match expr.else_block {
            Some(else_block) => validation_below(c, else_block, bound),
            None => Seq::empty(),
        }),
        other => unsupported(other.spec_stable_ptr()),
    }
}

/// [validation], for an expression that was allocated before the place `bound`.
pub open spec fn validation_below(c: EvalEnv, id: ExprId, bound: nat) -> Seq<DiagnosticView>
    decreases bound, 0nat, 0nat,
{
    if id.0 < bound {
        validation(c, id)
    } else {
        Seq::empty()
    }
}

/// The diagnostics of the first `n` expressions.
pub open spec fn validation_list(c: EvalEnv, exprs: Seq<ExprId>, bound: nat, n: nat) -> Seq<
    DiagnosticView,
>
    decreases bound, 0nat, n,
{
    if n == 0 {
        Seq::empty()
    } else {
        validation_list(c, exprs, bound, (n - 1) as nat) + validation_below(
            c,
            exprs[n - 1],
            bound,
        )
    }
}

/// The diagnostics of the first `n` statements.
pub open spec fn validation_statements(
    c: EvalEnv,
    statements: Seq<StatementId>,
    bound: nat,
    n: nat,
) -> Seq<DiagnosticView>
    decreases bound, 0nat, n,
{
    if n == 0 {
        Seq::empty()
    } else {
        validation_statements(c, statements, bound, (n - 1) as nat) + (
        match c.arenas.statements@[statements[n - 1].0 as int] {
            Statement::Let { expr, .. } => validation_below(c, expr, bound),
            Statement::Expr { expr, .. } => validation_below(c, expr, bound),
            Statement::Other { stable_ptr } => unsupported(stable_ptr),
        })
    }
}

/// The diagnostics of the first `n` arguments. The expression of a value is validated twice.
pub open spec fn validation_args(
    c: EvalEnv,
    args: Seq<ExprFunctionCallArg>,
    bound: nat,
    n: nat,
) -> Seq<DiagnosticView>
    decreases bound, 0nat, n,
{
    if n == 0 {
        Seq::empty()
    } else {
        validation_args(c, args, bound, (n - 1) as nat) + (match args[n - 1] {
            ExprFunctionCallArg::Value(arg) => validation_below(c, arg, bound) + validation_below(
                c,
                arg,
                bound,
            ),
            ExprFunctionCallArg::Reference(stable_ptr) => unsupported(stable_ptr),
        })
    }
}

// Calculations that call no other function.

/// The value of a calculation, in the range of the type of the call.
pub open spec fn fit_result(c: EvalEnv, s: EvalState, value: int, call: ExprFunctionCall) -> Step<
    ConstView,
> {
    let value = if call.ty == c.db.core_info.felt252 {
        remainder(value, felt252_prime())
    } else {
        value
    };
    match spec_value_as_const_value(c.db, call.ty, value) {
        Ok(constant) => Ok((s, constant)),
        Err(err) => Ok(
            (s.report(call.stable_ptr, KindView::LiteralError(err)), ConstView::Missing),
        ),
    }
}

/// The result of a function of two integers that is an integer for all of them.
pub open spec fn binary_result(core: CoreInfo, function: TraitFunctionId, a: int, b: int) -> Option<
    int,
> {
    if function == core.add_fn {
        Some(a + b)
    } else if function == core.sub_fn {
        Some(a - b)
    } else if function == core.mul_fn {
        Some(a * b)
    } else if function == core.div_fn {
        Some(quotient(a, b))
    } else if function == core.rem_fn {
        Some(remainder(a, b))
    } else if function == core.bitand_fn {
        Some(bits_and(a, b))
    } else if function == core.bitor_fn {
        Some(bits_or(a, b))
    } else if function == core.bitxor_fn {
        Some(bits_xor(a, b))
    } else {
        None
    }
}

/// The result of a comparison of two integers.
pub open spec fn comparison_result(
    core: CoreInfo,
    function: TraitFunctionId,
    a: int,
    b: int,
) -> Option<bool> {
    if function == core.lt_fn {
        Some(a < b)
    } else if function == core.le_fn {
        Some(a <= b)
    } else if function == core.gt_fn {
        Some(a > b)
    } else if function == core.ge_fn {
        Some(a >= b)
    } else {
        None
    }
}

/// A call of a function of integers.
pub open spec fn eval_numeric_call(
    c: EvalEnv,
    s: EvalState,
    function: TraitFunctionId,
    args: Seq<(int, TypeId)>,
    call: ExprFunctionCall,
) -> Step<ConstView> {
    let core = c.db.core_info;
    if args.len() == 0 {
        Err(Fault::MissingArgument)
    } else if function == core.neg_fn {
        fit_result(c, s, -args[0].0, call)
    } else if args.len() == 1 {
        Err(Fault::MissingArgument)
    } else {
        let a = args[0].0;
        let b = args[1].0;
        let is_division = function != core.add_fn && function != core.sub_fn && function
            != core.mul_fn && (function == core.div_fn || function == core.rem_fn);
        if is_division && b == 0 {
            Ok((s.report(call.stable_ptr, KindView::DivisionByZero), ConstView::Missing))
        } else if let Some(value) = binary_result(core, function, a, b) {
            fit_result(c, s, value, call)
        } else if let Some(value) = comparison_result(core, function, a, b) {
            Ok((s, bool_view(c.db, value)))
        } else if function == core.div_rem_fn {
            eval_div_rem(c, s, args[0].1, a, b, call)
        } else {
            Err(Fault::UnexpectedFunction)
        }
    }
}

/// A call of `div_rem`: the quotient and the remainder, in the type of the dividend.
pub open spec fn eval_div_rem(
    c: EvalEnv,
    s: EvalState,
    ty: TypeId,
    a: int,
    b: int,
    call: ExprFunctionCall,
) -> Step<ConstView> {
    if b == 0 {
        Err(Fault::DivisionByZero)
    } else {
        match (
            spec_value_as_const_value(c.db, ty, quotient(a, b)),
            spec_value_as_const_value(c.db, ty, remainder(a, b)),
        ) {
            (Ok(div), Ok(rem)) => Ok((s, ConstView::Struct(seq![div, rem], call.ty))),
            _ => Err(Fault::DivRemOutOfRange),
        }
    }
}

/// The arguments as integers with their types, where each of them is one.
pub open spec fn numeric_args(db: SemanticDb, args: Seq<ConstView>) -> Option<Seq<(int, TypeId)>> {
    if forall|i: int|
        0 <= i < args.len() ==> NumericArg::spec_try_new(db, #[trigger] args[i]) is Some {
        Some(Seq::new(args.len(), |i: int| NumericArg::spec_try_new(db, args[i])->Some_0))
    } else {
        None
    }
}

/// A call of a function of a trait of the core library.
pub open spec fn eval_trait_call(
    c: EvalEnv,
    s: EvalState,
    function: TraitFunctionId,
    args: Seq<ConstView>,
    call: ExprFunctionCall,
) -> Step<ConstView> {
    let core = c.db.core_info;
    if function == core.eq_fn || function == core.ne_fn {
        if args.len() < 2 {
            Err(Fault::MissingArgument)
        } else {
            Ok((s, bool_view(c.db, (args[0] == args[1]) == (function == core.eq_fn))))
        }
    } else if function == core.not_fn {
        if args.len() < 1 {
            Err(Fault::MissingArgument)
        } else {
            Ok((s, bool_view(c.db, args[0] == bool_view(c.db, false))))
        }
    } else {
        match numeric_args(c.db, args) {
            Some(numbers) => eval_numeric_call(c, s, function, numbers, call),
            None => Ok((s, ConstView::Missing)),
        }
    }
}

/// A call of an extern function: an upcast, a downcast, or the unwrapping of a `NonZero`.
/// `None` where the arguments are not of the form that the function takes.
pub open spec fn eval_extern_call(
    c: EvalEnv,
    id: u64,
    args: Seq<ConstView>,
    call: ExprFunctionCall,
) -> Result<Option<ConstView>, Fault> {
    match c.substitution.substitute_type(call.ty) {
        Err(_) => Ok(None),
        Ok(ty) => if ids(c.info.upcast_fns).contains(id) {
            Ok(
                if args.len() == 1 && args[0] is Int {
                    Some(ConstView::Int(args[0]->Int_0, ty))
                } else {
                    None
                },
            )
        } else if c.info.unwrap_non_zero.0 == id {
            Ok(
                if args.len() == 1 && args[0] is NonZero {
                    Some(*args[0]->NonZero_0)
                } else {
                    None
                },
            )
        } else if flags(c.info.downcast_fns).contains_key(id) {
            if args.len() == 1 && args[0] is Int {
                eval_downcast(c, flags(c.info.downcast_fns)[id], args[0]->Int_0, ty)
            } else {
                Ok(None)
            }
        } else {
            Err(Fault::UnexpectedExternFunction)
        },
    }
}

/// A downcast into the `Option` type `ty`, whose variants may be reversed.
pub open spec fn eval_downcast(c: EvalEnv, reversed: bool, value: int, ty: TypeId) -> Result<
    Option<ConstView>,
    Fault,
> {
    match c.db.spec_type_enum(ty) {
        None => Ok(None),
        Some(enm) => match c.db.spec_enum_variants(enm) {
            Err(_) => Ok(None),
            Ok(variants) => if variants.len() != 2 {
                Ok(None)
            } else {
                let some = if reversed {
                    variants[1]
                } else {
                    variants[0]
                };
                let none = if reversed {
                    variants[0]
                } else {
                    variants[1]
                };
                match c.db.spec_validate_literal(some.ty, value) {
                    Ok(_) => Ok(
                        Some(ConstView::Enum(some, Box::new(ConstView::Int(value, some.ty)))),
                    ),
                    Err(LiteralError::OutOfRange(_)) => Ok(
                        Some(ConstView::Enum(none, Box::new(unit_view(c.db)))),
                    ),
                    Err(LiteralError::InvalidTypeForLiteral(_)) => Err(
                        Fault::InvalidDowncastType,
                    ),
                }
            },
        },
    }
}

// Calls of functions with a body.

/// The values of the parameters: the first `n` arguments.
pub open spec fn param_values(params: Seq<u64>, args: Seq<ConstView>, n: nat) -> Map<
    VarKey,
    ConstView,
>
    decreases n,
{
    if n == 0 {
        Map::empty()
    } else {
        param_values(params, args, (n - 1) as nat).insert((0u8, params[n - 1]), args[n - 1])
    }
}

/// The state at the start of a body.
pub open spec fn call_state(params: Seq<u64>, args: Seq<ConstView>) -> EvalState {
    EvalState {
        vars: param_values(
            params,
            args,
            if params.len() < args.len() {
                params.len()
            } else {
                args.len()
            },
        ),
        diagnostics: Seq::empty(),
    }
}

/// The remark that a diagnostic is about the body of a function.
pub open spec fn in_function(full_path: Seq<char>, location: SyntaxStablePtrId) -> NoteView {
    NoteView { text: "In `"@ + full_path + "`"@, location }
}

/// What a diagnostic of the body of a called function becomes at the call.
pub open spec fn diagnostic_at_call(
    inner: DiagnosticView,
    stable_ptr: SyntaxStablePtrId,
    full_path: Seq<char>,
) -> DiagnosticView {
    let note = in_function(full_path, inner.stable_ptr);
    DiagnosticView {
        stable_ptr,
        kind: match inner.kind {
            KindView::ConstantCalculationDepthExceeded =>
                KindView::ConstantCalculationDepthExceeded,
            KindView::InnerFailedConstantCalculation(innermost, notes) =>
                KindView::InnerFailedConstantCalculation(innermost, notes.push(note)),
            _ => KindView::InnerFailedConstantCalculation(Box::new(inner), seq![note]),
        },
    }
}

pub open spec fn diagnostics_at_call(
    inner: Seq<DiagnosticView>,
    stable_ptr: SyntaxStablePtrId,
    full_path: Seq<char>,
) -> Seq<DiagnosticView> {
    Seq::new(inner.len(), |i: int| diagnostic_at_call(inner[i], stable_ptr, full_path))
}

// Expressions.

/// The first `n` arguments that are values.
pub open spec fn value_args(args: Seq<ExprFunctionCallArg>, n: nat) -> Seq<ExprId>
    decreases n,
{
    if n == 0 {
        Seq::empty()
    } else {
        let before = value_args(args, (n - 1) as nat);
        match args[n - 1] {
            ExprFunctionCallArg::Value(id) => before.push(id),
            ExprFunctionCallArg::Reference(_) => before,
        }
    }
}

pub open spec fn expr_for(member: MemberId) -> spec_fn((ExprId, MemberId)) -> bool {
    |entry: (ExprId, MemberId)| entry.1 == member
}

/// The place of the expression for the member.
pub open spec fn ctor_place(members: Seq<(ExprId, MemberId)>, member: MemberId) -> Option<int> {
    first_where(members, expr_for(member), 0)
}

/// The expressions of the members of a struct, in the order of its definition, where there is one
/// for each.
pub open spec fn ctor_order(members: Seq<(ExprId, MemberId)>, order: Seq<MemberId>) -> Option<
    Seq<ExprId>,
> {
    if forall|i: int| 0 <= i < order.len() ==> ctor_place(members, #[trigger] order[i]) is Some {
        Some(Seq::new(order.len(), |i: int| members[ctor_place(members, order[i])->Some_0].0))
    } else {
        None
    }
}

pub open spec fn is_member(member: MemberId) -> spec_fn(MemberId) -> bool {
    |other: MemberId| other == member
}

/// A member of a struct.
pub open spec fn member_of(c: EvalEnv, value: ConstView, expr: ExprMemberAccess) -> Result<
    ConstView,
    Fault,
> {
    match (value, c.db.spec_struct_members(expr.concrete_struct_id)) {
        (ConstView::Struct(values, _), Ok(members)) => match first_where(
            members,
            is_member(expr.member),
            0,
        ) {
            Some(at) => if at < values.len() {
                Ok(values[at])
            } else {
                Err(Fault::MissingValue)
            },
            None => Ok(ConstView::Missing),
        },
        _ => Ok(ConstView::Missing),
    }
}

/// A value, `n` times.
pub open spec fn repeat(value: ConstView, n: nat) -> Seq<ConstView> {
    Seq::new(n, |i: int| value)
}

/// What came of the conditions of an `if`.
#[derive(Clone, Copy, Debug)]
pub enum Conditions {
    Hold,
    Fail,
    /// One of them has no value.
    Unknown,
}

/// The state and the value after the calculation of an expression.
pub open spec fn eval(c: EvalEnv, s: EvalState, id: ExprId) -> Step<ConstView>
    decreases MAX_CONST_EVAL_DEPTH + 2 - c.depth, id.0, 2nat, 0nat,
{
    let bound = id.0 as nat;
    match c.arenas.exprs@[id.0 as int] {
        Expr::Var { var, stable_ptr, .. } => if s.vars.contains_key(var.spec_key()) {
            Ok((s, s.vars[var.spec_key()]))
        } else {
            Ok((s.report(stable_ptr, KindView::UnsupportedConstant), ConstView::Missing))
        },
        Expr::Constant { const_value_id, .. } => Ok(
            (
                s,
                match c.substitution.substitute_const(
                    const_value_id,
                    c.db.const_values@[const_value_id.0 as int]@,
                ) {
                    Ok(value) => value,
                    Err(_) => ConstView::Missing,
                },
            ),
        ),
        Expr::Block { statements, tail: Some(inner), .. } => match eval_statements(
            c,
            s,
            statements@,
            bound,
            statements@.len(),
        ) {
            Ok((s, _)) => eval_below(c, s, inner, bound),
            Err(fault) => Err(fault),
        },
        Expr::FunctionCall(call) => eval_function_call(c, s, call, bound),
        Expr::Literal { value, ty, .. } => match spec_value_as_const_value(c.db, ty, value@) {
            Ok(constant) => Ok((s, constant)),
            Err(_) => Err(Fault::InvalidLiteral),
        },
        Expr::Tuple { items, ty, .. } => eval_struct(c, s, items@, ty, bound),
        Expr::StructCtor(
            ExprStructCtor { members, base_struct: None, concrete_struct_id, ty, .. },
        ) => match c.db.spec_struct_members(concrete_struct_id) {
            Err(_) => Ok((s, ConstView::Missing)),
            Ok(order) => match ctor_order(members@, order) {
                None => Err(Fault::MissingMember),
                Some(exprs) => eval_struct(c, s, exprs, ty, bound),
            },
        },
        Expr::EnumVariantCtor { variant, value_expr, .. } => match eval_below(
            c,
            s,
            value_expr,
            bound,
        ) {
            Ok((s, value)) => Ok((s, ConstView::Enum(variant, Box::new(value)))),
            Err(fault) => Err(fault),
        },
        Expr::MemberAccess(expr) => eval_member_access(c, s, expr, bound),
        Expr::FixedSizeArray { items, ty, stable_ptr } => match items {
            FixedSizeArrayItems::Items(items) => eval_struct(c, s, items@, ty, bound),
            FixedSizeArrayItems::ValueAndSize(value, size) => match eval_below(
                c,
                s,
                value,
                bound,
            ) {
                Ok((s, value)) => match c.db.const_values@[size.0 as int]@ {
                    ConstView::Int(count, _) => if 0 <= count <= usize::MAX {
                        Ok((s, ConstView::Struct(repeat(value, count as nat), ty)))
                    } else {
                        Err(Fault::InvalidArraySize)
                    },
                    _ => Ok(
                        (
                            s.report(stable_ptr, KindView::UnsupportedConstant),
                            ConstView::Struct(Seq::empty(), ty),
                        ),
                    ),
                },
                Err(fault) => Err(fault),
            },
        },
        Expr::Snapshot { inner, .. } => eval_below(c, s, inner, bound),
        Expr::Desnap { inner, .. } => eval_below(c, s, inner, bound),
        Expr::LogicalOperator { lhs, op, rhs, .. } => match eval_below(c, s, lhs, bound) {
            Ok((s, value)) => match value {
                ConstView::Enum(variant, _) => if variant == (match op {
                    LogicalOperator::AndAnd => c.db.core_info.false_variant,
                    LogicalOperator::OrOr => c.db.core_info.true_variant,
                }) {
                    Ok((s, value))
                } else {
                    eval_below(c, s, rhs, bound)
                },
                _ => Ok((s, ConstView::Missing)),
            },
            Err(fault) => Err(fault),
        },
        Expr::Match(expr) => match eval_below(c, s, expr.matched_expr, bound) {
            Ok((s, value)) => match value {
                ConstView::Enum(variant, value) => eval_arm(c, s, variant, *value, expr, bound),
                _ => Ok((s, ConstView::Missing)),
            },
            Err(fault) => Err(fault),
        },
        Expr::If(expr) => match eval_conditions(
            c,
            s,
            expr.conditions@,
            bound,
            expr.conditions@.len(),
        ) {
            Ok((s, Conditions::Hold)) => eval_below(c, s, expr.if_block, bound),
            Ok((s, Conditions::Fail)) => match expr.else_block {
                Some(else_block) => eval_below(c, s, else_block, bound),
                None => Ok((s, unit_view(c.db))),
            },
            Ok((s, Conditions::Unknown)) => Ok((s, ConstView::Missing)),
            Err(fault) => Err(fault),
        },
        _ => Ok((s, ConstView::Missing)),
    }
}

/// [eval], for an expression that was allocated before the place `bound`.
pub open spec fn eval_below(c: EvalEnv, s: EvalState, id: ExprId, bound: nat) -> Step<ConstView>
    decreases MAX_CONST_EVAL_DEPTH + 2 - c.depth, bound, 0nat, 0nat,
{
    if id.0 < bound {
        eval(c, s, id)
    } else {
        Err(Fault::Unallocated)
    }
}

/// The values of the first `n` expressions, calculated one after the other.
pub open spec fn eval_list(
    c: EvalEnv,
    s: EvalState,
    exprs: Seq<ExprId>,
    bound: nat,
    n: nat,
) -> Step<Seq<ConstView>>
    decreases MAX_CONST_EVAL_DEPTH + 2 - c.depth, bound, 0nat, n,
{
    if n == 0 {
        Ok((s, Seq::empty()))
    } else {
        match eval_list(c, s, exprs, bound, (n - 1) as nat) {
            Ok((s, values)) => match eval_below(c, s, exprs[n - 1], bound) {
                Ok((s, value)) => Ok((s, values.push(value))),
                Err(fault) => Err(fault),
            },
            Err(fault) => Err(fault),
        }
    }
}

/// A struct, a tuple or an array, by the expressions of its members.
pub open spec fn eval_struct(
    c: EvalEnv,
    s: EvalState,
    exprs: Seq<ExprId>,
    ty: TypeId,
    bound: nat,
) -> Step<ConstView>
    decreases MAX_CONST_EVAL_DEPTH + 2 - c.depth, bound, 1nat, 0nat,
{
    match eval_list(c, s, exprs, bound, exprs.len()) {
        Ok((s, values)) => Ok((s, ConstView::Struct(values, ty))),
        Err(fault) => Err(fault),
    }
}

/// The state after the first `n` statements.
pub open spec fn eval_statements(
    c: EvalEnv,
    s: EvalState,
    statements: Seq<StatementId>,
    bound: nat,
    n: nat,
) -> Step<()>
    decreases MAX_CONST_EVAL_DEPTH + 2 - c.depth, bound, 0nat, n,
{
    if n == 0 {
        Ok((s, ()))
    } else {
        match eval_statements(c, s, statements, bound, (n - 1) as nat) {
            Ok((s, _)) => match c.arenas.statements@[statements[n - 1].0 as int] {
                Statement::Let { pattern, expr, .. } => match eval_below(c, s, expr, bound) {
                    Ok((s, value)) => Ok((destructure_inner(c, s, Some(pattern), value), ())),
                    Err(fault) => Err(fault),
                },
                Statement::Expr { expr, .. } => match eval_below(c, s, expr, bound) {
                    Ok((s, _)) => Ok((s, ())),
                    Err(fault) => Err(fault),
                },
                Statement::Other { stable_ptr } => Ok(
                    (s.report(stable_ptr, KindView::UnsupportedConstant), ()),
                ),
            },
            Err(fault) => Err(fault),
        }
    }
}

/// The first of the arms that takes the variant.
pub open spec fn eval_arm(
    c: EvalEnv,
    s: EvalState,
    variant: ConcreteVariant,
    value: ConstView,
    expr: ExprMatch,
    bound: nat,
) -> Step<ConstView>
    decreases MAX_CONST_EVAL_DEPTH + 2 - c.depth, bound, 0nat, 1nat,
{
    match first_where(expr.arms@, arm_takes_variant(c.arenas, variant.idx), 0) {
        Some(at) => {
            let arm = expr.arms@[at];
            let place = first_where(arm.patterns@, takes_variant(c.arenas, variant.idx), 0);
            let pattern = c.arenas.patterns@[arm.patterns@[place->Some_0].0 as int];
            let inner = pattern_choice(pattern, variant.idx)->Some_0;
            eval_below(c, destructure_inner(c, s, inner, value), arm.expression, bound)
        },
        None => Ok(
            (s.report(expr.stable_ptr, KindView::UnsupportedConstant), ConstView::Missing),
        ),
    }
}

/// What came of one condition.
pub open spec fn eval_condition(
    c: EvalEnv,
    s: EvalState,
    condition: Condition,
    bound: nat,
) -> Step<Conditions>
    decreases MAX_CONST_EVAL_DEPTH + 2 - c.depth, bound, 0nat, 1nat,
{
    match eval_below(c, s, condition_expr(condition), bound) {
        Ok((s, ConstView::Enum(variant, value))) => match condition {
            Condition::BoolExpr(_) => Ok(
                (
                    s,
                    if variant == c.db.core_info.true_variant {
                        Conditions::Hold
                    } else {
                        Conditions::Fail
                    },
                ),
            ),
            Condition::Let(_, patterns) => match first_where(
                patterns@,
                is_variant(c.arenas, variant),
                0,
            ) {
                Some(at) => {
                    let inner = variant_inner(c.arenas.patterns@[patterns@[at].0 as int]);
                    Ok((destructure_inner(c, s, inner, *value), Conditions::Hold))
                },
                None => Ok((s, Conditions::Fail)),
            },
        },
        Ok((s, _)) => Ok((s, Conditions::Unknown)),
        Err(fault) => Err(fault),
    }
}

/// What came of the first `n` conditions: they are calculated up to the first that does not hold.
pub open spec fn eval_conditions(
    c: EvalEnv,
    s: EvalState,
    conditions: Seq<Condition>,
    bound: nat,
    n: nat,
) -> Step<Conditions>
    decreases MAX_CONST_EVAL_DEPTH + 2 - c.depth, bound, 0nat, n + 1,
{
    if n == 0 {
        Ok((s, Conditions::Hold))
    } else {
        match eval_conditions(c, s, conditions, bound, (n - 1) as nat) {
            Ok((s, Conditions::Hold)) => eval_condition(c, s, conditions[n - 1], bound),
            other => other,
        }
    }
}

/// A member of the value of a struct expression.
pub open spec fn eval_member_access(
    c: EvalEnv,
    s: EvalState,
    expr: ExprMemberAccess,
    bound: nat,
) -> Step<ConstView>
    decreases MAX_CONST_EVAL_DEPTH + 2 - c.depth, bound, 1nat, 0nat,
{
    match eval_below(c, s, expr.expr, bound) {
        Ok((s, value)) => match member_of(c, value, expr) {
            Ok(member) => Ok((s, member)),
            Err(fault) => Err(fault),
        },
        Err(fault) => Err(fault),
    }
}

/// A call: first the arguments, then the function.
pub open spec fn eval_function_call(
    c: EvalEnv,
    s: EvalState,
    call: ExprFunctionCall,
    bound: nat,
) -> Step<ConstView>
    decreases MAX_CONST_EVAL_DEPTH + 2 - c.depth, bound, 1nat, 0nat,
{
    let exprs = value_args(call.args@, call.args@.len());
    match eval_list(c, s, exprs, bound, exprs.len()) {
        Ok((s, args)) => eval_call(c, s, call, args),
        Err(fault) => Err(fault),
    }
}

/// A call, with the values of its arguments.
pub open spec fn eval_call(
    c: EvalEnv,
    s: EvalState,
    call: ExprFunctionCall,
    args: Seq<ConstView>,
) -> Step<ConstView>
    decreases MAX_CONST_EVAL_DEPTH + 2 - c.depth, 0nat, 0nat, 1nat,
{
    if call.function == c.info.panic_with_felt252 {
        Ok((s.report(call.stable_ptr, KindView::FailedConstantCalculation), ConstView::Missing))
    } else {
        match c.substitution.substitute_function(call.function) {
            Err(_) => Ok((s, ConstView::Missing)),
            Ok(function) => match eval_const_call(c, s, function, args, call) {
                Ok((s, Some(value))) => Ok((s, value)),
                Ok((s, None)) => match c.db.functions@[function.0 as int].generic_function {
                    GenericFunctionId::Impl(imp) => eval_trait_call(
                        c,
                        s,
                        imp.function,
                        args,
                        call,
                    ),
                    _ => Err(Fault::NotAnImplFunction),
                },
                Err(fault) => Err(fault),
            },
        }
    }
}

/// A call of a constant function: an extern one, or one with a body. `None` for other functions.
pub open spec fn eval_const_call(
    c: EvalEnv,
    s: EvalState,
    id: FunctionId,
    args: Seq<ConstView>,
    call: ExprFunctionCall,
) -> Step<Option<ConstView>>
    decreases MAX_CONST_EVAL_DEPTH + 2 - c.depth, 0nat, 0nat, 0nat,
{
    let function = c.db.functions@[id.0 as int];
    match function.generic_function {
        GenericFunctionId::Extern { id, .. } => match eval_extern_call(c, id.0, args, call) {
            Ok(value) => Ok((s, value)),
            Err(fault) => Err(fault),
        },
        _ => match function.body {
            Ok(Some(body)) => match (body.signature, body.substitution, body.body) {
                (Ok(signature), Ok(substitution), Ok(function_body)) => if !signature.is_const {
                    Ok((s, None))
                } else if c.depth > MAX_CONST_EVAL_DEPTH {
                    Ok(
                        (
                            s.report(
                                call.stable_ptr,
                                KindView::ConstantCalculationDepthExceeded,
                            ),
                            Some(ConstView::Missing),
                        ),
                    )
                } else {
                    let inner = EvalEnv {
                        db: c.db,
                        info: c.info,
                        arenas: function_body.arenas,
                        substitution: substitution@,
                        depth: c.depth + 1,
                    };
                    let start = call_state(signature.params@, args);
                    match eval(inner, start, function_body.body_expr) {
                        Ok((inner, value)) => Ok(
                            (
                                EvalState {
                                    diagnostics: s.diagnostics + diagnostics_at_call(
                                        inner.diagnostics,
                                        call.stable_ptr,
                                        function.full_path@,
                                    ),
                                    ..s
                                },
                                Some(value),
                            ),
                        ),
                        Err(fault) => Err(fault),
                    }
                },
                _ => Ok((s, None)),
            },
            _ => Ok((s, None)),
        },
    }
}

} // verus!
