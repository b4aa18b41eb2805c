//! What is reported of an expression that is to be a constant.
use vstd::prelude::*;

use crate::constant::semantics::{
    arm_exprs, condition_exprs, ctor_exprs, unsupported, validation, validation_args,
    validation_below, validation_list, validation_statements, EvalEnv,
};
use crate::containers::ids;
use crate::semantic::db::{GenericFunctionId, GenericFunctionWithBodyId, ImplLongId};
use crate::semantic::diagnostics::{DiagnosticView, KindView};
use crate::semantic::exprs::{
    Condition, Expr, ExprFunctionCall, ExprFunctionCallArg, ExprStructCtor, FixedSizeArrayItems,
    MatchArm, Statement,
};
use crate::semantic::ids::{ExprId, FunctionId, MemberId, StatementId, SyntaxStablePtrId};

verus! {

/// The expression of a statement.
pub open spec fn is_expr_of(c: EvalEnv, id: StatementId, part: ExprId) -> bool {
    match c.arenas.statements@[id.0 as int] {
        Statement::Let { expr, .. } => expr == part,
        Statement::Expr { expr, .. } => expr == part,
        Statement::Other { .. } => false,
    }
}

/// Whether the one expression is directly part of the other, where the other is of a kind that can
/// be a constant.
pub open spec fn is_part(c: EvalEnv, id: ExprId, part: ExprId) -> bool {
    match c.arenas.exprs@[id.0 as int] {
        Expr::Block { statements, tail: Some(tail), .. } => part == tail || exists|i: int|
            0 <= i < statements@.len() && is_expr_of(c, #[trigger] statements@[i], part),
        Expr::FunctionCall(call) => call.args@.contains(ExprFunctionCallArg::Value(part)),
        Expr::Tuple { items, .. } => items@.contains(part),
        Expr::StructCtor(ctor) => ctor.base_struct is None && exists|i: int|
            0 <= i < ctor.members@.len() && (#[trigger] ctor.members@[i]).0 == part,
        Expr::EnumVariantCtor { value_expr, .. } => part == value_expr,
        Expr::MemberAccess(access) => part == access.expr,
        Expr::FixedSizeArray { items: FixedSizeArrayItems::Items(items), .. } => items@.contains(
            part,
        ),
        Expr::FixedSizeArray { items: FixedSizeArrayItems::ValueAndSize(value, _), .. } => part
            == value,
        Expr::Snapshot { inner, .. } => part == inner,
        Expr::Desnap { inner, .. } => part == inner,
        Expr::LogicalOperator { lhs, rhs, .. } => part == lhs || part == rhs,
        Expr::Match(expr) => part == expr.matched_expr || exists|i: int|
            0 <= i < expr.arms@.len() && (#[trigger] expr.arms@[i]).expression == part,
        Expr::If(expr) => {
            ||| part == expr.if_block
            ||| expr.else_block == Some(part)
            ||| exists|i: int|
                0 <= i < expr.conditions@.len() && (match #[trigger] expr.conditions@[i] {
                    Condition::BoolExpr(id) => id == part,
                    Condition::Let(id, _) => id == part,
                })
        },
        _ => false,
    }
}

/// Whether the function is declared to be constant: for a function of a trait, by the impl where
/// the impl has the function, else by the trait.
pub open spec fn is_declared_const(function: GenericFunctionId) -> bool {
    match function {
        GenericFunctionId::Free { signature: Ok(signature) } => signature.is_const,
        GenericFunctionId::Extern { signature: Ok(signature), .. } => signature.is_const,
        GenericFunctionId::Impl(imp) => match (imp.impl_id, imp.trait_signature) {
            (ImplLongId::Concrete { function_signature: Ok(Some(Ok(signature))) }, _) =>
                signature.is_const,
            (ImplLongId::Concrete { function_signature: Ok(Some(Err(_))) }, _) => false,
            (_, Ok(signature)) => signature.is_const,
            _ => false,
        },
        _ => false,
    }
}

/// Whether the function is one of an impl, owned by the core library, of a trait that constants may
/// use.
pub open spec fn is_core_operator(c: EvalEnv, function: FunctionId) -> bool {
    &&& c.db.functions@[function.0 as int].body matches Ok(Some(body))
    &&& body.generic_function matches GenericFunctionWithBodyId::Impl { owning_crate, trait_id }
    &&& owning_crate == c.db.core_crate
    &&& trait_id matches Ok(trait_id)
    &&& ids(c.info.const_traits).contains(trait_id.0)
}

/// Whether a constant may call the function: it panics, it is declared to be constant, or it is an
/// operator of the core library.
pub open spec fn may_be_called(c: EvalEnv, function: FunctionId) -> bool {
    ||| function == c.info.panic_with_felt252
    ||| is_declared_const(c.db.functions@[function.0 as int].generic_function)
    ||| is_core_operator(c, function)
}

/// Whether the diagnostic says that something at the place cannot be part of a constant.
pub open spec fn is_unsupported(d: DiagnosticView, stable_ptr: SyntaxStablePtrId) -> bool {
    d.stable_ptr == stable_ptr && d.kind is UnsupportedConstant
}

/// Whether the diagnostic is about the expression itself, and not about one of its parts.
pub open spec fn is_own(c: EvalEnv, id: ExprId, d: DiagnosticView) -> bool {
    match c.arenas.exprs@[id.0 as int] {
        Expr::Block { statements, tail: Some(_), .. } => exists|i: int|
            0 <= i < statements@.len() && (c.arenas.statements@[(
            #[trigger] statements@[i]).0 as int] matches Statement::Other { stable_ptr }
                && is_unsupported(d, stable_ptr)),
        Expr::Block { stable_ptr, .. } => is_unsupported(d, stable_ptr),
        Expr::FunctionCall(call) => {
            ||| !may_be_called(c, call.function) && is_unsupported(d, call.stable_ptr)
            ||| exists|i: int|
                0 <= i < call.args@.len() && (#[trigger] call.args@[i] matches
                    ExprFunctionCallArg::Reference(stable_ptr) && is_unsupported(d, stable_ptr))
        },
        Expr::Literal { value, ty, stable_ptr } => match c.db.spec_validate_literal(ty, value@) {
            Ok(_) => false,
            Err(err) => d.stable_ptr == stable_ptr && d.kind == KindView::LiteralError(err),
        },
        Expr::StructCtor(ctor) => ctor.base_struct is Some && is_unsupported(d, ctor.stable_ptr),
        Expr::Other { stable_ptr, .. } => is_unsupported(d, stable_ptr),
        _ => false,
    }
}

proof fn lemma_concat<T>(a: Seq<T>, b: Seq<T>, d: T)
    ensures
        (a + b).contains(d) <==> a.contains(d) || b.contains(d),
{
    if a.contains(d) {
        let i = choose|i: int| 0 <= i < a.len() && a[i] == d;
        assert((a + b)[i] == d);
    }
    if b.contains(d) {
        let i = choose|i: int| 0 <= i < b.len() && b[i] == d;
        assert((a + b)[a.len() + i] == d);
    }
    if (a + b).contains(d) {
        let i = choose|i: int| 0 <= i < (a + b).len() && (a + b)[i] == d;
        if i < a.len() {
            assert(a[i] == d);
        } else {
            assert(b[i - a.len()] == d);
        }
    }
}

proof fn lemma_unsupported(stable_ptr: SyntaxStablePtrId, d: DiagnosticView)
    ensures
        unsupported(stable_ptr).contains(d) <==> is_unsupported(d, stable_ptr),
{
    assert(unsupported(stable_ptr)[0] == (DiagnosticView {
        stable_ptr,
        kind: KindView::UnsupportedConstant,
    }));
}

proof fn lemma_in_list(c: EvalEnv, exprs: Seq<ExprId>, bound: nat, n: nat, d: DiagnosticView)
    requires
        n <= exprs.len(),
        forall|i: int| 0 <= i < exprs.len() ==> (#[trigger] exprs[i]).0 < bound,
    ensures
        validation_list(c, exprs, bound, n).contains(d) <==> exists|i: int|
            0 <= i < n && validation(c, #[trigger] exprs[i]).contains(d),
    decreases n,
{
    reveal_with_fuel(validation_list, 2);
    if n > 0 {
        lemma_in_list(c, exprs, bound, (n - 1) as nat, d);
        let id = exprs[n - 1];
        lemma_concat(
            validation_list(c, exprs, bound, (n - 1) as nat),
            validation_below(c, id, bound),
            d,
        );
        assert(validation_below(c, id, bound) == validation(c, id));
        if validation_list(c, exprs, bound, n).contains(d) && !validation(c, id).contains(d) {
            let i = choose|i: int| 0 <= i < n - 1 && validation(c, #[trigger] exprs[i]).contains(d);
            assert(validation(c, exprs[i]).contains(d));
        }
    }
}

proof fn lemma_in_statements(
    c: EvalEnv,
    statements: Seq<StatementId>,
    bound: nat,
    n: nat,
    d: DiagnosticView,
)
    requires
        n <= statements.len(),
        forall|i: int|
            0 <= i < statements.len() ==> c.arenas.statement_below(
                #[trigger] statements[i],
                bound as int,
            ),
    ensures
        validation_statements(c, statements, bound, n).contains(d) <==> exists|i: int|
            0 <= i < n && in_statement(c, #[trigger] statements[i], d),
    decreases n,
{
    reveal_with_fuel(validation_statements, 2);
    if n > 0 {
        lemma_in_statements(c, statements, bound, (n - 1) as nat, d);
        let id = statements[n - 1];
        assert(c.arenas.statement_below(id, bound as int));
        let before = validation_statements(c, statements, bound, (n - 1) as nat);
        match c.arenas.statements@[id.0 as int] {
            Statement::Let { expr, .. } => {
                assert(validation_below(c, expr, bound) == validation(c, expr));
                lemma_concat(before, validation(c, expr), d);
            },
            Statement::Expr { expr, .. } => {
                assert(validation_below(c, expr, bound) == validation(c, expr));
                lemma_concat(before, validation(c, expr), d);
            },
            Statement::Other { stable_ptr } => {
                lemma_unsupported(stable_ptr, d);
                lemma_concat(before, unsupported(stable_ptr), d);
            },
        }
        if validation_statements(c, statements, bound, n).contains(d) && !in_statement(c, id, d) {
            let i = choose|i: int| 0 <= i < n - 1 && in_statement(c, #[trigger] statements[i], d);
            assert(in_statement(c, statements[i], d));
        }
    }
}

spec fn in_statement(c: EvalEnv, id: StatementId, d: DiagnosticView) -> bool {
    match c.arenas.statements@[id.0 as int] {
        Statement::Let { expr, .. } => validation(c, expr).contains(d),
        Statement::Expr { expr, .. } => validation(c, expr).contains(d),
        Statement::Other { stable_ptr } => is_unsupported(d, stable_ptr),
    }
}

spec fn in_arg(c: EvalEnv, arg: ExprFunctionCallArg, d: DiagnosticView) -> bool {
    match arg {
        ExprFunctionCallArg::Value(id) => validation(c, id).contains(d),
        ExprFunctionCallArg::Reference(stable_ptr) => is_unsupported(d, stable_ptr),
    }
}

proof fn lemma_in_args(
    c: EvalEnv,
    args: Seq<ExprFunctionCallArg>,
    bound: nat,
    n: nat,
    d: DiagnosticView,
)
    requires
        n <= args.len(),
        forall|i: int|
            0 <= i < args.len() ==> ((#[trigger] args[i]) matches ExprFunctionCallArg::Value(arg)
                ==> arg.0 < bound),
    ensures
        validation_args(c, args, bound, n).contains(d) <==> exists|i: int|
            0 <= i < n && in_arg(c, #[trigger] args[i], d),
    decreases n,
{
    reveal_with_fuel(validation_args, 2);
    if n > 0 {
        lemma_in_args(c, args, bound, (n - 1) as nat, d);
        let before = validation_args(c, args, bound, (n - 1) as nat);
        match args[n - 1] {
            ExprFunctionCallArg::Value(id) => {
                let found = validation(c, id);
                assert(validation_below(c, id, bound) == found);
                lemma_concat(found, found, d);
                lemma_concat(before, found + found, d);
            },
            ExprFunctionCallArg::Reference(stable_ptr) => {
                lemma_unsupported(stable_ptr, d);
                lemma_concat(before, unsupported(stable_ptr), d);
            },
        }
        if validation_args(c, args, bound, n).contains(d) && !in_arg(c, args[n - 1], d) {
            let i = choose|i: int| 0 <= i < n - 1 && in_arg(c, #[trigger] args[i], d);
            assert(in_arg(c, args[i], d));
        }
    }
}

spec fn in_a_part(c: EvalEnv, id: ExprId, d: DiagnosticView) -> bool {
    exists|part: ExprId| #[trigger] is_part(c, id, part) && validation(c, part).contains(d)
}

proof fn lemma_part(c: EvalEnv, id: ExprId, part: ExprId, d: DiagnosticView)
    requires
        is_part(c, id, part),
        validation(c, part).contains(d),
    ensures
        in_a_part(c, id, d),
{
}

/// What is reported of an expression is what is reported of its parts, and what is wrong with the
/// expression itself: it is of another kind than constants can be, its literal does not fit its
/// type, it calls what a constant may not call, or it passes a reference.
pub proof fn reports_are_about_the_expression_or_its_parts(
    c: EvalEnv,
    id: ExprId,
    d: DiagnosticView,
)
    requires
        c.wf(),
        id.0 < c.arenas.exprs@.len(),
    ensures
        validation(c, id).contains(d) <==> is_own(c, id, d) || exists|part: ExprId| #[trigger]
            is_part(c, id, part) && validation(c, part).contains(d),
{
    lemma_reports(c, id, d);
}

#[verifier::rlimit(60)]
proof fn lemma_reports(c: EvalEnv, id: ExprId, d: DiagnosticView)
    requires
        c.wf(),
        id.0 < c.arenas.exprs@.len(),
    ensures
        validation(c, id).contains(d) <==> is_own(c, id, d) || in_a_part(c, id, d),
{
    let bound = id.0 as nat;
    reveal_with_fuel(validation, 2);
    assert(c.arenas.expr_ok(id.0 as int, c.db.functions@.len(), c.db.const_values@.len()));
    match c.arenas.exprs@[id.0 as int] {
        Expr::Block { statements, tail: Some(inner), .. } => {
            lemma_block(c, id, statements@, inner, d);
        },
        Expr::Block { stable_ptr, .. } => {
            lemma_unsupported(stable_ptr, d);
        },
        Expr::FunctionCall(call) => {
            lemma_call(c, id, call, d);
        },
        Expr::Literal { value, ty, stable_ptr } => {
            if let Err(err) = c.db.spec_validate_literal(ty, value@) {
                assert(validation(c, id)[0] == (DiagnosticView {
                    stable_ptr,
                    kind: KindView::LiteralError(err),
                }));
            }
        },
        Expr::Tuple { items, .. } => {
            lemma_in_list(c, items@, bound, items@.len(), d);
            if in_a_part(c, id, d) {
                let part = choose|part: ExprId| #[trigger]
                    is_part(c, id, part) && validation(c, part).contains(d);
                let i = choose|i: int| 0 <= i < items@.len() && items@[i] == part;
                assert(validation(c, items@[i]).contains(d));
            }
            if validation(c, id).contains(d) {
                let i = choose|i: int|
                    0 <= i < items@.len() && validation(c, #[trigger] items@[i]).contains(d);
                lemma_part(c, id, items@[i], d);
            }
        },
        Expr::StructCtor(ctor) => {
            lemma_ctor(c, id, ctor, d);
        },
        Expr::EnumVariantCtor { value_expr, .. } => {
            assert(validation_below(c, value_expr, bound) == validation(c, value_expr));
            assert(is_part(c, id, value_expr));
        },
        Expr::MemberAccess(access) => {
            assert(validation_below(c, access.expr, bound) == validation(c, access.expr));
            assert(is_part(c, id, access.expr));
        },
        Expr::FixedSizeArray { items, .. } => match items {
            FixedSizeArrayItems::Items(items) => {
                lemma_in_list(c, items@, bound, items@.len(), d);
                if in_a_part(c, id, d) {
                    let part = choose|part: ExprId| #[trigger]
                        is_part(c, id, part) && validation(c, part).contains(d);
                    let i = choose|i: int| 0 <= i < items@.len() && items@[i] == part;
                    assert(validation(c, items@[i]).contains(d));
                }
                if validation(c, id).contains(d) {
                    let i = choose|i: int|
                        0 <= i < items@.len() && validation(c, #[trigger] items@[i]).contains(d);
                    lemma_part(c, id, items@[i], d);
                }
            },
            FixedSizeArrayItems::ValueAndSize(value, _) => {
                assert(validation_below(c, value, bound) == validation(c, value));
                assert(is_part(c, id, value));
            },
        },
        Expr::Snapshot { inner, .. } => {
            assert(validation_below(c, inner, bound) == validation(c, inner));
            assert(is_part(c, id, inner));
        },
        Expr::Desnap { inner, .. } => {
            assert(validation_below(c, inner, bound) == validation(c, inner));
            assert(is_part(c, id, inner));
        },
        Expr::LogicalOperator { lhs, rhs, .. } => {
            assert(validation_below(c, lhs, bound) == validation(c, lhs));
            assert(validation_below(c, rhs, bound) == validation(c, rhs));
            lemma_concat(validation(c, lhs), validation(c, rhs), d);
            assert(is_part(c, id, lhs) && is_part(c, id, rhs));
        },
        Expr::Match(_) => {
            lemma_match(c, id, d);
        },
        Expr::If(_) => {
            lemma_if(c, id, d);
        },
        Expr::Other { stable_ptr, .. } => {
            lemma_unsupported(stable_ptr, d);
        },
        _ => {},
    }
}

proof fn lemma_block(
    c: EvalEnv,
    id: ExprId,
    statements: Seq<StatementId>,
    inner: ExprId,
    d: DiagnosticView,
)
    requires
        c.wf(),
        id.0 < c.arenas.exprs@.len(),
        c.arenas.exprs@[id.0 as int] matches Expr::Block { statements: all, tail: Some(tail), .. }
            && all@ == statements && tail == inner,
    ensures
        validation(c, id).contains(d) <==> is_own(c, id, d) || in_a_part(c, id, d),
{
    let bound = id.0 as nat;
    reveal_with_fuel(validation, 2);
    assert(c.arenas.expr_ok(id.0 as int, c.db.functions@.len(), c.db.const_values@.len()));
    lemma_in_statements(c, statements, bound, statements.len(), d);
    assert(validation_below(c, inner, bound) == validation(c, inner));
    lemma_concat(
        validation_statements(c, statements, bound, statements.len()),
        validation(c, inner),
        d,
    );
    assert(is_part(c, id, inner));
    if exists|i: int| 0 <= i < statements.len() && in_statement(c, #[trigger] statements[i], d) {
        let i = choose|i: int|
            0 <= i < statements.len() && in_statement(c, #[trigger] statements[i], d);
        match c.arenas.statements@[statements[i].0 as int] {
            Statement::Let { expr, .. } => {
                assert(is_expr_of(c, statements[i], expr));
                lemma_part(c, id, expr, d);
            },
            Statement::Expr { expr, .. } => {
                assert(is_expr_of(c, statements[i], expr));
                lemma_part(c, id, expr, d);
            },
            Statement::Other { .. } => {},
        }
    }
    if is_own(c, id, d) {
        let i = choose|i: int|
            0 <= i < statements.len() && (c.arenas.statements@[(
            #[trigger] statements[i]).0 as int] matches Statement::Other { stable_ptr }
                && is_unsupported(d, stable_ptr));
        assert(in_statement(c, statements[i], d));
    }
    if in_a_part(c, id, d) {
        let part = choose|part: ExprId| #[trigger]
            is_part(c, id, part) && validation(c, part).contains(d);
        if part != inner {
            let i = choose|i: int|
                0 <= i < statements.len() && is_expr_of(c, #[trigger] statements[i], part);
            assert(in_statement(c, statements[i], d));
        }
    }
}

proof fn lemma_call(c: EvalEnv, id: ExprId, call: ExprFunctionCall, d: DiagnosticView)
    requires
        c.wf(),
        id.0 < c.arenas.exprs@.len(),
        c.arenas.exprs@[id.0 as int] == Expr::FunctionCall(call),
    ensures
        validation(c, id).contains(d) <==> is_own(c, id, d) || in_a_part(c, id, d),
{
    let bound = id.0 as nat;
    let args = call.args@;
    reveal_with_fuel(validation, 2);
    assert(c.arenas.expr_ok(id.0 as int, c.db.functions@.len(), c.db.const_values@.len()));
    lemma_in_args(c, args, bound, args.len(), d);
    lemma_unsupported(call.stable_ptr, d);
    lemma_concat(
        validation_args(c, args, bound, args.len()),
        if may_be_called(c, call.function) {
            Seq::empty()
        } else {
            unsupported(call.stable_ptr)
        },
        d,
    );
    if exists|i: int| 0 <= i < args.len() && in_arg(c, #[trigger] args[i], d) {
        let i = choose|i: int| 0 <= i < args.len() && in_arg(c, #[trigger] args[i], d);
        if let ExprFunctionCallArg::Value(part) = args[i] {
            assert(args.contains(ExprFunctionCallArg::Value(part)));
            lemma_part(c, id, part, d);
        }
    }
    if exists|i: int|
        0 <= i < args.len() && (#[trigger] args[i] matches ExprFunctionCallArg::Reference(
            stable_ptr,
        ) && is_unsupported(d, stable_ptr)) {
        let i = choose|i: int|
            0 <= i < args.len() && (#[trigger] args[i] matches ExprFunctionCallArg::Reference(
                stable_ptr,
            ) && is_unsupported(d, stable_ptr));
        assert(in_arg(c, args[i], d));
    }
    if in_a_part(c, id, d) {
        let part = choose|part: ExprId| #[trigger]
            is_part(c, id, part) && validation(c, part).contains(d);
        let i = choose|i: int|
            0 <= i < args.len() && args[i] == ExprFunctionCallArg::Value(part);
        assert(in_arg(c, args[i], d));
    }
}

proof fn lemma_ctor(c: EvalEnv, id: ExprId, ctor: ExprStructCtor, d: DiagnosticView)
    requires
        c.wf(),
        id.0 < c.arenas.exprs@.len(),
        c.arenas.exprs@[id.0 as int] == Expr::StructCtor(ctor),
    ensures
        validation(c, id).contains(d) <==> is_own(c, id, d) || in_a_part(c, id, d),
{
    let bound = id.0 as nat;
    reveal_with_fuel(validation, 2);
    assert(c.arenas.expr_ok(id.0 as int, c.db.functions@.len(), c.db.const_values@.len()));
    lemma_unsupported(ctor.stable_ptr, d);
    if ctor.base_struct is None {
        let exprs = ctor_exprs(ctor.members@);
        assert forall|i: int| 0 <= i < exprs.len() implies (#[trigger] exprs[i]).0 < bound by {
            assert(ctor.members@[i].0.0 < bound);
        }
        lemma_in_list(c, exprs, bound, exprs.len(), d);
        if validation(c, id).contains(d) {
            let i = choose|i: int|
                0 <= i < exprs.len() && validation(c, #[trigger] exprs[i]).contains(d);
            assert(ctor.members@[i].0 == exprs[i]);
            lemma_part(c, id, exprs[i], d);
        }
        if in_a_part(c, id, d) {
            let part = choose|part: ExprId| #[trigger]
                is_part(c, id, part) && validation(c, part).contains(d);
            let i = choose|i: int|
                0 <= i < ctor.members@.len() && (#[trigger] ctor.members@[i]).0 == part;
            assert(validation(c, exprs[i]).contains(d));
        }
    }
}

proof fn lemma_match(c: EvalEnv, id: ExprId, d: DiagnosticView)
    requires
        c.wf(),
        id.0 < c.arenas.exprs@.len(),
        c.arenas.exprs@[id.0 as int] is Match,
    ensures
        validation(c, id).contains(d) <==> is_own(c, id, d) || in_a_part(c, id, d),
{
    let bound = id.0 as nat;
    let expr = c.arenas.exprs@[id.0 as int]->Match_0;
    reveal_with_fuel(validation, 2);
    assert(c.arenas.expr_ok(id.0 as int, c.db.functions@.len(), c.db.const_values@.len()));
    let exprs = arm_exprs(expr.arms@);
    assert forall|i: int| 0 <= i < exprs.len() implies (#[trigger] exprs[i]).0 < bound by {
        assert(c.arenas.arm_below(expr.arms@[i], bound as int));
    }
    lemma_in_list(c, exprs, bound, exprs.len(), d);
    let matched = expr.matched_expr;
    assert(validation_below(c, matched, bound) == validation(c, matched));
    lemma_concat(validation(c, matched), validation_list(c, exprs, bound, exprs.len()), d);
    assert(is_part(c, id, matched));
    if exists|i: int| 0 <= i < exprs.len() && validation(c, #[trigger] exprs[i]).contains(d) {
        let i = choose|i: int|
            0 <= i < exprs.len() && validation(c, #[trigger] exprs[i]).contains(d);
        assert(expr.arms@[i].expression == exprs[i]);
        lemma_part(c, id, exprs[i], d);
    }
    if in_a_part(c, id, d) {
        let part = choose|part: ExprId| #[trigger]
            is_part(c, id, part) && validation(c, part).contains(d);
        if part != matched {
            let i = choose|i: int|
                0 <= i < expr.arms@.len() && (#[trigger] expr.arms@[i]).expression == part;
            assert(validation(c, exprs[i]).contains(d));
        }
    }
}

proof fn lemma_if(c: EvalEnv, id: ExprId, d: DiagnosticView)
    requires
        c.wf(),
        id.0 < c.arenas.exprs@.len(),
        c.arenas.exprs@[id.0 as int] is If,
    ensures
        validation(c, id).contains(d) <==> is_own(c, id, d) || in_a_part(c, id, d),
{
    let bound = id.0 as nat;
    let expr = c.arenas.exprs@[id.0 as int]->If_0;
    reveal_with_fuel(validation, 2);
    assert(c.arenas.expr_ok(id.0 as int, c.db.functions@.len(), c.db.const_values@.len()));
    let exprs = condition_exprs(expr.conditions@);
    assert forall|i: int| 0 <= i < exprs.len() implies (#[trigger] exprs[i]).0 < bound by {
        assert(c.arenas.condition_below(expr.conditions@[i], bound as int));
    }
    lemma_in_list(c, exprs, bound, exprs.len(), d);
    let conditions = validation_list(c, exprs, bound, exprs.len());
    let block = validation(c, expr.if_block);
    assert(validation_below(c, expr.if_block, bound) == block);
    lemma_concat(conditions, block, d);
    assert(is_part(c, id, expr.if_block));
    if let Some(else_block) = expr.else_block {
        assert(validation_below(c, else_block, bound) == validation(c, else_block));
        lemma_concat(conditions + block, validation(c, else_block), d);
        assert(is_part(c, id, else_block));
    } else {
        lemma_concat(conditions + block, Seq::empty(), d);
    }
    if exists|i: int| 0 <= i < exprs.len() && validation(c, #[trigger] exprs[i]).contains(d) {
        let i = choose|i: int|
            0 <= i < exprs.len() && validation(c, #[trigger] exprs[i]).contains(d);
        let condition = expr.conditions@[i];
        assert(match condition {
            Condition::BoolExpr(id) => id == exprs[i],
            Condition::Let(id, _) => id == exprs[i],
        });
        lemma_part(c, id, exprs[i], d);
    }
    if in_a_part(c, id, d) {
        let part = choose|part: ExprId| #[trigger]
            is_part(c, id, part) && validation(c, part).contains(d);
        if part != expr.if_block && expr.else_block != Some(part) {
            let i = choose|i: int|
                0 <= i < expr.conditions@.len() && (match #[trigger] expr.conditions@[i] {
                    Condition::BoolExpr(id) => id == part,
                    Condition::Let(id, _) => id == part,
                });
            assert(exprs[i] == part);
        }
    }
}

/// A call of a function that does not panic, is not declared to be constant, and is no operator of
/// the core library, is always reported at the call.
pub proof fn calls_of_other_functions_are_reported(c: EvalEnv, id: ExprId, call: ExprFunctionCall)
    requires
        c.wf(),
        id.0 < c.arenas.exprs@.len(),
        c.arenas.exprs@[id.0 as int] == Expr::FunctionCall(call),
        call.function != c.info.panic_with_felt252,
        !is_declared_const(c.db.functions@[call.function.0 as int].generic_function),
        !is_core_operator(c, call.function),
    ensures
        validation(c, id).contains(
            DiagnosticView { stable_ptr: call.stable_ptr, kind: KindView::UnsupportedConstant },
        ),
{
    let d = DiagnosticView { stable_ptr: call.stable_ptr, kind: KindView::UnsupportedConstant };
    assert(is_own(c, id, d));
    lemma_reports(c, id, d);
}

/// Where a call is not reported, and the function neither panics nor is one of an impl, the
/// function is declared to be constant.
pub proof fn valid_calls_are_of_constant_functions(
    c: EvalEnv,
    id: ExprId,
    call: ExprFunctionCall,
)
    requires
        c.wf(),
        id.0 < c.arenas.exprs@.len(),
        c.arenas.exprs@[id.0 as int] == Expr::FunctionCall(call),
        validation(c, id).len() == 0,
        call.function != c.info.panic_with_felt252,
        c.db.functions@[call.function.0 as int].body matches Ok(Some(body)) ==> !(
        body.generic_function is Impl),
    ensures
        is_declared_const(c.db.functions@[call.function.0 as int].generic_function),
{
    if !is_declared_const(c.db.functions@[call.function.0 as int].generic_function) {
        calls_of_other_functions_are_reported(c, id, call);
    }
}

/// What is reported of a statement.
pub open spec fn statement_reports(c: EvalEnv, id: StatementId) -> Seq<DiagnosticView> {
    match c.arenas.statements@[id.0 as int] {
        Statement::Let { expr, .. } => validation(c, expr),
        Statement::Expr { expr, .. } => validation(c, expr),
        Statement::Other { stable_ptr } => seq![
            DiagnosticView { stable_ptr, kind: KindView::UnsupportedConstant },
        ],
    }
}

/// What is reported of an argument: what is reported of a value is reported twice.
pub open spec fn arg_reports(c: EvalEnv, arg: ExprFunctionCallArg) -> Seq<DiagnosticView> {
    match arg {
        ExprFunctionCallArg::Value(id) => validation(c, id) + validation(c, id),
        ExprFunctionCallArg::Reference(stable_ptr) => seq![
            DiagnosticView { stable_ptr, kind: KindView::UnsupportedConstant },
        ],
    }
}

/// The diagnostics of an expression are those of its parts, in the order of the parts, each once
/// but for those of arguments. A call that is not allowed is reported after its arguments.
pub proof fn reports_are_in_order(c: EvalEnv, id: ExprId)
    requires
        c.wf(),
        id.0 < c.arenas.exprs@.len(),
    ensures
        match c.arenas.exprs@[id.0 as int] {
            Expr::Block { statements, tail: Some(tail), .. } => validation(c, id)
                == statements@.flat_map(|id: StatementId| statement_reports(c, id)) + validation(
                c,
                tail,
            ),
            Expr::FunctionCall(call) => validation(c, id) == call.args@.flat_map(
                |arg: ExprFunctionCallArg| arg_reports(c, arg),
            ) + (if may_be_called(c, call.function) {
                Seq::empty()
            } else {
                seq![
                    DiagnosticView {
                        stable_ptr: call.stable_ptr,
                        kind: KindView::UnsupportedConstant,
                    },
                ]
            }),
            Expr::Tuple { items, .. } => validation(c, id) == items@.flat_map(
                |part: ExprId| validation(c, part),
            ),
            Expr::StructCtor(ctor) => ctor.base_struct is None ==> validation(c, id)
                == ctor.members@.flat_map(|member: (ExprId, MemberId)| validation(c, member.0)),
            Expr::EnumVariantCtor { value_expr, .. } => validation(c, id) == validation(
                c,
                value_expr,
            ),
            Expr::MemberAccess(access) => validation(c, id) == validation(c, access.expr),
            Expr::FixedSizeArray { items: FixedSizeArrayItems::Items(items), .. } => validation(
                c,
                id,
            ) == items@.flat_map(|part: ExprId| validation(c, part)),
            Expr::FixedSizeArray { items: FixedSizeArrayItems::ValueAndSize(value, _), .. } =>
                validation(c, id) == validation(c, value),
            Expr::Snapshot { inner, .. } => validation(c, id) == validation(c, inner),
            Expr::Desnap { inner, .. } => validation(c, id) == validation(c, inner),
            Expr::LogicalOperator { lhs, rhs, .. } => validation(c, id) == validation(c, lhs)
                + validation(c, rhs),
            Expr::Match(expr) => validation(c, id) == validation(c, expr.matched_expr)
                + expr.arms@.flat_map(|arm: MatchArm| validation(c, arm.expression)),
            Expr::If(expr) => validation(c, id) == expr.conditions@.flat_map(
                |condition: Condition|
                    match condition {
                        Condition::BoolExpr(id) => validation(c, id),
                        Condition::Let(id, _) => validation(c, id),
                    },
            ) + validation(c, expr.if_block) + (match expr.else_block {
                Some(else_block) => validation(c, else_block),
                None => Seq::empty(),
            }),
            Expr::Var { .. } | Expr::Constant { .. } | Expr::Missing { .. } => validation(
                c,
                id,
            ).len() == 0,
            Expr::Literal { .. } => validation(c, id).len() <= 1,
            Expr::Block { .. } | Expr::Other { .. } => validation(c, id).len() == 1,
        },
{
    let bound = id.0 as nat;
    let f = |part: ExprId| validation(c, part);
    reveal_with_fuel(validation, 2);
    assert(c.arenas.expr_ok(id.0 as int, c.db.functions@.len(), c.db.const_values@.len()));
    match c.arenas.exprs@[id.0 as int] {
        Expr::Block { statements, tail: Some(_), .. } => {
            lemma_statements_order(c, statements@, bound, statements@.len());
            assert(statements@.take(statements@.len() as int) =~= statements@);
        },
        Expr::FunctionCall(call) => {
            lemma_args_order(c, call.args@, bound, call.args@.len());
            assert(call.args@.take(call.args@.len() as int) =~= call.args@);
        },
        Expr::Tuple { items, .. } => {
            lemma_list_order(c, items@, bound, items@.len());
            assert(items@.take(items@.len() as int) =~= items@);
        },
        Expr::FixedSizeArray { items: FixedSizeArrayItems::Items(items), .. } => {
            lemma_list_order(c, items@, bound, items@.len());
            assert(items@.take(items@.len() as int) =~= items@);
        },
        Expr::StructCtor(ctor) => {
            let exprs = ctor_exprs(ctor.members@);
            assert forall|i: int| 0 <= i < exprs.len() implies (#[trigger] exprs[i]).0 < bound by {
                assert(ctor.members@[i].0.0 < bound);
            }
            lemma_list_order(c, exprs, bound, exprs.len());
            assert(exprs.take(exprs.len() as int) =~= exprs);
            assert(exprs.map_values(f) =~= ctor.members@.map_values(
                |member: (ExprId, MemberId)| validation(c, member.0),
            ));
        },
        Expr::Match(expr) => {
            let exprs = arm_exprs(expr.arms@);
            assert forall|i: int| 0 <= i < exprs.len() implies (#[trigger] exprs[i]).0 < bound by {
                assert(c.arenas.arm_below(expr.arms@[i], bound as int));
            }
            lemma_list_order(c, exprs, bound, exprs.len());
            assert(exprs.take(exprs.len() as int) =~= exprs);
            assert(exprs.map_values(f) =~= expr.arms@.map_values(
                |arm: MatchArm| validation(c, arm.expression),
            ));
        },
        Expr::If(expr) => {
            let exprs = condition_exprs(expr.conditions@);
            assert forall|i: int| 0 <= i < exprs.len() implies (#[trigger] exprs[i]).0 < bound by {
                assert(c.arenas.condition_below(expr.conditions@[i], bound as int));
            }
            lemma_list_order(c, exprs, bound, exprs.len());
            assert(exprs.take(exprs.len() as int) =~= exprs);
            assert(exprs.map_values(f) =~= expr.conditions@.map_values(
                |condition: Condition|
                    match condition {
                        Condition::BoolExpr(id) => validation(c, id),
                        Condition::Let(id, _) => validation(c, id),
                    },
            ));
        },
        _ => {},
    }
}

proof fn lemma_statements_order(c: EvalEnv, statements: Seq<StatementId>, bound: nat, n: nat)
    requires
        n <= statements.len(),
        forall|i: int|
            0 <= i < statements.len() ==> c.arenas.statement_below(
                #[trigger] statements[i],
                bound as int,
            ),
    ensures
        validation_statements(c, statements, bound, n) == statements.take(n as int).flat_map(
            |id: StatementId| statement_reports(c, id),
        ),
    decreases n,
{
    let f = |id: StatementId| statement_reports(c, id);
    reveal_with_fuel(validation_statements, 2);
    if n > 0 {
        lemma_statements_order(c, statements, bound, (n - 1) as nat);
        statements.lemma_flat_map_take_append(f, n - 1);
        assert(c.arenas.statement_below(statements[n - 1], bound as int));
    } else {
        assert(statements.take(0).map_values(f) =~= Seq::empty());
    }
}

proof fn lemma_args_order(c: EvalEnv, args: Seq<ExprFunctionCallArg>, bound: nat, n: nat)
    requires
        n <= args.len(),
        forall|i: int|
            0 <= i < args.len() ==> ((#[trigger] args[i]) matches ExprFunctionCallArg::Value(arg)
                ==> arg.0 < bound),
    ensures
        validation_args(c, args, bound, n) == args.take(n as int).flat_map(
            |arg: ExprFunctionCallArg| arg_reports(c, arg),
        ),
    decreases n,
{
    let f = |arg: ExprFunctionCallArg| arg_reports(c, arg);
    reveal_with_fuel(validation_args, 2);
    if n > 0 {
        lemma_args_order(c, args, bound, (n - 1) as nat);
        args.lemma_flat_map_take_append(f, n - 1);
        assert(args[n - 1] matches ExprFunctionCallArg::Value(arg) ==> arg.0 < bound);
    } else {
        assert(args.take(0).map_values(f) =~= Seq::empty());
    }
}

proof fn lemma_list_order(c: EvalEnv, exprs: Seq<ExprId>, bound: nat, n: nat)
    requires
        n <= exprs.len(),
        forall|i: int| 0 <= i < exprs.len() ==> (#[trigger] exprs[i]).0 < bound,
    ensures
        validation_list(c, exprs, bound, n) == exprs.take(n as int).flat_map(
            |part: ExprId| validation(c, part),
        ),
    decreases n,
{
    let f = |part: ExprId| validation(c, part);
    reveal_with_fuel(validation_list, 2);
    if n > 0 {
        lemma_list_order(c, exprs, bound, (n - 1) as nat);
        exprs.lemma_flat_map_take_append(f, n - 1);
        assert(validation_below(c, exprs[n - 1], bound) == f(exprs[n - 1]));
    } else {
        assert(exprs.take(0).map_values(f) =~= Seq::empty());
    }
}

} // verus!
