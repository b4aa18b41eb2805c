//! What each kind of expression is worth, given what its parts are worth.
use vstd::prelude::*;

use crate::constant::calc_info::{bool_view, unit_view};
use crate::constant::literal::{
    const_value_has_its_type, numeric_value_of_const_value, spec_numeric_arg_value,
};
use crate::constant::semantics::{
    arm_takes_variant, call_state, ctor_order, ctor_place, destructure, destructure_below,
    destructure_fields, destructure_first, destructure_list, eval, eval_arm, eval_below, eval_call,
    eval_condition, eval_conditions, eval_const_call, eval_function_call, eval_list,
    eval_member_access, eval_statements, eval_struct, expr_for, field_for, is_member, is_variant,
    param_values, takes_variant, value_args, Conditions, EvalEnv, EvalState, Fault,
};
use crate::constant::value::ConstView;
use crate::constant::ConstValueId;
use crate::integer::Integer;
use crate::search::{first_where, keyed, lemma_filter_map_take, lemma_first_where};
use crate::semantic::db::{FunctionBody, GenericSubstitution, Signature};
use crate::semantic::diagnostics::{DiagnosticView, KindView};
use crate::semantic::exprs::{
    Condition, Expr, ExprFunctionCall, ExprFunctionCallArg, ExprIf, ExprMatch, ExprMemberAccess,
    ExprStructCtor, FixedSizeArrayItems, LogicalOperator, Pattern, Statement,
};
use crate::semantic::ids::{
    ConcreteStructId, ConcreteVariant, DiagnosticAdded, ExprId, Maybe, MemberId, PatternId,
    StatementId, SyntaxStablePtrId, TypeId, VarId, VarKey,
};

verus! {

/// The calculation of the expression in the state `s` ends in the state `t` with the value.
pub open spec fn gives(
    c: EvalEnv,
    s: EvalState,
    id: ExprId,
    t: EvalState,
    value: ConstView,
) -> bool {
    eval(c, s, id) == Ok::<(EvalState, ConstView), Fault>((t, value))
}

/// The expressions are calculated one after the other: each starts in the state that the one before
/// it ended in.
pub open spec fn gives_all(
    c: EvalEnv,
    exprs: Seq<ExprId>,
    states: Seq<EvalState>,
    values: Seq<ConstView>,
) -> bool {
    &&& states.len() == exprs.len() + 1
    &&& values.len() == exprs.len()
    &&& forall|i: int|
        0 <= i < exprs.len() ==> gives(c, states[i], #[trigger] exprs[i], states[i + 1], values[i])
}

/// The expression with this id is part of the body.
pub open spec fn has_expr(c: EvalEnv, id: ExprId, expr: Expr) -> bool {
    &&& c.wf()
    &&& id.0 < c.arenas.exprs@.len()
    &&& c.arenas.exprs@[id.0 as int] == expr
}

proof fn lemma_parts(c: EvalEnv, id: ExprId, expr: Expr)
    requires
        has_expr(c, id, expr),
    ensures
        c.arenas.expr_ok(id.0 as int, c.db.functions@.len(), c.db.const_values@.len()),
{
}

proof fn lemma_gives_all(
    c: EvalEnv,
    exprs: Seq<ExprId>,
    states: Seq<EvalState>,
    values: Seq<ConstView>,
    bound: nat,
    n: nat,
)
    requires
        gives_all(c, exprs, states, values),
        n <= exprs.len(),
        forall|i: int| 0 <= i < exprs.len() ==> (#[trigger] exprs[i]).0 < bound,
    ensures
        eval_list(c, states[0], exprs, bound, n) == Ok::<(EvalState, Seq<ConstView>), Fault>(
            (states[n as int], values.take(n as int)),
        ),
    decreases n,
{
    reveal_with_fuel(eval_list, 2);
    if n > 0 {
        lemma_gives_all(c, exprs, states, values, bound, (n - 1) as nat);
        let id = exprs[n - 1];
        assert(gives(c, states[n - 1], id, states[n - 1 + 1], values[n - 1]));
        assert(values.take(n as int) =~= values.take(n - 1).push(values[n - 1]));
        assert(eval_below(c, states[n - 1], id, bound) == eval(c, states[n - 1], id));
    } else {
        assert(values.take(0) =~= Seq::empty());
    }
}

/// What follows an expression that cannot be calculated is not looked at.
proof fn lemma_list_fault(
    c: EvalEnv,
    exprs: Seq<ExprId>,
    s: EvalState,
    bound: nat,
    n: nat,
    m: nat,
    fault: Fault,
)
    requires
        n <= m,
        eval_list(c, s, exprs, bound, n) == Err::<(EvalState, Seq<ConstView>), Fault>(fault),
    ensures
        eval_list(c, s, exprs, bound, m) == Err::<(EvalState, Seq<ConstView>), Fault>(fault),
    decreases m - n,
{
    if n < m {
        lemma_list_fault(c, exprs, s, bound, n, (m - 1) as nat, fault);
    }
}

/// A literal is worth its number, in its type, and changes nothing.
pub proof fn literals_are_their_numbers(c: EvalEnv, s: EvalState, id: ExprId)
    requires
        id.0 < c.arenas.exprs@.len(),
        c.arenas.exprs@[id.0 as int] is Literal,
        c.db.spec_validate_literal(
            c.arenas.exprs@[id.0 as int].spec_ty(),
            c.arenas.exprs@[id.0 as int]->Literal_value@,
        ) is Ok,
    ensures
        eval(c, s, id) matches Ok((t, value)) && t == s && spec_numeric_arg_value(value) == Some(
            c.arenas.exprs@[id.0 as int]->Literal_value@,
        ) && c.db.spec_const_ty(value) == Ok::<TypeId, DiagnosticAdded>(
            c.arenas.exprs@[id.0 as int].spec_ty(),
        ),
{
    let ty = c.arenas.exprs@[id.0 as int].spec_ty();
    let value = c.arenas.exprs@[id.0 as int]->Literal_value@;
    numeric_value_of_const_value(c.db, ty, value);
    const_value_has_its_type(c.db, ty, value);
}

/// A variable that is bound is worth what it is bound to; one that is not is reported, and has no
/// value.
pub proof fn variables_are_what_they_are_bound_to(
    c: EvalEnv,
    s: EvalState,
    id: ExprId,
    var: VarId,
    ty: TypeId,
    stable_ptr: SyntaxStablePtrId,
)
    requires
        has_expr(c, id, Expr::Var { var, ty, stable_ptr }),
    ensures
        ({
            let key = match var {
                VarId::Param(number) => (0u8, number),
                VarId::Local(number) => (1u8, number),
            };
            if s.vars.contains_key(key) {
                gives(c, s, id, s, s.vars[key])
            } else {
                let diagnostics = s.diagnostics.push(
                    DiagnosticView { stable_ptr, kind: KindView::UnsupportedConstant },
                );
                gives(c, s, id, EvalState { vars: s.vars, diagnostics }, ConstView::Missing)
            }
        }),
{
}

/// A constant is worth its value in the table, unless the body is an instance in which another
/// value takes its place.
pub proof fn constants_are_their_values(
    c: EvalEnv,
    s: EvalState,
    id: ExprId,
    const_value_id: ConstValueId,
    ty: TypeId,
    stable_ptr: SyntaxStablePtrId,
)
    requires
        has_expr(c, id, Expr::Constant { const_value_id, ty, stable_ptr }),
    ensures
        (forall|i: int|
            0 <= i < c.substitution.consts.len() ==> (#[trigger] c.substitution.consts[i]).0
                != const_value_id) ==> gives(
            c,
            s,
            id,
            s,
            c.db.const_values@[const_value_id.0 as int]@,
        ),
        forall|at: int, value: ConstView|
            0 <= at < c.substitution.consts.len() && (#[trigger] c.substitution.consts[at]) == (
                const_value_id,
                Ok::<ConstView, DiagnosticAdded>(value),
            ) && (forall|i: int|
                0 <= i < at ==> (#[trigger] c.substitution.consts[i]).0 != const_value_id)
                ==> #[trigger] gives(c, s, id, s, value),
        c.substitution.substitute_const(
            const_value_id,
            c.db.const_values@[const_value_id.0 as int]@,
        ) is Err ==> gives(c, s, id, s, ConstView::Missing),
{
    lemma_first_where(
        c.substitution.consts,
        keyed::<ConstValueId, Maybe<ConstView>>(const_value_id),
        0,
    );
}

/// A tuple, or an array by its elements, is worth the values of its parts, in their order.
pub proof fn tuples_hold_the_values_of_their_parts(
    c: EvalEnv,
    id: ExprId,
    items: Vec<ExprId>,
    ty: TypeId,
    stable_ptr: SyntaxStablePtrId,
    states: Seq<EvalState>,
    values: Seq<ConstView>,
)
    requires
        has_expr(c, id, Expr::Tuple { items, ty, stable_ptr }) || has_expr(
            c,
            id,
            Expr::FixedSizeArray { items: FixedSizeArrayItems::Items(items), ty, stable_ptr },
        ),
        gives_all(c, items@, states, values),
    ensures
        gives(c, states[0], id, states.last(), ConstView::Struct(values, ty)),
{
    lemma_parts(c, id, c.arenas.exprs@[id.0 as int]);
    reveal_with_fuel(eval, 2);
    reveal_with_fuel(eval_struct, 2);
    assert forall|i: int| 0 <= i < items@.len() implies (#[trigger] items@[i]).0 < id.0 by {
        match c.arenas.exprs@[id.0 as int] {
            Expr::Tuple { items: found, .. } => {
                assert(found@[i].0 < id.0);
            },
            Expr::FixedSizeArray { items: FixedSizeArrayItems::Items(found), .. } => {
                assert(found@[i].0 < id.0);
            },
            _ => {},
        }
    }
    lemma_gives_all(c, items@, states, values, id.0 as nat, items@.len());
    assert(values.take(items@.len() as int) =~= values);
}

/// Where a part of a tuple, or of an array, cannot be calculated, the whole cannot be.
pub proof fn tuples_fail_where_a_part_does(
    c: EvalEnv,
    id: ExprId,
    items: Vec<ExprId>,
    ty: TypeId,
    stable_ptr: SyntaxStablePtrId,
    states: Seq<EvalState>,
    values: Seq<ConstView>,
    at: int,
    fault: Fault,
)
    requires
        has_expr(c, id, Expr::Tuple { items, ty, stable_ptr }) || has_expr(
            c,
            id,
            Expr::FixedSizeArray { items: FixedSizeArrayItems::Items(items), ty, stable_ptr },
        ),
        0 <= at < items@.len(),
        gives_all(c, items@.take(at), states, values),
        eval(c, states.last(), items@[at]) == Err::<(EvalState, ConstView), Fault>(fault),
    ensures
        eval(c, states[0], id) == Err::<(EvalState, ConstView), Fault>(fault),
{
    let bound = id.0 as nat;
    lemma_parts(c, id, c.arenas.exprs@[id.0 as int]);
    reveal_with_fuel(eval, 2);
    reveal_with_fuel(eval_struct, 2);
    assert(items@[at].0 < bound);
    lemma_gives_all(c, items@.take(at), states, values, bound, at as nat);
    lemma_eval_list_prefix(c, states[0], items@.take(at), items@, bound, at as nat);
    assert(eval_below(c, states.last(), items@[at], bound) == eval(c, states.last(), items@[at]));
    assert(eval_list(c, states[0], items@, bound, (at + 1) as nat) == Err::<
        (EvalState, Seq<ConstView>),
        Fault,
    >(fault));
    lemma_list_fault(c, items@, states[0], bound, (at + 1) as nat, items@.len(), fault);
}

proof fn lemma_eval_list_prefix(
    c: EvalEnv,
    s: EvalState,
    a: Seq<ExprId>,
    b: Seq<ExprId>,
    bound: nat,
    n: nat,
)
    requires
        n <= a.len(),
        n <= b.len(),
        forall|i: int| 0 <= i < n ==> #[trigger] a[i] == b[i],
    ensures
        eval_list(c, s, a, bound, n) == eval_list(c, s, b, bound, n),
    decreases n,
{
    if n > 0 {
        lemma_eval_list_prefix(c, s, a, b, bound, (n - 1) as nat);
        assert(a[n - 1] == b[n - 1]);
    }
}

/// An array of one value is worth as many copies of it as the array has elements.
pub proof fn arrays_repeat_their_value(
    c: EvalEnv,
    s: EvalState,
    id: ExprId,
    value: ExprId,
    size: ConstValueId,
    ty: TypeId,
    stable_ptr: SyntaxStablePtrId,
    t: EvalState,
    element: ConstView,
    count: nat,
    count_ty: TypeId,
)
    requires
        has_expr(
            c,
            id,
            Expr::FixedSizeArray {
                items: FixedSizeArrayItems::ValueAndSize(value, size),
                ty,
                stable_ptr,
            },
        ),
        gives(c, s, value, t, element),
        c.db.const_values@[size.0 as int]@ == ConstView::Int(count as int, count_ty),
        count <= usize::MAX,
    ensures
        eval(c, s, id) matches Ok((u, ConstView::Struct(elements, array_ty))) && u == t && array_ty
            == ty && elements.len() == count && forall|i: int|
            0 <= i < count ==> #[trigger] elements[i] == element,
{
    lemma_parts(c, id, c.arenas.exprs@[id.0 as int]);
    reveal_with_fuel(eval, 2);
}

/// A struct is worth the values of its members, in the order of its definition, whatever the order
/// in which they are written: `exprs` are the expressions that are written for its members.
pub proof fn structs_hold_the_values_of_their_members(
    c: EvalEnv,
    id: ExprId,
    ctor: ExprStructCtor,
    order: Seq<MemberId>,
    exprs: Seq<ExprId>,
    states: Seq<EvalState>,
    values: Seq<ConstView>,
)
    requires
        has_expr(c, id, Expr::StructCtor(ctor)),
        ctor.base_struct is None,
        c.db.spec_struct_members(ctor.concrete_struct_id) == Ok::<Seq<MemberId>, DiagnosticAdded>(
            order,
        ),
        forall|i: int, j: int|
            0 <= i < j < ctor.members@.len() ==> (#[trigger] ctor.members@[i]).1 != (
            #[trigger] ctor.members@[j]).1,
        exprs.len() == order.len(),
        forall|i: int|
            0 <= i < order.len() ==> ctor.members@.contains((exprs[i], #[trigger] order[i])),
        gives_all(c, exprs, states, values),
    ensures
        gives(c, states[0], id, states.last(), ConstView::Struct(values, ctor.ty)),
{
    lemma_parts(c, id, c.arenas.exprs@[id.0 as int]);
    reveal_with_fuel(eval, 2);
    reveal_with_fuel(eval_struct, 2);
    let members = ctor.members@;
    assert forall|i: int| 0 <= i < order.len() implies ctor_place(members, #[trigger] order[i])
        matches Some(at) && members[at].0 == exprs[i] && exprs[i].0 < id.0 by {
        lemma_first_where(members, expr_for(order[i]), 0);
        assert(members.contains((exprs[i], order[i])));
        let j = choose|j: int| 0 <= j < members.len() && members[j] == (exprs[i], order[i]);
        assert(members[j].0.0 < id.0);
        let at = ctor_place(members, order[i])->Some_0;
        if at != j {
            assert(members[at].1 != members[j].1);
        }
    }
    assert(ctor_order(members, order)->Some_0 =~= exprs);
    assert forall|i: int| 0 <= i < exprs.len() implies (#[trigger] exprs[i]).0 < id.0 by {
        assert(ctor_place(members, order[i]) is Some);
    }
    lemma_gives_all(c, exprs, states, values, id.0 as nat, exprs.len());
    assert(values.take(exprs.len() as int) =~= values);
}

/// A member of a struct is worth the value at the place of the member in the definition.
pub proof fn members_are_at_their_places(
    c: EvalEnv,
    s: EvalState,
    id: ExprId,
    access: ExprMemberAccess,
    order: Seq<MemberId>,
    at: int,
    t: EvalState,
    values: Seq<ConstView>,
    ty: TypeId,
)
    requires
        has_expr(c, id, Expr::MemberAccess(access)),
        c.db.spec_struct_members(access.concrete_struct_id) == Ok::<Seq<MemberId>, DiagnosticAdded>(
            order,
        ),
        0 <= at < order.len(),
        at < values.len(),
        order[at] == access.member,
        forall|i: int| 0 <= i < at ==> #[trigger] order[i] != access.member,
        gives(c, s, access.expr, t, ConstView::Struct(values, ty)),
    ensures
        gives(c, s, id, t, values[at]),
{
    lemma_parts(c, id, c.arenas.exprs@[id.0 as int]);
    reveal_with_fuel(eval, 2);
    reveal_with_fuel(eval_member_access, 2);
    lemma_first_where(order, is_member(access.member), 0);
}

/// An enum is worth the value of its expression, in its variant.
pub proof fn enums_hold_their_value(
    c: EvalEnv,
    s: EvalState,
    id: ExprId,
    variant: ConcreteVariant,
    value_expr: ExprId,
    ty: TypeId,
    stable_ptr: SyntaxStablePtrId,
    t: EvalState,
    value: ConstView,
)
    requires
        has_expr(c, id, Expr::EnumVariantCtor { variant, value_expr, ty, stable_ptr }),
        gives(c, s, value_expr, t, value),
    ensures
        gives(c, s, id, t, ConstView::Enum(variant, Box::new(value))),
{
    lemma_parts(c, id, c.arenas.exprs@[id.0 as int]);
    reveal_with_fuel(eval, 2);
}

/// A snapshot is worth what it is taken of, and so is what a snapshot is taken from.
pub proof fn snapshots_are_what_they_are_taken_of(
    c: EvalEnv,
    s: EvalState,
    id: ExprId,
    inner: ExprId,
    ty: TypeId,
    stable_ptr: SyntaxStablePtrId,
)
    requires
        has_expr(c, id, Expr::Snapshot { inner, ty, stable_ptr }) || has_expr(
            c,
            id,
            Expr::Desnap { inner, ty, stable_ptr },
        ),
    ensures
        eval(c, s, id) == eval(c, s, inner),
{
    lemma_parts(c, id, c.arenas.exprs@[id.0 as int]);
    reveal_with_fuel(eval, 2);
}

/// `&&` and `||` of two booleans are their conjunction and disjunction. The right one is calculated
/// only where the left one does not decide.
pub proof fn logical_operators_calculate_booleans(
    c: EvalEnv,
    s: EvalState,
    id: ExprId,
    lhs: ExprId,
    op: LogicalOperator,
    rhs: ExprId,
    ty: TypeId,
    stable_ptr: SyntaxStablePtrId,
    t: EvalState,
    left: bool,
    u: EvalState,
    right: bool,
)
    requires
        has_expr(c, id, Expr::LogicalOperator { lhs, op, rhs, ty, stable_ptr }),
        gives(c, s, lhs, t, bool_view(c.db, left)),
        gives(c, t, rhs, u, bool_view(c.db, right)) || left == (op is OrOr),
    ensures
        match op {
            LogicalOperator::AndAnd => if left {
                gives(c, s, id, u, bool_view(c.db, left && right))
            } else {
                gives(c, s, id, t, bool_view(c.db, false))
            },
            LogicalOperator::OrOr => if left {
                gives(c, s, id, t, bool_view(c.db, true))
            } else {
                gives(c, s, id, u, bool_view(c.db, left || right))
            },
        },
{
    lemma_parts(c, id, c.arenas.exprs@[id.0 as int]);
    reveal_with_fuel(eval, 2);
}

/// The state after a statement: `let` binds what its pattern takes of the value, and the value of
/// an expression is left out.
pub open spec fn runs(c: EvalEnv, s: EvalState, id: StatementId, t: EvalState) -> bool {
    match c.arenas.statements@[id.0 as int] {
        Statement::Let { pattern, expr, .. } => exists|u: EvalState, value: ConstView| #[trigger]
            gives(c, s, expr, u, value) && t == (EvalState {
                vars: destructure(c.db, c.arenas, u.vars, pattern, value),
                diagnostics: u.diagnostics,
            }),
        Statement::Expr { expr, .. } => exists|value: ConstView| #[trigger]
            gives(c, s, expr, t, value),
        Statement::Other { stable_ptr } => t == (EvalState {
            vars: s.vars,
            diagnostics: s.diagnostics.push(
                DiagnosticView { stable_ptr, kind: KindView::UnsupportedConstant },
            ),
        }),
    }
}

proof fn lemma_runs(
    c: EvalEnv,
    statements: Seq<StatementId>,
    states: Seq<EvalState>,
    bound: nat,
    n: nat,
)
    requires
        n <= statements.len(),
        states.len() == statements.len() + 1,
        forall|i: int|
            0 <= i < statements.len() ==> runs(
                c,
                states[i],
                #[trigger] statements[i],
                states[i + 1],
            ),
        forall|i: int|
            0 <= i < statements.len() ==> c.arenas.statement_below(
                #[trigger] statements[i],
                bound as int,
            ),
    ensures
        eval_statements(c, states[0], statements, bound, n) == Ok::<(EvalState, ()), Fault>(
            (states[n as int], ()),
        ),
    decreases n,
{
    reveal_with_fuel(eval_statements, 2);
    if n > 0 {
        lemma_runs(c, statements, states, bound, (n - 1) as nat);
        let id = statements[n - 1];
        assert(runs(c, states[n - 1], id, states[n - 1 + 1]));
        assert(c.arenas.statement_below(id, bound as int));
        match c.arenas.statements@[id.0 as int] {
            Statement::Let { expr, .. } => {
                assert(eval_below(c, states[n - 1], expr, bound) == eval(c, states[n - 1], expr));
            },
            Statement::Expr { expr, .. } => {
                assert(eval_below(c, states[n - 1], expr, bound) == eval(c, states[n - 1], expr));
            },
            Statement::Other { .. } => {},
        }
    }
}

/// A block runs its statements one after the other, and is worth its last expression after them.
pub proof fn blocks_run_their_statements(
    c: EvalEnv,
    id: ExprId,
    statements: Vec<StatementId>,
    tail: ExprId,
    ty: TypeId,
    stable_ptr: SyntaxStablePtrId,
    states: Seq<EvalState>,
)
    requires
        has_expr(c, id, Expr::Block { statements, tail: Some(tail), ty, stable_ptr }),
        states.len() == statements@.len() + 1,
        forall|i: int|
            0 <= i < statements@.len() ==> runs(
                c,
                states[i],
                #[trigger] statements@[i],
                states[i + 1],
            ),
    ensures
        eval(c, states[0], id) == eval(c, states.last(), tail),
{
    lemma_parts(c, id, c.arenas.exprs@[id.0 as int]);
    reveal_with_fuel(eval, 2);
    lemma_runs(c, statements@, states, id.0 as nat, statements@.len());
}

/// `{ let x = e; x }` is worth what `e` is.
pub proof fn bound_variables_are_read_back(
    c: EvalEnv,
    s: EvalState,
    id: ExprId,
    statements: Vec<StatementId>,
    tail: ExprId,
    ty: TypeId,
    stable_ptr: SyntaxStablePtrId,
    pattern: PatternId,
    expr: ExprId,
    var: u64,
    t: EvalState,
    value: ConstView,
)
    requires
        has_expr(c, id, Expr::Block { statements, tail: Some(tail), ty, stable_ptr }),
        statements@.len() == 1,
        c.arenas.statements@[statements@[0].0 as int] matches Statement::Let {
            pattern: p,
            expr: e,
            ..
        } && p == pattern && e == expr,
        c.arenas.patterns@[pattern.0 as int] == Pattern::Variable(var),
        c.arenas.exprs@[tail.0 as int] matches Expr::Var { var: v, .. } && v == VarId::Local(var),
        gives(c, s, expr, t, value),
    ensures
        eval(c, s, id) matches Ok((u, v)) && v == value && u.diagnostics == t.diagnostics,
{
    lemma_parts(c, id, c.arenas.exprs@[id.0 as int]);
    let u = EvalState {
        vars: destructure(c.db, c.arenas, t.vars, pattern, value),
        diagnostics: t.diagnostics,
    };
    assert(runs(c, s, statements@[0], u));
    let states = seq![s, u];
    assert(states.last() == u);
    blocks_run_their_statements(c, id, statements, tail, ty, stable_ptr, states);
    reveal_with_fuel(eval, 2);
}

// Patterns.

/// Patterns bind local variables alone: the parameters stay what they are.
pub proof fn patterns_bind_local_variables(
    c: EvalEnv,
    vars: Map<VarKey, ConstView>,
    id: PatternId,
    value: ConstView,
    number: u64,
)
    ensures
        ({
            let bound = destructure(c.db, c.arenas, vars, id, value);
            let key = (0u8, number);
            &&& bound.contains_key(key) == vars.contains_key(key)
            &&& vars.contains_key(key) ==> bound[key] == vars[key]
        }),
{
    lemma_keeps_params(c, vars, id, value, (0u8, number));
}

spec fn keeps(a: Map<VarKey, ConstView>, b: Map<VarKey, ConstView>, key: VarKey) -> bool {
    &&& a.contains_key(key) == b.contains_key(key)
    &&& a.contains_key(key) ==> a[key] == b[key]
}

proof fn lemma_keeps_params(
    c: EvalEnv,
    vars: Map<VarKey, ConstView>,
    id: PatternId,
    value: ConstView,
    key: VarKey,
)
    requires
        key.0 == 0u8,
    ensures
        keeps(vars, destructure(c.db, c.arenas, vars, id, value), key),
    decreases id.0, 1nat, 0nat,
{
    reveal_with_fuel(destructure, 2);
    reveal_with_fuel(destructure_list, 2);
    match (c.arenas.patterns@[id.0 as int], value) {
        (
            Pattern::Struct { concrete_struct_id, field_patterns },
            ConstView::Struct(values, _),
        ) => {
            if let Ok(members) = c.db.spec_struct_members(concrete_struct_id) {
                let n = if members.len() < values.len() {
                    members.len()
                } else {
                    values.len()
                };
                lemma_keeps_fields(
                    c,
                    vars,
                    field_patterns@,
                    members,
                    values,
                    id.0 as nat,
                    n,
                    key,
                );
            }
        },
        (Pattern::Tuple { field_patterns }, ConstView::Struct(values, _)) => {
            let n = if field_patterns@.len() < values.len() {
                field_patterns@.len()
            } else {
                values.len()
            };
            lemma_keeps_first(c, vars, field_patterns@, values, id.0 as nat, n, key);
        },
        (Pattern::FixedSizeArray { elements_patterns }, ConstView::Struct(values, _)) => {
            let n = if elements_patterns@.len() < values.len() {
                elements_patterns@.len()
            } else {
                values.len()
            };
            lemma_keeps_first(c, vars, elements_patterns@, values, id.0 as nat, n, key);
        },
        (
            Pattern::EnumVariant { variant, inner_pattern: Some(inner) },
            ConstView::Enum(value_variant, inner_value),
        ) => {
            if variant == value_variant && inner.0 < id.0 {
                lemma_keeps_params(c, vars, inner, *inner_value, key);
            }
        },
        _ => {},
    }
}

proof fn lemma_keeps_fields(
    c: EvalEnv,
    vars: Map<VarKey, ConstView>,
    fields: Seq<(PatternId, MemberId)>,
    members: Seq<MemberId>,
    values: Seq<ConstView>,
    bound: nat,
    n: nat,
    key: VarKey,
)
    requires
        key.0 == 0u8,
    ensures
        keeps(
            vars,
            destructure_fields(c.db, c.arenas, vars, fields, members, values, bound, n),
            key,
        ),
    decreases bound, 0nat, n,
{
    reveal_with_fuel(destructure_fields, 2);
    if n > 0 {
        lemma_keeps_fields(c, vars, fields, members, values, bound, (n - 1) as nat, key);
        let before = destructure_fields(
            c.db,
            c.arenas,
            vars,
            fields,
            members,
            values,
            bound,
            (n - 1) as nat,
        );
        if let Some(at) = first_where(fields, field_for(members[n - 1]), 0) {
            if fields[at].0.0 < bound {
                lemma_keeps_params(c, before, fields[at].0, values[n - 1], key);
            }
        }
    }
}

proof fn lemma_keeps_first(
    c: EvalEnv,
    vars: Map<VarKey, ConstView>,
    patterns: Seq<PatternId>,
    values: Seq<ConstView>,
    bound: nat,
    n: nat,
    key: VarKey,
)
    requires
        key.0 == 0u8,
    ensures
        keeps(
            vars,
            destructure_first(c.db, c.arenas, vars, patterns, values, bound, n),
            key,
        ),
    decreases bound, 0nat, n,
{
    reveal_with_fuel(destructure_first, 2);
    if n > 0 {
        lemma_keeps_first(c, vars, patterns, values, bound, (n - 1) as nat, key);
        let before = destructure_first(
            c.db,
            c.arenas,
            vars,
            patterns,
            values,
            bound,
            (n - 1) as nat,
        );
        if patterns[n - 1].0 < bound {
            lemma_keeps_params(c, before, patterns[n - 1], values[n - 1], key);
        }
    }
}

/// The pattern with this id is part of the body.
pub open spec fn has_pattern(c: EvalEnv, id: PatternId, pattern: Pattern) -> bool {
    &&& c.wf()
    &&& id.0 < c.arenas.patterns@.len()
    &&& c.arenas.patterns@[id.0 as int] == pattern
}

/// A variable takes the whole value, and leaves the other variables as they are.
pub proof fn variables_take_the_value(
    c: EvalEnv,
    vars: Map<VarKey, ConstView>,
    id: PatternId,
    var: u64,
    value: ConstView,
)
    requires
        has_pattern(c, id, Pattern::Variable(var)),
    ensures
        ({
            let bound = destructure(c.db, c.arenas, vars, id, value);
            &&& bound.contains_key((1u8, var))
            &&& bound[(1u8, var)] == value
            &&& forall|key: VarKey|
                key != (1u8, var) ==> #[trigger] bound.contains_key(key) == vars.contains_key(key)
            &&& forall|key: VarKey|
                key != (1u8, var) && vars.contains_key(key) ==> #[trigger] bound[key] == vars[key]
        }),
{
}

/// The patterns of a tuple or an array take the values at their own places, one after the other.
pub proof fn tuple_patterns_take_the_values_in_order(
    c: EvalEnv,
    id: PatternId,
    patterns: Vec<PatternId>,
    values: Seq<ConstView>,
    ty: TypeId,
    vars: Seq<Map<VarKey, ConstView>>,
)
    requires
        has_pattern(c, id, Pattern::Tuple { field_patterns: patterns }) || has_pattern(
            c,
            id,
            Pattern::FixedSizeArray { elements_patterns: patterns },
        ),
        patterns@.len() == values.len(),
        vars.len() == values.len() + 1,
        forall|i: int|
            0 <= i < values.len() ==> vars[i + 1] == #[trigger] destructure(
                c.db,
                c.arenas,
                vars[i],
                patterns@[i],
                values[i],
            ),
    ensures
        destructure(c.db, c.arenas, vars[0], id, ConstView::Struct(values, ty)) == vars.last(),
{
    assert(c.arenas.pattern_ok(id.0 as int));
    reveal_with_fuel(destructure, 2);
    reveal_with_fuel(destructure_list, 2);
    assert forall|i: int| 0 <= i < patterns@.len() implies (#[trigger] patterns@[i]).0 < id.0 by {
        match c.arenas.patterns@[id.0 as int] {
            Pattern::Tuple { field_patterns } => {
                assert(field_patterns@[i].0 < id.0);
            },
            Pattern::FixedSizeArray { elements_patterns } => {
                assert(elements_patterns@[i].0 < id.0);
            },
            _ => {},
        }
    }
    lemma_takes_first(c, patterns@, values, vars, id.0 as nat, values.len());
}

proof fn lemma_takes_first(
    c: EvalEnv,
    patterns: Seq<PatternId>,
    values: Seq<ConstView>,
    vars: Seq<Map<VarKey, ConstView>>,
    bound: nat,
    n: nat,
)
    requires
        n <= values.len(),
        patterns.len() == values.len(),
        vars.len() == values.len() + 1,
        forall|i: int| 0 <= i < patterns.len() ==> (#[trigger] patterns[i]).0 < bound,
        forall|i: int|
            0 <= i < values.len() ==> vars[i + 1] == #[trigger] destructure(
                c.db,
                c.arenas,
                vars[i],
                patterns[i],
                values[i],
            ),
    ensures
        destructure_first(c.db, c.arenas, vars[0], patterns, values, bound, n) == vars[n as int],
    decreases n,
{
    reveal_with_fuel(destructure_first, 2);
    if n > 0 {
        lemma_takes_first(c, patterns, values, vars, bound, (n - 1) as nat);
        assert(patterns[n - 1].0 < bound);
        assert(vars[n - 1 + 1] == destructure(
            c.db,
            c.arenas,
            vars[n - 1],
            patterns[n - 1],
            values[n - 1],
        ));
        assert(destructure_below(
            c.db,
            c.arenas,
            vars[n - 1],
            patterns[n - 1],
            values[n - 1],
            bound,
        ) == vars[n as int]);
    }
}

/// What is done with the value of a member: the first pattern for the member takes it, if there is
/// one.
pub open spec fn takes_member(
    c: EvalEnv,
    fields: Seq<(PatternId, MemberId)>,
    member: MemberId,
    value: ConstView,
    before: Map<VarKey, ConstView>,
    after: Map<VarKey, ConstView>,
) -> bool {
    ||| (forall|j: int| 0 <= j < fields.len() ==> (#[trigger] fields[j]).1 != member) && after
        == before
    ||| exists|at: int|
        {
            &&& 0 <= at < fields.len()
            &&& fields[at].1 == member
            &&& forall|j: int| 0 <= j < at ==> (#[trigger] fields[j]).1 != member
            &&& after == #[trigger] destructure(c.db, c.arenas, before, fields[at].0, value)
        }
}

/// The patterns of a struct take the values of their members, by the names of the members and not
/// by the order in which the patterns are written.
pub proof fn struct_patterns_take_members(
    c: EvalEnv,
    id: PatternId,
    concrete_struct_id: ConcreteStructId,
    fields: Vec<(PatternId, MemberId)>,
    members: Seq<MemberId>,
    values: Seq<ConstView>,
    ty: TypeId,
    vars: Seq<Map<VarKey, ConstView>>,
)
    requires
        has_pattern(c, id, Pattern::Struct { concrete_struct_id, field_patterns: fields }),
        c.db.spec_struct_members(concrete_struct_id) == Ok::<Seq<MemberId>, DiagnosticAdded>(
            members,
        ),
        members.len() == values.len(),
        vars.len() == values.len() + 1,
        forall|i: int|
            0 <= i < values.len() ==> takes_member(
                c,
                fields@,
                #[trigger] members[i],
                values[i],
                vars[i],
                vars[i + 1],
            ),
    ensures
        destructure(c.db, c.arenas, vars[0], id, ConstView::Struct(values, ty)) == vars.last(),
{
    assert(c.arenas.pattern_ok(id.0 as int));
    reveal_with_fuel(destructure, 2);
    assert forall|i: int| 0 <= i < fields@.len() implies (#[trigger] fields@[i]).0.0 < id.0 by {
        if let Pattern::Struct { field_patterns, .. } = c.arenas.patterns@[id.0 as int] {
            assert(field_patterns@[i].0.0 < id.0);
        }
    }
    lemma_takes_members(c, fields@, members, values, vars, id.0 as nat, values.len());
}

proof fn lemma_takes_members(
    c: EvalEnv,
    fields: Seq<(PatternId, MemberId)>,
    members: Seq<MemberId>,
    values: Seq<ConstView>,
    vars: Seq<Map<VarKey, ConstView>>,
    bound: nat,
    n: nat,
)
    requires
        n <= values.len(),
        members.len() == values.len(),
        vars.len() == values.len() + 1,
        forall|i: int| 0 <= i < fields.len() ==> (#[trigger] fields[i]).0.0 < bound,
        forall|i: int|
            0 <= i < values.len() ==> takes_member(
                c,
                fields,
                #[trigger] members[i],
                values[i],
                vars[i],
                vars[i + 1],
            ),
    ensures
        destructure_fields(c.db, c.arenas, vars[0], fields, members, values, bound, n)
            == vars[n as int],
    decreases n,
{
    reveal_with_fuel(destructure_fields, 2);
    if n > 0 {
        lemma_takes_members(c, fields, members, values, vars, bound, (n - 1) as nat);
        let member = members[n - 1];
        lemma_first_where(fields, field_for(member), 0);
        assert(takes_member(c, fields, member, values[n - 1], vars[n - 1], vars[n - 1 + 1]));
        if let Some(at) = first_where(fields, field_for(member), 0) {
            assert(fields[at].0.0 < bound);
            assert(destructure_below(
                c.db,
                c.arenas,
                vars[n - 1],
                fields[at].0,
                values[n - 1],
                bound,
            ) == destructure(c.db, c.arenas, vars[n - 1], fields[at].0, values[n - 1]));
        }
    }
}

/// The pattern of a variant takes the value of that variant, and nothing of another one.
pub proof fn variant_patterns_take_their_variant(
    c: EvalEnv,
    vars: Map<VarKey, ConstView>,
    id: PatternId,
    variant: ConcreteVariant,
    inner: PatternId,
    other: ConcreteVariant,
    value: ConstView,
)
    requires
        has_pattern(c, id, Pattern::EnumVariant { variant, inner_pattern: Some(inner) }),
    ensures
        destructure(c.db, c.arenas, vars, id, ConstView::Enum(variant, Box::new(value)))
            == destructure(c.db, c.arenas, vars, inner, value),
        other != variant ==> destructure(
            c.db,
            c.arenas,
            vars,
            id,
            ConstView::Enum(other, Box::new(value)),
        ) == vars,
{
    assert(c.arenas.pattern_ok(id.0 as int));
    reveal_with_fuel(destructure, 2);
}

// Choices.

/// The variables after the pattern, where there is one, took the value.
pub open spec fn after_pattern(
    c: EvalEnv,
    s: EvalState,
    inner: Option<PatternId>,
    value: ConstView,
) -> EvalState {
    EvalState {
        vars: match inner {
            Some(id) => destructure(c.db, c.arenas, s.vars, id, value),
            None => s.vars,
        },
        diagnostics: s.diagnostics,
    }
}

/// Whether the pattern is one for the variant, and the pattern for the value of the variant.
pub open spec fn is_for(
    c: EvalEnv,
    id: PatternId,
    variant: ConcreteVariant,
    inner: Option<PatternId>,
) -> bool {
    match c.arenas.patterns@[id.0 as int] {
        Pattern::Otherwise => inner is None,
        Pattern::EnumVariant { variant: taken, inner_pattern } => taken.idx == variant.idx && inner
            == inner_pattern,
        _ => false,
    }
}

/// No pattern of the list is one for the variant.
pub open spec fn none_is_for(
    c: EvalEnv,
    patterns: Seq<PatternId>,
    variant: ConcreteVariant,
) -> bool {
    forall|j: int|
        0 <= j < patterns.len() ==> match c.arenas.patterns@[(#[trigger] patterns[j]).0 as int] {
            Pattern::Otherwise => false,
            Pattern::EnumVariant { variant: taken, .. } => taken.idx != variant.idx,
            _ => true,
        }
}

proof fn lemma_none_is_for(c: EvalEnv, patterns: Seq<PatternId>, variant: ConcreteVariant)
    ensures
        none_is_for(c, patterns, variant) == (first_where(
            patterns,
            takes_variant(c.arenas, variant.idx),
            0,
        ) is None),
{
    let p = takes_variant(c.arenas, variant.idx);
    lemma_first_where(patterns, p, 0);
    if let Some(at) = first_where(patterns, p, 0) {
        assert(p(patterns[at]));
    } else {
        assert forall|j: int| 0 <= j < patterns.len() implies match c.arenas.patterns@[(
        #[trigger] patterns[j]).0 as int] {
            Pattern::Otherwise => false,
            Pattern::EnumVariant { variant: taken, .. } => taken.idx != variant.idx,
            _ => true,
        } by {
            assert(!p(patterns[j]));
        }
    }
}

/// A match is worth the first of its arms with a pattern for the variant of the value, after that
/// pattern took the value of the variant.
pub proof fn matches_take_their_first_arm(
    c: EvalEnv,
    s: EvalState,
    id: ExprId,
    expr: ExprMatch,
    t: EvalState,
    variant: ConcreteVariant,
    value: ConstView,
    at: int,
    place: int,
    inner: Option<PatternId>,
)
    requires
        has_expr(c, id, Expr::Match(expr)),
        gives(c, s, expr.matched_expr, t, ConstView::Enum(variant, Box::new(value))),
        0 <= at < expr.arms@.len(),
        forall|i: int|
            0 <= i < at ==> none_is_for(c, (#[trigger] expr.arms@[i]).patterns@, variant),
        0 <= place < expr.arms@[at].patterns@.len(),
        none_is_for(c, expr.arms@[at].patterns@.take(place), variant),
        is_for(c, expr.arms@[at].patterns@[place], variant, inner),
    ensures
        eval(c, s, id) == eval(c, after_pattern(c, t, inner, value), expr.arms@[at].expression),
{
    lemma_parts(c, id, c.arenas.exprs@[id.0 as int]);
    reveal_with_fuel(eval, 2);
    reveal_with_fuel(eval_arm, 2);
    let p = arm_takes_variant(c.arenas, variant.idx);
    let q = takes_variant(c.arenas, variant.idx);
    let patterns = expr.arms@[at].patterns@;
    lemma_first_where(expr.arms@, p, 0);
    lemma_first_where(patterns, q, 0);
    assert(q(patterns[place]));
    lemma_none_is_for(c, patterns, variant);
    assert(p(expr.arms@[at]));
    let found = first_where(expr.arms@, p, 0)->Some_0;
    if found < at {
        lemma_none_is_for(c, expr.arms@[found].patterns@, variant);
        assert(none_is_for(c, expr.arms@[found].patterns@, variant));
    }
    let first = first_where(patterns, q, 0)->Some_0;
    if first < place {
        assert(patterns.take(place)[first] == patterns[first]);
        assert(q(patterns[first]));
    }
    assert(c.arenas.arm_below(expr.arms@[at], id.0 as int));
}

/// A match without an arm for the variant is reported, and has no value.
pub proof fn matches_without_an_arm_have_no_value(
    c: EvalEnv,
    s: EvalState,
    id: ExprId,
    expr: ExprMatch,
    t: EvalState,
    variant: ConcreteVariant,
    value: ConstView,
)
    requires
        has_expr(c, id, Expr::Match(expr)),
        gives(c, s, expr.matched_expr, t, ConstView::Enum(variant, Box::new(value))),
        forall|i: int|
            0 <= i < expr.arms@.len() ==> none_is_for(
                c,
                (#[trigger] expr.arms@[i]).patterns@,
                variant,
            ),
    ensures
        gives(
            c,
            s,
            id,
            EvalState {
                vars: t.vars,
                diagnostics: t.diagnostics.push(
                    DiagnosticView {
                        stable_ptr: expr.stable_ptr,
                        kind: KindView::UnsupportedConstant,
                    },
                ),
            },
            ConstView::Missing,
        ),
{
    lemma_parts(c, id, c.arenas.exprs@[id.0 as int]);
    reveal_with_fuel(eval, 2);
    reveal_with_fuel(eval_arm, 2);
    let p = arm_takes_variant(c.arenas, variant.idx);
    lemma_first_where(expr.arms@, p, 0);
    if let Some(at) = first_where(expr.arms@, p, 0) {
        lemma_none_is_for(c, expr.arms@[at].patterns@, variant);
        assert(none_is_for(c, expr.arms@[at].patterns@, variant));
    }
}

/// What comes of one condition of an `if`, and the state after it: a boolean holds where it is
/// `true`, and `let` holds where one of its patterns is for exactly the variant of the value; the
/// pattern then takes the value.
pub open spec fn decides(
    c: EvalEnv,
    s: EvalState,
    condition: Condition,
    t: EvalState,
    holds: bool,
) -> bool {
    match condition {
        Condition::BoolExpr(id) => exists|value: bool| #[trigger]
            gives(c, s, id, t, bool_view(c.db, value)) && value == holds,
        Condition::Let(id, patterns) => exists|
            u: EvalState,
            variant: ConcreteVariant,
            value: ConstView,
        |
            {
                &&& #[trigger] gives(c, s, id, u, ConstView::Enum(variant, Box::new(value)))
                &&& if holds {
                    exists|at: int|
                        {
                            &&& 0 <= at < patterns@.len()
                            &&& forall|j: int|
                                0 <= j < at ==> !is_exactly(c, #[trigger] patterns@[j], variant)
                            &&& is_exactly(c, #[trigger] patterns@[at], variant)
                            &&& t == after_pattern(
                                c,
                                u,
                                inner_of(c, patterns@[at]),
                                value,
                            )
                        }
                } else {
                    &&& forall|j: int|
                        0 <= j < patterns@.len() ==> !is_exactly(
                            c,
                            #[trigger] patterns@[j],
                            variant,
                        )
                    &&& t == u
                }
            },
    }
}

/// The pattern for the value of the variant.
pub open spec fn inner_of(c: EvalEnv, id: PatternId) -> Option<PatternId> {
    match c.arenas.patterns@[id.0 as int] {
        Pattern::EnumVariant { inner_pattern, .. } => inner_pattern,
        _ => None,
    }
}

/// Whether the pattern is one for exactly this variant.
pub open spec fn is_exactly(c: EvalEnv, id: PatternId, variant: ConcreteVariant) -> bool {
    c.arenas.patterns@[id.0 as int] matches Pattern::EnumVariant { variant: taken, .. } && taken
        == variant
}

proof fn lemma_decides(
    c: EvalEnv,
    s: EvalState,
    condition: Condition,
    t: EvalState,
    holds: bool,
    bound: nat,
)
    requires
        c.wf(),
        c.arenas.condition_below(condition, bound as int),
        decides(c, s, condition, t, holds),
    ensures
        eval_condition(c, s, condition, bound) == Ok::<(EvalState, Conditions), Fault>(
            (
                t,
                if holds {
                    Conditions::Hold
                } else {
                    Conditions::Fail
                },
            ),
        ),
{
    reveal_with_fuel(eval_condition, 2);
    match condition {
        Condition::BoolExpr(id) => {
            let value = choose|value: bool| #[trigger]
                gives(c, s, id, t, bool_view(c.db, value)) && value == holds;
            assert(eval_below(c, s, id, bound) == eval(c, s, id));
        },
        Condition::Let(id, patterns) => {
            let (u, variant, value) = choose|
                u: EvalState,
                variant: ConcreteVariant,
                value: ConstView,
            |
                {
                    &&& #[trigger] gives(c, s, id, u, ConstView::Enum(variant, Box::new(value)))
                    &&& if holds {
                        exists|at: int|
                            {
                                &&& 0 <= at < patterns@.len()
                                &&& forall|j: int|
                                    0 <= j < at ==> !is_exactly(
                                        c,
                                        #[trigger] patterns@[j],
                                        variant,
                                    )
                                &&& is_exactly(c, #[trigger] patterns@[at], variant)
                                &&& t == after_pattern(
                                    c,
                                    u,
                                    inner_of(c, patterns@[at]),
                                    value,
                                )
                            }
                    } else {
                        &&& forall|j: int|
                            0 <= j < patterns@.len() ==> !is_exactly(
                                c,
                                #[trigger] patterns@[j],
                                variant,
                            )
                        &&& t == u
                    }
                };
            assert(eval_below(c, s, id, bound) == eval(c, s, id));
            let p = is_variant(c.arenas, variant);
            lemma_first_where(patterns@, p, 0);
            assert forall|j: int| 0 <= j < patterns@.len() implies p(#[trigger] patterns@[j])
                == is_exactly(c, patterns@[j], variant) by {}
            if let Some(found) = first_where(patterns@, p, 0) {
                assert(p(patterns@[found]));
                assert(is_exactly(c, patterns@[found], variant));
                if holds {
                    let at = choose|at: int|
                        {
                            &&& 0 <= at < patterns@.len()
                            &&& forall|j: int|
                                0 <= j < at ==> !is_exactly(c, #[trigger] patterns@[j], variant)
                            &&& is_exactly(c, #[trigger] patterns@[at], variant)
                            &&& t == after_pattern(
                                c,
                                u,
                                inner_of(c, patterns@[at]),
                                value,
                            )
                        };
                    assert(p(patterns@[at]));
                    if found < at {
                        assert(!is_exactly(c, patterns@[found], variant));
                    }
                    assert(found == at);
                }
            }
        },
    }
}

/// An `if` whose conditions all hold, one after the other, is worth its block after them.
pub proof fn if_takes_its_block_where_all_conditions_hold(
    c: EvalEnv,
    id: ExprId,
    expr: ExprIf,
    states: Seq<EvalState>,
)
    requires
        has_expr(c, id, Expr::If(expr)),
        states.len() == expr.conditions@.len() + 1,
        forall|i: int|
            0 <= i < expr.conditions@.len() ==> decides(
                c,
                states[i],
                #[trigger] expr.conditions@[i],
                states[i + 1],
                true,
            ),
    ensures
        eval(c, states[0], id) == eval(c, states.last(), expr.if_block),
{
    lemma_parts(c, id, c.arenas.exprs@[id.0 as int]);
    reveal_with_fuel(eval, 2);
    lemma_conditions_hold(c, expr.conditions@, states, id.0 as nat, expr.conditions@.len());
}

proof fn lemma_conditions_hold(
    c: EvalEnv,
    conditions: Seq<Condition>,
    states: Seq<EvalState>,
    bound: nat,
    n: nat,
)
    requires
        c.wf(),
        n <= conditions.len(),
        states.len() >= n + 1,
        forall|i: int|
            0 <= i < conditions.len() ==> c.arenas.condition_below(
                #[trigger] conditions[i],
                bound as int,
            ),
        forall|i: int|
            0 <= i < n ==> decides(
                c,
                states[i],
                #[trigger] conditions[i],
                states[i + 1],
                true,
            ),
    ensures
        eval_conditions(c, states[0], conditions, bound, n) == Ok::<(EvalState, Conditions), Fault>(
            (states[n as int], Conditions::Hold),
        ),
    decreases n,
{
    reveal_with_fuel(eval_conditions, 2);
    if n > 0 {
        lemma_conditions_hold(c, conditions, states, bound, (n - 1) as nat);
        assert(c.arenas.condition_below(conditions[n - 1], bound as int));
        assert(decides(c, states[n - 1], conditions[n - 1], states[n - 1 + 1], true));
        lemma_decides(c, states[n - 1], conditions[n - 1], states[n as int], true, bound);
    }
}

/// An `if` is worth its other block, or the unit where there is none, after the first of its
/// conditions that fails. What follows that condition is not calculated.
pub proof fn if_takes_the_other_block_where_a_condition_fails(
    c: EvalEnv,
    id: ExprId,
    expr: ExprIf,
    states: Seq<EvalState>,
    at: int,
    t: EvalState,
)
    requires
        has_expr(c, id, Expr::If(expr)),
        0 <= at < expr.conditions@.len(),
        states.len() == at + 1,
        forall|i: int|
            0 <= i < at ==> decides(
                c,
                states[i],
                #[trigger] expr.conditions@[i],
                states[i + 1],
                true,
            ),
        decides(c, states[at], expr.conditions@[at], t, false),
    ensures
        match expr.else_block {
            Some(else_block) => eval(c, states[0], id) == eval(c, t, else_block),
            None => gives(c, states[0], id, t, unit_view(c.db)),
        },
{
    lemma_parts(c, id, c.arenas.exprs@[id.0 as int]);
    reveal_with_fuel(eval, 2);
    let bound = id.0 as nat;
    let conditions = expr.conditions@;
    lemma_conditions_hold(c, conditions, states, bound, at as nat);
    assert(c.arenas.condition_below(conditions[at], bound as int));
    lemma_decides(c, states[at], conditions[at], t, false, bound);
    reveal_with_fuel(eval_conditions, 2);
    assert(eval_conditions(c, states[0], conditions, bound, (at + 1) as nat) == Ok::<
        (EvalState, Conditions),
        Fault,
    >((t, Conditions::Fail)));
    lemma_conditions_stop(c, states[0], conditions, bound, (at + 1) as nat, conditions.len(), t);
}

proof fn lemma_conditions_stop(
    c: EvalEnv,
    s: EvalState,
    conditions: Seq<Condition>,
    bound: nat,
    n: nat,
    m: nat,
    t: EvalState,
)
    requires
        n <= m,
        eval_conditions(c, s, conditions, bound, n) == Ok::<(EvalState, Conditions), Fault>(
            (t, Conditions::Fail),
        ),
    ensures
        eval_conditions(c, s, conditions, bound, m) == Ok::<(EvalState, Conditions), Fault>(
            (t, Conditions::Fail),
        ),
    decreases m - n,
{
    if n < m {
        lemma_conditions_stop(c, s, conditions, bound, n, (m - 1) as nat, t);
        reveal_with_fuel(eval_conditions, 2);
    }
}

// Calls.

/// At the start of the body of a called function each parameter has the value of the argument at
/// its own place, and nothing else has a value. Nothing was reported yet.
pub proof fn params_have_the_values_of_their_arguments(params: Seq<u64>, args: Seq<ConstView>)
    requires
        forall|i: int, j: int|
            0 <= i < j < params.len() ==> #[trigger] params[i] != #[trigger] params[j],
    ensures
        ({
            let start = call_state(params, args);
            &&& forall|i: int|
                0 <= i < params.len() && i < args.len() ==> start.vars.contains_key(
                    (0u8, #[trigger] params[i]),
                ) && start.vars[(0u8, params[i])] == args[i]
            &&& forall|key: VarKey| #[trigger]
                start.vars.contains_key(key) ==> key.0 == 0u8 && exists|i: int|
                    0 <= i < params.len() && i < args.len() && #[trigger] params[i] == key.1
            &&& start.diagnostics.len() == 0
        }),
{
    let n = if params.len() < args.len() {
        params.len()
    } else {
        args.len()
    };
    lemma_param_values(params, args, n);
}

proof fn lemma_param_values(params: Seq<u64>, args: Seq<ConstView>, n: nat)
    requires
        n <= params.len(),
        n <= args.len(),
        forall|i: int, j: int|
            0 <= i < j < params.len() ==> #[trigger] params[i] != #[trigger] params[j],
    ensures
        forall|i: int|
            0 <= i < n ==> param_values(params, args, n).contains_key((0u8, #[trigger] params[i]))
                && param_values(params, args, n)[(0u8, params[i])] == args[i],
        forall|key: VarKey| #[trigger]
            param_values(params, args, n).contains_key(key) ==> key.0 == 0u8 && exists|i: int|
                0 <= i < n && #[trigger] params[i] == key.1,
    decreases n,
{
    if n > 0 {
        lemma_param_values(params, args, (n - 1) as nat);
        assert forall|i: int| 0 <= i < n implies param_values(params, args, n).contains_key(
            (0u8, #[trigger] params[i]),
        ) && param_values(params, args, n)[(0u8, params[i])] == args[i] by {
            if i < n - 1 {
                assert(params[i] != params[n - 1]);
            }
        }
        assert forall|key: VarKey| #[trigger]
            param_values(params, args, n).contains_key(key) implies key.0 == 0u8 && exists|i: int|
            0 <= i < n && #[trigger] params[i] == key.1 by {
            if key != (0u8, params[n - 1]) {
                assert(param_values(params, args, (n - 1) as nat).contains_key(key));
            } else {
                assert(params[n - 1] == key.1);
            }
        }
    }
}

/// The call is one of a constant function with the given body.
pub open spec fn calls_body(
    c: EvalEnv,
    call: ExprFunctionCall,
    signature: Signature,
    substitution: GenericSubstitution,
    body: FunctionBody,
    full_path: Seq<char>,
) -> bool {
    &&& call.function != c.info.panic_with_felt252
    &&& c.substitution.substitute_function(call.function) matches Ok(function)
    &&& !(c.db.functions@[function.0 as int].generic_function is Extern)
    &&& c.db.functions@[function.0 as int].full_path@ == full_path
    &&& c.db.functions@[function.0 as int].body matches Ok(Some(with_body))
    &&& with_body.signature == Ok::<Signature, DiagnosticAdded>(signature)
    &&& with_body.substitution == Ok::<GenericSubstitution, DiagnosticAdded>(substitution)
    &&& with_body.body == Ok::<FunctionBody, DiagnosticAdded>(body)
    &&& signature.is_const
}

/// What the body of a called function is calculated with.
pub open spec fn body_env(
    c: EvalEnv,
    substitution: GenericSubstitution,
    body: FunctionBody,
) -> EvalEnv {
    EvalEnv {
        db: c.db,
        info: c.info,
        arenas: body.arenas,
        substitution: substitution@,
        depth: c.depth + 1,
    }
}

/// A diagnostic of a body is reported at the call, with a note of where in the body it came from.
/// What was already reported at a call in the body stays with its notes.
pub open spec fn is_passed_on(
    inner: DiagnosticView,
    outer: DiagnosticView,
    call: ExprFunctionCall,
    full_path: Seq<char>,
) -> bool {
    &&& outer.stable_ptr == call.stable_ptr
    &&& match inner.kind {
        KindView::ConstantCalculationDepthExceeded => outer.kind
            is ConstantCalculationDepthExceeded,
        KindView::InnerFailedConstantCalculation(innermost, notes) => {
            &&& outer.kind matches KindView::InnerFailedConstantCalculation(origin, all)
            &&& origin == innermost
            &&& all.len() == notes.len() + 1
            &&& forall|i: int| 0 <= i < notes.len() ==> #[trigger] all[i] == notes[i]
            &&& all.last().location == inner.stable_ptr
            &&& all.last().text == "In `"@ + full_path + "`"@
        },
        _ => {
            &&& outer.kind matches KindView::InnerFailedConstantCalculation(origin, all)
            &&& *origin == inner
            &&& all.len() == 1
            &&& all[0].location == inner.stable_ptr
            &&& all[0].text == "In `"@ + full_path + "`"@
        },
    }
}

/// A call of a constant function is worth what its body is, with the arguments as the values of the
/// parameters. It leaves the variables of the caller alone, and what is reported in the body is
/// reported at the call, after what was reported before.
pub proof fn calls_are_worth_their_bodies(
    c: EvalEnv,
    s: EvalState,
    call: ExprFunctionCall,
    args: Seq<ConstView>,
    signature: Signature,
    substitution: GenericSubstitution,
    body: FunctionBody,
    full_path: Seq<char>,
    start: EvalState,
    end: EvalState,
    value: ConstView,
)
    requires
        calls_body(c, call, signature, substitution, body, full_path),
        c.depth <= 100,
        forall|i: int, j: int|
            0 <= i < j < signature.params@.len() ==> #[trigger] signature.params@[i]
                != #[trigger] signature.params@[j],
        forall|i: int|
            0 <= i < signature.params@.len() && i < args.len() ==> start.vars.contains_key(
                (0u8, #[trigger] signature.params@[i]),
            ) && start.vars[(0u8, signature.params@[i])] == args[i],
        forall|key: VarKey| #[trigger]
            start.vars.contains_key(key) ==> key.0 == 0u8 && exists|i: int|
                0 <= i < signature.params@.len() && i < args.len()
                    && #[trigger] signature.params@[i] == key.1,
        start.diagnostics.len() == 0,
        gives(body_env(c, substitution, body), start, body.body_expr, end, value),
    ensures
        eval_call(c, s, call, args) matches Ok((t, result)) && {
            &&& result == value
            &&& t.vars == s.vars
            &&& t.diagnostics.len() == s.diagnostics.len() + end.diagnostics.len()
            &&& forall|i: int|
                0 <= i < s.diagnostics.len() ==> #[trigger] t.diagnostics[i] == s.diagnostics[i]
            &&& forall|i: int|
                0 <= i < end.diagnostics.len() ==> is_passed_on(
                    #[trigger] end.diagnostics[i],
                    t.diagnostics[s.diagnostics.len() + i],
                    call,
                    full_path,
                )
        },
{
    let other = call_state(signature.params@, args);
    params_have_the_values_of_their_arguments(signature.params@, args);
    assert forall|key: VarKey| start.vars.contains_key(key) == #[trigger] other.vars.contains_key(
        key,
    ) && (start.vars.contains_key(key) ==> start.vars[key] == other.vars[key]) by {
        if start.vars.contains_key(key) {
            let i = choose|i: int|
                0 <= i < signature.params@.len() && i < args.len()
                    && #[trigger] signature.params@[i] == key.1;
            assert(key == (0u8, signature.params@[i]));
        }
        if other.vars.contains_key(key) {
            let i = choose|i: int|
                0 <= i < signature.params@.len() && i < args.len()
                    && #[trigger] signature.params@[i] == key.1;
            assert(key == (0u8, signature.params@[i]));
        }
    }
    assert(start.vars =~= other.vars);
    assert(start.diagnostics =~= other.diagnostics);
    assert(start == other);
    reveal_with_fuel(eval_call, 2);
    reveal_with_fuel(eval_const_call, 2);
}

/// Calls that are nested too deeply are reported, and have no value.
pub proof fn deep_calls_are_reported(
    c: EvalEnv,
    s: EvalState,
    call: ExprFunctionCall,
    args: Seq<ConstView>,
    signature: Signature,
    substitution: GenericSubstitution,
    body: FunctionBody,
    full_path: Seq<char>,
)
    requires
        calls_body(c, call, signature, substitution, body, full_path),
        c.depth > 100,
    ensures
        eval_call(c, s, call, args) == Ok::<(EvalState, ConstView), Fault>(
            (
                EvalState {
                    vars: s.vars,
                    diagnostics: s.diagnostics.push(
                        DiagnosticView {
                            stable_ptr: call.stable_ptr,
                            kind: KindView::ConstantCalculationDepthExceeded,
                        },
                    ),
                },
                ConstView::Missing,
            ),
        ),
{
    reveal_with_fuel(eval_call, 2);
    reveal_with_fuel(eval_const_call, 2);
}

/// A constant function that returns one of its parameters gives the argument at the place of that
/// parameter, and reports nothing.
pub proof fn projections_give_their_argument(
    c: EvalEnv,
    s: EvalState,
    call: ExprFunctionCall,
    args: Seq<ConstView>,
    signature: Signature,
    substitution: GenericSubstitution,
    body: FunctionBody,
    full_path: Seq<char>,
    at: int,
)
    requires
        calls_body(c, call, signature, substitution, body, full_path),
        c.depth <= 100,
        forall|i: int, j: int|
            0 <= i < j < signature.params@.len() ==> #[trigger] signature.params@[i]
                != #[trigger] signature.params@[j],
        0 <= at < signature.params@.len(),
        at < args.len(),
        body.arenas.exprs@[body.body_expr.0 as int] matches Expr::Var { var, .. } && var
            == VarId::Param(signature.params@[at]),
    ensures
        eval_call(c, s, call, args) == Ok::<(EvalState, ConstView), Fault>((s, args[at])),
{
    let start = call_state(signature.params@, args);
    params_have_the_values_of_their_arguments(signature.params@, args);
    let inner = body_env(c, substitution, body);
    assert(start.vars.contains_key((0u8, signature.params@[at])));
    assert(gives(inner, start, body.body_expr, start, args[at]));
    calls_are_worth_their_bodies(
        c,
        s,
        call,
        args,
        signature,
        substitution,
        body,
        full_path,
        start,
        start,
        args[at],
    );
    let (t, _) = eval_call(c, s, call, args)->Ok_0;
    assert(t.diagnostics =~= s.diagnostics);
}

/// A panic is reported at the call, and has no value.
pub proof fn panics_are_reported(
    c: EvalEnv,
    s: EvalState,
    call: ExprFunctionCall,
    args: Seq<ConstView>,
)
    requires
        call.function == c.info.panic_with_felt252,
    ensures
        eval_call(c, s, call, args) == Ok::<(EvalState, ConstView), Fault>(
            (
                EvalState {
                    vars: s.vars,
                    diagnostics: s.diagnostics.push(
                        DiagnosticView {
                            stable_ptr: call.stable_ptr,
                            kind: KindView::FailedConstantCalculation,
                        },
                    ),
                },
                ConstView::Missing,
            ),
        ),
{
    reveal_with_fuel(eval_call, 2);
}

/// The arguments that are values, in their order: references are left out.
pub open spec fn values_of(args: Seq<ExprFunctionCallArg>) -> Seq<ExprId> {
    args.filter_map(
        |arg: ExprFunctionCallArg|
            match arg {
                ExprFunctionCallArg::Value(id) => Some(id),
                ExprFunctionCallArg::Reference(_) => None,
            },
    )
}

proof fn lemma_value_args(args: Seq<ExprFunctionCallArg>, n: nat)
    requires
        n <= args.len(),
    ensures
        value_args(args, n) == values_of(args.take(n as int)),
    decreases n,
{
    let f = |arg: ExprFunctionCallArg|
        match arg {
            ExprFunctionCallArg::Value(id) => Some(id),
            ExprFunctionCallArg::Reference(_) => None::<ExprId>,
        };
    if n > 0 {
        lemma_value_args(args, (n - 1) as nat);
        lemma_filter_map_take(args, f, n - 1);
    }
}

proof fn lemma_values_below(args: Seq<ExprFunctionCallArg>, n: nat, bound: nat)
    requires
        n <= args.len(),
        forall|i: int|
            0 <= i < args.len() ==> ((#[trigger] args[i]) matches ExprFunctionCallArg::Value(arg)
                ==> arg.0 < bound),
    ensures
        forall|i: int|
            0 <= i < value_args(args, n).len() ==> (#[trigger] value_args(args, n)[i]).0 < bound,
    decreases n,
{
    if n > 0 {
        lemma_values_below(args, (n - 1) as nat, bound);
        let before = value_args(args, (n - 1) as nat);
        let all = value_args(args, n);
        assert forall|i: int| 0 <= i < all.len() implies (#[trigger] all[i]).0 < bound by {
            if i < before.len() {
                assert(all[i] == before[i]);
            } else {
                assert(args[n - 1] == ExprFunctionCallArg::Value(all[i]));
            }
        }
    }
}

/// The arguments of a call that are values are calculated one after the other, in their order, and
/// before the function.
pub proof fn calls_calculate_their_arguments(
    c: EvalEnv,
    id: ExprId,
    call: ExprFunctionCall,
    states: Seq<EvalState>,
    values: Seq<ConstView>,
)
    requires
        has_expr(c, id, Expr::FunctionCall(call)),
        gives_all(c, values_of(call.args@), states, values),
    ensures
        eval(c, states[0], id) == eval_call(c, states.last(), call, values),
{
    lemma_parts(c, id, c.arenas.exprs@[id.0 as int]);
    reveal_with_fuel(eval, 2);
    reveal_with_fuel(eval_function_call, 2);
    let exprs = values_of(call.args@);
    lemma_value_args(call.args@, call.args@.len());
    assert(call.args@.take(call.args@.len() as int) =~= call.args@);
    lemma_values_below(call.args@, call.args@.len(), id.0 as nat);
    lemma_gives_all(c, exprs, states, values, id.0 as nat, exprs.len());
    assert(values.take(exprs.len() as int) =~= values);
}

/// Where an argument cannot be calculated, the call cannot be.
pub proof fn calls_fail_where_an_argument_does(
    c: EvalEnv,
    id: ExprId,
    call: ExprFunctionCall,
    states: Seq<EvalState>,
    values: Seq<ConstView>,
    at: int,
    fault: Fault,
)
    requires
        has_expr(c, id, Expr::FunctionCall(call)),
        0 <= at < values_of(call.args@).len(),
        gives_all(c, values_of(call.args@).take(at), states, values),
        eval(c, states.last(), values_of(call.args@)[at]) == Err::<(EvalState, ConstView), Fault>(
            fault,
        ),
    ensures
        eval(c, states[0], id) == Err::<(EvalState, ConstView), Fault>(fault),
{
    let bound = id.0 as nat;
    let exprs = values_of(call.args@);
    lemma_parts(c, id, c.arenas.exprs@[id.0 as int]);
    reveal_with_fuel(eval, 2);
    reveal_with_fuel(eval_function_call, 2);
    lemma_value_args(call.args@, call.args@.len());
    assert(call.args@.take(call.args@.len() as int) =~= call.args@);
    lemma_values_below(call.args@, call.args@.len(), bound);
    assert(exprs[at].0 < bound);
    lemma_gives_all(c, exprs.take(at), states, values, bound, at as nat);
    lemma_eval_list_prefix(c, states[0], exprs.take(at), exprs, bound, at as nat);
    assert(eval_below(c, states.last(), exprs[at], bound) == eval(c, states.last(), exprs[at]));
    assert(eval_list(c, states[0], exprs, bound, (at + 1) as nat) == Err::<
        (EvalState, Seq<ConstView>),
        Fault,
    >(fault));
    lemma_list_fault(c, exprs, states[0], bound, (at + 1) as nat, exprs.len(), fault);
}

/// Where the body of a called function cannot be calculated, the call cannot be.
pub proof fn calls_fail_where_their_bodies_do(
    c: EvalEnv,
    s: EvalState,
    call: ExprFunctionCall,
    args: Seq<ConstView>,
    signature: Signature,
    substitution: GenericSubstitution,
    body: FunctionBody,
    full_path: Seq<char>,
    fault: Fault,
)
    requires
        calls_body(c, call, signature, substitution, body, full_path),
        c.depth <= 100,
        eval(
            body_env(c, substitution, body),
            call_state(signature.params@, args),
            body.body_expr,
        ) == Err::<(EvalState, ConstView), Fault>(fault),
    ensures
        eval_call(c, s, call, args) == Err::<(EvalState, ConstView), Fault>(fault),
{
    reveal_with_fuel(eval_call, 2);
    reveal_with_fuel(eval_const_call, 2);
}

/// A call whose function has no instance has no value.
pub proof fn calls_without_an_instance_have_no_value(
    c: EvalEnv,
    s: EvalState,
    call: ExprFunctionCall,
    args: Seq<ConstView>,
)
    requires
        call.function != c.info.panic_with_felt252,
        c.substitution.substitute_function(call.function) is Err,
    ensures
        eval_call(c, s, call, args) == Ok::<(EvalState, ConstView), Fault>((s, ConstView::Missing)),
{
    reveal_with_fuel(eval_call, 2);
}

// What has no value.

/// Expressions of other kinds have no value, and change nothing.
pub proof fn other_expressions_have_no_value(c: EvalEnv, s: EvalState, id: ExprId)
    requires
        c.wf(),
        id.0 < c.arenas.exprs@.len(),
        match c.arenas.exprs@[id.0 as int] {
            Expr::Missing { .. } => true,
            Expr::Other { .. } => true,
            Expr::Block { tail, .. } => tail is None,
            Expr::StructCtor(ctor) => ctor.base_struct is Some || c.db.spec_struct_members(
                ctor.concrete_struct_id,
            ) is Err,
            _ => false,
        },
    ensures
        gives(c, s, id, s, ConstView::Missing),
{
}

/// A literal that does not fit its type cannot be calculated.
pub proof fn literals_that_do_not_fit_are_faults(
    c: EvalEnv,
    s: EvalState,
    id: ExprId,
    value: Integer,
    ty: TypeId,
    stable_ptr: SyntaxStablePtrId,
)
    requires
        has_expr(c, id, Expr::Literal { value, ty, stable_ptr }),
        c.db.spec_validate_literal(ty, value@) is Err,
    ensures
        eval(c, s, id) == Err::<(EvalState, ConstView), Fault>(Fault::InvalidLiteral),
{
}

/// A match, or a logical operator, of what is no enum has no value.
pub proof fn choices_of_other_values_have_no_value(
    c: EvalEnv,
    s: EvalState,
    id: ExprId,
    t: EvalState,
    value: ConstView,
)
    requires
        c.wf(),
        id.0 < c.arenas.exprs@.len(),
        !(value is Enum),
        match c.arenas.exprs@[id.0 as int] {
            Expr::Match(expr) => gives(c, s, expr.matched_expr, t, value),
            Expr::LogicalOperator { lhs, .. } => gives(c, s, lhs, t, value),
            _ => false,
        },
    ensures
        gives(c, s, id, t, ConstView::Missing),
{
    lemma_parts(c, id, c.arenas.exprs@[id.0 as int]);
    reveal_with_fuel(eval, 2);
}

/// An `if` with a condition on what is no enum has no value.
pub proof fn conditions_on_other_values_have_no_value(
    c: EvalEnv,
    id: ExprId,
    expr: ExprIf,
    states: Seq<EvalState>,
    at: int,
    condition: ExprId,
    t: EvalState,
    value: ConstView,
)
    requires
        has_expr(c, id, Expr::If(expr)),
        0 <= at < expr.conditions@.len(),
        states.len() == at + 1,
        forall|i: int|
            0 <= i < at ==> decides(
                c,
                states[i],
                #[trigger] expr.conditions@[i],
                states[i + 1],
                true,
            ),
        match expr.conditions@[at] {
            Condition::BoolExpr(id) => id == condition,
            Condition::Let(id, _) => id == condition,
        },
        gives(c, states[at], condition, t, value),
        !(value is Enum),
    ensures
        gives(c, states[0], id, t, ConstView::Missing),
{
    lemma_parts(c, id, c.arenas.exprs@[id.0 as int]);
    reveal_with_fuel(eval, 2);
    let bound = id.0 as nat;
    let conditions = expr.conditions@;
    lemma_conditions_hold(c, conditions, states, bound, at as nat);
    assert(c.arenas.condition_below(conditions[at], bound as int));
    reveal_with_fuel(eval_condition, 2);
    reveal_with_fuel(eval_conditions, 2);
    assert(eval_below(c, states[at], condition, bound) == eval(c, states[at], condition));
    assert(eval_conditions(c, states[0], conditions, bound, (at + 1) as nat) == Ok::<
        (EvalState, Conditions),
        Fault,
    >((t, Conditions::Unknown)));
    lemma_conditions_unknown(
        c,
        states[0],
        conditions,
        bound,
        (at + 1) as nat,
        conditions.len(),
        t,
    );
}

proof fn lemma_conditions_unknown(
    c: EvalEnv,
    s: EvalState,
    conditions: Seq<Condition>,
    bound: nat,
    n: nat,
    m: nat,
    t: EvalState,
)
    requires
        n <= m,
        eval_conditions(c, s, conditions, bound, n) == Ok::<(EvalState, Conditions), Fault>(
            (t, Conditions::Unknown),
        ),
    ensures
        eval_conditions(c, s, conditions, bound, m) == Ok::<(EvalState, Conditions), Fault>(
            (t, Conditions::Unknown),
        ),
    decreases m - n,
{
    if n < m {
        lemma_conditions_unknown(c, s, conditions, bound, n, (m - 1) as nat, t);
        reveal_with_fuel(eval_conditions, 2);
    }
}

/// An array whose size is no number is reported, and is empty; one whose size does not fit into a
/// machine word cannot be calculated.
pub proof fn arrays_of_other_sizes(
    c: EvalEnv,
    s: EvalState,
    id: ExprId,
    value: ExprId,
    size: ConstValueId,
    ty: TypeId,
    stable_ptr: SyntaxStablePtrId,
    t: EvalState,
    element: ConstView,
)
    requires
        has_expr(
            c,
            id,
            Expr::FixedSizeArray {
                items: FixedSizeArrayItems::ValueAndSize(value, size),
                ty,
                stable_ptr,
            },
        ),
        gives(c, s, value, t, element),
    ensures
        !(c.db.const_values@[size.0 as int]@ is Int) ==> gives(
            c,
            s,
            id,
            EvalState {
                vars: t.vars,
                diagnostics: t.diagnostics.push(
                    DiagnosticView { stable_ptr, kind: KindView::UnsupportedConstant },
                ),
            },
            ConstView::Struct(Seq::empty(), ty),
        ),
        c.db.const_values@[size.0 as int]@ matches ConstView::Int(count, _) && (count < 0 || count
            > usize::MAX) ==> eval(c, s, id) == Err::<(EvalState, ConstView), Fault>(
            Fault::InvalidArraySize,
        ),
{
    lemma_parts(c, id, c.arenas.exprs@[id.0 as int]);
    reveal_with_fuel(eval, 2);
}

/// A member of what is no struct, or one that the struct does not have, has no value; one that is
/// missing among the values cannot be calculated.
pub proof fn members_that_are_not_there(
    c: EvalEnv,
    s: EvalState,
    id: ExprId,
    access: ExprMemberAccess,
    t: EvalState,
    value: ConstView,
)
    requires
        has_expr(c, id, Expr::MemberAccess(access)),
        gives(c, s, access.expr, t, value),
    ensures
        !(value is Struct) || c.db.spec_struct_members(access.concrete_struct_id) is Err ==> gives(
            c,
            s,
            id,
            t,
            ConstView::Missing,
        ),
        c.db.spec_struct_members(access.concrete_struct_id) matches Ok(order) && (forall|i: int|
            0 <= i < order.len() ==> #[trigger] order[i] != access.member) ==> gives(
            c,
            s,
            id,
            t,
            ConstView::Missing,
        ),
        c.db.spec_struct_members(access.concrete_struct_id) is Ok && value is Struct ==> {
            let order = c.db.spec_struct_members(access.concrete_struct_id)->Ok_0;
            forall|at: int|
                value->Struct_0.len() <= at < order.len() && #[trigger] order[at] == access.member
                    && (forall|i: int| 0 <= i < at ==> #[trigger] order[i] != access.member)
                    ==> eval(c, s, id) == Err::<(EvalState, ConstView), Fault>(
                    Fault::MissingValue,
                )
        },
{
    lemma_parts(c, id, c.arenas.exprs@[id.0 as int]);
    reveal_with_fuel(eval, 2);
    reveal_with_fuel(eval_member_access, 2);
    if let Ok(order) = c.db.spec_struct_members(access.concrete_struct_id) {
        lemma_first_where(order, is_member(access.member), 0);
    }
}

/// A struct without an expression for one of its members cannot be calculated.
pub proof fn structs_need_all_their_members(
    c: EvalEnv,
    s: EvalState,
    id: ExprId,
    ctor: ExprStructCtor,
    order: Seq<MemberId>,
    at: int,
)
    requires
        has_expr(c, id, Expr::StructCtor(ctor)),
        ctor.base_struct is None,
        c.db.spec_struct_members(ctor.concrete_struct_id) == Ok::<Seq<MemberId>, DiagnosticAdded>(
            order,
        ),
        0 <= at < order.len(),
        forall|i: int|
            0 <= i < ctor.members@.len() ==> (#[trigger] ctor.members@[i]).1 != order[at],
    ensures
        eval(c, s, id) == Err::<(EvalState, ConstView), Fault>(Fault::MissingMember),
{
    reveal_with_fuel(eval, 2);
    lemma_first_where(ctor.members@, expr_for(order[at]), 0);
    assert(ctor_place(ctor.members@, order[at]) is None);
}

/// Where the one part that comes first cannot be calculated, the whole cannot be.
pub proof fn faults_of_first_parts_are_passed_on(
    c: EvalEnv,
    s: EvalState,
    id: ExprId,
    part: ExprId,
    fault: Fault,
)
    requires
        c.wf(),
        id.0 < c.arenas.exprs@.len(),
        eval(c, s, part) == Err::<(EvalState, ConstView), Fault>(fault),
        match c.arenas.exprs@[id.0 as int] {
            Expr::EnumVariantCtor { value_expr, .. } => part == value_expr,
            Expr::MemberAccess(access) => part == access.expr,
            Expr::FixedSizeArray { items: FixedSizeArrayItems::ValueAndSize(value, _), .. } => part
                == value,
            Expr::LogicalOperator { lhs, .. } => part == lhs,
            Expr::Match(expr) => part == expr.matched_expr,
            Expr::Block { statements, tail: Some(tail), .. } => statements@.len() == 0 && part
                == tail,
            _ => false,
        },
    ensures
        eval(c, s, id) == Err::<(EvalState, ConstView), Fault>(fault),
{
    lemma_parts(c, id, c.arenas.exprs@[id.0 as int]);
    reveal_with_fuel(eval, 2);
    reveal_with_fuel(eval_member_access, 2);
    reveal_with_fuel(eval_statements, 2);
}

/// Where a statement of a block cannot be calculated, the block cannot be.
pub proof fn blocks_fail_where_a_statement_does(
    c: EvalEnv,
    id: ExprId,
    statements: Vec<StatementId>,
    tail: ExprId,
    ty: TypeId,
    stable_ptr: SyntaxStablePtrId,
    states: Seq<EvalState>,
    at: int,
    fault: Fault,
)
    requires
        has_expr(c, id, Expr::Block { statements, tail: Some(tail), ty, stable_ptr }),
        0 <= at < statements@.len(),
        states.len() == at + 1,
        forall|i: int|
            0 <= i < at ==> runs(c, states[i], #[trigger] statements@[i], states[i + 1]),
        match c.arenas.statements@[statements@[at].0 as int] {
            Statement::Let { expr, .. } => eval(c, states[at], expr) == Err::<
                (EvalState, ConstView),
                Fault,
            >(fault),
            Statement::Expr { expr, .. } => eval(c, states[at], expr) == Err::<
                (EvalState, ConstView),
                Fault,
            >(fault),
            Statement::Other { .. } => false,
        },
    ensures
        eval(c, states[0], id) == Err::<(EvalState, ConstView), Fault>(fault),
{
    let bound = id.0 as nat;
    lemma_parts(c, id, c.arenas.exprs@[id.0 as int]);
    reveal_with_fuel(eval, 2);
    reveal_with_fuel(eval_statements, 2);
    assert forall|i: int| 0 <= i < statements@.len() implies c.arenas.statement_below(
        #[trigger] statements@[i],
        bound as int,
    ) by {
        if let Expr::Block { statements: found, .. } = c.arenas.exprs@[id.0 as int] {
            assert(c.arenas.statement_below(found@[i], bound as int));
        }
    }
    let first = statements@.take(at);
    assert forall|i: int| 0 <= i < first.len() implies runs(
        c,
        states[i],
        #[trigger] first[i],
        states[i + 1],
    ) by {
        assert(first[i] == statements@[i]);
    }
    assert forall|i: int| 0 <= i < first.len() implies c.arenas.statement_below(
        #[trigger] first[i],
        bound as int,
    ) by {
        assert(first[i] == statements@[i]);
    }
    lemma_runs(c, first, states, bound, at as nat);
    lemma_statements_prefix(c, states[0], first, statements@, bound, at as nat);
    assert(c.arenas.statement_below(statements@[at], bound as int));
    match c.arenas.statements@[statements@[at].0 as int] {
        Statement::Let { expr, .. } => {
            assert(eval_below(c, states[at], expr, bound) == eval(c, states[at], expr));
        },
        Statement::Expr { expr, .. } => {
            assert(eval_below(c, states[at], expr, bound) == eval(c, states[at], expr));
        },
        Statement::Other { .. } => {},
    }
    assert(eval_statements(c, states[0], statements@, bound, (at + 1) as nat) == Err::<
        (EvalState, ()),
        Fault,
    >(fault));
    lemma_statements_fault(
        c,
        states[0],
        statements@,
        bound,
        (at + 1) as nat,
        statements@.len(),
        fault,
    );
}

proof fn lemma_statements_prefix(
    c: EvalEnv,
    s: EvalState,
    a: Seq<StatementId>,
    b: Seq<StatementId>,
    bound: nat,
    n: nat,
)
    requires
        n <= a.len(),
        n <= b.len(),
        forall|i: int| 0 <= i < n ==> #[trigger] a[i] == b[i],
    ensures
        eval_statements(c, s, a, bound, n) == eval_statements(c, s, b, bound, n),
    decreases n,
{
    if n > 0 {
        lemma_statements_prefix(c, s, a, b, bound, (n - 1) as nat);
        assert(a[n - 1] == b[n - 1]);
    }
}

proof fn lemma_statements_fault(
    c: EvalEnv,
    s: EvalState,
    statements: Seq<StatementId>,
    bound: nat,
    n: nat,
    m: nat,
    fault: Fault,
)
    requires
        n <= m,
        eval_statements(c, s, statements, bound, n) == Err::<(EvalState, ()), Fault>(fault),
    ensures
        eval_statements(c, s, statements, bound, m) == Err::<(EvalState, ()), Fault>(fault),
    decreases m - n,
{
    if n < m {
        lemma_statements_fault(c, s, statements, bound, n, (m - 1) as nat, fault);
    }
}

} // verus!
