//! What holds of every calculation.
use vstd::prelude::*;

use crate::constant::calc_info::{bool_view, ConstCalcInfo};
use crate::constant::literal::{
    const_value_has_its_type, numeric_value_of_const_value, spec_numeric_arg_value,
    spec_value_as_const_value, NumericArg,
};
use crate::constant::resolve::{const_env, resolution, value_ok, ExprAndId, InferenceOutcome};
use crate::constant::semantics::{
    arm_exprs, arm_takes_variant, call_state, comparison_result, condition_expr, condition_exprs,
    ctor_exprs, ctor_order, ctor_place, destructure_inner, eval, eval_arm, eval_call,
    eval_conditions, eval_const_call, eval_div_rem, eval_downcast, eval_extern_call,
    eval_function_call, eval_list, eval_member_access, eval_statements, eval_struct,
    eval_trait_call, expr_for, fit_result, numeric_args, pattern_choice, takes_variant, validation,
    validation_args, validation_below, validation_list, validation_statements, value_args,
    Conditions, EvalEnv, EvalState, Fault, Step, MAX_CONST_EVAL_DEPTH,
};
use crate::constant::value::ConstView;
use crate::containers::{flags, ids};
use crate::integer::{
    bit, bits_and, bits_or, bits_xor, bitwise_results_have_their_bits, division_adds_up,
    felt252_prime, magnitude, quotient, remainder,
};
use crate::search::{first_where, keyed, lemma_first_where};
use crate::semantic::db::{
    ConcreteFunction, CoreInfo, FunctionBody, GenericFunctionId, SemanticDb,
};
use crate::semantic::diagnostics::{DiagnosticView, KindView, LiteralError};
use crate::semantic::exprs::{
    Arenas, Condition, Expr, ExprFunctionCall, ExprFunctionCallArg, ExprMatch, ExprStructCtor,
    FixedSizeArrayItems, Statement,
};
use crate::semantic::ids::{
    ConcreteEnumId, ConcreteVariant, DiagnosticAdded, ExprId, FunctionId, Maybe, StatementId,
    SyntaxStablePtrId, TraitFunctionId, TypeId,
};

verus! {

/// The diagnostics of the later state are those of the earlier one, and possibly more.
pub open spec fn extends(earlier: EvalState, later: EvalState) -> bool {
    &&& earlier.diagnostics.len() <= later.diagnostics.len()
    &&& forall|i: int|
        0 <= i < earlier.diagnostics.len() ==> (#[trigger] later.diagnostics[i])
            == earlier.diagnostics[i]
}

/// The body can be a constant.
pub open spec fn body_is_valid(db: SemanticDb, info: ConstCalcInfo, body: FunctionBody) -> bool {
    forall|c: EvalEnv|
        c.db == db && c.info == info && c.arenas == body.arenas ==> (#[trigger] validation(
            c,
            body.body_expr,
        )).len() == 0
}

/// The body of each function can be a constant, where the function is declared to be constant.
pub open spec fn program_is_valid(db: SemanticDb, info: ConstCalcInfo) -> bool {
    forall|i: int|
        0 <= i < db.functions@.len() ==> match (#[trigger] db.functions@[i]).body {
            Ok(Some(body)) => match (body.signature, body.body) {
                (Ok(signature), Ok(function_body)) => signature.is_const ==> body_is_valid(
                    db,
                    info,
                    function_body,
                ),
                _ => true,
            },
            _ => true,
        }
}

/// The step keeps the diagnostics, and where `valid` holds, no literal makes it impossible.
spec fn sound<T>(s: EvalState, step: Step<T>, valid: bool) -> bool {
    match step {
        Ok((t, _)) => extends(s, t),
        Err(fault) => valid ==> fault != Fault::InvalidLiteral,
    }
}

spec fn valid(c: EvalEnv, found: Seq<DiagnosticView>) -> bool {
    c.wf() && program_is_valid(c.db, c.info) && found.len() == 0
}

#[verifier::rlimit(80)]
proof fn lemma_eval(c: EvalEnv, s: EvalState, id: ExprId)
    requires
        c.wf(),
        id.0 < c.arenas.exprs@.len(),
    ensures
        sound(s, eval(c, s, id), valid(c, validation(c, id))),
    decreases MAX_CONST_EVAL_DEPTH + 2 - c.depth, id.0, 2nat, 0nat,
{
    let bound = id.0 as nat;
    reveal_with_fuel(eval, 2);
    reveal_with_fuel(validation, 2);
    assert(c.arenas.expr_ok(id.0 as int, c.db.functions@.len(), c.db.const_values@.len()));
    match c.arenas.exprs@[id.0 as int] {
        Expr::Block { statements, tail: Some(inner), .. } => {
            lemma_statements(c, s, statements@, bound, statements@.len());
            if let Ok((t, _)) = eval_statements(c, s, statements@, bound, statements@.len()) {
                lemma_eval(c, t, inner);
            }
        },
        Expr::FunctionCall(call) => {
            lemma_function_call(c, s, call, bound);
        },
        Expr::Tuple { items, ty, .. } => {
            lemma_struct(c, s, items@, ty, bound, items@);
        },
        Expr::StructCtor(
            ExprStructCtor { members, base_struct: None, concrete_struct_id, ty, .. },
        ) => {
            if let Ok(order) = c.db.spec_struct_members(concrete_struct_id) {
                if let Some(exprs) = ctor_order(members@, order) {
                    assert forall|i: int| 0 <= i < exprs.len() implies ctor_exprs(
                        members@,
                    ).contains(#[trigger] exprs[i]) by {
                        let at = ctor_place(members@, order[i])->Some_0;
                        lemma_first_where(members@, expr_for(order[i]), 0);
                        assert(ctor_exprs(members@)[at] == exprs[i]);
                    }
                    lemma_struct(c, s, exprs, ty, bound, ctor_exprs(members@));
                }
            }
        },
        Expr::EnumVariantCtor { value_expr, .. } => {
            lemma_eval(c, s, value_expr);
        },
        Expr::MemberAccess(expr) => {
            reveal_with_fuel(eval_member_access, 2);
            lemma_eval(c, s, expr.expr);
        },
        Expr::FixedSizeArray { items, ty, .. } => match items {
            FixedSizeArrayItems::Items(items) => {
                lemma_struct(c, s, items@, ty, bound, items@);
            },
            FixedSizeArrayItems::ValueAndSize(value, _) => {
                lemma_eval(c, s, value);
            },
        },
        Expr::Snapshot { inner, .. } => {
            lemma_eval(c, s, inner);
        },
        Expr::Desnap { inner, .. } => {
            lemma_eval(c, s, inner);
        },
        Expr::LogicalOperator { lhs, rhs, .. } => {
            lemma_eval(c, s, lhs);
            if let Ok((t, _)) = eval(c, s, lhs) {
                lemma_eval(c, t, rhs);
            }
        },
        Expr::Match(expr) => {
            lemma_eval(c, s, expr.matched_expr);
            if let Ok((t, ConstView::Enum(variant, value))) = eval(c, s, expr.matched_expr) {
                lemma_arm(c, t, variant, *value, expr, bound);
            }
        },
        Expr::If(expr) => {
            lemma_conditions(c, s, expr.conditions@, bound, expr.conditions@.len());
            if let Ok((t, outcome)) = eval_conditions(
                c,
                s,
                expr.conditions@,
                bound,
                expr.conditions@.len(),
            ) {
                lemma_eval(c, t, expr.if_block);
                if let Some(else_block) = expr.else_block {
                    lemma_eval(c, t, else_block);
                }
            }
        },
        _ => {},
    }
}

/// Where a list has no diagnostics, its expressions have none.
proof fn lemma_valid_list(c: EvalEnv, exprs: Seq<ExprId>, bound: nat, n: nat, at: int)
    requires
        0 <= at < n,
        validation_list(c, exprs, bound, n).len() == 0,
    ensures
        validation_below(c, exprs[at], bound).len() == 0,
    decreases n,
{
    if at < n - 1 {
        lemma_valid_list(c, exprs, bound, (n - 1) as nat, at);
    }
}

proof fn lemma_list(
    c: EvalEnv,
    s: EvalState,
    exprs: Seq<ExprId>,
    bound: nat,
    n: nat,
    checked: Seq<ExprId>,
)
    requires
        c.wf(),
        n <= exprs.len(),
        bound <= c.arenas.exprs@.len(),
        forall|i: int| 0 <= i < checked.len() ==> (#[trigger] checked[i]).0 < bound,
        forall|i: int| 0 <= i < exprs.len() ==> checked.contains(#[trigger] exprs[i]),
    ensures
        sound(
            s,
            eval_list(c, s, exprs, bound, n),
            valid(c, validation_list(c, checked, bound, checked.len())),
        ),
    decreases MAX_CONST_EVAL_DEPTH + 2 - c.depth, bound, 0nat, n,
{
    if n > 0 {
        lemma_list(c, s, exprs, bound, (n - 1) as nat, checked);
        reveal_with_fuel(eval_list, 2);
        if let Ok((t, _)) = eval_list(c, s, exprs, bound, (n - 1) as nat) {
            let id = exprs[n - 1];
            assert(checked.contains(id));
            let at = checked.index_of(id);
            assert(checked[at] == id);
            lemma_eval(c, t, id);
            if valid(c, validation_list(c, checked, bound, checked.len())) {
                lemma_valid_list(c, checked, bound, checked.len(), at);
                assert(validation_below(c, id, bound) == validation(c, id));
            }
        }
    }
}

proof fn lemma_struct(
    c: EvalEnv,
    s: EvalState,
    exprs: Seq<ExprId>,
    ty: TypeId,
    bound: nat,
    checked: Seq<ExprId>,
)
    requires
        c.wf(),
        bound <= c.arenas.exprs@.len(),
        forall|i: int| 0 <= i < checked.len() ==> (#[trigger] checked[i]).0 < bound,
        forall|i: int| 0 <= i < exprs.len() ==> checked.contains(#[trigger] exprs[i]),
    ensures
        sound(
            s,
            eval_struct(c, s, exprs, ty, bound),
            valid(c, validation_list(c, checked, bound, checked.len())),
        ),
    decreases MAX_CONST_EVAL_DEPTH + 2 - c.depth, bound, 1nat, 0nat,
{
    reveal_with_fuel(eval_struct, 2);
    lemma_list(c, s, exprs, bound, exprs.len(), checked);
}

proof fn lemma_statements(
    c: EvalEnv,
    s: EvalState,
    statements: Seq<StatementId>,
    bound: nat,
    n: nat,
)
    requires
        c.wf(),
        n <= statements.len(),
        bound <= c.arenas.exprs@.len(),
        forall|i: int|
            0 <= i < statements.len() ==> c.arenas.statement_below(
                #[trigger] statements[i],
                bound as int,
            ),
    ensures
        sound(
            s,
            eval_statements(c, s, statements, bound, n),
            valid(c, validation_statements(c, statements, bound, n)),
        ),
    decreases MAX_CONST_EVAL_DEPTH + 2 - c.depth, bound, 0nat, n,
{
    if n > 0 {
        lemma_statements(c, s, statements, bound, (n - 1) as nat);
        reveal_with_fuel(eval_statements, 2);
        reveal_with_fuel(validation_statements, 2);
        if let Ok((t, _)) = eval_statements(c, s, statements, bound, (n - 1) as nat) {
            assert(c.arenas.statement_below(statements[n - 1], bound as int));
            match c.arenas.statements@[statements[n - 1].0 as int] {
                Statement::Let { expr, .. } => {
                    lemma_eval(c, t, expr);
                },
                Statement::Expr { expr, .. } => {
                    lemma_eval(c, t, expr);
                },
                Statement::Other { .. } => {},
            }
        }
    }
}

proof fn lemma_arm(
    c: EvalEnv,
    s: EvalState,
    variant: ConcreteVariant,
    value: ConstView,
    expr: ExprMatch,
    bound: nat,
)
    requires
        c.wf(),
        bound <= c.arenas.exprs@.len(),
        forall|i: int|
            0 <= i < expr.arms@.len() ==> c.arenas.arm_below(
                #[trigger] expr.arms@[i],
                bound as int,
            ),
    ensures
        sound(
            s,
            eval_arm(c, s, variant, value, expr, bound),
            valid(c, validation_list(c, arm_exprs(expr.arms@), bound, expr.arms@.len())),
        ),
    decreases MAX_CONST_EVAL_DEPTH + 2 - c.depth, bound, 0nat, 1nat,
{
    let p = arm_takes_variant(c.arenas, variant.idx);
    lemma_first_where(expr.arms@, p, 0);
    reveal_with_fuel(eval_arm, 2);
    if let Some(at) = first_where(expr.arms@, p, 0) {
        let arm = expr.arms@[at];
        assert(c.arenas.arm_below(arm, bound as int));
        let place = first_where(arm.patterns@, takes_variant(c.arenas, variant.idx), 0);
        let pattern = c.arenas.patterns@[arm.patterns@[place->Some_0].0 as int];
        let inner = pattern_choice(pattern, variant.idx)->Some_0;
        lemma_eval(c, destructure_inner(c, s, inner, value), arm.expression);
        if valid(c, validation_list(c, arm_exprs(expr.arms@), bound, expr.arms@.len())) {
            lemma_valid_list(c, arm_exprs(expr.arms@), bound, expr.arms@.len(), at);
            assert(validation_below(c, arm.expression, bound) == validation(c, arm.expression));
        }
    }
}

proof fn lemma_conditions(
    c: EvalEnv,
    s: EvalState,
    conditions: Seq<Condition>,
    bound: nat,
    n: nat,
)
    requires
        c.wf(),
        n <= conditions.len(),
        bound <= c.arenas.exprs@.len(),
        forall|i: int|
            0 <= i < conditions.len() ==> c.arenas.condition_below(
                #[trigger] conditions[i],
                bound as int,
            ),
    ensures
        sound(
            s,
            eval_conditions(c, s, conditions, bound, n),
            valid(c, validation_list(c, condition_exprs(conditions), bound, n)),
        ),
    decreases MAX_CONST_EVAL_DEPTH + 2 - c.depth, bound, 0nat, n + 1,
{
    if n > 0 {
        lemma_conditions(c, s, conditions, bound, (n - 1) as nat);
        reveal_with_fuel(eval_conditions, 3);
        reveal_with_fuel(validation_list, 2);
        if let Ok((t, Conditions::Hold)) = eval_conditions(
            c,
            s,
            conditions,
            bound,
            (n - 1) as nat,
        ) {
            let id = condition_expr(conditions[n - 1]);
            assert(condition_exprs(conditions)[n - 1] == id);
            assert(c.arenas.condition_below(conditions[n - 1], bound as int));
            lemma_eval(c, t, id);
        }
    }
}

/// Where the arguments have no diagnostics, those that are values have none.
proof fn lemma_value_args(
    c: EvalEnv,
    args: Seq<ExprFunctionCallArg>,
    bound: nat,
    n: nat,
)
    requires
        n <= args.len(),
        forall|i: int|
            0 <= i < args.len() ==> ((#[trigger] args[i]) matches ExprFunctionCallArg::Value(arg)
                ==> arg.0 < bound),
    ensures
        forall|i: int|
            0 <= i < value_args(args, n).len() ==> (#[trigger] value_args(args, n)[i]).0 < bound,
        validation_args(c, args, bound, n).len() == 0 ==> validation_list(
            c,
            value_args(args, n),
            bound,
            value_args(args, n).len(),
        ).len() == 0,
    decreases n,
{
    if n > 0 {
        lemma_value_args(c, args, bound, (n - 1) as nat);
        let before = value_args(args, (n - 1) as nat);
        let exprs = value_args(args, n);
        if let ExprFunctionCallArg::Value(arg) = args[n - 1] {
            assert(exprs == before.push(arg));
            lemma_list_prefix(c, before, exprs, bound, before.len());
            assert(validation_list(c, exprs, bound, exprs.len()) == validation_list(
                c,
                exprs,
                bound,
                before.len(),
            ) + validation_below(c, arg, bound));
        }
    }
}

/// The diagnostics of the first expressions do not depend on those that follow.
proof fn lemma_list_prefix(c: EvalEnv, a: Seq<ExprId>, b: Seq<ExprId>, bound: nat, n: nat)
    requires
        n <= a.len(),
        n <= b.len(),
        forall|i: int| 0 <= i < n ==> #[trigger] a[i] == b[i],
    ensures
        validation_list(c, a, bound, n) == validation_list(c, b, bound, n),
    decreases n,
{
    if n > 0 {
        lemma_list_prefix(c, a, b, bound, (n - 1) as nat);
        assert(a[n - 1] == b[n - 1]);
    }
}

proof fn lemma_function_call(c: EvalEnv, s: EvalState, call: ExprFunctionCall, bound: nat)
    requires
        c.wf(),
        bound <= c.arenas.exprs@.len(),
        call.function.0 < c.db.functions@.len(),
        forall|i: int|
            0 <= i < call.args@.len() ==> ((#[trigger] call.args@[i]) matches
                ExprFunctionCallArg::Value(arg) ==> arg.0 < bound),
    ensures
        sound(
            s,
            eval_function_call(c, s, call, bound),
            valid(c, validation_args(c, call.args@, bound, call.args@.len())),
        ),
    decreases MAX_CONST_EVAL_DEPTH + 2 - c.depth, bound, 1nat, 0nat,
{
    reveal_with_fuel(eval_function_call, 2);
    let exprs = value_args(call.args@, call.args@.len());
    lemma_value_args(c, call.args@, bound, call.args@.len());
    assert forall|i: int| 0 <= i < exprs.len() implies exprs.contains(#[trigger] exprs[i]) by {}
    lemma_list(c, s, exprs, bound, exprs.len(), exprs);
    if let Ok((t, args)) = eval_list(c, s, exprs, bound, exprs.len()) {
        lemma_call(c, t, call, args);
    }
}

proof fn lemma_call(c: EvalEnv, s: EvalState, call: ExprFunctionCall, args: Seq<ConstView>)
    requires
        c.wf(),
        call.function.0 < c.db.functions@.len(),
    ensures
        sound(s, eval_call(c, s, call, args), c.wf() && program_is_valid(c.db, c.info)),
    decreases MAX_CONST_EVAL_DEPTH + 2 - c.depth, 0nat, 0nat, 1nat,
{
    reveal_with_fuel(eval_call, 2);
    if let Ok(function) = c.substitution.substitute_function(call.function) {
        lemma_first_where(
            c.substitution.functions,
            keyed::<FunctionId, Maybe<FunctionId>>(call.function),
            0,
        );
        assert(function.0 < c.db.functions@.len());
        lemma_const_call(c, s, function, args, call);
    }
}

proof fn lemma_const_call(
    c: EvalEnv,
    s: EvalState,
    id: FunctionId,
    args: Seq<ConstView>,
    call: ExprFunctionCall,
)
    requires
        c.wf(),
        id.0 < c.db.functions@.len(),
    ensures
        sound(
            s,
            eval_const_call(c, s, id, args, call),
            c.wf() && program_is_valid(c.db, c.info),
        ),
    decreases MAX_CONST_EVAL_DEPTH + 2 - c.depth, 0nat, 0nat, 0nat,
{
    reveal_with_fuel(eval_const_call, 2);
    let function = c.db.functions@[id.0 as int];
    if function.generic_function is Extern {
    } else if let Ok(Some(body)) = function.body {
        if let (Ok(signature), Ok(substitution), Ok(function_body)) = (
            body.signature,
            body.substitution,
            body.body,
        ) {
            if signature.is_const && c.depth <= MAX_CONST_EVAL_DEPTH {
                let inner = EvalEnv {
                    db: c.db,
                    info: c.info,
                    arenas: function_body.arenas,
                    substitution: substitution@,
                    depth: c.depth + 1,
                };
                lemma_eval(inner, call_state(signature.params@, args), function_body.body_expr);
                if program_is_valid(c.db, c.info) {
                    assert(body_is_valid(c.db, c.info, function_body));
                    assert(validation(inner, function_body.body_expr).len() == 0);
                }
            }
        }
    }
}

/// A calculation only ever adds diagnostics: those that were there before stay, in their order.
pub proof fn calculation_keeps_diagnostics(c: EvalEnv, s: EvalState, id: ExprId)
    requires
        c.wf(),
        id.0 < c.arenas.exprs@.len(),
        eval(c, s, id) is Ok,
    ensures
        extends(s, (eval(c, s, id)->Ok_0).0),
{
    lemma_eval(c, s, id);
}

/// Where an expression was found valid, and the bodies of all constant functions are, no literal
/// in any of them makes the calculation impossible.
pub proof fn validated_literals_fit(c: EvalEnv, s: EvalState, id: ExprId)
    requires
        c.wf(),
        id.0 < c.arenas.exprs@.len(),
        program_is_valid(c.db, c.info),
        validation(c, id).len() == 0,
    ensures
        eval(c, s, id) != Err::<(EvalState, ConstView), Fault>(Fault::InvalidLiteral),
{
    lemma_eval(c, s, id);
}

/// Resolving a constant expression only ever adds diagnostics.
pub proof fn resolution_keeps_diagnostics(
    db: SemanticDb,
    info: ConstCalcInfo,
    arenas: Arenas,
    before: Seq<DiagnosticView>,
    value: ExprAndId,
    const_stable_ptr: SyntaxStablePtrId,
    inference: InferenceOutcome,
    finalize: bool,
)
    requires
        db.wf(),
        info.wf(db),
        db.holds(arenas),
        value_ok(db, arenas, value),
    ensures
        resolution(db, info, arenas, before, value, const_stable_ptr, inference, finalize)
            matches Ok((after, _)) ==> before.is_prefix_of(after),
{
    let c = const_env(db, info, arenas);
    let reported = before + inference.diagnostics(const_stable_ptr, finalize);
    let validated = reported + validation(c, value.id);
    let s = EvalState { vars: Map::empty(), diagnostics: validated };
    assert(before =~= reported.subrange(0, before.len() as int));
    assert(before =~= validated.subrange(0, before.len() as int));
    lemma_eval(c, s, value.id);
    if let Ok((t, _)) = eval(c, s, value.id) {
        assert forall|i: int| 0 <= i < before.len() implies (#[trigger] t.diagnostics[i])
            == before[i] by {
            assert(t.diagnostics[i] == validated[i]);
        }
        assert(before =~= t.diagnostics.subrange(0, before.len() as int));
    }
}

/// An expression, other than a constant, with an error of the inference or of the validation has no
/// value, and nothing is calculated: no other diagnostics are added.
pub proof fn errors_leave_the_value_missing(
    db: SemanticDb,
    info: ConstCalcInfo,
    arenas: Arenas,
    before: Seq<DiagnosticView>,
    value: ExprAndId,
    const_stable_ptr: SyntaxStablePtrId,
    inference: InferenceOutcome,
    finalize: bool,
)
    requires
        !(value.expr is Constant),
        inference.diagnostics(const_stable_ptr, finalize).len() > 0 || validation(
            const_env(db, info, arenas),
            value.id,
        ).len() > 0,
    ensures
        ({
            let reported = before + inference.diagnostics(const_stable_ptr, finalize);
            resolution(db, info, arenas, before, value, const_stable_ptr, inference, finalize)
                matches Ok((after, constant)) && constant == ConstView::Missing && after == (
            if reported.len() > before.len() {
                reported
            } else {
                reported + validation(const_env(db, info, arenas), value.id)
            })
        }),
{
}

/// The value of a calculation that fits the type of the call is that of the calculation, for
/// `felt252` reduced by the prime; it is a literal of that type, and it has that type.
pub proof fn calculated_values_fit(c: EvalEnv, s: EvalState, value: int, call: ExprFunctionCall)
    requires
        fit_result(c, s, value, call) matches Ok((t, _)) && t == s,
    ensures
        ({
            let reduced = if call.ty == c.db.core_info.felt252 {
                remainder(value, felt252_prime())
            } else {
                value
            };
            let constant = (fit_result(c, s, value, call)->Ok_0).1;
            &&& c.db.spec_validate_literal(call.ty, reduced) is Ok
            &&& spec_numeric_arg_value(constant) == Some(reduced)
            &&& c.db.spec_const_ty(constant) == Ok::<TypeId, DiagnosticAdded>(call.ty)
        }),
{
    let reduced = if call.ty == c.db.core_info.felt252 {
        remainder(value, felt252_prime())
    } else {
        value
    };
    if let Err(err) = spec_value_as_const_value(c.db, call.ty, reduced) {
        let reported = s.report(call.stable_ptr, KindView::LiteralError(err));
        assert(reported.diagnostics.len() == s.diagnostics.len() + 1);
    } else {
        numeric_value_of_const_value(c.db, call.ty, reduced);
        const_value_has_its_type(c.db, call.ty, reduced);
    }
}

/// The results of `div_rem` are in the range of the dividend's type, where the dividend is not
/// negative, the divisor is positive, and the type has a zero.
pub proof fn div_rem_results_fit(
    c: EvalEnv,
    s: EvalState,
    ty: TypeId,
    a: int,
    b: int,
    call: ExprFunctionCall,
)
    requires
        ty is Named,
        a >= 0,
        b > 0,
        c.db.spec_validate_literal(ty, a) is Ok,
        c.db.spec_validate_literal(ty, 0) is Ok,
    ensures
        eval_div_rem(c, s, ty, a, b, call) is Ok,
{
    division_adds_up(a, b);
    let q = quotient(a, b);
    let r = remainder(a, b);
    assert(0 <= q <= a && r <= a) by (nonlinear_arith)
        requires
            q * b + r == a,
            0 <= r < b,
            a >= 0,
            b > 0,
    ;
}

/// The function has a body that a constant may be calculated by.
pub open spec fn has_const_body(function: ConcreteFunction) -> bool {
    match function.body {
        Ok(Some(body)) => match (body.signature, body.substitution, body.body) {
            (Ok(signature), Ok(_), Ok(_)) => signature.is_const,
            _ => false,
        },
        _ => false,
    }
}

/// The call is one of the given function of a trait of the core library.
pub open spec fn calls(c: EvalEnv, call: ExprFunctionCall, function: TraitFunctionId) -> bool {
    &&& call.function != c.info.panic_with_felt252
    &&& c.substitution.substitute_function(call.function) matches Ok(id)
    &&& c.db.functions@[id.0 as int].generic_function matches GenericFunctionId::Impl(imp)
    &&& imp.function == function
    &&& !has_const_body(c.db.functions@[id.0 as int])
}

proof fn lemma_core_call(
    c: EvalEnv,
    s: EvalState,
    call: ExprFunctionCall,
    args: Seq<ConstView>,
    function: TraitFunctionId,
)
    requires
        calls(c, call, function),
    ensures
        eval_call(c, s, call, args) == eval_trait_call(c, s, function, args, call),
{
    reveal_with_fuel(eval_call, 2);
}

proof fn lemma_core_functions(core: CoreInfo)
    requires
        core.wf(),
    ensures
        core.div_fn != core.neg_fn,
        core.div_fn != core.add_fn,
        core.div_fn != core.sub_fn,
        core.div_fn != core.mul_fn,
        core.div_fn != core.eq_fn,
        core.div_fn != core.ne_fn,
        core.div_fn != core.not_fn,
        core.rem_fn != core.neg_fn,
        core.rem_fn != core.add_fn,
        core.rem_fn != core.sub_fn,
        core.rem_fn != core.mul_fn,
        core.rem_fn != core.div_fn,
        core.rem_fn != core.eq_fn,
        core.rem_fn != core.ne_fn,
        core.rem_fn != core.not_fn,
        core.eq_fn != core.ne_fn,
{
    assert(core.functions()[4] == core.div_fn);
    assert(core.functions()[5] == core.rem_fn);
    assert(core.functions()[0] == core.neg_fn);
    assert(core.functions()[1] == core.add_fn);
    assert(core.functions()[2] == core.sub_fn);
    assert(core.functions()[3] == core.mul_fn);
    assert(core.functions()[10] == core.eq_fn);
    assert(core.functions()[11] == core.ne_fn);
    assert(core.functions()[16] == core.not_fn);
}

/// The numbers of two arguments.
proof fn lemma_two_numbers(db: SemanticDb, a: ConstView, b: ConstView)
    requires
        NumericArg::spec_try_new(db, a) is Some,
        NumericArg::spec_try_new(db, b) is Some,
    ensures
        numeric_args(db, seq![a, b]) == Some(
            seq![
                NumericArg::spec_try_new(db, a)->Some_0,
                NumericArg::spec_try_new(db, b)->Some_0,
            ],
        ),
{
    let args = seq![a, b];
    assert(numeric_args(db, args)->Some_0 =~= seq![
        NumericArg::spec_try_new(db, a)->Some_0,
        NumericArg::spec_try_new(db, b)->Some_0,
    ]);
}

/// `/`, `%` and `div_rem` agree on numbers `a` and `b` of one type: where `/` and `%` have the
/// values `q` and `r`, these add up to `a`, rounded towards zero, and `div_rem` gives both.
///
/// The number of a `felt252` is less than the prime.
pub proof fn division_calls_agree(
    c: EvalEnv,
    s: EvalState,
    a: ConstView,
    b: ConstView,
    div: ExprFunctionCall,
    rem: ExprFunctionCall,
    div_rem: ExprFunctionCall,
)
    requires
        c.wf(),
        calls(c, div, c.db.core_info.div_fn),
        calls(c, rem, c.db.core_info.rem_fn),
        calls(c, div_rem, c.db.core_info.div_rem_fn),
        NumericArg::spec_try_new(c.db, a) is Some,
        NumericArg::spec_try_new(c.db, b) is Some,
        (NumericArg::spec_try_new(c.db, b)->Some_0).0 != 0,
        div.ty == (NumericArg::spec_try_new(c.db, a)->Some_0).1,
        rem.ty == div.ty,
        div.ty == c.db.core_info.felt252 ==> magnitude(
            (NumericArg::spec_try_new(c.db, a)->Some_0).0,
        ) < felt252_prime(),
        eval_call(c, s, div, seq![a, b]) matches Ok((_, q)) && !(q is Missing),
        eval_call(c, s, rem, seq![a, b]) matches Ok((_, r)) && !(r is Missing),
    ensures
        ({
            let x = (NumericArg::spec_try_new(c.db, a)->Some_0).0;
            let y = (NumericArg::spec_try_new(c.db, b)->Some_0).0;
            let q = (eval_call(c, s, div, seq![a, b])->Ok_0).1;
            let r = (eval_call(c, s, rem, seq![a, b])->Ok_0).1;
            &&& spec_numeric_arg_value(q) matches Some(q) && spec_numeric_arg_value(r) matches Some(
                r,
            ) && {
                &&& q * y + r == x
                &&& magnitude(r) < magnitude(y)
                &&& r == 0 || (r < 0) == (x < 0)
            }
            &&& eval_call(c, s, div_rem, seq![a, ConstView::NonZero(Box::new(b))]) == Ok::<
                (EvalState, ConstView),
                Fault,
            >((s, ConstView::Struct(seq![q, r], div_rem.ty)))
        }),
{
    let core = c.db.core_info;
    let (x, ty) = NumericArg::spec_try_new(c.db, a)->Some_0;
    let y = (NumericArg::spec_try_new(c.db, b)->Some_0).0;
    let nz = ConstView::NonZero(Box::new(b));
    lemma_core_functions(core);
    lemma_core_call(c, s, div, seq![a, b], core.div_fn);
    lemma_core_call(c, s, rem, seq![a, b], core.rem_fn);
    lemma_core_call(c, s, div_rem, seq![a, nz], core.div_rem_fn);
    lemma_two_numbers(c.db, a, b);
    reveal_with_fuel(SemanticDb::spec_const_ty, 2);
    reveal_with_fuel(spec_numeric_arg_value, 2);
    lemma_two_numbers(c.db, a, nz);
    let quot = quotient(x, y);
    let left = remainder(x, y);
    division_adds_up(x, y);
    lemma_division_shrinks(x, y);
    if ty == core.felt252 {
        lemma_small_remainder(quot, felt252_prime());
        lemma_small_remainder(left, felt252_prime());
    }
    assert(eval_call(c, s, div, seq![a, b]) == fit_result(c, s, quot, div));
    assert(eval_call(c, s, rem, seq![a, b]) == fit_result(c, s, left, rem));
    assert(spec_value_as_const_value(c.db, ty, quot) is Ok);
    assert(spec_value_as_const_value(c.db, ty, left) is Ok);
    numeric_value_of_const_value(c.db, ty, quot);
    numeric_value_of_const_value(c.db, ty, left);
    lemma_div_rem_call(c, s, seq![a, nz], x, ty, y, div_rem);
}

proof fn lemma_div_rem_call(
    c: EvalEnv,
    s: EvalState,
    args: Seq<ConstView>,
    x: int,
    ty: TypeId,
    y: int,
    call: ExprFunctionCall,
)
    requires
        c.db.core_info.wf(),
        numeric_args(c.db, args) matches Some(numbers) && numbers.len() == 2 && numbers[0] == (
            x,
            ty,
        ) && numbers[1].0 == y,
    ensures
        eval_trait_call(c, s, c.db.core_info.div_rem_fn, args, call) == eval_div_rem(
            c,
            s,
            ty,
            x,
            y,
            call,
        ),
{
    let core = c.db.core_info;
    assert(core.functions()[0] == core.neg_fn);
    assert(core.functions()[1] == core.add_fn);
    assert(core.functions()[2] == core.sub_fn);
    assert(core.functions()[3] == core.mul_fn);
    assert(core.functions()[4] == core.div_fn);
    assert(core.functions()[5] == core.rem_fn);
    assert(core.functions()[7] == core.bitand_fn);
    assert(core.functions()[8] == core.bitor_fn);
    assert(core.functions()[9] == core.bitxor_fn);
    assert(core.functions()[10] == core.eq_fn);
    assert(core.functions()[11] == core.ne_fn);
    assert(core.functions()[12] == core.lt_fn);
    assert(core.functions()[13] == core.le_fn);
    assert(core.functions()[14] == core.gt_fn);
    assert(core.functions()[15] == core.ge_fn);
    assert(core.functions()[16] == core.not_fn);
}

/// Neither the quotient nor the remainder is larger than what was divided.
proof fn lemma_division_shrinks(a: int, b: int)
    requires
        b != 0,
    ensures
        magnitude(quotient(a, b)) <= magnitude(a),
        magnitude(remainder(a, b)) <= magnitude(a),
{
    division_adds_up(a, b);
    let m = magnitude(a) as int;
    let n = magnitude(b) as int;
    let q = m / n;
    assert(0 <= q <= m && 0 <= n * q <= m) by (nonlinear_arith)
        requires
            m >= 0,
            n > 0,
            q == m / n,
    ;
    assert((-b) * q == -(b * q) && b * (-q) == -(b * q)) by (nonlinear_arith);
}

/// A number that is smaller than the divisor is its own remainder.
proof fn lemma_small_remainder(a: int, b: int)
    requires
        b > 0,
        magnitude(a) < b,
    ensures
        remainder(a, b) == a,
{
    let m = magnitude(a) as int;
    assert(m / b == 0) by (nonlinear_arith)
        requires
            0 <= m < b,
    ;
    assert(b * quotient(a, b) == 0) by (nonlinear_arith)
        requires
            quotient(a, b) == 0,
    ;
}

/// The six comparisons agree on numbers `a` and `b`: each gives `true` or `false` without a
/// diagnostic, `<` by the order of the numbers and `==` by the equality of the constants, and each
/// of the others is the opposite or the mirror image of one of these.
pub proof fn comparison_calls_agree(
    c: EvalEnv,
    s: EvalState,
    a: ConstView,
    b: ConstView,
    lt: ExprFunctionCall,
    le: ExprFunctionCall,
    gt: ExprFunctionCall,
    ge: ExprFunctionCall,
    eq: ExprFunctionCall,
    ne: ExprFunctionCall,
)
    requires
        c.wf(),
        calls(c, lt, c.db.core_info.lt_fn),
        calls(c, le, c.db.core_info.le_fn),
        calls(c, gt, c.db.core_info.gt_fn),
        calls(c, ge, c.db.core_info.ge_fn),
        calls(c, eq, c.db.core_info.eq_fn),
        calls(c, ne, c.db.core_info.ne_fn),
        NumericArg::spec_try_new(c.db, a) is Some,
        NumericArg::spec_try_new(c.db, b) is Some,
    ensures
        ({
            let less = (NumericArg::spec_try_new(c.db, a)->Some_0).0 < (NumericArg::spec_try_new(
                c.db,
                b,
            )->Some_0).0;
            let greater = (NumericArg::spec_try_new(c.db, b)->Some_0).0 < (NumericArg::spec_try_new(
                c.db,
                a,
            )->Some_0).0;
            &&& eval_call(c, s, lt, seq![a, b]) == gives(c, s, less)
            &&& eval_call(c, s, ge, seq![a, b]) == gives(c, s, !less)
            &&& eval_call(c, s, gt, seq![a, b]) == gives(c, s, greater)
            &&& eval_call(c, s, le, seq![a, b]) == gives(c, s, !greater)
            &&& eval_call(c, s, eq, seq![a, b]) == gives(c, s, a == b)
            &&& eval_call(c, s, ne, seq![a, b]) == gives(c, s, a != b)
            &&& eval_call(c, s, gt, seq![b, a]) == eval_call(c, s, lt, seq![a, b])
            &&& eval_call(c, s, eq, seq![b, a]) == eval_call(c, s, eq, seq![a, b])
            &&& gives(c, s, true) != gives(c, s, false)
        }),
{
    let core = c.db.core_info;
    lemma_two_numbers(c.db, a, b);
    lemma_two_numbers(c.db, b, a);
    lemma_core_functions(core);
    lemma_core_call(c, s, lt, seq![a, b], core.lt_fn);
    lemma_core_call(c, s, le, seq![a, b], core.le_fn);
    lemma_core_call(c, s, gt, seq![a, b], core.gt_fn);
    lemma_core_call(c, s, gt, seq![b, a], core.gt_fn);
    lemma_core_call(c, s, ge, seq![a, b], core.ge_fn);
    lemma_core_call(c, s, eq, seq![a, b], core.eq_fn);
    lemma_core_call(c, s, eq, seq![b, a], core.eq_fn);
    lemma_core_call(c, s, ne, seq![a, b], core.ne_fn);
    lemma_comparison(c, s, seq![a, b], core.lt_fn, 12, lt);
    lemma_comparison(c, s, seq![a, b], core.le_fn, 13, le);
    lemma_comparison(c, s, seq![a, b], core.gt_fn, 14, gt);
    lemma_comparison(c, s, seq![b, a], core.gt_fn, 14, gt);
    lemma_comparison(c, s, seq![a, b], core.ge_fn, 15, ge);
    assert(core.functions()[12] == core.lt_fn);
    assert(core.functions()[13] == core.le_fn);
    assert(core.functions()[14] == core.gt_fn);
    assert(core.functions()[15] == core.ge_fn);
    assert(bool_view(c.db, true)->Enum_0 != bool_view(c.db, false)->Enum_0);
}

/// The result of a calculation that gives `true` or `false`.
pub open spec fn gives(c: EvalEnv, s: EvalState, value: bool) -> Step<ConstView> {
    Ok((s, bool_view(c.db, value)))
}

proof fn lemma_comparison(
    c: EvalEnv,
    s: EvalState,
    args: Seq<ConstView>,
    function: TraitFunctionId,
    place: int,
    call: ExprFunctionCall,
)
    requires
        c.db.core_info.wf(),
        12 <= place < 16,
        c.db.core_info.functions()[place] == function,
        numeric_args(c.db, args) matches Some(numbers) && numbers.len() == 2,
    ensures
        eval_trait_call(c, s, function, args, call) == gives(
            c,
            s,
            comparison_result(
                c.db.core_info,
                function,
                (numeric_args(c.db, args)->Some_0)[0].0,
                (numeric_args(c.db, args)->Some_0)[1].0,
            )->Some_0,
        ),
{
    let core = c.db.core_info;
    assert(core.functions()[0] == core.neg_fn);
    assert(core.functions()[1] == core.add_fn);
    assert(core.functions()[2] == core.sub_fn);
    assert(core.functions()[3] == core.mul_fn);
    assert(core.functions()[4] == core.div_fn);
    assert(core.functions()[5] == core.rem_fn);
    assert(core.functions()[6] == core.div_rem_fn);
    assert(core.functions()[7] == core.bitand_fn);
    assert(core.functions()[8] == core.bitor_fn);
    assert(core.functions()[9] == core.bitxor_fn);
    assert(core.functions()[10] == core.eq_fn);
    assert(core.functions()[11] == core.ne_fn);
    assert(core.functions()[12] == core.lt_fn);
    assert(core.functions()[13] == core.le_fn);
    assert(core.functions()[14] == core.gt_fn);
    assert(core.functions()[15] == core.ge_fn);
    assert(core.functions()[16] == core.not_fn);
}

/// `!=` is the opposite of `==`.
pub proof fn eq_and_ne_are_opposite(
    c: EvalEnv,
    s: EvalState,
    args: Seq<ConstView>,
    eq: ExprFunctionCall,
    ne: ExprFunctionCall,
)
    requires
        c.wf(),
        calls(c, eq, c.db.core_info.eq_fn),
        calls(c, ne, c.db.core_info.ne_fn),
        args.len() >= 2,
    ensures
        eval_call(c, s, eq, args) == gives(c, s, args[0] == args[1]),
        eval_call(c, s, ne, args) == gives(c, s, args[0] != args[1]),
{
    lemma_core_functions(c.db.core_info);
    lemma_core_call(c, s, eq, args, c.db.core_info.eq_fn);
    lemma_core_call(c, s, ne, args, c.db.core_info.ne_fn);
}

/// A call of an extern function that is known as a downcast is one: it is no other cast.
pub proof fn downcast_calls_are_downcasts(
    c: EvalEnv,
    id: u64,
    value: int,
    from: TypeId,
    call: ExprFunctionCall,
)
    requires
        c.wf(),
        flags(c.info.downcast_fns).contains_key(id),
        c.substitution.substitute_type(call.ty) is Ok,
    ensures
        eval_extern_call(c, id, seq![ConstView::Int(value, from)], call) == eval_downcast(
            c,
            flags(c.info.downcast_fns)[id],
            value,
            c.substitution.substitute_type(call.ty)->Ok_0,
        ),
{
    assert(!ids(c.info.upcast_fns).contains(id));
}

/// A value that fits the type of the success variant is given back by a downcast.
pub proof fn downcasts_keep_values_that_fit(
    c: EvalEnv,
    enm: ConcreteEnumId,
    variants: Seq<ConcreteVariant>,
    value: int,
    ty: TypeId,
    reversed: bool,
)
    requires
        c.db.spec_type_enum(ty) == Some(enm),
        c.db.spec_enum_variants(enm) == Ok::<Seq<ConcreteVariant>, DiagnosticAdded>(variants),
        variants.len() == 2,
        c.db.spec_validate_literal(
            variants[if reversed {
                1
            } else {
                0int
            }].ty,
            value,
        ) is Ok,
    ensures
        ({
            let some = variants[if reversed {
                1
            } else {
                0int
            }];
            eval_downcast(c, reversed, value, ty) == Ok::<Option<ConstView>, Fault>(
                Some(ConstView::Enum(some, Box::new(ConstView::Int(value, some.ty)))),
            )
        }),
{
}

/// The step gives the number in the type of the call where the type has it as a literal; else the
/// number is reported at the call, and there is no value.
pub open spec fn gives_number(
    c: EvalEnv,
    s: EvalState,
    call: ExprFunctionCall,
    number: int,
    step: Step<ConstView>,
) -> bool {
    match (step, c.db.spec_validate_literal(call.ty, number)) {
        (Ok((t, value)), Ok(_)) => {
            &&& t == s
            &&& spec_numeric_arg_value(value) == Some(number)
            &&& c.db.spec_const_ty(value) == Ok::<TypeId, DiagnosticAdded>(call.ty)
        },
        (Ok((t, value)), Err(err)) => {
            &&& value == ConstView::Missing
            &&& t.vars == s.vars
            &&& t.diagnostics == s.diagnostics.push(
                DiagnosticView {
                    stable_ptr: call.stable_ptr,
                    kind: KindView::LiteralError(err),
                },
            )
        },
        _ => false,
    }
}

/// The step gives the exact result of a calculation; for `felt252`, what the prime leaves of it,
/// with the sign of the result.
pub open spec fn gives_exactly(
    c: EvalEnv,
    s: EvalState,
    call: ExprFunctionCall,
    exact: int,
    step: Step<ConstView>,
) -> bool {
    if call.ty != c.db.core_info.felt252 {
        gives_number(c, s, call, exact, step)
    } else {
        exists|number: int|
            {
                &&& #[trigger] gives_number(c, s, call, number, step)
                &&& (exact - number) % felt252_prime() == 0
                &&& -felt252_prime() < number < felt252_prime()
                &&& exact >= 0 ==> number >= 0
                &&& exact <= 0 ==> number <= 0
            }
    }
}

proof fn lemma_fit_result(c: EvalEnv, s: EvalState, exact: int, call: ExprFunctionCall)
    ensures
        gives_exactly(c, s, call, exact, fit_result(c, s, exact, call)),
{
    let p = felt252_prime();
    let number = if call.ty == c.db.core_info.felt252 {
        remainder(exact, p)
    } else {
        exact
    };
    if spec_value_as_const_value(c.db, call.ty, number) is Ok {
        numeric_value_of_const_value(c.db, call.ty, number);
        const_value_has_its_type(c.db, call.ty, number);
    }
    assert(gives_number(c, s, call, number, fit_result(c, s, exact, call)));
    if call.ty == c.db.core_info.felt252 {
        division_adds_up(exact, p);
        let q = quotient(exact, p);
        vstd::arithmetic::div_mod::lemma_mod_multiples_basic(q, p);
        assert(exact - number == q * p) by (nonlinear_arith)
            requires
                number == exact - p * q,
        ;
    }
}

proof fn lemma_arithmetic(
    c: EvalEnv,
    s: EvalState,
    args: Seq<ConstView>,
    function: TraitFunctionId,
    place: int,
    call: ExprFunctionCall,
)
    requires
        c.db.core_info.wf(),
        0 <= place < 10,
        place != 4,
        place != 5,
        place != 6,
        c.db.core_info.functions()[place] == function,
        numeric_args(c.db, args) matches Some(numbers) && numbers.len() >= 1 && (place > 0
            ==> numbers.len() == 2),
    ensures
        ({
            let numbers = numeric_args(c.db, args)->Some_0;
            let x = numbers[0].0;
            let y = numbers[1].0;
            let exact = if place == 0 {
                -x
            } else if place == 1 {
                x + y
            } else if place == 2 {
                x - y
            } else if place == 3 {
                x * y
            } else if place == 7 {
                bits_and(x, y)
            } else if place == 8 {
                bits_or(x, y)
            } else {
                bits_xor(x, y)
            };
            eval_trait_call(c, s, function, args, call) == fit_result(c, s, exact, call)
        }),
{
    let core = c.db.core_info;
    assert(core.functions()[0] == core.neg_fn);
    assert(core.functions()[1] == core.add_fn);
    assert(core.functions()[2] == core.sub_fn);
    assert(core.functions()[3] == core.mul_fn);
    assert(core.functions()[4] == core.div_fn);
    assert(core.functions()[5] == core.rem_fn);
    assert(core.functions()[6] == core.div_rem_fn);
    assert(core.functions()[7] == core.bitand_fn);
    assert(core.functions()[8] == core.bitor_fn);
    assert(core.functions()[9] == core.bitxor_fn);
    assert(core.functions()[10] == core.eq_fn);
    assert(core.functions()[11] == core.ne_fn);
    assert(core.functions()[16] == core.not_fn);
}

/// The calls of `+`, `-` and `*` on numbers give the exact sum, difference and product.
pub proof fn arithmetic_calls_are_exact(
    c: EvalEnv,
    s: EvalState,
    a: ConstView,
    b: ConstView,
    plus: ExprFunctionCall,
    minus: ExprFunctionCall,
    times: ExprFunctionCall,
)
    requires
        c.wf(),
        calls(c, plus, c.db.core_info.add_fn),
        calls(c, minus, c.db.core_info.sub_fn),
        calls(c, times, c.db.core_info.mul_fn),
        NumericArg::spec_try_new(c.db, a) is Some,
        NumericArg::spec_try_new(c.db, b) is Some,
    ensures
        ({
            let x = (NumericArg::spec_try_new(c.db, a)->Some_0).0;
            let y = (NumericArg::spec_try_new(c.db, b)->Some_0).0;
            &&& gives_exactly(c, s, plus, x + y, eval_call(c, s, plus, seq![a, b]))
            &&& gives_exactly(c, s, minus, x - y, eval_call(c, s, minus, seq![a, b]))
            &&& gives_exactly(c, s, times, x * y, eval_call(c, s, times, seq![a, b]))
        }),
{
    let core = c.db.core_info;
    let x = (NumericArg::spec_try_new(c.db, a)->Some_0).0;
    let y = (NumericArg::spec_try_new(c.db, b)->Some_0).0;
    lemma_two_numbers(c.db, a, b);
    lemma_core_call(c, s, plus, seq![a, b], core.add_fn);
    lemma_core_call(c, s, minus, seq![a, b], core.sub_fn);
    lemma_core_call(c, s, times, seq![a, b], core.mul_fn);
    assert(core.functions()[1] == core.add_fn);
    assert(core.functions()[2] == core.sub_fn);
    assert(core.functions()[3] == core.mul_fn);
    lemma_arithmetic(c, s, seq![a, b], core.add_fn, 1, plus);
    lemma_arithmetic(c, s, seq![a, b], core.sub_fn, 2, minus);
    lemma_arithmetic(c, s, seq![a, b], core.mul_fn, 3, times);
    lemma_fit_result(c, s, x + y, plus);
    lemma_fit_result(c, s, x - y, minus);
    lemma_fit_result(c, s, x * y, times);
}

/// The call of `-` on one number gives its opposite.
pub proof fn negation_calls_are_exact(
    c: EvalEnv,
    s: EvalState,
    a: ConstView,
    neg: ExprFunctionCall,
)
    requires
        c.wf(),
        calls(c, neg, c.db.core_info.neg_fn),
        NumericArg::spec_try_new(c.db, a) is Some,
    ensures
        gives_exactly(
            c,
            s,
            neg,
            -(NumericArg::spec_try_new(c.db, a)->Some_0).0,
            eval_call(c, s, neg, seq![a]),
        ),
{
    let core = c.db.core_info;
    assert(core.functions()[0] == core.neg_fn);
    lemma_core_call(c, s, neg, seq![a], core.neg_fn);
    assert(numeric_args(c.db, seq![a]) is Some);
    assert(numeric_args(c.db, seq![a])->Some_0[0] == NumericArg::spec_try_new(c.db, a)->Some_0);
    lemma_arithmetic(c, s, seq![a], core.neg_fn, 0, neg);
    lemma_fit_result(c, s, -(NumericArg::spec_try_new(c.db, a)->Some_0).0, neg);
}

/// The step gives the number with these bits.
pub open spec fn gives_bits(
    c: EvalEnv,
    s: EvalState,
    call: ExprFunctionCall,
    bits: spec_fn(nat) -> bool,
    step: Step<ConstView>,
) -> bool {
    exists|n: int| #[trigger]
        gives_exactly(c, s, call, n, step) && forall|i: nat| #[trigger] bit(n, i) == bits(i)
}

/// The calls of `&`, `|` and `^` on numbers give the number whose bits are set where those of both,
/// of one, or of exactly one of the numbers are.
pub proof fn bitwise_calls_combine_bits(
    c: EvalEnv,
    s: EvalState,
    a: ConstView,
    b: ConstView,
    both: ExprFunctionCall,
    one: ExprFunctionCall,
    exactly_one: ExprFunctionCall,
)
    requires
        c.wf(),
        calls(c, both, c.db.core_info.bitand_fn),
        calls(c, one, c.db.core_info.bitor_fn),
        calls(c, exactly_one, c.db.core_info.bitxor_fn),
        NumericArg::spec_try_new(c.db, a) is Some,
        NumericArg::spec_try_new(c.db, b) is Some,
    ensures
        ({
            let x = (NumericArg::spec_try_new(c.db, a)->Some_0).0;
            let y = (NumericArg::spec_try_new(c.db, b)->Some_0).0;
            &&& gives_bits(
                c,
                s,
                both,
                |i: nat| bit(x, i) && bit(y, i),
                eval_call(c, s, both, seq![a, b]),
            )
            &&& gives_bits(
                c,
                s,
                one,
                |i: nat| bit(x, i) || bit(y, i),
                eval_call(c, s, one, seq![a, b]),
            )
            &&& gives_bits(
                c,
                s,
                exactly_one,
                |i: nat| bit(x, i) != bit(y, i),
                eval_call(c, s, exactly_one, seq![a, b]),
            )
        }),
{
    let core = c.db.core_info;
    let x = (NumericArg::spec_try_new(c.db, a)->Some_0).0;
    let y = (NumericArg::spec_try_new(c.db, b)->Some_0).0;
    lemma_two_numbers(c.db, a, b);
    lemma_core_call(c, s, both, seq![a, b], core.bitand_fn);
    lemma_core_call(c, s, one, seq![a, b], core.bitor_fn);
    lemma_core_call(c, s, exactly_one, seq![a, b], core.bitxor_fn);
    assert(core.functions()[7] == core.bitand_fn);
    assert(core.functions()[8] == core.bitor_fn);
    assert(core.functions()[9] == core.bitxor_fn);
    lemma_arithmetic(c, s, seq![a, b], core.bitand_fn, 7, both);
    lemma_arithmetic(c, s, seq![a, b], core.bitor_fn, 8, one);
    lemma_arithmetic(c, s, seq![a, b], core.bitxor_fn, 9, exactly_one);
    lemma_fit_result(c, s, bits_and(x, y), both);
    lemma_fit_result(c, s, bits_or(x, y), one);
    lemma_fit_result(c, s, bits_xor(x, y), exactly_one);
    assert forall|i: nat| #[trigger] bit(bits_and(x, y), i) == (bit(x, i) && bit(y, i)) by {
        bitwise_results_have_their_bits(x, y, i);
    }
    assert forall|i: nat| #[trigger] bit(bits_or(x, y), i) == (bit(x, i) || bit(y, i)) by {
        bitwise_results_have_their_bits(x, y, i);
    }
    assert forall|i: nat| #[trigger] bit(bits_xor(x, y), i) == (bit(x, i) != bit(y, i)) by {
        bitwise_results_have_their_bits(x, y, i);
    }
    assert(gives_exactly(c, s, both, bits_and(x, y), eval_call(c, s, both, seq![a, b])));
    assert(gives_exactly(c, s, one, bits_or(x, y), eval_call(c, s, one, seq![a, b])));
    assert(gives_exactly(
        c,
        s,
        exactly_one,
        bits_xor(x, y),
        eval_call(c, s, exactly_one, seq![a, b]),
    ));
}

/// `/` and `%` by zero are reported at the call, and have no value.
pub proof fn divisions_by_zero_are_reported(
    c: EvalEnv,
    s: EvalState,
    a: ConstView,
    b: ConstView,
    call: ExprFunctionCall,
)
    requires
        c.wf(),
        calls(c, call, c.db.core_info.div_fn) || calls(c, call, c.db.core_info.rem_fn),
        NumericArg::spec_try_new(c.db, a) is Some,
        NumericArg::spec_try_new(c.db, b) matches Some(number) && number.0 == 0,
    ensures
        eval_call(c, s, call, seq![a, b]) == Ok::<(EvalState, ConstView), Fault>(
            (
                EvalState {
                    vars: s.vars,
                    diagnostics: s.diagnostics.push(
                        DiagnosticView {
                            stable_ptr: call.stable_ptr,
                            kind: KindView::DivisionByZero,
                        },
                    ),
                },
                ConstView::Missing,
            ),
        ),
{
    let core = c.db.core_info;
    lemma_two_numbers(c.db, a, b);
    lemma_core_functions(core);
    if calls(c, call, core.div_fn) {
        lemma_core_call(c, s, call, seq![a, b], core.div_fn);
    } else {
        lemma_core_call(c, s, call, seq![a, b], core.rem_fn);
    }
}

/// The call of `!` gives the opposite boolean.
pub proof fn not_gives_the_opposite(
    c: EvalEnv,
    s: EvalState,
    value: bool,
    call: ExprFunctionCall,
)
    requires
        c.wf(),
        calls(c, call, c.db.core_info.not_fn),
    ensures
        eval_call(c, s, call, seq![bool_view(c.db, value)]) == gives(c, s, !value),
{
    let core = c.db.core_info;
    lemma_core_call(c, s, call, seq![bool_view(c.db, value)], core.not_fn);
    assert(core.functions()[10] == core.eq_fn);
    assert(core.functions()[11] == core.ne_fn);
    assert(core.functions()[16] == core.not_fn);
    assert(bool_view(c.db, true)->Enum_0 != bool_view(c.db, false)->Enum_0);
}

/// The call is one of the extern function.
pub open spec fn calls_extern(c: EvalEnv, call: ExprFunctionCall, id: u64, ty: TypeId) -> bool {
    &&& call.function != c.info.panic_with_felt252
    &&& c.substitution.substitute_function(call.function) matches Ok(function)
    &&& c.db.functions@[function.0 as int].generic_function matches GenericFunctionId::Extern {
        id: found,
        ..
    }
    &&& found.0 == id
    &&& c.substitution.substitute_type(call.ty) == Ok::<TypeId, DiagnosticAdded>(ty)
}

/// An upcast keeps the number, and gives it the type of the call.
pub proof fn upcasts_keep_the_number(
    c: EvalEnv,
    s: EvalState,
    call: ExprFunctionCall,
    id: u64,
    value: int,
    from: TypeId,
    ty: TypeId,
)
    requires
        calls_extern(c, call, id, ty),
        ids(c.info.upcast_fns).contains(id),
    ensures
        eval_call(c, s, call, seq![ConstView::Int(value, from)]) == Ok::<
            (EvalState, ConstView),
            Fault,
        >((s, ConstView::Int(value, ty))),
{
    reveal_with_fuel(eval_call, 2);
    reveal_with_fuel(eval_const_call, 2);
}

/// Unwrapping a `NonZero` gives what it wraps.
pub proof fn unwrapping_gives_what_is_wrapped(
    c: EvalEnv,
    s: EvalState,
    call: ExprFunctionCall,
    value: ConstView,
    ty: TypeId,
)
    requires
        c.wf(),
        calls_extern(c, call, c.info.unwrap_non_zero.0, ty),
    ensures
        eval_call(c, s, call, seq![ConstView::NonZero(Box::new(value))]) == Ok::<
            (EvalState, ConstView),
            Fault,
        >((s, value)),
{
    reveal_with_fuel(eval_call, 2);
    reveal_with_fuel(eval_const_call, 2);
}

/// A downcast gives the number in the variant for success where its type has the number as a
/// literal, and else the unit in the other variant. The variant for success is the first one, or
/// the second one where the function returns a reversed `Option`.
pub proof fn downcasts_give_numbers_that_fit(
    c: EvalEnv,
    s: EvalState,
    call: ExprFunctionCall,
    id: u64,
    value: int,
    from: TypeId,
    ty: TypeId,
    enm: ConcreteEnumId,
    first: ConcreteVariant,
    second: ConcreteVariant,
)
    requires
        c.wf(),
        calls_extern(c, call, id, ty),
        flags(c.info.downcast_fns).contains_key(id),
        c.db.spec_type_enum(ty) == Some(enm),
        c.db.spec_enum_variants(enm) == Ok::<Seq<ConcreteVariant>, DiagnosticAdded>(
            seq![first, second],
        ),
    ensures
        ({
            let (success, failure) = if flags(c.info.downcast_fns)[id] {
                (second, first)
            } else {
                (first, second)
            };
            let result = eval_call(c, s, call, seq![ConstView::Int(value, from)]);
            match c.db.spec_validate_literal(success.ty, value) {
                Ok(_) => result == Ok::<(EvalState, ConstView), Fault>(
                    (
                        s,
                        ConstView::Enum(success, Box::new(ConstView::Int(value, success.ty))),
                    ),
                ),
                Err(LiteralError::OutOfRange(_)) => result == Ok::<(EvalState, ConstView), Fault>(
                    (
                        s,
                        ConstView::Enum(
                            failure,
                            Box::new(ConstView::Struct(Seq::empty(), c.db.core_info.unit)),
                        ),
                    ),
                ),
                Err(LiteralError::InvalidTypeForLiteral(_)) => result == Err::<
                    (EvalState, ConstView),
                    Fault,
                >(Fault::InvalidDowncastType),
            }
        }),
{
    reveal_with_fuel(eval_call, 2);
    reveal_with_fuel(eval_const_call, 2);
    assert(!ids(c.info.upcast_fns).contains(id));
}

/// A function that is neither constant nor one of a trait cannot be calculated.
pub proof fn other_functions_cannot_be_calculated(
    c: EvalEnv,
    s: EvalState,
    call: ExprFunctionCall,
    args: Seq<ConstView>,
    function: FunctionId,
)
    requires
        call.function != c.info.panic_with_felt252,
        c.substitution.substitute_function(call.function) == Ok::<FunctionId, DiagnosticAdded>(
            function,
        ),
        c.db.functions@[function.0 as int].generic_function is Free,
        !has_const_body(c.db.functions@[function.0 as int]),
    ensures
        eval_call(c, s, call, args) == Err::<(EvalState, ConstView), Fault>(
            Fault::NotAnImplFunction,
        ),
{
    reveal_with_fuel(eval_call, 2);
    reveal_with_fuel(eval_const_call, 2);
}

/// A core operator on what is no number has no value, and changes nothing.
pub proof fn operators_on_other_values_have_no_value(
    c: EvalEnv,
    s: EvalState,
    call: ExprFunctionCall,
    args: Seq<ConstView>,
    function: TraitFunctionId,
    at: int,
)
    requires
        calls(c, call, function),
        function != c.db.core_info.eq_fn,
        function != c.db.core_info.ne_fn,
        function != c.db.core_info.not_fn,
        0 <= at < args.len(),
        NumericArg::spec_try_new(c.db, args[at]) is None,
    ensures
        eval_call(c, s, call, args) == Ok::<(EvalState, ConstView), Fault>((s, ConstView::Missing)),
{
    lemma_core_call(c, s, call, args, function);
    assert(NumericArg::spec_try_new(c.db, args[at]) is None);
}

/// A core operator with too few arguments cannot be calculated.
pub proof fn operators_need_their_arguments(
    c: EvalEnv,
    s: EvalState,
    call: ExprFunctionCall,
    a: ConstView,
    function: TraitFunctionId,
)
    requires
        c.wf(),
        calls(c, call, function),
        NumericArg::spec_try_new(c.db, a) is Some,
    ensures
        eval_call(c, s, call, Seq::empty()) == Err::<(EvalState, ConstView), Fault>(
            Fault::MissingArgument,
        ),
        function != c.db.core_info.neg_fn && function != c.db.core_info.not_fn ==> eval_call(
            c,
            s,
            call,
            seq![a],
        ) == Err::<(EvalState, ConstView), Fault>(Fault::MissingArgument),
{
    let core = c.db.core_info;
    lemma_core_call(c, s, call, Seq::empty(), function);
    lemma_core_call(c, s, call, seq![a], function);
    assert(numeric_args(c.db, Seq::empty()) is Some);
    assert(numeric_args(c.db, seq![a]) is Some);
    assert(core.functions()[0] == core.neg_fn);
    assert(core.functions()[10] == core.eq_fn);
    assert(core.functions()[11] == core.ne_fn);
    assert(core.functions()[16] == core.not_fn);
}

/// `div_rem` by zero cannot be calculated, and neither can functions of other traits.
pub proof fn what_operators_cannot_calculate(
    c: EvalEnv,
    s: EvalState,
    call: ExprFunctionCall,
    a: ConstView,
    b: ConstView,
    function: TraitFunctionId,
)
    requires
        c.wf(),
        calls(c, call, function),
        NumericArg::spec_try_new(c.db, a) is Some,
        NumericArg::spec_try_new(c.db, b) is Some,
    ensures
        function == c.db.core_info.div_rem_fn && (NumericArg::spec_try_new(c.db, b)->Some_0).0 == 0
            ==> eval_call(c, s, call, seq![a, b]) == Err::<(EvalState, ConstView), Fault>(
            Fault::DivisionByZero,
        ),
        !c.db.core_info.functions().contains(function) ==> eval_call(c, s, call, seq![a, b])
            == Err::<(EvalState, ConstView), Fault>(Fault::UnexpectedFunction),
{
    let core = c.db.core_info;
    let (x, ty) = NumericArg::spec_try_new(c.db, a)->Some_0;
    let y = (NumericArg::spec_try_new(c.db, b)->Some_0).0;
    lemma_core_call(c, s, call, seq![a, b], function);
    lemma_two_numbers(c.db, a, b);
    if function == core.div_rem_fn {
        lemma_div_rem_call(c, s, seq![a, b], x, ty, y, call);
    }
    if !core.functions().contains(function) {
        assert(core.functions()[0] == core.neg_fn);
        assert(core.functions()[1] == core.add_fn);
        assert(core.functions()[2] == core.sub_fn);
        assert(core.functions()[3] == core.mul_fn);
        assert(core.functions()[4] == core.div_fn);
        assert(core.functions()[5] == core.rem_fn);
        assert(core.functions()[6] == core.div_rem_fn);
        assert(core.functions()[7] == core.bitand_fn);
        assert(core.functions()[8] == core.bitor_fn);
        assert(core.functions()[9] == core.bitxor_fn);
        assert(core.functions()[10] == core.eq_fn);
        assert(core.functions()[11] == core.ne_fn);
        assert(core.functions()[12] == core.lt_fn);
        assert(core.functions()[13] == core.le_fn);
        assert(core.functions()[14] == core.gt_fn);
        assert(core.functions()[15] == core.ge_fn);
        assert(core.functions()[16] == core.not_fn);
    }
}

/// Casts of what is no number, the unwrapping of what is no `NonZero`, and calls of other extern
/// functions cannot be calculated.
pub proof fn what_extern_functions_cannot_calculate(
    c: EvalEnv,
    s: EvalState,
    call: ExprFunctionCall,
    id: u64,
    value: ConstView,
    ty: TypeId,
)
    requires
        c.wf(),
        calls_extern(c, call, id, ty),
    ensures
        (ids(c.info.upcast_fns).contains(id) || flags(c.info.downcast_fns).contains_key(id)) && !(
        value is Int) ==> eval_call(c, s, call, seq![value]) == Err::<
            (EvalState, ConstView),
            Fault,
        >(Fault::NotAnImplFunction),
        c.info.unwrap_non_zero.0 == id && !(value is NonZero) ==> eval_call(
            c,
            s,
            call,
            seq![value],
        ) == Err::<(EvalState, ConstView), Fault>(Fault::NotAnImplFunction),
        !ids(c.info.upcast_fns).contains(id) && !flags(c.info.downcast_fns).contains_key(id)
            && c.info.unwrap_non_zero.0 != id ==> eval_call(c, s, call, seq![value]) == Err::<
            (EvalState, ConstView),
            Fault,
        >(Fault::UnexpectedExternFunction),
{
    reveal_with_fuel(eval_call, 2);
    reveal_with_fuel(eval_const_call, 2);
}

} // verus!
