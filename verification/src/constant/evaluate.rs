//! The calculation of constant expressions.
use vstd::prelude::*;

use crate::constant::call::is_step;
use crate::constant::context::{var_views, ConstantEvaluateContext};
use crate::constant::literal::value_as_const_value;
use crate::constant::semantics::{
    arm_takes_variant, call_state, ctor_order, ctor_place, diagnostic_at_call, diagnostics_at_call,
    eval, eval_arm, eval_condition, eval_conditions, eval_const_call, eval_function_call, eval_list,
    eval_member_access, eval_statements, eval_struct, expr_for, is_variant, param_values,
    pattern_choice, repeat, takes_variant, value_args, variant_inner, Conditions, EvalEnv,
    EvalState, Fault, MAX_CONST_EVAL_DEPTH,
};
use crate::constant::value::{lemma_struct_view, views, ConstValue, ConstView};
use crate::containers::{bindings, get_binding, new_bindings, set_binding, Bindings};
use crate::search::{first_where, keyed, lemma_first_where};
use crate::semantic::db::GenericFunctionId;
use crate::semantic::diagnostics::{
    diagnostic_views, DiagnosticNote, DiagnosticView, SemanticDiagnostic, SemanticDiagnosticKind,
    SemanticDiagnostics,
};
use crate::semantic::exprs::{
    Arenas, Condition, Expr, ExprFunctionCall, ExprFunctionCallArg, ExprMatch, ExprMemberAccess,
    ExprStructCtor, FixedSizeArrayItems, LogicalOperator, Pattern, Statement,
};
use crate::semantic::ids::{
    skip_diagnostic, ConcreteVariant, ExprId, FunctionId, Maybe, MemberId, PatternId, StatementId,
    SyntaxStablePtrId, TypeId, VarId,
};
use crate::text::concat3;

verus! {

/// A list that fails at some place fails in the same way as a whole.
proof fn lemma_list_fault(
    c: EvalEnv,
    s: EvalState,
    exprs: Seq<ExprId>,
    bound: nat,
    n: nat,
    m: nat,
)
    requires
        n <= m,
        eval_list(c, s, exprs, bound, n) is Err,
    ensures
        eval_list(c, s, exprs, bound, m) == eval_list(c, s, exprs, bound, n),
    decreases m - n,
{
    if n < m {
        lemma_list_fault(c, s, exprs, bound, n, (m - 1) as nat);
    }
}

/// Statements that fail at some place fail in the same way as a whole.
proof fn lemma_statements_fault(
    c: EvalEnv,
    s: EvalState,
    statements: Seq<StatementId>,
    bound: nat,
    n: nat,
    m: nat,
)
    requires
        n <= m,
        eval_statements(c, s, statements, bound, n) is Err,
    ensures
        eval_statements(c, s, statements, bound, m) == eval_statements(c, s, statements, bound, n),
    decreases m - n,
{
    if n < m {
        lemma_statements_fault(c, s, statements, bound, n, (m - 1) as nat);
    }
}

/// The conditions after one that does not hold are not looked at.
proof fn lemma_conditions_stop(
    c: EvalEnv,
    s: EvalState,
    conditions: Seq<Condition>,
    bound: nat,
    n: nat,
    m: nat,
)
    requires
        n <= m,
        eval_conditions(c, s, conditions, bound, n) matches Ok((_, outcome)) ==> !(outcome is Hold),
    ensures
        eval_conditions(c, s, conditions, bound, m) == eval_conditions(c, s, conditions, bound, n),
    decreases m - n,
{
    if n < m {
        lemma_conditions_stop(c, s, conditions, bound, n, (m - 1) as nat);
    }
}

/// What a diagnostic of the body of a called function becomes at the call.
fn wrap_diagnostic(
    diagnostic: SemanticDiagnostic,
    stable_ptr: SyntaxStablePtrId,
    full_path: &str,
) -> (r: SemanticDiagnosticKind)
    ensures
        diagnostic_at_call(diagnostic@, stable_ptr, full_path@) == (DiagnosticView {
            stable_ptr,
            kind: r@,
        }),
{
    let note = DiagnosticNote {
        text: concat3("In `", full_path, "`"),
        location: diagnostic.stable_ptr,
    };
    let ghost note_view = note@;
    match diagnostic.kind {
        SemanticDiagnosticKind::ConstantCalculationDepthExceeded =>
            SemanticDiagnosticKind::ConstantCalculationDepthExceeded,
        SemanticDiagnosticKind::InnerFailedConstantCalculation(inner_diag, inner_notes) => {
            let mut notes = inner_notes;
            notes.push(note);
            let r = SemanticDiagnosticKind::InnerFailedConstantCalculation(inner_diag, notes);
            assert(r@->InnerFailedConstantCalculation_1
                =~= diagnostic.kind@->InnerFailedConstantCalculation_1.push(note_view));
            r
        },
        kind => {
            let notes: Vec<DiagnosticNote> = vec![note];
            let inner = SemanticDiagnostic { stable_ptr: diagnostic.stable_ptr, kind };
            let r = SemanticDiagnosticKind::InnerFailedConstantCalculation(
                Box::new(inner),
                notes,
            );
            assert(r@->InnerFailedConstantCalculation_1 =~= seq![note_view]);
            r
        },
    }
}

/// The values of the parameters of a call.
fn bind_params(params: &Vec<u64>, args: &Vec<ConstValue>) -> (r: Bindings)
    ensures
        var_views(bindings(r)) == call_state(params@, views(args@)).vars,
{
    let mut vars = new_bindings();
    assert(var_views(bindings(vars)) =~= Map::empty());
    let mut i: usize = 0;
    while i < params.len() && i < args.len()
        invariant
            i <= params@.len(),
            i <= args@.len(),
            var_views(bindings(vars)) == param_values(params@, views(args@), i as nat),
        decreases params@.len() - i,
    {
        let ghost before = bindings(vars);
        let value = args[i].clone();
        set_binding(&mut vars, VarId::Param(params[i]).key(), value);
        i += 1;
        assert(var_views(bindings(vars)) =~= var_views(before).insert(
            (0u8, params@[i - 1]),
            views(args@)[i - 1],
        ));
    }
    vars
}

impl<'a> ConstantEvaluateContext<'a> {
    /// Adds the diagnostics of the body of a called function.
    fn extend_from_call(
        &mut self,
        inner: SemanticDiagnostics,
        stable_ptr: SyntaxStablePtrId,
        full_path: &str,
    )
        ensures
            final(self).env() == old(self).env(),
            final(self).state().vars == old(self).state().vars,
            final(self).state().diagnostics == old(self).state().diagnostics + diagnostics_at_call(
                inner@,
                stable_ptr,
                full_path@,
            ),
    {
        let entries = inner.into_entries();
        let ghost all = diagnostic_views(entries@);
        for entry in it: entries
            invariant
                self.env() == old(self).env(),
                self.state().vars == old(self).state().vars,
                all == diagnostic_views(it.seq()),
                self.state().diagnostics == old(self).state().diagnostics + diagnostics_at_call(
                    all,
                    stable_ptr,
                    full_path@,
                ).take(it.index() as int),
        {
            let kind = wrap_diagnostic(entry, stable_ptr, full_path);
            self.diagnostics.report(stable_ptr, kind);
            assert(all[it.index() as int] == entry@);
            assert(self.state().diagnostics =~= old(self).state().diagnostics + diagnostics_at_call(
                all,
                stable_ptr,
                full_path@,
            ).take(it.index() + 1));
        }
        assert(self.state().diagnostics =~= old(self).state().diagnostics + diagnostics_at_call(
            all,
            stable_ptr,
            full_path@,
        ));
    }

    /// Attempts to evaluate a constant function call.
    pub(crate) fn evaluate_const_function_call(
        &mut self,
        function_id: FunctionId,
        args: &Vec<ConstValue>,
        expr: &ExprFunctionCall,
    ) -> (r: Result<Option<ConstValue>, Fault>)
        requires
            old(self).env().wf(),
            function_id.0 < old(self).db.functions@.len(),
        ensures
            final(self).env() == old(self).env(),
            ({
                let step = eval_const_call(
                    old(self).env(),
                    old(self).state(),
                    function_id,
                    views(args@),
                    *expr,
                );
                match r {
                    Ok(Some(value)) => step == Ok::<(EvalState, Option<ConstView>), Fault>(
                        (final(self).state(), Some(value@)),
                    ),
                    Ok(None) => step == Ok::<(EvalState, Option<ConstView>), Fault>(
                        (final(self).state(), None),
                    ),
                    Err(fault) => step == Err::<(EvalState, Option<ConstView>), Fault>(fault),
                }
            }),
        decreases MAX_CONST_EVAL_DEPTH + 2 - old(self).depth, 0nat, 0nat, 0nat,
    {
        let db = self.db;
        let concrete_function = &db.functions[function_id.0];
        if let GenericFunctionId::Extern { id, .. } = &concrete_function.generic_function {
            return self.evaluate_extern_call(*id, args, expr);
        }
        let body = match &concrete_function.body {
            Ok(Some(body)) => body,
            _ => {
                return Ok(None);
            },
        };
        let signature = match &body.signature {
            Ok(signature) => signature,
            Err(_) => {
                return Ok(None);
            },
        };
        if !signature.is_const {
            return Ok(None);
        }
        let generic_substitution = match &body.substitution {
            Ok(substitution) => substitution,
            Err(_) => {
                return Ok(None);
            },
        };
        let function_body = match &body.body {
            Ok(function_body) => function_body,
            Err(_) => {
                return Ok(None);
            },
        };
        if self.depth > MAX_CONST_EVAL_DEPTH {
            return Ok(
                Some(
                    self.missing(
                        expr.stable_ptr,
                        SemanticDiagnosticKind::ConstantCalculationDepthExceeded,
                    ),
                ),
            );
        }
        let mut inner = ConstantEvaluateContext {
            db,
            info: self.info,
            arenas: &function_body.arenas,
            vars: bind_params(&signature.params, args),
            generic_substitution,
            depth: self.depth + 1,
            diagnostics: SemanticDiagnostics::new(),
        };
        let value = match inner.evaluate(function_body.body_expr) {
            Ok(value) => value,
            Err(fault) => {
                return Err(fault);
            },
        };
        self.extend_from_call(
            inner.diagnostics,
            expr.stable_ptr,
            concrete_function.full_path.as_str(),
        );
        Ok(Some(value))
    }

    /// The expressions of the arguments that are values.
    fn value_arguments(args: &Vec<ExprFunctionCallArg>, bound: usize) -> (r: Vec<ExprId>)
        requires
            forall|i: int|
                0 <= i < args@.len() ==> ((#[trigger] args@[i]) matches ExprFunctionCallArg::Value(
                    arg,
                ) ==> arg.0 < bound),
        ensures
            r@ == value_args(args@, args@.len()),
            forall|i: int| 0 <= i < r@.len() ==> (#[trigger] r@[i]).0 < bound,
    {
        let mut exprs: Vec<ExprId> = Vec::new();
        let mut i: usize = 0;
        while i < args.len()
            invariant
                i <= args@.len(),
                forall|i: int|
                    0 <= i < args@.len() ==> ((#[trigger] args@[i]) matches
                        ExprFunctionCallArg::Value(arg) ==> arg.0 < bound),
                exprs@ == value_args(args@, i as nat),
                forall|i: int| 0 <= i < exprs@.len() ==> (#[trigger] exprs@[i]).0 < bound,
            decreases args@.len() - i,
        {
            if let ExprFunctionCallArg::Value(arg) = &args[i] {
                exprs.push(*arg);
            }
            i += 1;
        }
        exprs
    }

    /// Attempts to evaluate constants from a const function call.
    pub(crate) fn evaluate_function_call(&mut self, expr: &ExprFunctionCall, bound: usize) -> (r:
        Result<ConstValue, Fault>)
        requires
            old(self).env().wf(),
            bound <= old(self).arenas.exprs@.len(),
            expr.function.0 < old(self).db.functions@.len(),
            forall|i: int|
                0 <= i < expr.args@.len() ==> ((#[trigger] expr.args@[i]) matches
                    ExprFunctionCallArg::Value(arg) ==> arg.0 < bound),
        ensures
            final(self).env() == old(self).env(),
            is_step(
                eval_function_call(old(self).env(), old(self).state(), *expr, bound as nat),
                final(self).state(),
                r,
            ),
        decreases MAX_CONST_EVAL_DEPTH + 2 - old(self).depth, bound, 1nat, 0nat,
    {
        proof {
            reveal_with_fuel(eval_function_call, 2);
        }
        let exprs = Self::value_arguments(&expr.args, bound);
        let args = match self.evaluate_list(&exprs, bound) {
            Ok(args) => args,
            Err(fault) => {
                return Err(fault);
            },
        };
        if expr.function == self.info.panic_with_felt252 {
            return Ok(
                self.missing(expr.stable_ptr, SemanticDiagnosticKind::FailedConstantCalculation),
            );
        }
        let db = self.db;
        let function_id = match self.generic_substitution.substitute_function(expr.function) {
            Ok(function_id) => function_id,
            Err(added) => {
                return Ok(ConstValue::Missing(added));
            },
        };
        proof {
            lemma_first_where(
                self.generic_substitution.functions@,
                keyed::<FunctionId, Maybe<FunctionId>>(expr.function),
                0,
            );
        }
        match self.evaluate_const_function_call(function_id, &args, expr) {
            Ok(Some(calc_result)) => {
                return Ok(calc_result);
            },
            Ok(None) => {},
            Err(fault) => {
                return Err(fault);
            },
        }
        match &db.functions[function_id.0].generic_function {
            GenericFunctionId::Impl(imp) => self.evaluate_trait_call(imp.function, &args, expr),
            _ => Err(Fault::NotAnImplFunction),
        }
    }

    /// Extract const member access from a const value.
    pub(crate) fn evaluate_member_access(&mut self, expr: &ExprMemberAccess, bound: usize) -> (r:
        Result<ConstValue, Fault>)
        requires
            old(self).env().wf(),
            bound <= old(self).arenas.exprs@.len(),
            expr.expr.0 < bound,
        ensures
            final(self).env() == old(self).env(),
            is_step(
                eval_member_access(old(self).env(), old(self).state(), *expr, bound as nat),
                final(self).state(),
                r,
            ),
        decreases MAX_CONST_EVAL_DEPTH + 2 - old(self).depth, bound, 1nat, 0nat,
    {
        proof {
            reveal_with_fuel(eval_member_access, 2);
        }
        match self.evaluate(expr.expr) {
            Ok(full_struct) => self.member(full_struct, expr),
            Err(fault) => Err(fault),
        }
    }

    /// Evaluates a list of expressions, one after the other.
    fn evaluate_list(&mut self, exprs: &Vec<ExprId>, bound: usize) -> (r: Result<
        Vec<ConstValue>,
        Fault,
    >)
        requires
            old(self).env().wf(),
            bound <= old(self).arenas.exprs@.len(),
            forall|i: int| 0 <= i < exprs@.len() ==> (#[trigger] exprs@[i]).0 < bound,
        ensures
            final(self).env() == old(self).env(),
            ({
                let step = eval_list(
                    old(self).env(),
                    old(self).state(),
                    exprs@,
                    bound as nat,
                    exprs@.len(),
                );
                match r {
                    Ok(values) => step == Ok::<(EvalState, Seq<ConstView>), Fault>(
                        (final(self).state(), views(values@)),
                    ),
                    Err(fault) => step == Err::<(EvalState, Seq<ConstView>), Fault>(fault),
                }
            }),
        decreases MAX_CONST_EVAL_DEPTH + 2 - old(self).depth, bound, 0nat, 0nat,
    {
        let ghost c = self.env();
        let ghost s = self.state();
        let mut values: Vec<ConstValue> = Vec::new();
        assert(views(values@) =~= Seq::empty());
        let mut i: usize = 0;
        while i < exprs.len()
            invariant
                i <= exprs@.len(),
                c.wf(),
                c == old(self).env(),
                s == old(self).state(),
                self.env() == c,
                bound <= c.arenas.exprs@.len(),
                forall|i: int| 0 <= i < exprs@.len() ==> (#[trigger] exprs@[i]).0 < bound,
                eval_list(c, s, exprs@, bound as nat, i as nat) == Ok::<
                    (EvalState, Seq<ConstView>),
                    Fault,
                >((self.state(), views(values@))),
            decreases exprs@.len() - i,
        {
            let ghost done = values@;
            proof {
                reveal_with_fuel(eval_list, 2);
            }
            match self.evaluate(exprs[i]) {
                Ok(value) => {
                    values.push(value);
                    assert(views(values@) =~= views(done).push(value@));
                },
                Err(fault) => {
                    proof {
                        lemma_list_fault(
                            c,
                            s,
                            exprs@,
                            bound as nat,
                            (i + 1) as nat,
                            exprs@.len(),
                        );
                    }
                    return Err(fault);
                },
            }
            i += 1;
        }
        Ok(values)
    }

    /// Evaluates the statements of a block.
    fn evaluate_statements(&mut self, statements: &Vec<StatementId>, bound: usize) -> (r: Result<
        (),
        Fault,
    >)
        requires
            old(self).env().wf(),
            bound <= old(self).arenas.exprs@.len(),
            forall|i: int|
                0 <= i < statements@.len() ==> old(self).arenas.statement_below(
                    #[trigger] statements@[i],
                    bound as int,
                ),
        ensures
            final(self).env() == old(self).env(),
            ({
                let step = eval_statements(
                    old(self).env(),
                    old(self).state(),
                    statements@,
                    bound as nat,
                    statements@.len(),
                );
                match r {
                    Ok(_) => step == Ok::<(EvalState, ()), Fault>((final(self).state(), ())),
                    Err(fault) => step == Err::<(EvalState, ()), Fault>(fault),
                }
            }),
        decreases MAX_CONST_EVAL_DEPTH + 2 - old(self).depth, bound, 0nat, 0nat,
    {
        let arenas = self.arenas;
        let ghost c = self.env();
        let ghost s = self.state();
        let mut i: usize = 0;
        while i < statements.len()
            invariant
                i <= statements@.len(),
                c.wf(),
                c == old(self).env(),
                s == old(self).state(),
                self.env() == c,
                *arenas == c.arenas,
                bound <= c.arenas.exprs@.len(),
                forall|i: int|
                    0 <= i < statements@.len() ==> c.arenas.statement_below(
                        #[trigger] statements@[i],
                        bound as int,
                    ),
                eval_statements(c, s, statements@, bound as nat, i as nat) == Ok::<
                    (EvalState, ()),
                    Fault,
                >((self.state(), ())),
            decreases statements@.len() - i,
        {
            proof {
                reveal_with_fuel(eval_statements, 2);
                if eval_statements(c, s, statements@, bound as nat, (i + 1) as nat) is Err {
                    lemma_statements_fault(
                        c,
                        s,
                        statements@,
                        bound as nat,
                        (i + 1) as nat,
                        statements@.len(),
                    );
                }
            }
            match &arenas.statements[statements[i].0] {
                Statement::Let { pattern, expr, .. } => {
                    match self.evaluate(*expr) {
                        Ok(value) => {
                            self.destructure_pattern(*pattern, &value);
                        },
                        Err(fault) => {
                            return Err(fault);
                        },
                    }
                },
                Statement::Expr { expr, .. } => {
                    match self.evaluate(*expr) {
                        Ok(_) => {},
                        Err(fault) => {
                            return Err(fault);
                        },
                    }
                },
                Statement::Other { stable_ptr } => {
                    self.report_unsupported(*stable_ptr);
                },
            }
            i += 1;
        }
        Ok(())
    }

    /// The first of the alternatives that takes the variant with the given place in its enum: the
    /// pattern for the value of the variant.
    fn find_alternative(arenas: &Arenas, patterns: &Vec<PatternId>, idx: usize) -> (r: Option<
        Option<PatternId>,
    >)
        requires
            forall|i: int|
                0 <= i < patterns@.len() ==> arenas.has_pattern(#[trigger] patterns@[i]),
        ensures
            match first_where(patterns@, takes_variant(*arenas, idx), 0) {
                Some(at) => 0 <= at < patterns@.len() && r == pattern_choice(
                    arenas.patterns@[patterns@[at].0 as int],
                    idx,
                ) && r is Some,
                None => r is None,
            },
    {
        let ghost p = takes_variant(*arenas, idx);
        let mut i: usize = 0;
        while i < patterns.len()
            invariant
                i <= patterns@.len(),
                forall|i: int|
                    0 <= i < patterns@.len() ==> arenas.has_pattern(#[trigger] patterns@[i]),
                p == takes_variant(*arenas, idx),
                first_where(patterns@, p, 0) == first_where(patterns@, p, i as int),
            decreases patterns@.len() - i,
        {
            assert(arenas.has_pattern(patterns@[i as int]));
            match &arenas.patterns[patterns[i].0] {
                Pattern::Otherwise => {
                    return Some(None);
                },
                Pattern::EnumVariant { variant, inner_pattern } => {
                    if variant.idx == idx {
                        return Some(*inner_pattern);
                    }
                },
                _ => {},
            }
            i += 1;
        }
        None
    }

    /// Evaluates the first arm that takes the variant.
    fn evaluate_arm(
        &mut self,
        variant: &ConcreteVariant,
        value: &ConstValue,
        expr: &ExprMatch,
        bound: usize,
    ) -> (r: Result<ConstValue, Fault>)
        requires
            old(self).env().wf(),
            bound <= old(self).arenas.exprs@.len(),
            forall|i: int|
                0 <= i < expr.arms@.len() ==> old(self).arenas.arm_below(
                    #[trigger] expr.arms@[i],
                    bound as int,
                ),
        ensures
            final(self).env() == old(self).env(),
            is_step(
                eval_arm(
                    old(self).env(),
                    old(self).state(),
                    *variant,
                    value@,
                    *expr,
                    bound as nat,
                ),
                final(self).state(),
                r,
            ),
        decreases MAX_CONST_EVAL_DEPTH + 2 - old(self).depth, bound, 0nat, 0nat,
    {
        let arenas = self.arenas;
        let ghost c = self.env();
        let ghost s = self.state();
        let ghost p = arm_takes_variant(c.arenas, variant.idx);
        let mut i: usize = 0;
        while i < expr.arms.len()
            invariant
                i <= expr.arms@.len(),
                c.wf(),
                c == old(self).env(),
                s == old(self).state(),
                self.env() == c,
                self.state() == s,
                *arenas == c.arenas,
                bound <= c.arenas.exprs@.len(),
                forall|i: int|
                    0 <= i < expr.arms@.len() ==> c.arenas.arm_below(
                        #[trigger] expr.arms@[i],
                        bound as int,
                    ),
                p == arm_takes_variant(c.arenas, variant.idx),
                first_where(expr.arms@, p, 0) == first_where(expr.arms@, p, i as int),
            decreases expr.arms@.len() - i,
        {
            let arm = &expr.arms[i];
            assert(c.arenas.arm_below(*arm, bound as int));
            match Self::find_alternative(arenas, &arm.patterns, variant.idx) {
                Some(inner_pattern) => {
                    proof {
                        reveal_with_fuel(eval_arm, 2);
                    }
                    assert(first_where(expr.arms@, p, i as int) == Some(i as int));
                    if let Some(inner_pattern) = inner_pattern {
                        proof {
                            let at = first_where(
                                arm.patterns@,
                                takes_variant(c.arenas, variant.idx),
                                0,
                            )->Some_0;
                            assert(c.arenas.has_pattern(arm.patterns@[at]));
                            assert(c.arenas.pattern_ok(arm.patterns@[at].0 as int));
                        }
                        self.destructure_pattern(inner_pattern, value);
                    }
                    return self.evaluate(arm.expression);
                },
                None => {},
            }
            i += 1;
        }
        Ok(self.missing(expr.stable_ptr, SemanticDiagnosticKind::UnsupportedConstant))
    }

    /// The first of the alternatives that is for exactly this variant: the pattern for the value of
    /// the variant.
    fn find_variant(arenas: &Arenas, patterns: &Vec<PatternId>, variant: &ConcreteVariant) -> (r:
        Option<Option<PatternId>>)
        requires
            forall|i: int|
                0 <= i < patterns@.len() ==> arenas.has_pattern(#[trigger] patterns@[i]),
        ensures
            match first_where(patterns@, is_variant(*arenas, *variant), 0) {
                Some(at) => 0 <= at < patterns@.len() && r == Some(
                    variant_inner(arenas.patterns@[patterns@[at].0 as int]),
                ),
                None => r is None,
            },
    {
        let ghost p = is_variant(*arenas, *variant);
        let mut i: usize = 0;
        while i < patterns.len()
            invariant
                i <= patterns@.len(),
                forall|i: int|
                    0 <= i < patterns@.len() ==> arenas.has_pattern(#[trigger] patterns@[i]),
                p == is_variant(*arenas, *variant),
                first_where(patterns@, p, 0) == first_where(patterns@, p, i as int),
            decreases patterns@.len() - i,
        {
            assert(arenas.has_pattern(patterns@[i as int]));
            if let Pattern::EnumVariant { variant: taken, inner_pattern } =
                &arenas.patterns[patterns[i].0] {
                if *taken == *variant {
                    return Some(*inner_pattern);
                }
            }
            i += 1;
        }
        None
    }

    /// Evaluates one condition of an `if`.
    fn evaluate_condition(&mut self, condition: &Condition, bound: usize) -> (r: Result<
        Conditions,
        Fault,
    >)
        requires
            old(self).env().wf(),
            bound <= old(self).arenas.exprs@.len(),
            old(self).arenas.condition_below(*condition, bound as int),
        ensures
            final(self).env() == old(self).env(),
            ({
                let step = eval_condition(
                    old(self).env(),
                    old(self).state(),
                    *condition,
                    bound as nat,
                );
                match r {
                    Ok(outcome) => step == Ok::<(EvalState, Conditions), Fault>(
                        (final(self).state(), outcome),
                    ),
                    Err(fault) => step == Err::<(EvalState, Conditions), Fault>(fault),
                }
            }),
        decreases MAX_CONST_EVAL_DEPTH + 2 - old(self).depth, bound, 0nat, 0nat,
    {
        proof {
            reveal_with_fuel(eval_condition, 2);
        }
        let arenas = self.arenas;
        let db = self.db;
        let ghost c = self.env();
        match condition {
            Condition::BoolExpr(id) => {
                let value = match self.evaluate(*id) {
                    Ok(value) => value,
                    Err(fault) => {
                        return Err(fault);
                    },
                };
                match value {
                    ConstValue::Enum(variant, _) => if variant == db.core_info.true_variant {
                        Ok(Conditions::Hold)
                    } else {
                        Ok(Conditions::Fail)
                    },
                    _ => Ok(Conditions::Unknown),
                }
            },
            Condition::Let(id, patterns) => {
                let value = match self.evaluate(*id) {
                    Ok(value) => value,
                    Err(fault) => {
                        return Err(fault);
                    },
                };
                match value {
                    ConstValue::Enum(variant, value) => {
                        match Self::find_variant(arenas, patterns, &variant) {
                            Some(inner_pattern) => {
                                if let Some(inner_pattern) = inner_pattern {
                                    proof {
                                        let at = first_where(
                                            patterns@,
                                            is_variant(c.arenas, variant),
                                            0,
                                        )->Some_0;
                                        assert(c.arenas.has_pattern(patterns@[at]));
                                        assert(c.arenas.pattern_ok(patterns@[at].0 as int));
                                    }
                                    self.destructure_pattern(inner_pattern, &value);
                                }
                                Ok(Conditions::Hold)
                            },
                            None => Ok(Conditions::Fail),
                        }
                    },
                    _ => Ok(Conditions::Unknown),
                }
            },
        }
    }

    /// Evaluates the conditions of an `if`, up to the first that does not hold.
    fn evaluate_conditions(&mut self, conditions: &Vec<Condition>, bound: usize) -> (r: Result<
        Conditions,
        Fault,
    >)
        requires
            old(self).env().wf(),
            bound <= old(self).arenas.exprs@.len(),
            forall|i: int|
                0 <= i < conditions@.len() ==> old(self).arenas.condition_below(
                    #[trigger] conditions@[i],
                    bound as int,
                ),
        ensures
            final(self).env() == old(self).env(),
            ({
                let step = eval_conditions(
                    old(self).env(),
                    old(self).state(),
                    conditions@,
                    bound as nat,
                    conditions@.len(),
                );
                match r {
                    Ok(outcome) => step == Ok::<(EvalState, Conditions), Fault>(
                        (final(self).state(), outcome),
                    ),
                    Err(fault) => step == Err::<(EvalState, Conditions), Fault>(fault),
                }
            }),
        decreases MAX_CONST_EVAL_DEPTH + 2 - old(self).depth, bound, 0nat, 1nat,
    {
        let ghost c = self.env();
        let ghost s = self.state();
        let mut i: usize = 0;
        while i < conditions.len()
            invariant
                i <= conditions@.len(),
                c.wf(),
                c == old(self).env(),
                s == old(self).state(),
                self.env() == c,
                bound <= c.arenas.exprs@.len(),
                forall|i: int|
                    0 <= i < conditions@.len() ==> c.arenas.condition_below(
                        #[trigger] conditions@[i],
                        bound as int,
                    ),
                eval_conditions(c, s, conditions@, bound as nat, i as nat) == Ok::<
                    (EvalState, Conditions),
                    Fault,
                >((self.state(), Conditions::Hold)),
            decreases conditions@.len() - i,
        {
            match self.evaluate_condition(&conditions[i], bound) {
                Ok(Conditions::Hold) => {},
                other => {
                    proof {
                        lemma_conditions_stop(
                            c,
                            s,
                            conditions@,
                            bound as nat,
                            (i + 1) as nat,
                            conditions@.len(),
                        );
                    }
                    return other;
                },
            }
            i += 1;
        }
        Ok(Conditions::Hold)
    }

    /// The expressions of the members, in the order of the struct.
    fn order_members(members: &Vec<(ExprId, MemberId)>, order: &Vec<MemberId>) -> (r: Option<
        Vec<ExprId>,
    >)
        ensures
            match r {
                Some(exprs) => ctor_order(members@, order@) == Some(exprs@) && forall|i: int|
                    0 <= i < exprs@.len() ==> exists|j: int|
                        0 <= j < members@.len() && #[trigger] exprs@[i] == (
                        #[trigger] members@[j]).0,
                None => ctor_order(members@, order@) is None,
            },
    {
        let mut exprs: Vec<ExprId> = Vec::new();
        let mut i: usize = 0;
        while i < order.len()
            invariant
                i <= order@.len(),
                exprs@.len() == i,
                forall|k: int|
                    0 <= k < i ==> ctor_place(members@, #[trigger] order@[k]) is Some && 0
                        <= ctor_place(members@, order@[k])->Some_0 < members@.len() && exprs@[k]
                        == members@[ctor_place(members@, order@[k])->Some_0].0,
            decreases order@.len() - i,
        {
            let ghost p = expr_for(order@[i as int]);
            let mut j: usize = 0;
            while j < members.len() && !(members[j].1 == order[i])
                invariant
                    i < order@.len(),
                    j <= members@.len(),
                    p == expr_for(order@[i as int]),
                    first_where(members@, p, 0) == first_where(members@, p, j as int),
                decreases members@.len() - j,
            {
                j += 1;
            }
            if j == members.len() {
                assert(ctor_place(members@, order@[i as int]) is None);
                return None;
            }
            assert(ctor_place(members@, order@[i as int]) == Some(j as int));
            exprs.push(members[j].0);
            i += 1;
        }
        assert(ctor_order(members@, order@)->Some_0 =~= exprs@);
        assert forall|k: int| 0 <= k < exprs@.len() implies exists|j: int|
            0 <= j < members@.len() && #[trigger] exprs@[k] == (#[trigger] members@[j]).0 by {
            let j = ctor_place(members@, order@[k])->Some_0;
            assert(exprs@[k] == members@[j].0);
        }
        Some(exprs)
    }

    /// Evaluate the given const expression value.
    #[verifier::rlimit(60)]
    pub(crate) fn evaluate(&mut self, expr_id: ExprId) -> (r: Result<ConstValue, Fault>)
        requires
            old(self).env().wf(),
            expr_id.0 < old(self).arenas.exprs@.len(),
        ensures
            final(self).env() == old(self).env(),
            is_step(
                eval(old(self).env(), old(self).state(), expr_id),
                final(self).state(),
                r,
            ),
        decreases MAX_CONST_EVAL_DEPTH + 2 - old(self).depth, expr_id.0, 2nat, 0nat,
    {
        let arenas = self.arenas;
        let db = self.db;
        let bound: usize = expr_id.0;
        let ghost c = self.env();
        let ghost s = self.state();
        assert(c.arenas.expr_ok(
            expr_id.0 as int,
            c.db.functions@.len(),
            c.db.const_values@.len(),
        ));
        proof {
            reveal_with_fuel(eval, 2);
        }
        match &arenas.exprs[expr_id.0] {
            Expr::Var { var, stable_ptr, .. } => {
                match get_binding(&self.vars, var.key()) {
                    Some(value) => Ok(value.clone()),
                    None => Ok(
                        self.missing(*stable_ptr, SemanticDiagnosticKind::UnsupportedConstant),
                    ),
                }
            },
            Expr::Constant { const_value_id, .. } => {
                match self.generic_substitution.substitute_const(
                    *const_value_id,
                    &db.const_values[const_value_id.0],
                ) {
                    Ok(value) => Ok(value),
                    Err(added) => Ok(ConstValue::Missing(added)),
                }
            },
            Expr::Block { statements, tail: Some(inner), .. } => {
                match self.evaluate_statements(statements, bound) {
                    Ok(_) => self.evaluate(*inner),
                    Err(fault) => Err(fault),
                }
            },
            Expr::FunctionCall(expr) => self.evaluate_function_call(expr, bound),
            Expr::Literal { value, ty, .. } => match value_as_const_value(db, ty, value) {
                Ok(constant) => Ok(constant),
                Err(_) => Err(Fault::InvalidLiteral),
            },
            Expr::Tuple { items, ty, .. } => self.evaluate_struct(items, ty, bound),
            Expr::StructCtor(
                ExprStructCtor { members, base_struct: None, ty, concrete_struct_id, .. },
            ) => {
                match db.concrete_struct_members(*concrete_struct_id) {
                    Err(added) => Ok(ConstValue::Missing(added)),
                    Ok(order) => match Self::order_members(members, order) {
                        Some(exprs) => self.evaluate_struct(&exprs, ty, bound),
                        None => Err(Fault::MissingMember),
                    },
                }
            },
            Expr::EnumVariantCtor { variant, value_expr, .. } => {
                match self.evaluate(*value_expr) {
                    Ok(value) => Ok(ConstValue::Enum(variant.clone(), Box::new(value))),
                    Err(fault) => Err(fault),
                }
            },
            Expr::MemberAccess(expr) => self.evaluate_member_access(expr, bound),
            Expr::FixedSizeArray { items, ty, stable_ptr } => match items {
                FixedSizeArrayItems::Items(items) => self.evaluate_struct(items, ty, bound),
                FixedSizeArrayItems::ValueAndSize(value, size) => {
                    match self.evaluate(*value) {
                        Ok(value) => {
                            match &db.const_values[size.0] {
                                ConstValue::Int(count, _) => match count.to_usize() {
                                    Some(count) => Ok(repeated(&value, count, ty)),
                                    None => Err(Fault::InvalidArraySize),
                                },
                                _ => {
                                    self.report_unsupported(*stable_ptr);
                                    assert(repeat(value@, 0) =~= Seq::empty());
                                    Ok(repeated(&value, 0, ty))
                                },
                            }
                        },
                        Err(fault) => Err(fault),
                    }
                },
            },
            Expr::Snapshot { inner, .. } => self.evaluate(*inner),
            Expr::Desnap { inner, .. } => self.evaluate(*inner),
            Expr::LogicalOperator { lhs, op, rhs, .. } => {
                match self.evaluate(*lhs) {
                    Ok(value) => match &value {
                        ConstValue::Enum(variant, _) => {
                            let early_return_variant = match op {
                                LogicalOperator::AndAnd => &db.core_info.false_variant,
                                LogicalOperator::OrOr => &db.core_info.true_variant,
                            };
                            if *variant == *early_return_variant {
                                Ok(value)
                            } else {
                                self.evaluate(*rhs)
                            }
                        },
                        _ => Ok(ConstValue::Missing(skip_diagnostic())),
                    },
                    Err(fault) => Err(fault),
                }
            },
            Expr::Match(expr) => {
                match self.evaluate(expr.matched_expr) {
                    Ok(ConstValue::Enum(variant, value)) => self.evaluate_arm(
                        &variant,
                        &value,
                        expr,
                        bound,
                    ),
                    Ok(_) => Ok(ConstValue::Missing(skip_diagnostic())),
                    Err(fault) => Err(fault),
                }
            },
            Expr::If(expr) => {
                match self.evaluate_conditions(&expr.conditions, bound) {
                    Ok(Conditions::Hold) => self.evaluate(expr.if_block),
                    Ok(Conditions::Fail) => match expr.else_block {
                        Some(else_block) => self.evaluate(else_block),
                        None => Ok(self.info.unit_const.clone()),
                    },
                    Ok(Conditions::Unknown) => Ok(ConstValue::Missing(skip_diagnostic())),
                    Err(fault) => Err(fault),
                }
            },
            _ => Ok(ConstValue::Missing(skip_diagnostic())),
        }
    }

    /// Evaluates the members of a struct, a tuple or an array.
    fn evaluate_struct(&mut self, exprs: &Vec<ExprId>, ty: &TypeId, bound: usize) -> (r: Result<
        ConstValue,
        Fault,
    >)
        requires
            old(self).env().wf(),
            bound <= old(self).arenas.exprs@.len(),
            forall|i: int| 0 <= i < exprs@.len() ==> (#[trigger] exprs@[i]).0 < bound,
        ensures
            final(self).env() == old(self).env(),
            is_step(
                eval_struct(
                    old(self).env(),
                    old(self).state(),
                    exprs@,
                    *ty,
                    bound as nat,
                ),
                final(self).state(),
                r,
            ),
        decreases MAX_CONST_EVAL_DEPTH + 2 - old(self).depth, bound, 0nat, 1nat,
    {
        proof {
            reveal_with_fuel(eval_struct, 2);
        }
        match self.evaluate_list(exprs, bound) {
            Ok(values) => {
                proof {
                    lemma_struct_view(values, *ty);
                }
                Ok(ConstValue::Struct(values, ty.clone()))
            },
            Err(fault) => Err(fault),
        }
    }
}

/// An array of equal values.
fn repeated(value: &ConstValue, count: usize, ty: &TypeId) -> (r: ConstValue)
    ensures
        r@ == ConstView::Struct(repeat(value@, count as nat), *ty),
{
    let mut values: Vec<ConstValue> = Vec::new();
    let mut i: usize = 0;
    while i < count
        invariant
            i <= count,
            values@.len() == i,
            forall|j: int| 0 <= j < i ==> (#[trigger] values@[j])@ == value@,
        decreases count - i,
    {
        values.push(value.clone());
        i += 1;
    }
    proof {
        lemma_struct_view(values, *ty);
        assert(views(values@) =~= repeat(value@, count as nat));
    }
    ConstValue::Struct(values, ty.clone())
}

} // verus!
