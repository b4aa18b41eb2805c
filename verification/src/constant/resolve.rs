//! Resolving a constant expression: its value, or the diagnostics that say why it has none.
use vstd::prelude::*;

use crate::constant::calc_info::ConstCalcInfo;
use crate::constant::context::ConstantEvaluateContext;
use crate::constant::semantics::{eval, validation, EvalEnv, EvalState, Fault};
use crate::constant::value::{ConstValue, ConstView};
use crate::constant::ConstValueId;
use crate::containers::new_bindings;
use crate::semantic::db::{GenericSubstitution, SemanticDb, SubstitutionView};
use crate::semantic::diagnostics::{
    DiagnosticView, KindView, SemanticDiagnosticKind, SemanticDiagnostics,
};
use crate::semantic::exprs::{Arenas, Expr};
use crate::semantic::ids::{skip_diagnostic, ExprId, SyntaxStablePtrId, VarKey};

verus! {

/// An error of the type inference.
#[derive(Clone, Copy, Debug)]
pub struct InferenceError {
    /// The number of the error.
    pub number: u64,
    /// The place that the error is about, where the inference knows one.
    pub location: Option<SyntaxStablePtrId>,
}

/// What came of the type inference of a constant expression.
#[derive(Debug)]
pub struct InferenceOutcome {
    /// The type of the expression does not conform to the type of the constant.
    pub conform: Option<InferenceError>,
    /// What is not fully resolved.
    pub finalize: Vec<InferenceError>,
    /// The constraints found so far contradict each other.
    pub solve: Option<InferenceError>,
}

/// The diagnostics of a body, and the body itself, with what the inference found filled in.
#[derive(Debug)]
pub struct ComputationContext {
    pub diagnostics: SemanticDiagnostics,
    pub arenas: Arenas,
}

/// An expression and its id. The expression is the one before the inference.
#[derive(Debug)]
pub struct ExprAndId {
    pub expr: Expr,
    pub id: ExprId,
}

pub open spec fn inference_diagnostic(
    error: InferenceError,
    stable_ptr: SyntaxStablePtrId,
) -> DiagnosticView {
    DiagnosticView {
        stable_ptr: match error.location {
            Some(location) => location,
            None => stable_ptr,
        },
        kind: KindView::Inference(error.number),
    }
}

pub open spec fn optional_diagnostic(
    error: Option<InferenceError>,
    stable_ptr: SyntaxStablePtrId,
) -> Seq<DiagnosticView> {
    match error {
        Some(error) => seq![inference_diagnostic(error, stable_ptr)],
        None => Seq::empty(),
    }
}

pub open spec fn error_diagnostics(
    errors: Seq<InferenceError>,
    stable_ptr: SyntaxStablePtrId,
) -> Seq<DiagnosticView> {
    Seq::new(errors.len(), |i: int| inference_diagnostic(errors[i], stable_ptr))
}

impl InferenceOutcome {
    /// The diagnostics of the inference.
    pub open spec fn diagnostics(
        self,
        stable_ptr: SyntaxStablePtrId,
        finalize: bool,
    ) -> Seq<DiagnosticView> {
        optional_diagnostic(self.conform, stable_ptr) + (if finalize {
            error_diagnostics(self.finalize@, stable_ptr)
        } else {
            optional_diagnostic(self.solve, stable_ptr)
        })
    }
}

/// What a constant expression is calculated with.
pub open spec fn const_env(
    db: SemanticDb,
    info: ConstCalcInfo,
    arenas: Arenas,
) -> EvalEnv {
    EvalEnv { db, info, arenas, substitution: SubstitutionView::identity(), depth: 0 }
}

/// The diagnostics, and the value of a constant expression, after the inference: `before` are the
/// diagnostics before it, and `reported` those after it.
pub open spec fn resolved(
    c: EvalEnv,
    before: Seq<DiagnosticView>,
    reported: Seq<DiagnosticView>,
    value: ExprAndId,
) -> Result<(Seq<DiagnosticView>, ConstView), Fault> {
    let validated = reported + validation(c, value.id);
    if let Expr::Constant { const_value_id, .. } = value.expr {
        Ok((reported, c.db.const_values@[const_value_id.0 as int]@))
    } else if reported.len() > before.len() {
        Ok((reported, ConstView::Missing))
    } else if validated.len() > before.len() {
        Ok((validated, ConstView::Missing))
    } else {
        match eval(c, EvalState { vars: Map::empty(), diagnostics: validated }, value.id) {
            Ok((s, constant)) => Ok((s.diagnostics, constant)),
            Err(fault) => Err(fault),
        }
    }
}

/// The diagnostics, and the value of a constant expression.
pub open spec fn resolution(
    db: SemanticDb,
    info: ConstCalcInfo,
    arenas: Arenas,
    before: Seq<DiagnosticView>,
    value: ExprAndId,
    const_stable_ptr: SyntaxStablePtrId,
    inference: InferenceOutcome,
    finalize: bool,
) -> Result<(Seq<DiagnosticView>, ConstView), Fault> {
    resolved(
        const_env(db, info, arenas),
        before,
        before + inference.diagnostics(const_stable_ptr, finalize),
        value,
    )
}

/// The value is one of a body of the program.
pub open spec fn value_ok(db: SemanticDb, arenas: Arenas, value: ExprAndId) -> bool {
    &&& value.id.0 < arenas.exprs@.len()
    &&& value.expr matches Expr::Constant { const_value_id, .. } ==> const_value_id.0
        < db.const_values@.len()
}

/// Reports an error of the inference.
fn report_inference(
    diagnostics: &mut SemanticDiagnostics,
    error: &InferenceError,
    stable_ptr: SyntaxStablePtrId,
)
    ensures
        final(diagnostics)@ == old(diagnostics)@.push(inference_diagnostic(*error, stable_ptr)),
{
    let location = match error.location {
        Some(location) => location,
        None => stable_ptr,
    };
    diagnostics.report(location, SemanticDiagnosticKind::Inference(error.number));
}

impl InferenceOutcome {
    /// Reports the errors of the inference.
    fn report(
        &self,
        diagnostics: &mut SemanticDiagnostics,
        stable_ptr: SyntaxStablePtrId,
        finalize: bool,
    )
        ensures
            final(diagnostics)@ == old(diagnostics)@ + self.diagnostics(stable_ptr, finalize),
    {
        let ghost before = diagnostics@;
        let ghost first = optional_diagnostic(self.conform, stable_ptr);
        if let Some(error) = &self.conform {
            report_inference(diagnostics, error, stable_ptr);
        }
        assert(diagnostics@ =~= before + first);
        if finalize {
            let ghost all = error_diagnostics(self.finalize@, stable_ptr);
            let mut i: usize = 0;
            while i < self.finalize.len()
                invariant
                    i <= self.finalize@.len(),
                    all == error_diagnostics(self.finalize@, stable_ptr),
                    diagnostics@ == before + first + all.take(i as int),
                decreases self.finalize@.len() - i,
            {
                report_inference(diagnostics, &self.finalize[i], stable_ptr);
                i += 1;
                assert(diagnostics@ =~= before + first + all.take(i as int));
            }
        } else if let Some(error) = &self.solve {
            report_inference(diagnostics, error, stable_ptr);
        }
        assert(diagnostics@ =~= before + self.diagnostics(stable_ptr, finalize));
    }
}

/// Checks if the given expression only involved constant calculations.
pub fn validate_const_expr(
    db: &SemanticDb,
    info: &ConstCalcInfo,
    ctx: &mut ComputationContext,
    expr_id: ExprId,
)
    requires
        db.wf(),
        info.wf(*db),
        db.holds(old(ctx).arenas),
        expr_id.0 < old(ctx).arenas.exprs@.len(),
    ensures
        final(ctx).arenas == old(ctx).arenas,
        final(ctx).diagnostics@ == old(ctx).diagnostics@ + validation(
            const_env(*db, *info, old(ctx).arenas),
            expr_id,
        ),
{
    let substitution = GenericSubstitution::new();
    let mut eval_ctx = ConstantEvaluateContext {
        db,
        info,
        arenas: &ctx.arenas,
        vars: new_bindings(),
        generic_substitution: &substitution,
        depth: 0,
        diagnostics: SemanticDiagnostics::new(),
    };
    eval_ctx.validate(expr_id);
    ctx.diagnostics.extend(eval_ctx.diagnostics.into_entries());
    assert(ctx.diagnostics@ =~= old(ctx).diagnostics@ + validation(
        const_env(*db, *info, old(ctx).arenas),
        expr_id,
    ));
}

/// Resolves the given const expression and evaluates its value. A calculation that is impossible
/// ends in its [Fault].
pub fn try_resolve_const_expr_and_evaluate(
    db: &SemanticDb,
    info: &ConstCalcInfo,
    ctx: &mut ComputationContext,
    value: &ExprAndId,
    const_stable_ptr: SyntaxStablePtrId,
    inference: &InferenceOutcome,
    finalize: bool,
) -> (r: Result<ConstValue, Fault>)
    requires
        db.wf(),
        info.wf(*db),
        db.holds(old(ctx).arenas),
        value_ok(*db, old(ctx).arenas, *value),
    ensures
        final(ctx).arenas == old(ctx).arenas,
        ({
            let outcome = resolution(
                *db,
                *info,
                old(ctx).arenas,
                old(ctx).diagnostics@,
                *value,
                const_stable_ptr,
                *inference,
                finalize,
            );
            match r {
                Ok(constant) => outcome == Ok::<(Seq<DiagnosticView>, ConstView), Fault>(
                    (final(ctx).diagnostics@, constant@),
                ),
                Err(fault) => outcome == Err::<(Seq<DiagnosticView>, ConstView), Fault>(fault),
            }
        }),
{
    let prev_err_count: usize = ctx.diagnostics.error_count();
    inference.report(&mut ctx.diagnostics, const_stable_ptr, finalize);
    if let Expr::Constant { const_value_id, .. } = &value.expr {
        return Ok(db.const_values[const_value_id.0].clone());
    }
    // Check that the expression is a valid constant.
    if ctx.diagnostics.error_count() > prev_err_count {
        return Ok(ConstValue::Missing(skip_diagnostic()));
    }
    let ghost reported = ctx.diagnostics@;
    validate_const_expr(db, info, ctx, value.id);
    if ctx.diagnostics.error_count() > prev_err_count {
        return Ok(ConstValue::Missing(skip_diagnostic()));
    }
    let substitution = GenericSubstitution::new();
    let mut eval_ctx = ConstantEvaluateContext {
        db,
        info,
        arenas: &ctx.arenas,
        vars: new_bindings(),
        generic_substitution: &substitution,
        depth: 0,
        diagnostics: take_diagnostics(&mut ctx.diagnostics),
    };
    assert(eval_ctx.state().vars =~= Map::empty());
    let r = eval_ctx.evaluate(value.id);
    ctx.diagnostics = eval_ctx.diagnostics;
    r
}

/// Resolves the given const expression and evaluates its value.
pub fn resolve_const_expr_and_evaluate(
    db: &SemanticDb,
    info: &ConstCalcInfo,
    ctx: &mut ComputationContext,
    value: &ExprAndId,
    const_stable_ptr: SyntaxStablePtrId,
    inference: &InferenceOutcome,
    finalize: bool,
) -> (r: ConstValue)
    requires
        db.wf(),
        info.wf(*db),
        db.holds(old(ctx).arenas),
        value_ok(*db, old(ctx).arenas, *value),
        resolution(
            *db,
            *info,
            old(ctx).arenas,
            old(ctx).diagnostics@,
            *value,
            const_stable_ptr,
            *inference,
            finalize,
        ) is Ok,
    ensures
        final(ctx).arenas == old(ctx).arenas,
        resolution(
            *db,
            *info,
            old(ctx).arenas,
            old(ctx).diagnostics@,
            *value,
            const_stable_ptr,
            *inference,
            finalize,
        ) == Ok::<(Seq<DiagnosticView>, ConstView), Fault>((final(ctx).diagnostics@, r@)),
{
    match try_resolve_const_expr_and_evaluate(
        db,
        info,
        ctx,
        value,
        const_stable_ptr,
        inference,
        finalize,
    ) {
        Ok(constant) => constant,
        Err(_) => ConstValue::Missing(skip_diagnostic()),
    }
}

/// Takes the diagnostics out.
fn take_diagnostics(diagnostics: &mut SemanticDiagnostics) -> (r: SemanticDiagnostics)
    ensures
        r@ == old(diagnostics)@,
        final(diagnostics)@ == Seq::<DiagnosticView>::empty(),
{
    let mut taken = SemanticDiagnostics::new();
    std::mem::swap(&mut taken, diagnostics);
    taken
}

// Laws.

/// An expression that is a constant already has the value of that constant, whatever is reported.
pub proof fn constants_need_no_calculation(
    db: SemanticDb,
    info: ConstCalcInfo,
    arenas: Arenas,
    before: Seq<DiagnosticView>,
    value: ExprAndId,
    const_stable_ptr: SyntaxStablePtrId,
    inference: InferenceOutcome,
    finalize: bool,
    const_value_id: ConstValueId,
)
    requires
        value.expr matches Expr::Constant { const_value_id: id, .. } && id == const_value_id,
    ensures
        resolution(db, info, arenas, before, value, const_stable_ptr, inference, finalize) == Ok::<
            (Seq<DiagnosticView>, ConstView),
            Fault,
        >(
            (
                before + inference.diagnostics(const_stable_ptr, finalize),
                db.const_values@[const_value_id.0 as int]@,
            ),
        ),
{
}

/// An expression without errors has the value that its calculation gives, from no variables on. The
/// calculation starts outside of any call, and nothing is substituted in it.
pub proof fn valid_expressions_are_calculated(
    db: SemanticDb,
    info: ConstCalcInfo,
    arenas: Arenas,
    before: Seq<DiagnosticView>,
    value: ExprAndId,
    const_stable_ptr: SyntaxStablePtrId,
    inference: InferenceOutcome,
    finalize: bool,
    c: EvalEnv,
    s: EvalState,
)
    requires
        !(value.expr is Constant),
        inference.diagnostics(const_stable_ptr, finalize).len() == 0,
        c.db == db,
        c.info == info,
        c.arenas == arenas,
        c.depth == 0,
        c.substitution.consts.len() == 0,
        c.substitution.types.len() == 0,
        c.substitution.functions.len() == 0,
        validation(c, value.id).len() == 0,
        s.diagnostics == before,
        forall|key: VarKey| !(#[trigger] s.vars.contains_key(key)),
    ensures
        match (
            resolution(db, info, arenas, before, value, const_stable_ptr, inference, finalize),
            eval(c, s, value.id),
        ) {
            (Ok((after, constant)), Ok((t, result))) => constant == result && after
                == t.diagnostics,
            (Err(a), Err(b)) => a == b,
            _ => false,
        },
{
    assert(c.substitution =~= SubstitutionView::identity());
    assert(c == const_env(db, info, arenas));
    assert(s.vars =~= Map::empty());
    let reported = before + inference.diagnostics(const_stable_ptr, finalize);
    assert(reported =~= before);
    assert(reported + validation(c, value.id) =~= before);
    assert(s =~= EvalState { vars: Map::empty(), diagnostics: before });
}

/// The errors of the inference are reported in their order, with their numbers, at the places that
/// they are about, or at the constant where they are about none: first that the type does not
/// conform, then what is not resolved. What contradicts itself is reported where not all has to be
/// resolved.
pub proof fn inference_errors_are_reported(
    inference: InferenceOutcome,
    stable_ptr: SyntaxStablePtrId,
    finalize: bool,
    errors: Seq<InferenceError>,
)
    requires
        errors == (match inference.conform {
            Some(error) => seq![error],
            None => Seq::empty(),
        }) + (if finalize {
            inference.finalize@
        } else {
            match inference.solve {
                Some(error) => seq![error],
                None => Seq::empty(),
            }
        }),
    ensures
        inference.diagnostics(stable_ptr, finalize).len() == errors.len(),
        forall|i: int|
            0 <= i < errors.len() ==> {
                let d = #[trigger] inference.diagnostics(stable_ptr, finalize)[i];
                &&& d.kind == KindView::Inference(errors[i].number)
                &&& errors[i].location matches Some(location) ==> d.stable_ptr == location
                &&& errors[i].location is None ==> d.stable_ptr == stable_ptr
            },
{
}

} // verus!
