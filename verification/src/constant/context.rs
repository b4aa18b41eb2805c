//! The calculation of constant expressions.
use vstd::prelude::*;

use crate::constant::calc_info::ConstCalcInfo;
use crate::constant::semantics::{
    arm_exprs, condition_exprs, ctor_exprs, destructure, destructure_fields, destructure_first,
    field_for, function_is_const, unsupported, validation, validation_args, validation_list,
    validation_statements, EvalEnv, EvalState,
};
use crate::constant::value::{lemma_struct_view, views, ConstValue, ConstView};
use crate::containers::{bindings, has_id, set_binding, Bindings};
use crate::search::first_where;
use crate::semantic::db::{GenericFunctionWithBodyId, GenericSubstitution, SemanticDb};
use crate::semantic::diagnostics::{KindView, SemanticDiagnosticKind, SemanticDiagnostics};
use crate::semantic::exprs::{
    Arenas, Condition, Expr, ExprFunctionCallArg, ExprStructCtor, FixedSizeArrayItems, MatchArm,
    Pattern, Statement,
};
use crate::semantic::ids::{
    ConcreteStructId, ExprId, FunctionId, MemberId, PatternId, StatementId, SyntaxStablePtrId,
    VarId, VarKey,
};

verus! {

/// A context for evaluating constant expressions.
pub(crate) struct ConstantEvaluateContext<'a> {
    pub(crate) db: &'a SemanticDb,
    pub(crate) info: &'a ConstCalcInfo,
    pub(crate) arenas: &'a Arenas,
    pub(crate) vars: Bindings,
    pub(crate) generic_substitution: &'a GenericSubstitution,
    pub(crate) depth: usize,
    pub(crate) diagnostics: SemanticDiagnostics,
}

/// The values of a map of variables.
pub open spec fn var_views(map: Map<VarKey, ConstValue>) -> Map<VarKey, ConstView> {
    map.map_values(|value: ConstValue| value@)
}

impl<'a> ConstantEvaluateContext<'a> {
    pub(crate) open spec fn env(&self) -> EvalEnv {
        EvalEnv {
            db: *self.db,
            info: *self.info,
            arenas: *self.arenas,
            substitution: self.generic_substitution@,
            depth: self.depth as nat,
        }
    }

    pub(crate) open spec fn state(&self) -> EvalState {
        EvalState { vars: var_views(bindings(self.vars)), diagnostics: self.diagnostics@ }
    }

    /// Reports that an expression cannot be part of a constant.
    pub(crate) fn report_unsupported(&mut self, stable_ptr: SyntaxStablePtrId)
        ensures
            final(self).env() == old(self).env(),
            final(self).state() == old(self).state().report(
                stable_ptr,
                KindView::UnsupportedConstant,
            ),
            final(self).state().diagnostics == old(self).state().diagnostics + unsupported(
                stable_ptr,
            ),
            final(self).state().vars == old(self).state().vars,
    {
        self.diagnostics.report(stable_ptr, SemanticDiagnosticKind::UnsupportedConstant);
    }

    /// Validate the given expression can be used as constant.
    pub(crate) fn validate(&mut self, expr_id: ExprId)
        requires
            old(self).env().wf(),
            expr_id.0 < old(self).arenas.exprs@.len(),
        ensures
            final(self).env() == old(self).env(),
            final(self).state().vars == old(self).state().vars,
            final(self).state().diagnostics == old(self).state().diagnostics + validation(
                old(self).env(),
                expr_id,
            ),
        decreases expr_id.0, 1nat,
    {
        let arenas = self.arenas;
        let expr = &arenas.exprs[expr_id.0];
        let bound: usize = expr_id.0;
        let ghost c = self.env();
        let ghost before = self.state().diagnostics;
        assert(c.arenas.expr_ok(
            expr_id.0 as int,
            c.db.functions@.len(),
            c.db.const_values@.len(),
        ));
        proof {
            reveal_with_fuel(validation, 2);
        }
        match expr {
            Expr::Var { .. } | Expr::Constant { .. } | Expr::Missing { .. } => {},
            Expr::Block { statements, tail: Some(inner), .. } => {
                self.validate_statements(statements, bound);
                self.validate(*inner);
            },
            Expr::FunctionCall(expr) => {
                self.validate_args(&expr.args, bound);
                if !self.is_function_const(expr.function) {
                    self.report_unsupported(expr.stable_ptr);
                }
            },
            Expr::Literal { value, ty, stable_ptr } => {
                if let Err(err) = self.db.validate_literal(ty, value) {
                    self.diagnostics.report(*stable_ptr, SemanticDiagnosticKind::LiteralError(err));
                }
            },
            Expr::Tuple { items, .. } => {
                self.validate_list(items, bound);
            },
            Expr::StructCtor(ExprStructCtor { members, base_struct: None, .. }) => {
                self.validate_members(members, bound);
            },
            Expr::EnumVariantCtor { value_expr, .. } => {
                self.validate(*value_expr);
            },
            Expr::MemberAccess(expr) => {
                self.validate(expr.expr);
            },
            Expr::FixedSizeArray { items, .. } => match items {
                FixedSizeArrayItems::Items(items) => {
                    self.validate_list(items, bound);
                },
                FixedSizeArrayItems::ValueAndSize(value, _) => {
                    self.validate(*value);
                },
            },
            Expr::Snapshot { inner, .. } => {
                self.validate(*inner);
            },
            Expr::Desnap { inner, .. } => {
                self.validate(*inner);
            },
            Expr::LogicalOperator { lhs, rhs, .. } => {
                self.validate(*lhs);
                self.validate(*rhs);
            },
            Expr::Match(expr) => {
                self.validate(expr.matched_expr);
                self.validate_arms(&expr.arms, bound);
            },
            Expr::If(expr) => {
                self.validate_conditions(&expr.conditions, bound);
                self.validate(expr.if_block);
                if let Some(else_block) = expr.else_block {
                    self.validate(else_block);
                }
            },
            other => {
                self.report_unsupported(other.stable_ptr());
            },
        }
        assert(self.state().diagnostics =~= before + validation(c, expr_id));
    }

    fn validate_statements(&mut self, statements: &Vec<StatementId>, bound: usize)
        requires
            old(self).env().wf(),
            bound <= old(self).arenas.exprs@.len(),
            forall|i: int|
                0 <= i < statements@.len() ==> old(self).arenas.statement_below(
                    #[trigger] statements@[i],
                    bound as int,
                ),
        ensures
            final(self).env() == old(self).env(),
            final(self).state().vars == old(self).state().vars,
            final(self).state().diagnostics == old(self).state().diagnostics
                + validation_statements(
                old(self).env(),
                statements@,
                bound as nat,
                statements@.len(),
            ),
        decreases bound, 0nat,
    {
        let arenas = self.arenas;
        let ghost c = self.env();
        let ghost before = self.state();
        let mut i: usize = 0;
        while i < statements.len()
            invariant
                i <= statements@.len(),
                c.wf(),
                c == old(self).env(),
                before == old(self).state(),
                self.env() == c,
                *arenas == c.arenas,
                bound <= c.arenas.exprs@.len(),
                forall|i: int|
                    0 <= i < statements@.len() ==> c.arenas.statement_below(
                        #[trigger] statements@[i],
                        bound as int,
                    ),
                self.state().vars == before.vars,
                self.state().diagnostics == before.diagnostics + validation_statements(
                    c,
                    statements@,
                    bound as nat,
                    i as nat,
                ),
            decreases statements@.len() - i,
        {
            match &arenas.statements[statements[i].0] {
                Statement::Let { expr, .. } => {
                    self.validate(*expr);
                },
                Statement::Expr { expr, .. } => {
                    self.validate(*expr);
                },
                Statement::Other { stable_ptr } => {
                    self.report_unsupported(*stable_ptr);
                },
            }
            i += 1;
            proof {
                reveal_with_fuel(validation_statements, 2);
            }
            assert(self.state().diagnostics =~= before.diagnostics + validation_statements(
                c,
                statements@,
                bound as nat,
                i as nat,
            ));
        }
    }

    fn validate_args(&mut self, args: &Vec<ExprFunctionCallArg>, bound: usize)
        requires
            old(self).env().wf(),
            bound <= old(self).arenas.exprs@.len(),
            forall|i: int|
                0 <= i < args@.len() ==> ((#[trigger] args@[i]) matches ExprFunctionCallArg::Value(
                    arg,
                ) ==> arg.0 < bound),
        ensures
            final(self).env() == old(self).env(),
            final(self).state().vars == old(self).state().vars,
            final(self).state().diagnostics == old(self).state().diagnostics + validation_args(
                old(self).env(),
                args@,
                bound as nat,
                args@.len(),
            ),
        decreases bound, 0nat,
    {
        let ghost c = self.env();
        let ghost before = self.state();
        let mut i: usize = 0;
        while i < args.len()
            invariant
                i <= args@.len(),
                c.wf(),
                c == old(self).env(),
                before == old(self).state(),
                self.env() == c,
                bound <= c.arenas.exprs@.len(),
                forall|i: int|
                    0 <= i < args@.len() ==> ((#[trigger] args@[i]) matches
                        ExprFunctionCallArg::Value(arg) ==> arg.0 < bound),
                self.state().vars == before.vars,
                self.state().diagnostics == before.diagnostics + validation_args(
                    c,
                    args@,
                    bound as nat,
                    i as nat,
                ),
            decreases args@.len() - i,
        {
            let arg = &args[i];
            match arg {
                ExprFunctionCallArg::Value(arg) => {
                    self.validate(*arg);
                },
                ExprFunctionCallArg::Reference(stable_ptr) => {
                    self.report_unsupported(*stable_ptr);
                },
            }
            if let ExprFunctionCallArg::Value(arg) = arg {
                self.validate(*arg);
            }
            i += 1;
            proof {
                reveal_with_fuel(validation_args, 2);
            }
            assert(self.state().diagnostics =~= before.diagnostics + validation_args(
                c,
                args@,
                bound as nat,
                i as nat,
            ));
        }
    }

    fn validate_list(&mut self, exprs: &Vec<ExprId>, bound: usize)
        requires
            old(self).env().wf(),
            bound <= old(self).arenas.exprs@.len(),
            forall|i: int| 0 <= i < exprs@.len() ==> (#[trigger] exprs@[i]).0 < bound,
        ensures
            final(self).env() == old(self).env(),
            final(self).state().vars == old(self).state().vars,
            final(self).state().diagnostics == old(self).state().diagnostics + validation_list(
                old(self).env(),
                exprs@,
                bound as nat,
                exprs@.len(),
            ),
        decreases bound, 0nat,
    {
        let ghost c = self.env();
        let ghost before = self.state();
        let mut i: usize = 0;
        while i < exprs.len()
            invariant
                i <= exprs@.len(),
                c.wf(),
                c == old(self).env(),
                before == old(self).state(),
                self.env() == c,
                bound <= c.arenas.exprs@.len(),
                forall|i: int| 0 <= i < exprs@.len() ==> (#[trigger] exprs@[i]).0 < bound,
                self.state().vars == before.vars,
                self.state().diagnostics == before.diagnostics + validation_list(
                    c,
                    exprs@,
                    bound as nat,
                    i as nat,
                ),
            decreases exprs@.len() - i,
        {
            self.validate(exprs[i]);
            i += 1;
            proof {
                reveal_with_fuel(validation_list, 2);
            }
            assert(self.state().diagnostics =~= before.diagnostics + validation_list(
                c,
                exprs@,
                bound as nat,
                i as nat,
            ));
        }
    }

    fn validate_members(&mut self, members: &Vec<(ExprId, MemberId)>, bound: usize)
        requires
            old(self).env().wf(),
            bound <= old(self).arenas.exprs@.len(),
            forall|i: int| 0 <= i < members@.len() ==> (#[trigger] members@[i]).0.0 < bound,
        ensures
            final(self).env() == old(self).env(),
            final(self).state().vars == old(self).state().vars,
            final(self).state().diagnostics == old(self).state().diagnostics + validation_list(
                old(self).env(),
                ctor_exprs(members@),
                bound as nat,
                members@.len(),
            ),
        decreases bound, 0nat,
    {
        let ghost c = self.env();
        let ghost before = self.state();
        let mut i: usize = 0;
        while i < members.len()
            invariant
                i <= members@.len(),
                c.wf(),
                c == old(self).env(),
                before == old(self).state(),
                self.env() == c,
                bound <= c.arenas.exprs@.len(),
                forall|i: int| 0 <= i < members@.len() ==> (#[trigger] members@[i]).0.0 < bound,
                self.state().vars == before.vars,
                self.state().diagnostics == before.diagnostics + validation_list(
                    c,
                    ctor_exprs(members@),
                    bound as nat,
                    i as nat,
                ),
            decreases members@.len() - i,
        {
            self.validate(members[i].0);
            i += 1;
            proof {
                reveal_with_fuel(validation_list, 2);
            }
            assert(self.state().diagnostics =~= before.diagnostics + validation_list(
                c,
                ctor_exprs(members@),
                bound as nat,
                i as nat,
            ));
        }
    }

    fn validate_arms(&mut self, arms: &Vec<MatchArm>, bound: usize)
        requires
            old(self).env().wf(),
            bound <= old(self).arenas.exprs@.len(),
            forall|i: int|
                0 <= i < arms@.len() ==> old(self).arenas.arm_below(
                    #[trigger] arms@[i],
                    bound as int,
                ),
        ensures
            final(self).env() == old(self).env(),
            final(self).state().vars == old(self).state().vars,
            final(self).state().diagnostics == old(self).state().diagnostics + validation_list(
                old(self).env(),
                arm_exprs(arms@),
                bound as nat,
                arms@.len(),
            ),
        decreases bound, 0nat,
    {
        let ghost c = self.env();
        let ghost before = self.state();
        let mut i: usize = 0;
        while i < arms.len()
            invariant
                i <= arms@.len(),
                c.wf(),
                c == old(self).env(),
                before == old(self).state(),
                self.env() == c,
                bound <= c.arenas.exprs@.len(),
                forall|i: int|
                    0 <= i < arms@.len() ==> c.arenas.arm_below(
                        #[trigger] arms@[i],
                        bound as int,
                    ),
                self.state().vars == before.vars,
                self.state().diagnostics == before.diagnostics + validation_list(
                    c,
                    arm_exprs(arms@),
                    bound as nat,
                    i as nat,
                ),
            decreases arms@.len() - i,
        {
            self.validate(arms[i].expression);
            i += 1;
            proof {
                reveal_with_fuel(validation_list, 2);
            }
            assert(self.state().diagnostics =~= before.diagnostics + validation_list(
                c,
                arm_exprs(arms@),
                bound as nat,
                i as nat,
            ));
        }
    }

    fn validate_conditions(&mut self, conditions: &Vec<Condition>, bound: usize)
        requires
            old(self).env().wf(),
            bound <= old(self).arenas.exprs@.len(),
            forall|i: int|
                0 <= i < conditions@.len() ==> old(self).arenas.condition_below(
                    #[trigger] conditions@[i],
                    bound as int,
                ),
        ensures
            final(self).env() == old(self).env(),
            final(self).state().vars == old(self).state().vars,
            final(self).state().diagnostics == old(self).state().diagnostics + validation_list(
                old(self).env(),
                condition_exprs(conditions@),
                bound as nat,
                conditions@.len(),
            ),
        decreases bound, 0nat,
    {
        let ghost c = self.env();
        let ghost before = self.state();
        let mut i: usize = 0;
        while i < conditions.len()
            invariant
                i <= conditions@.len(),
                c.wf(),
                c == old(self).env(),
                before == old(self).state(),
                self.env() == c,
                bound <= c.arenas.exprs@.len(),
                forall|i: int|
                    0 <= i < conditions@.len() ==> c.arenas.condition_below(
                        #[trigger] conditions@[i],
                        bound as int,
                    ),
                self.state().vars == before.vars,
                self.state().diagnostics == before.diagnostics + validation_list(
                    c,
                    condition_exprs(conditions@),
                    bound as nat,
                    i as nat,
                ),
            decreases conditions@.len() - i,
        {
            self.validate(
                match &conditions[i] {
                    Condition::BoolExpr(id) => *id,
                    Condition::Let(id, _) => *id,
                },
            );
            i += 1;
            proof {
                reveal_with_fuel(validation_list, 2);
            }
            assert(self.state().diagnostics =~= before.diagnostics + validation_list(
                c,
                condition_exprs(conditions@),
                bound as nat,
                i as nat,
            ));
        }
    }

    /// Returns true if the given function is allowed to be called in constant context.
    pub(crate) fn is_function_const(&self, function_id: FunctionId) -> (r: bool)
        requires
            function_id.0 < self.db.functions@.len(),
        ensures
            r == function_is_const(*self.db, *self.info, function_id),
    {
        if function_id == self.info.panic_with_felt252 {
            return true;
        }
        let concrete_function = &self.db.functions[function_id.0];
        if concrete_function.generic_function.is_declared_const() {
            return true;
        }
        match &concrete_function.body {
            Ok(Some(body)) => match &body.generic_function {
                GenericFunctionWithBodyId::Impl { owning_crate, trait_id } => {
                    if !(*owning_crate == self.db.core_crate) {
                        return false;
                    }
                    match trait_id {
                        Ok(trait_id) => has_id(&self.info.const_traits, trait_id.0),
                        Err(_) => false,
                    }
                },
                GenericFunctionWithBodyId::Other => false,
            },
            _ => false,
        }
    }

    /// Destructures the pattern into the const value of the variables in scope.
    pub(crate) fn destructure_pattern(&mut self, pattern_id: PatternId, value: &ConstValue)
        requires
            old(self).env().wf(),
            pattern_id.0 < old(self).arenas.patterns@.len(),
        ensures
            final(self).env() == old(self).env(),
            final(self).state().diagnostics == old(self).state().diagnostics,
            final(self).state().vars == destructure(
                *old(self).db,
                *old(self).arenas,
                old(self).state().vars,
                pattern_id,
                value@,
            ),
        decreases pattern_id.0, 1nat,
    {
        let arenas = self.arenas;
        let ghost c = self.env();
        assert(c.arenas.pattern_ok(pattern_id.0 as int));
        proof {
            reveal_with_fuel(destructure, 3);
        }
        match &arenas.patterns[pattern_id.0] {
            Pattern::Literal | Pattern::StringLiteral | Pattern::Otherwise | Pattern::Missing => {},
            Pattern::Variable(var) => {
                let ghost old_vars = bindings(self.vars);
                set_binding(&mut self.vars, VarId::Local(*var).key(), value.clone());
                assert(self.state().vars =~= var_views(old_vars).insert((1u8, *var), value@));
            },
            Pattern::Struct { concrete_struct_id, field_patterns } => {
                if let ConstValue::Struct(inner_values, ty) = value {
                    proof {
                        lemma_struct_view(*inner_values, *ty);
                    }
                    self.destructure_struct(
                        *concrete_struct_id,
                        field_patterns,
                        inner_values,
                        pattern_id.0,
                    );
                }
            },
            Pattern::Tuple { field_patterns } => {
                if let ConstValue::Struct(inner_values, ty) = value {
                    proof {
                        lemma_struct_view(*inner_values, *ty);
                    }
                    self.destructure_values(field_patterns, inner_values, pattern_id.0);
                }
            },
            Pattern::FixedSizeArray { elements_patterns } => {
                if let ConstValue::Struct(inner_values, ty) = value {
                    proof {
                        lemma_struct_view(*inner_values, *ty);
                    }
                    self.destructure_values(elements_patterns, inner_values, pattern_id.0);
                }
            },
            Pattern::EnumVariant { variant, inner_pattern } => {
                if let ConstValue::Enum(value_variant, inner_value) = value {
                    if *variant == *value_variant {
                        if let Some(inner_pattern) = inner_pattern {
                            self.destructure_pattern(*inner_pattern, inner_value);
                        }
                    }
                }
            },
        }
    }

    /// The pattern of the first of the fields that is for the member.
    fn find_field(fields: &Vec<(PatternId, MemberId)>, member: MemberId) -> (r: Option<PatternId>)
        ensures
            match first_where(fields@, field_for(member), 0) {
                Some(at) => 0 <= at < fields@.len() && r == Some(fields@[at].0),
                None => r is None,
            },
    {
        let ghost p = field_for(member);
        let mut i: usize = 0;
        while i < fields.len()
            invariant
                i <= fields@.len(),
                p == field_for(member),
                first_where(fields@, p, 0) == first_where(fields@, p, i as int),
            decreases fields@.len() - i,
        {
            if fields[i].1 == member {
                return Some(fields[i].0);
            }
            i += 1;
        }
        None
    }

    fn destructure_struct(
        &mut self,
        concrete_struct_id: ConcreteStructId,
        fields: &Vec<(PatternId, MemberId)>,
        values: &Vec<ConstValue>,
        bound: usize,
    )
        requires
            old(self).env().wf(),
            bound <= old(self).arenas.patterns@.len(),
            forall|i: int| 0 <= i < fields@.len() ==> (#[trigger] fields@[i]).0.0 < bound,
        ensures
            final(self).env() == old(self).env(),
            final(self).state().diagnostics == old(self).state().diagnostics,
            final(self).state().vars == (match old(self).db.spec_struct_members(
                concrete_struct_id,
            ) {
                Ok(members) => destructure_fields(
                    *old(self).db,
                    *old(self).arenas,
                    old(self).state().vars,
                    fields@,
                    members,
                    views(values@),
                    bound as nat,
                    if members.len() < values@.len() {
                        members.len()
                    } else {
                        values@.len()
                    },
                ),
                Err(_) => old(self).state().vars,
            }),
        decreases bound, 0nat,
    {
        let db = self.db;
        let members = match db.concrete_struct_members(concrete_struct_id) {
            Ok(members) => members,
            Err(_) => {
                return;
            },
        };
        let ghost c = self.env();
        let ghost before = self.state();
        let mut i: usize = 0;
        while i < members.len() && i < values.len()
            invariant
                i <= members@.len(),
                i <= values@.len(),
                c.wf(),
                c == old(self).env(),
                before == old(self).state(),
                self.env() == c,
                bound <= c.arenas.patterns@.len(),
                forall|i: int| 0 <= i < fields@.len() ==> (#[trigger] fields@[i]).0.0 < bound,
                self.state().diagnostics == before.diagnostics,
                self.state().vars == destructure_fields(
                    c.db,
                    c.arenas,
                    before.vars,
                    fields@,
                    members@,
                    views(values@),
                    bound as nat,
                    i as nat,
                ),
            decreases members@.len() - i,
        {
            match Self::find_field(fields, members[i]) {
                Some(inner_pattern) => {
                    self.destructure_pattern(inner_pattern, &values[i]);
                },
                None => {},
            }
            i += 1;
            proof {
                reveal_with_fuel(destructure_fields, 2);
            }
        }
    }

    fn destructure_values(
        &mut self,
        patterns: &Vec<PatternId>,
        values: &Vec<ConstValue>,
        bound: usize,
    )
        requires
            old(self).env().wf(),
            bound <= old(self).arenas.patterns@.len(),
            forall|i: int| 0 <= i < patterns@.len() ==> (#[trigger] patterns@[i]).0 < bound,
        ensures
            final(self).env() == old(self).env(),
            final(self).state().diagnostics == old(self).state().diagnostics,
            final(self).state().vars == destructure_first(
                *old(self).db,
                *old(self).arenas,
                old(self).state().vars,
                patterns@,
                views(values@),
                bound as nat,
                if patterns@.len() < values@.len() {
                    patterns@.len()
                } else {
                    values@.len()
                },
            ),
        decreases bound, 0nat,
    {
        let ghost c = self.env();
        let ghost before = self.state();
        let mut i: usize = 0;
        while i < patterns.len() && i < values.len()
            invariant
                i <= patterns@.len(),
                i <= values@.len(),
                c.wf(),
                c == old(self).env(),
                before == old(self).state(),
                self.env() == c,
                bound <= c.arenas.patterns@.len(),
                forall|i: int| 0 <= i < patterns@.len() ==> (#[trigger] patterns@[i]).0 < bound,
                self.state().diagnostics == before.diagnostics,
                self.state().vars == destructure_first(
                    c.db,
                    c.arenas,
                    before.vars,
                    patterns@,
                    views(values@),
                    bound as nat,
                    i as nat,
                ),
            decreases patterns@.len() - i,
        {
            self.destructure_pattern(patterns[i], &values[i]);
            i += 1;
            proof {
                reveal_with_fuel(destructure_first, 2);
            }
        }
    }
}

} // verus!
