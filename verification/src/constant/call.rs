//! Calls of functions that the calculation knows by name.
use vstd::prelude::*;

use crate::constant::calc_info::bool_view;
use crate::constant::context::ConstantEvaluateContext;
use crate::constant::literal::{value_as_const_value, NumericArg};
use crate::constant::semantics::{
    eval_div_rem, eval_downcast, eval_extern_call, eval_numeric_call, eval_trait_call, fit_result,
    is_member, member_of, numeric_args, EvalState, Fault, Step,
};
use crate::constant::value::{const_view, lemma_struct_view, views, ConstValue, ConstView};
use crate::containers::{get_flag, has_id};
use crate::integer::{felt252_modulus, Integer};
use crate::search::first_where;
use crate::semantic::diagnostics::{LiteralError, SemanticDiagnosticKind};
use crate::semantic::exprs::{ExprFunctionCall, ExprMemberAccess};
use crate::semantic::ids::{
    skip_diagnostic, ExternFunctionId, SyntaxStablePtrId, TraitFunctionId, TypeId,
};

verus! {

/// The integers and types of a list of arguments.
pub open spec fn numeric_views(args: Seq<NumericArg>) -> Seq<(int, TypeId)> {
    Seq::new(args.len(), |i: int| (args[i].v@, args[i].ty))
}

/// The value, or the fault, is that of the step, and the state is the one after it.
pub open spec fn is_step(
    step: Step<ConstView>,
    state: EvalState,
    r: Result<ConstValue, Fault>,
) -> bool {
    match r {
        Ok(value) => step == Ok::<(EvalState, ConstView), Fault>((state, value@)),
        Err(fault) => step == Err::<(EvalState, ConstView), Fault>(fault),
    }
}

impl<'a> ConstantEvaluateContext<'a> {
    /// Reports a diagnostic; the value is missing.
    pub(crate) fn missing(
        &mut self,
        stable_ptr: SyntaxStablePtrId,
        kind: SemanticDiagnosticKind,
    ) -> (r: ConstValue)
        ensures
            final(self).env() == old(self).env(),
            final(self).state() == old(self).state().report(stable_ptr, kind@),
            r@ == ConstView::Missing,
    {
        ConstValue::Missing(self.diagnostics.report(stable_ptr, kind))
    }

    /// The constant of `true` or `false`.
    fn bool_value(&self, condition: bool) -> (r: ConstValue)
        requires
            self.env().wf(),
        ensures
            r@ == bool_view(*self.db, condition),
    {
        if condition {
            self.info.true_const.clone()
        } else {
            self.info.false_const.clone()
        }
    }

    /// Fits the value of a calculation into the type of the call.
    fn fit(&mut self, value: Integer, expr: &ExprFunctionCall) -> (r: ConstValue)
        ensures
            final(self).env() == old(self).env(),
            is_step(
                fit_result(old(self).env(), old(self).state(), value@, *expr),
                final(self).state(),
                Ok(r),
            ),
    {
        let value = if expr.ty == self.db.core_info.felt252 {
            // Specifically handling felt252s since their evaluation is more complex.
            value.rem(&felt252_modulus())
        } else {
            value
        };
        match value_as_const_value(self.db, &expr.ty, &value) {
            Ok(constant) => constant,
            Err(err) => self.missing(expr.stable_ptr, SemanticDiagnosticKind::LiteralError(err)),
        }
    }

    fn evaluate_div_rem(&self, a: &NumericArg, b: &NumericArg, expr: &ExprFunctionCall) -> (r:
        Result<ConstValue, Fault>)
        ensures
            is_step(
                eval_div_rem(self.env(), self.state(), a.ty, a.v@, b.v@, *expr),
                self.state(),
                r,
            ),
    {
        if b.v.is_zero() {
            return Err(Fault::DivisionByZero);
        }
        match (
            value_as_const_value(self.db, &a.ty, &a.v.div(&b.v)),
            value_as_const_value(self.db, &a.ty, &a.v.rem(&b.v)),
        ) {
            (Ok(div), Ok(rem)) => {
                let ghost parts = seq![div@, rem@];
                let members: Vec<ConstValue> = vec![div, rem];
                proof {
                    lemma_struct_view(members, expr.ty);
                    assert(views(members@) =~= parts);
                }
                Ok(ConstValue::Struct(members, expr.ty.clone()))
            },
            _ => Err(Fault::DivRemOutOfRange),
        }
    }

    /// Evaluates a call of a function of integers.
    pub(crate) fn evaluate_numeric_call(
        &mut self,
        function: TraitFunctionId,
        args: &Vec<NumericArg>,
        expr: &ExprFunctionCall,
    ) -> (r: Result<ConstValue, Fault>)
        requires
            old(self).env().wf(),
        ensures
            final(self).env() == old(self).env(),
            is_step(
                eval_numeric_call(
                    old(self).env(),
                    old(self).state(),
                    function,
                    numeric_views(args@),
                    *expr,
                ),
                final(self).state(),
                r,
            ),
    {
        let db = self.db;
        let core = &db.core_info;
        if args.len() == 0 {
            return Err(Fault::MissingArgument);
        }
        if function == core.neg_fn {
            return Ok(self.fit(args[0].v.negated(), expr));
        }
        if args.len() == 1 {
            return Err(Fault::MissingArgument);
        }
        let a = &args[0].v;
        let b = &args[1].v;
        let value = if function == core.add_fn {
            a.plus(b)
        } else if function == core.sub_fn {
            a.minus(b)
        } else if function == core.mul_fn {
            a.times(b)
        } else if (function == core.div_fn || function == core.rem_fn) && b.is_zero() {
            return Ok(self.missing(expr.stable_ptr, SemanticDiagnosticKind::DivisionByZero));
        } else if function == core.div_fn {
            a.div(b)
        } else if function == core.rem_fn {
            a.rem(b)
        } else if function == core.bitand_fn {
            a.bitand(b)
        } else if function == core.bitor_fn {
            a.bitor(b)
        } else if function == core.bitxor_fn {
            a.bitxor(b)
        } else if function == core.lt_fn {
            return Ok(self.bool_value(a.less(b)));
        } else if function == core.le_fn {
            return Ok(self.bool_value(!b.less(a)));
        } else if function == core.gt_fn {
            return Ok(self.bool_value(b.less(a)));
        } else if function == core.ge_fn {
            return Ok(self.bool_value(!a.less(b)));
        } else if function == core.div_rem_fn {
            return self.evaluate_div_rem(&args[0], &args[1], expr);
        } else {
            return Err(Fault::UnexpectedFunction);
        };
        Ok(self.fit(value, expr))
    }

    /// Converts the arguments to integers, where each of them is one.
    fn numeric_arguments(&self, args: &Vec<ConstValue>) -> (r: Option<Vec<NumericArg>>)
        ensures
            match r {
                Some(numbers) => numeric_args(*self.db, views(args@)) == Some(
                    numeric_views(numbers@),
                ),
                None => numeric_args(*self.db, views(args@)) is None,
            },
    {
        let mut numbers: Vec<NumericArg> = Vec::new();
        let mut i: usize = 0;
        while i < args.len()
            invariant
                i <= args@.len(),
                numbers@.len() == i,
                forall|j: int|
                    0 <= j < i ==> NumericArg::spec_try_new(
                        *self.db,
                        #[trigger] views(args@)[j],
                    ) == Some((numbers@[j].v@, numbers@[j].ty)),
            decreases args@.len() - i,
        {
            match NumericArg::try_new(self.db, &args[i]) {
                Some(number) => {
                    numbers.push(number);
                },
                None => {
                    assert(NumericArg::spec_try_new(*self.db, views(args@)[i as int]) is None);
                    return None;
                },
            }
            i += 1;
        }
        assert(numeric_args(*self.db, views(args@))->Some_0 =~= numeric_views(numbers@));
        Some(numbers)
    }

    /// Evaluates a call of a function of a trait of the core library.
    pub(crate) fn evaluate_trait_call(
        &mut self,
        function: TraitFunctionId,
        args: &Vec<ConstValue>,
        expr: &ExprFunctionCall,
    ) -> (r: Result<ConstValue, Fault>)
        requires
            old(self).env().wf(),
        ensures
            final(self).env() == old(self).env(),
            is_step(
                eval_trait_call(
                    old(self).env(),
                    old(self).state(),
                    function,
                    views(args@),
                    *expr,
                ),
                final(self).state(),
                r,
            ),
    {
        let db = self.db;
        let core = &db.core_info;
        if function == core.eq_fn {
            if args.len() < 2 {
                return Err(Fault::MissingArgument);
            }
            return Ok(self.bool_value(args[0] == args[1]));
        } else if function == core.ne_fn {
            if args.len() < 2 {
                return Err(Fault::MissingArgument);
            }
            return Ok(self.bool_value(!(args[0] == args[1])));
        } else if function == core.not_fn {
            if args.len() < 1 {
                return Err(Fault::MissingArgument);
            }
            return Ok(self.bool_value(args[0] == self.info.false_const));
        }
        match self.numeric_arguments(args) {
            Some(numbers) => self.evaluate_numeric_call(function, &numbers, expr),
            // Diagnostic can be skipped as we would either have a semantic error for a bad arg for
            // the function, or the arg itself couldn't have been calculated.
            None => Ok(ConstValue::Missing(skip_diagnostic())),
        }
    }

    fn evaluate_downcast(&self, reversed: bool, value: &Integer, ty: &TypeId) -> (r: Result<
        Option<ConstValue>,
        Fault,
    >)
        requires
            self.env().wf(),
        ensures
            match r {
                Ok(Some(constant)) => eval_downcast(self.env(), reversed, value@, *ty) == Ok::<
                    Option<ConstView>,
                    Fault,
                >(Some(constant@)),
                Ok(None) => eval_downcast(self.env(), reversed, value@, *ty) == Ok::<
                    Option<ConstView>,
                    Fault,
                >(None),
                Err(fault) => eval_downcast(self.env(), reversed, value@, *ty) == Err::<
                    Option<ConstView>,
                    Fault,
                >(fault),
            },
    {
        let enm = match self.db.type_enum(ty) {
            Some(enm) => enm,
            None => {
                return Ok(None);
            },
        };
        let variants = match self.db.concrete_enum_variants(enm) {
            Ok(variants) => variants,
            Err(_) => {
                return Ok(None);
            },
        };
        if variants.len() != 2 {
            return Ok(None);
        }
        let (some, none) = if reversed {
            (&variants[1], &variants[0])
        } else {
            (&variants[0], &variants[1])
        };
        proof {
            reveal_with_fuel(const_view, 2);
        }
        match self.db.validate_literal(&some.ty, value) {
            Ok(_) => Ok(
                Some(
                    ConstValue::Enum(
                        some.clone(),
                        Box::new(ConstValue::Int(value.clone(), some.ty.clone())),
                    ),
                ),
            ),
            Err(LiteralError::OutOfRange(_)) => Ok(
                Some(ConstValue::Enum(none.clone(), Box::new(self.info.unit_const.clone()))),
            ),
            Err(LiteralError::InvalidTypeForLiteral(_)) => Err(Fault::InvalidDowncastType),
        }
    }

    /// Evaluates a call of an extern function.
    pub(crate) fn evaluate_extern_call(
        &self,
        extern_fn: ExternFunctionId,
        args: &Vec<ConstValue>,
        expr: &ExprFunctionCall,
    ) -> (r: Result<Option<ConstValue>, Fault>)
        requires
            self.env().wf(),
        ensures
            match r {
                Ok(Some(constant)) => eval_extern_call(
                    self.env(),
                    extern_fn.0,
                    views(args@),
                    *expr,
                ) == Ok::<Option<ConstView>, Fault>(Some(constant@)),
                Ok(None) => eval_extern_call(self.env(), extern_fn.0, views(args@), *expr) == Ok::<
                    Option<ConstView>,
                    Fault,
                >(None),
                Err(fault) => eval_extern_call(self.env(), extern_fn.0, views(args@), *expr)
                    == Err::<Option<ConstView>, Fault>(fault),
            },
    {
        let expr_ty = match self.generic_substitution.substitute_type(&expr.ty) {
            Ok(ty) => ty,
            Err(_) => {
                return Ok(None);
            },
        };
        assert(args@.len() > 0 ==> views(args@)[0] == args@[0]@);
        if has_id(&self.info.upcast_fns, extern_fn.0) {
            if args.len() != 1 {
                return Ok(None);
            }
            match &args[0] {
                ConstValue::Int(value, _) => Ok(Some(ConstValue::Int(value.clone(), expr_ty))),
                _ => Ok(None),
            }
        } else if self.info.unwrap_non_zero == extern_fn {
            if args.len() != 1 {
                return Ok(None);
            }
            match &args[0] {
                ConstValue::NonZero(value) => Ok(Some((&**value).clone())),
                _ => Ok(None),
            }
        } else if let Some(reversed) = get_flag(&self.info.downcast_fns, extern_fn.0) {
            if args.len() != 1 {
                return Ok(None);
            }
            match &args[0] {
                ConstValue::Int(value, _) => self.evaluate_downcast(reversed, value, &expr_ty),
                _ => Ok(None),
            }
        } else {
            Err(Fault::UnexpectedExternFunction)
        }
    }

    /// The member of the value that the expression names.
    pub(crate) fn member(&self, full_struct: ConstValue, expr: &ExprMemberAccess) -> (r: Result<
        ConstValue,
        Fault,
    >)
        ensures
            match r {
                Ok(value) => member_of(self.env(), full_struct@, *expr) == Ok::<ConstView, Fault>(
                    value@,
                ),
                Err(fault) => member_of(self.env(), full_struct@, *expr) == Err::<
                    ConstView,
                    Fault,
                >(fault),
            },
    {
        let values = match &full_struct {
            ConstValue::Struct(values, ty) => {
                proof {
                    lemma_struct_view(*values, *ty);
                }
                values
            },
            // A semantic diagnostic should have been reported.
            _ => {
                return Ok(ConstValue::Missing(skip_diagnostic()));
            },
        };
        let members = match self.db.concrete_struct_members(expr.concrete_struct_id) {
            Ok(members) => members,
            Err(added) => {
                return Ok(ConstValue::Missing(added));
            },
        };
        let ghost p = is_member(expr.member);
        let mut i: usize = 0;
        while i < members.len()
            invariant
                i <= members@.len(),
                p == is_member(expr.member),
                full_struct@ is Struct,
                full_struct@->Struct_0 == views(values@),
                self.env().db.spec_struct_members(expr.concrete_struct_id) is Ok,
                self.env().db.spec_struct_members(expr.concrete_struct_id)->Ok_0 == members@,
                first_where(members@, p, 0) == first_where(members@, p, i as int),
            decreases members@.len() - i,
        {
            if members[i] == expr.member {
                if i < values.len() {
                    return Ok(values[i].clone());
                }
                return Err(Fault::MissingValue);
            }
            i += 1;
        }
        // A semantic diagnostic should have been reported.
        Ok(ConstValue::Missing(skip_diagnostic()))
    }
}

} // verus!
