//! Constant items: the data that is kept of each, and the questions that are asked of it.
use std::sync::Arc;

use vstd::prelude::*;

use crate::constant::calc_info::ConstCalcInfo;
use crate::constant::resolve::{
    const_env, resolution, try_resolve_const_expr_and_evaluate, valid_expressions_are_calculated,
    value_ok, ComputationContext, ExprAndId, InferenceOutcome,
};
use crate::constant::semantics::{eval, validation, EvalState, Fault};
use crate::constant::value::{ConstValue, ConstView};
use crate::constant::ConstValueId;
use crate::semantic::db::SemanticDb;
use crate::semantic::diagnostics::{
    diagnostic_views, DiagnosticView, KindView, SemanticDiagnostic, SemanticDiagnosticKind,
    SemanticDiagnostics,
};
use crate::semantic::exprs::Arenas;
use crate::semantic::ids::{skip_diagnostic, ConstantId, ExprId, Maybe, SyntaxStablePtrId, TypeId};

verus! {

/// A constant item.
#[derive(Debug)]
pub struct Constant {
    /// The actual id of the const expression value.
    pub value: ExprId,
    /// The arena of all the expressions for the const calculation.
    pub arenas: Arc<Arenas>,
}

impl Constant {
    pub open spec fn wf(self) -> bool {
        self.value.0 < self.arenas.exprs@.len()
    }

    /// The type of the value.
    pub fn ty(&self) -> (r: TypeId)
        requires
            self.wf(),
        ensures
            r == self.arenas.exprs@[self.value.0 as int].spec_ty(),
    {
        self.arenas.exprs[self.value.0].ty()
    }

    /// Replaces the constant by a new one, unless both have the same value. Returns whether it did.
    pub fn maybe_update(&mut self, new_value: Constant) -> (r: bool)
        ensures
            r == (old(self).value != new_value.value),
            *final(self) == (if r {
                new_value
            } else {
                *old(self)
            }),
    {
        if self.value != new_value.value {
            *self = new_value;
            return true;
        }
        false
    }
}

/// What the resolver of an item looked up: the file that the item is in, and the item whose
/// inference it belongs to.
#[derive(Clone, Copy, Debug, PartialEq, Eq, Structural)]
pub struct ResolverData {
    pub module_file_id: u64,
    pub inference_id: LookupItemId,
}

/// An item that has an inference of its own.
#[derive(Clone, Copy, Debug, PartialEq, Eq, Structural)]
pub enum LookupItemId {
    /// A constant of a module.
    Constant(ConstantId),
    /// Any other item, by its number.
    Other(u64),
}

impl ResolverData {
    /// The same data, for another inference.
    pub fn clone_with_inference_id(&self, inference_id: LookupItemId) -> (r: ResolverData)
        ensures
            r == (ResolverData { module_file_id: self.module_file_id, inference_id }),
    {
        ResolverData { module_file_id: self.module_file_id, inference_id }
    }
}

/// Information about a constant definition.
#[derive(Debug)]
pub struct ConstantData {
    pub diagnostics: Vec<SemanticDiagnostic>,
    pub constant: Maybe<Constant>,
    pub const_value: ConstValueId,
    pub resolver_data: Arc<ResolverData>,
}

/// The definition of a constant, and what earlier stages found out about it.
#[derive(Debug)]
pub struct ItemConstant {
    pub stable_ptr: SyntaxStablePtrId,
    /// The file that the constant is in.
    pub module_file_id: u64,
    /// The diagnostics of the attributes that enable features, of the type, and of the value, in
    /// this order.
    pub diagnostics: Vec<SemanticDiagnostic>,
    pub value: ExprAndId,
    /// The body that the value is in, with what the inference found filled in.
    pub arenas: Arenas,
    pub inference: InferenceOutcome,
}

impl ItemConstant {
    /// The definition is one of the program.
    pub open spec fn wf(self, db: SemanticDb) -> bool {
        db.holds(self.arenas) && value_ok(db, self.arenas, self.value)
    }

    /// The diagnostics and the value of the constant.
    pub open spec fn resolution(self, db: SemanticDb, info: ConstCalcInfo) -> Result<
        (Seq<DiagnosticView>, ConstView),
        Fault,
    > {
        resolution(
            db,
            info,
            self.arenas,
            diagnostic_views(self.diagnostics@),
            self.value,
            self.stable_ptr,
            self.inference,
            true,
        )
    }
}

impl SemanticDb {
    /// The table of constant values was only extended, and the other tables are the same.
    pub open spec fn extended_by_consts(self, earlier: SemanticDb) -> bool {
        &&& self == (SemanticDb { const_values: self.const_values, ..earlier })
        &&& earlier.const_values@.len() <= self.const_values@.len()
        &&& forall|i: int|
            0 <= i < earlier.const_values@.len() ==> (#[trigger] self.const_values@[i])
                == earlier.const_values@[i]
    }

    /// Whether the table of constant values holds the value.
    pub open spec fn has_const(self, value: ConstView) -> bool {
        exists|i: int|
            0 <= i < self.const_values@.len() && (#[trigger] self.const_values@[i])@ == value
    }

    /// No value is twice in the table of constant values.
    pub open spec fn consts_are_distinct(self) -> bool {
        forall|i: int, j: int|
            0 <= i < j < self.const_values@.len() ==> (#[trigger] self.const_values@[i])@ != (
            #[trigger] self.const_values@[j])@
    }

    /// The id of a constant value; equal values have the same id.
    pub fn intern_const_value(&mut self, value: ConstValue) -> (r: ConstValueId)
        requires
            old(self).const_values@.len() < usize::MAX,
        ensures
            final(self).extended_by_consts(*old(self)),
            r.0 < final(self).const_values@.len(),
            final(self).const_values@[r.0 as int]@ == value@,
            forall|i: int|
                0 <= i < r.0 ==> (#[trigger] final(self).const_values@[i])@ != value@,
            final(self).const_values@.len() == (if old(self).has_const(value@) {
                old(self).const_values@.len()
            } else {
                old(self).const_values@.len() + 1
            }),
            old(self).has_const(value@) ==> *final(self) == *old(self),
            old(self).consts_are_distinct() ==> final(self).consts_are_distinct(),
    {
        let mut i: usize = 0;
        while i < self.const_values.len()
            invariant
                i <= self.const_values@.len(),
                *self == *old(self),
                forall|j: int| 0 <= j < i ==> (#[trigger] self.const_values@[j])@ != value@,
            decreases self.const_values@.len() - i,
        {
            if self.const_values[i] == value {
                return ConstValueId(i);
            }
            i += 1;
        }
        self.const_values.push(value);
        ConstValueId(i)
    }

    /// The value behind an id.
    pub fn lookup_intern_const_value(&self, id: ConstValueId) -> (r: &ConstValue)
        requires
            id.0 < self.const_values@.len(),
        ensures
            *r == self.const_values@[id.0 as int],
    {
        &self.const_values[id.0]
    }
}

/// The data of the resolver of an item: that of its parent where it has one.
pub open spec fn item_resolver_data(
    parent_resolver_data: Option<Arc<ResolverData>>,
    module_file_id: u64,
    lookup_item_id: LookupItemId,
) -> ResolverData {
    ResolverData {
        module_file_id: match parent_resolver_data {
            Some(parent) => parent.module_file_id,
            None => module_file_id,
        },
        inference_id: lookup_item_id,
    }
}

fn resolver_data(
    parent_resolver_data: &Option<Arc<ResolverData>>,
    module_file_id: u64,
    lookup_item_id: LookupItemId,
) -> (r: Arc<ResolverData>)
    ensures
        *r == item_resolver_data(*parent_resolver_data, module_file_id, lookup_item_id),
{
    Arc::new(
        match parent_resolver_data {
            Some(parent) => parent.clone_with_inference_id(lookup_item_id),
            None => ResolverData { module_file_id, inference_id: lookup_item_id },
        },
    )
}

/// What `rewrite` may make of a constant with the view `from` has the view `to`; it is missing
/// where it makes nothing of it.
pub open spec fn is_rewritten<F: Fn(ConstValue) -> Maybe<ConstValue>>(
    rewrite: F,
    from: ConstView,
    to: ConstView,
) -> bool {
    exists|value: ConstValue, rewritten: Maybe<ConstValue>|
        value@ == from && #[trigger] call_ensures(rewrite, (value,), rewritten) && to == (
        match rewritten {
            Ok(rewritten) => rewritten@,
            Err(_) => ConstView::Missing,
        })
}

/// The data of a constant whose calculation ended with the given diagnostics and value, after
/// `rewrite` put into the value what the inference found.
pub open spec fn is_constant_data<F: Fn(ConstValue) -> Maybe<ConstValue>>(
    data: ConstantData,
    db: SemanticDb,
    outcome: (Seq<DiagnosticView>, ConstView),
    constant_ast: ItemConstant,
    resolver_data: ResolverData,
    rewrite: F,
) -> bool {
    &&& diagnostic_views(data.diagnostics@) == outcome.0
    &&& data.constant matches Ok(constant)
    &&& constant.value == constant_ast.value.id
    &&& *constant.arenas == constant_ast.arenas
    &&& *data.resolver_data == resolver_data
    &&& data.const_value.0 < db.const_values@.len()
    &&& is_rewritten(rewrite, outcome.1, db.const_values@[data.const_value.0 as int]@)
}

/// The data of a constant that depends on itself.
pub open spec fn is_cycle_data(
    data: ConstantData,
    db: SemanticDb,
    stable_ptr: SyntaxStablePtrId,
    resolver_data: ResolverData,
) -> bool {
    &&& data.constant is Err
    &&& diagnostic_views(data.diagnostics@) == seq![
        DiagnosticView { stable_ptr, kind: KindView::ConstCycle },
    ]
    &&& data.const_value.0 < db.const_values@.len()
    &&& db.const_values@[data.const_value.0 as int]@ == ConstView::Missing
    &&& *data.resolver_data == resolver_data
}

/// Returns constant semantic data for the given ItemConstant. A calculation that is impossible ends
/// in its [Fault]. `rewrite` puts what the inference found into the value.
pub fn try_constant_semantic_data_helper<F: Fn(ConstValue) -> Maybe<ConstValue>>(
    db: &mut SemanticDb,
    info: &ConstCalcInfo,
    constant_ast: ItemConstant,
    lookup_item_id: LookupItemId,
    parent_resolver_data: Option<Arc<ResolverData>>,
    rewrite: F,
) -> (r: Result<ConstantData, Fault>)
    requires
        old(db).wf(),
        info.wf(*old(db)),
        constant_ast.wf(*old(db)),
        old(db).const_values@.len() < usize::MAX,
        forall|value: ConstValue| call_requires(rewrite, (value,)),
    ensures
        final(db).extended_by_consts(*old(db)),
        match r {
            Ok(data) => {
                &&& constant_ast.resolution(*old(db), *info) matches Ok(outcome)
                &&& is_constant_data(
                    data,
                    *final(db),
                    outcome,
                    constant_ast,
                    item_resolver_data(
                        parent_resolver_data,
                        constant_ast.module_file_id,
                        lookup_item_id,
                    ),
                    rewrite,
                )
            },
            Err(fault) => constant_ast.resolution(*old(db), *info) == Err::<
                (Seq<DiagnosticView>, ConstView),
                Fault,
            >(fault) && *final(db) == *old(db),
        },
{
    let mut diagnostics = SemanticDiagnostics::new();
    diagnostics.extend(constant_ast.diagnostics);
    assert(diagnostics@ =~= diagnostic_views(constant_ast.diagnostics@));
    let resolver_data = resolver_data(
        &parent_resolver_data,
        constant_ast.module_file_id,
        lookup_item_id,
    );
    let mut ctx = ComputationContext { diagnostics, arenas: constant_ast.arenas };
    let value = match try_resolve_const_expr_and_evaluate(
        db,
        info,
        &mut ctx,
        &constant_ast.value,
        constant_ast.stable_ptr,
        &constant_ast.inference,
        true,
    ) {
        Ok(value) => value,
        Err(fault) => {
            return Err(fault);
        },
    };
    let ghost before = value;
    let rewritten = match rewrite(value) {
        Ok(rewritten) => rewritten,
        Err(_) => ConstValue::Missing(skip_diagnostic()),
    };
    assert(is_rewritten(rewrite, before@, rewritten@));
    let const_value = db.intern_const_value(rewritten);
    let constant = Constant { value: constant_ast.value.id, arenas: Arc::new(ctx.arenas) };
    Ok(
        ConstantData {
            diagnostics: ctx.diagnostics.into_entries(),
            constant: Ok(constant),
            const_value,
            resolver_data,
        },
    )
}

/// Returns constant semantic data for the given ItemConstant.
pub fn constant_semantic_data_helper<F: Fn(ConstValue) -> Maybe<ConstValue>>(
    db: &mut SemanticDb,
    info: &ConstCalcInfo,
    constant_ast: ItemConstant,
    lookup_item_id: LookupItemId,
    parent_resolver_data: Option<Arc<ResolverData>>,
    rewrite: F,
) -> (r: Maybe<ConstantData>)
    requires
        old(db).wf(),
        info.wf(*old(db)),
        constant_ast.wf(*old(db)),
        old(db).const_values@.len() < usize::MAX,
        forall|value: ConstValue| call_requires(rewrite, (value,)),
        constant_ast.resolution(*old(db), *info) is Ok,
    ensures
        final(db).extended_by_consts(*old(db)),
        r matches Ok(data) && is_constant_data(
            data,
            *final(db),
            constant_ast.resolution(*old(db), *info)->Ok_0,
            constant_ast,
            item_resolver_data(
                parent_resolver_data,
                constant_ast.module_file_id,
                lookup_item_id,
            ),
            rewrite,
        ),
{
    match try_constant_semantic_data_helper(
        db,
        info,
        constant_ast,
        lookup_item_id,
        parent_resolver_data,
        rewrite,
    ) {
        Ok(data) => Ok(data),
        Err(_) => Err(skip_diagnostic()),
    }
}

/// Helper for cycle handling of constants.
pub fn constant_semantic_data_cycle_helper(
    db: &mut SemanticDb,
    stable_ptr: SyntaxStablePtrId,
    module_file_id: u64,
    lookup_item_id: LookupItemId,
    parent_resolver_data: Option<Arc<ResolverData>>,
) -> (r: Maybe<ConstantData>)
    requires
        old(db).const_values@.len() < usize::MAX,
    ensures
        final(db).extended_by_consts(*old(db)),
        r matches Ok(data) && is_cycle_data(
            data,
            *final(db),
            stable_ptr,
            item_resolver_data(parent_resolver_data, module_file_id, lookup_item_id),
        ),
{
    let mut diagnostics = SemanticDiagnostics::new();
    let resolver_data = resolver_data(&parent_resolver_data, module_file_id, lookup_item_id);
    let diagnostic_added = diagnostics.report(stable_ptr, SemanticDiagnosticKind::ConstCycle);
    let const_value = db.intern_const_value(ConstValue::Missing(diagnostic_added));
    assert(diagnostics@ =~= seq![DiagnosticView { stable_ptr, kind: KindView::ConstCycle }]);
    Ok(
        ConstantData {
            constant: Err(diagnostic_added),
            const_value,
            diagnostics: diagnostics.into_entries(),
            resolver_data,
        },
    )
}

/// The data of a constant of a module; `module_constant` is what the module has under its id.
pub fn priv_constant_semantic_data<F: Fn(ConstValue) -> Maybe<ConstValue>>(
    db: &mut SemanticDb,
    info: &ConstCalcInfo,
    module_constant: Maybe<Option<ItemConstant>>,
    const_id: ConstantId,
    in_cycle: bool,
    rewrite: F,
) -> (r: Maybe<ConstantData>)
    requires
        old(db).wf(),
        info.wf(*old(db)),
        old(db).const_values@.len() < usize::MAX,
        forall|value: ConstValue| call_requires(rewrite, (value,)),
        module_constant matches Ok(Some(constant_ast)) ==> constant_ast.wf(*old(db)) && (in_cycle
            || constant_ast.resolution(*old(db), *info) is Ok),
    ensures
        final(db).extended_by_consts(*old(db)),
        match module_constant {
            Ok(Some(constant_ast)) => {
                let resolver_data = item_resolver_data(
                    None,
                    constant_ast.module_file_id,
                    LookupItemId::Constant(const_id),
                );
                &&& r matches Ok(data)
                &&& in_cycle ==> is_cycle_data(
                    data,
                    *final(db),
                    constant_ast.stable_ptr,
                    resolver_data,
                )
                &&& !in_cycle ==> is_constant_data(
                    data,
                    *final(db),
                    constant_ast.resolution(*old(db), *info)->Ok_0,
                    constant_ast,
                    resolver_data,
                    rewrite,
                )
            },
            _ => r is Err && *final(db) == *old(db),
        },
{
    let lookup_item_id = LookupItemId::Constant(const_id);
    match module_constant {
        Ok(Some(constant_ast)) => if in_cycle {
            constant_semantic_data_cycle_helper(
                db,
                constant_ast.stable_ptr,
                constant_ast.module_file_id,
                lookup_item_id,
                None,
            )
        } else {
            constant_semantic_data_helper(db, info, constant_ast, lookup_item_id, None, rewrite)
        },
        Ok(None) => Err(skip_diagnostic()),
        Err(added) => Err(added),
    }
}

/// The data of a constant of a module, where the constant depends on itself.
pub fn priv_constant_semantic_data_cycle(
    db: &mut SemanticDb,
    module_constant: Maybe<Option<ItemConstant>>,
    const_id: ConstantId,
) -> (r: Maybe<ConstantData>)
    requires
        old(db).const_values@.len() < usize::MAX,
    ensures
        final(db).extended_by_consts(*old(db)),
        match module_constant {
            Ok(Some(constant_ast)) => r matches Ok(data) && is_cycle_data(
                data,
                *final(db),
                constant_ast.stable_ptr,
                item_resolver_data(
                    None,
                    constant_ast.module_file_id,
                    LookupItemId::Constant(const_id),
                ),
            ),
            _ => r is Err && *final(db) == *old(db),
        },
{
    match module_constant {
        Ok(Some(constant_ast)) => constant_semantic_data_cycle_helper(
            db,
            constant_ast.stable_ptr,
            constant_ast.module_file_id,
            LookupItemId::Constant(const_id),
            None,
        ),
        Ok(None) => Err(skip_diagnostic()),
        Err(added) => Err(added),
    }
}

/// Where no value is twice in the table, two ids are equal exactly where their values are.
pub proof fn ids_are_equal_where_values_are(db: SemanticDb, a: ConstValueId, b: ConstValueId)
    requires
        db.consts_are_distinct(),
        a.0 < db.const_values@.len(),
        b.0 < db.const_values@.len(),
    ensures
        a == b <==> db.const_values@[a.0 as int]@ == db.const_values@[b.0 as int]@,
{
    if a.0 < b.0 {
        assert(db.const_values@[a.0 as int]@ != db.const_values@[b.0 as int]@);
    } else if b.0 < a.0 {
        assert(db.const_values@[b.0 as int]@ != db.const_values@[a.0 as int]@);
    }
}

/// The data of a constant whose value needs no rewriting holds the value and the diagnostics of the
/// calculation, and the body that the value is in.
pub proof fn data_hold_the_calculated_value<F: Fn(ConstValue) -> Maybe<ConstValue>>(
    data: ConstantData,
    db: SemanticDb,
    outcome: (Seq<DiagnosticView>, ConstView),
    constant_ast: ItemConstant,
    resolver_data: ResolverData,
    rewrite: F,
)
    requires
        is_constant_data(data, db, outcome, constant_ast, resolver_data, rewrite),
        forall|value: ConstValue, rewritten: Maybe<ConstValue>| #[trigger]
            call_ensures(rewrite, (value,), rewritten) ==> (rewritten matches Ok(rewritten)
                && rewritten@ == value@),
    ensures
        data.const_value.0 < db.const_values@.len(),
        db.const_values@[data.const_value.0 as int]@ == outcome.1,
        data.diagnostics@.len() == outcome.0.len(),
        forall|i: int|
            0 <= i < outcome.0.len() ==> (#[trigger] data.diagnostics@[i])@ == outcome.0[i],
        data.constant matches Ok(constant) && constant.value == constant_ast.value.id
            && *constant.arenas == constant_ast.arenas,
        *data.resolver_data == resolver_data,
{
    assert(diagnostic_views(data.diagnostics@).len() == data.diagnostics@.len());
    assert forall|i: int| 0 <= i < outcome.0.len() implies (#[trigger] data.diagnostics@[i])@
        == outcome.0[i] by {
        assert(diagnostic_views(data.diagnostics@)[i] == data.diagnostics@[i]@);
    }
}

/// A constant whose value cannot be rewritten has no value.
pub proof fn failed_rewrites_leave_no_value<F: Fn(ConstValue) -> Maybe<ConstValue>>(
    data: ConstantData,
    db: SemanticDb,
    outcome: (Seq<DiagnosticView>, ConstView),
    constant_ast: ItemConstant,
    resolver_data: ResolverData,
    rewrite: F,
)
    requires
        is_constant_data(data, db, outcome, constant_ast, resolver_data, rewrite),
        forall|value: ConstValue, rewritten: Maybe<ConstValue>| #[trigger]
            call_ensures(rewrite, (value,), rewritten) ==> rewritten is Err,
    ensures
        db.const_values@[data.const_value.0 as int]@ == ConstView::Missing,
{
}

/// A constant that depends on itself has no value, and that is the one thing reported of it.
pub proof fn cycles_are_reported_once(
    data: ConstantData,
    db: SemanticDb,
    stable_ptr: SyntaxStablePtrId,
    resolver_data: ResolverData,
)
    requires
        is_cycle_data(data, db, stable_ptr, resolver_data),
    ensures
        data.constant is Err,
        data.diagnostics@.len() == 1,
        data.diagnostics@[0].stable_ptr == stable_ptr,
        data.diagnostics@[0].kind is ConstCycle,
        data.const_value.0 < db.const_values@.len(),
        db.const_values@[data.const_value.0 as int] is Missing,
        *data.resolver_data == resolver_data,
{
    assert(diagnostic_views(data.diagnostics@).len() == data.diagnostics@.len());
    assert(diagnostic_views(data.diagnostics@)[0] == data.diagnostics@[0]@);
}

/// The resolver of an item belongs to the inference of the item, and to the file of its parent
/// where it has one, else to its own.
pub proof fn resolvers_belong_to_their_items(
    parent: Option<Arc<ResolverData>>,
    module_file_id: u64,
    lookup_item_id: LookupItemId,
)
    ensures
        item_resolver_data(parent, module_file_id, lookup_item_id).inference_id == lookup_item_id,
        parent matches Some(parent) ==> item_resolver_data(
            Some(parent),
            module_file_id,
            lookup_item_id,
        ).module_file_id == parent.module_file_id,
        parent is None ==> item_resolver_data(
            parent,
            module_file_id,
            lookup_item_id,
        ).module_file_id == module_file_id,
{
}

/// A constant with something that the inference did not resolve has no value, unless it is another
/// constant. What is reported of it is what was reported before, and the errors of the inference.
pub proof fn unresolved_constants_have_no_value(
    constant_ast: ItemConstant,
    db: SemanticDb,
    info: ConstCalcInfo,
)
    requires
        !(constant_ast.value.expr is Constant),
        constant_ast.inference.finalize@.len() > 0,
    ensures
        constant_ast.resolution(db, info) matches Ok((diagnostics, value)) && {
            let before = diagnostic_views(constant_ast.diagnostics@);
            let first = before.len() + (if constant_ast.inference.conform is Some {
                1int
            } else {
                0
            });
            let unresolved = constant_ast.inference.finalize@;
            &&& value == ConstView::Missing
            &&& diagnostics.len() == first + unresolved.len()
            &&& forall|i: int| 0 <= i < before.len() ==> #[trigger] diagnostics[i] == before[i]
            &&& forall|i: int|
                0 <= i < unresolved.len() ==> diagnostics[first + i].kind == KindView::Inference(
                    (#[trigger] unresolved[i]).number,
                )
        },
{
}

/// A constant without errors has the value that its calculation gives.
pub proof fn constants_have_their_calculated_values(
    constant_ast: ItemConstant,
    db: SemanticDb,
    info: ConstCalcInfo,
    t: EvalState,
    value: ConstView,
)
    requires
        !(constant_ast.value.expr is Constant),
        constant_ast.inference.conform is None,
        constant_ast.inference.finalize@.len() == 0,
        validation(const_env(db, info, constant_ast.arenas), constant_ast.value.id).len() == 0,
        eval(
            const_env(db, info, constant_ast.arenas),
            EvalState {
                vars: Map::empty(),
                diagnostics: diagnostic_views(constant_ast.diagnostics@),
            },
            constant_ast.value.id,
        ) == Ok::<(EvalState, ConstView), Fault>((t, value)),
    ensures
        constant_ast.resolution(db, info) == Ok::<(Seq<DiagnosticView>, ConstView), Fault>(
            (t.diagnostics, value),
        ),
{
    let c = const_env(db, info, constant_ast.arenas);
    valid_expressions_are_calculated(
        db,
        info,
        constant_ast.arenas,
        diagnostic_views(constant_ast.diagnostics@),
        constant_ast.value,
        constant_ast.stable_ptr,
        constant_ast.inference,
        true,
        c,
        EvalState { vars: Map::empty(), diagnostics: diagnostic_views(constant_ast.diagnostics@) },
    );
}

} // verus!
