//! The questions that are asked of the constants of a program.
use std::sync::Arc;

use vstd::prelude::*;

use crate::constant::item::{Constant, ConstantData, ResolverData};
use crate::constant::ConstValueId;
use crate::semantic::db::SemanticDb;
use crate::semantic::diagnostics::{diagnostic_views, SemanticDiagnostic};
use crate::semantic::ids::{ConstantId, DiagnosticAdded, Maybe, TypeId};

verus! {

/// The data of the constants of a program.
#[derive(Debug)]
pub struct ConstantTable {
    /// The data of each constant.
    pub data: Vec<Maybe<ConstantData>>,
    /// The data of each constant, where the constant depends on itself.
    pub cycle_data: Vec<Maybe<ConstantData>>,
}

impl ConstantTable {
    /// The data of the constant.
    pub open spec fn spec_get(self, const_id: ConstantId, in_cycle: bool) -> Maybe<ConstantData> {
        let table = if in_cycle {
            self.cycle_data@
        } else {
            self.data@
        };
        if const_id.0 < table.len() {
            table[const_id.0 as int]
        } else {
            Err(DiagnosticAdded {  })
        }
    }

    /// The data of the constant.
    pub fn get(&self, const_id: ConstantId, in_cycle: bool) -> (r: Maybe<&ConstantData>)
        ensures
            match r {
                Ok(data) => self.spec_get(const_id, in_cycle) == Ok::<
                    ConstantData,
                    DiagnosticAdded,
                >(*data),
                Err(added) => self.spec_get(const_id, in_cycle) == Err::<
                    ConstantData,
                    DiagnosticAdded,
                >(added),
            },
    {
        let table = if in_cycle {
            &self.cycle_data
        } else {
            &self.data
        };
        if const_id.0 < table.len() {
            match &table[const_id.0] {
                Ok(data) => Ok(data),
                Err(added) => Err(*added),
            }
        } else {
            Err(DiagnosticAdded {  })
        }
    }

    /// The constant values are those of the program.
    pub open spec fn wf(self, db: SemanticDb) -> bool {
        forall|const_id: ConstantId, in_cycle: bool|
            (#[trigger] self.spec_get(const_id, in_cycle)) matches Ok(data) ==> data.const_value.0
                < db.const_values@.len()
    }

    pub open spec fn spec_constant(self, const_id: ConstantId, in_cycle: bool) -> Maybe<Constant> {
        match self.spec_get(const_id, in_cycle) {
            Ok(data) => data.constant,
            Err(added) => Err(added),
        }
    }

    fn constant(&self, const_id: ConstantId, in_cycle: bool) -> (r: Maybe<Constant>)
        ensures
            r == self.spec_constant(const_id, in_cycle),
    {
        match self.get(const_id, in_cycle) {
            Ok(data) => match &data.constant {
                Ok(constant) => Ok(
                    Constant { value: constant.value, arenas: constant.arenas.clone() },
                ),
                Err(added) => Err(*added),
            },
            Err(added) => Err(added),
        }
    }

    pub open spec fn spec_resolver_data(self, const_id: ConstantId, in_cycle: bool) -> Maybe<
        Arc<ResolverData>,
    > {
        match self.spec_get(const_id, in_cycle) {
            Ok(data) => Ok(data.resolver_data),
            Err(added) => Err(added),
        }
    }

    fn resolver_data(&self, const_id: ConstantId, in_cycle: bool) -> (r: Maybe<Arc<ResolverData>>)
        ensures
            r == self.spec_resolver_data(const_id, in_cycle),
    {
        match self.get(const_id, in_cycle) {
            Ok(data) => Ok(data.resolver_data.clone()),
            Err(added) => Err(added),
        }
    }

    pub open spec fn spec_const_value(self, const_id: ConstantId, in_cycle: bool) -> Maybe<
        ConstValueId,
    > {
        match self.spec_get(const_id, in_cycle) {
            Ok(data) => Ok(data.const_value),
            Err(added) => Err(added),
        }
    }

    fn const_value(&self, const_id: ConstantId, in_cycle: bool) -> (r: Maybe<ConstValueId>)
        ensures
            r == self.spec_const_value(const_id, in_cycle),
    {
        match self.get(const_id, in_cycle) {
            Ok(data) => Ok(data.const_value),
            Err(added) => Err(added),
        }
    }

    pub open spec fn spec_const_type(
        self,
        db: SemanticDb,
        const_id: ConstantId,
        in_cycle: bool,
    ) -> Maybe<TypeId> {
        match self.spec_get(const_id, in_cycle) {
            Ok(data) => db.spec_const_ty(db.const_values@[data.const_value.0 as int]@),
            Err(added) => Err(added),
        }
    }

    fn const_type(&self, db: &SemanticDb, const_id: ConstantId, in_cycle: bool) -> (r: Maybe<
        TypeId,
    >)
        requires
            self.wf(*db),
        ensures
            r == self.spec_const_type(*db, const_id, in_cycle),
    {
        match self.get(const_id, in_cycle) {
            Ok(data) => data.const_value.ty(db),
            Err(added) => Err(added),
        }
    }
}

/// The diagnostics of the constant.
pub fn constant_semantic_diagnostics(table: &ConstantTable, const_id: ConstantId) -> (r: Vec<
    SemanticDiagnostic,
>)
    ensures
        diagnostic_views(r@) == (match table.spec_get(const_id, false) {
            Ok(data) => diagnostic_views(data.diagnostics@),
            Err(_) => Seq::empty(),
        }),
{
    let mut diagnostics: Vec<SemanticDiagnostic> = Vec::new();
    if let Ok(data) = table.get(const_id, false) {
        let mut i: usize = 0;
        while i < data.diagnostics.len()
            invariant
                i <= data.diagnostics@.len(),
                diagnostics@.len() == i,
                forall|j: int|
                    0 <= j < i ==> (#[trigger] diagnostics@[j])@ == data.diagnostics@[j]@,
            decreases data.diagnostics@.len() - i,
        {
            diagnostics.push(data.diagnostics[i].clone());
            i += 1;
        }
        assert(diagnostic_views(diagnostics@) =~= diagnostic_views(data.diagnostics@));
    } else {
        assert(diagnostic_views(diagnostics@) =~= Seq::empty());
    }
    diagnostics
}

/// The constant itself.
pub fn constant_semantic_data(table: &ConstantTable, const_id: ConstantId) -> (r: Maybe<Constant>)
    ensures
        r == table.spec_constant(const_id, false),
{
    table.constant(const_id, false)
}

/// [constant_semantic_data], where the constant depends on itself.
pub fn constant_semantic_data_cycle(table: &ConstantTable, const_id: ConstantId) -> (r: Maybe<
    Constant,
>)
    ensures
        r == table.spec_constant(const_id, true),
{
    table.constant(const_id, true)
}

/// The data of the resolver of the constant.
pub fn constant_resolver_data(table: &ConstantTable, const_id: ConstantId) -> (r: Maybe<
    Arc<ResolverData>,
>)
    ensures
        r == table.spec_resolver_data(const_id, false),
{
    table.resolver_data(const_id, false)
}

/// [constant_resolver_data], where the constant depends on itself.
pub fn constant_resolver_data_cycle(table: &ConstantTable, const_id: ConstantId) -> (r: Maybe<
    Arc<ResolverData>,
>)
    ensures
        r == table.spec_resolver_data(const_id, true),
{
    table.resolver_data(const_id, true)
}

/// The value of the constant.
pub fn constant_const_value(table: &ConstantTable, const_id: ConstantId) -> (r: Maybe<ConstValueId>)
    ensures
        r == table.spec_const_value(const_id, false),
{
    table.const_value(const_id, false)
}

/// [constant_const_value], where the constant depends on itself.
pub fn constant_const_value_cycle(table: &ConstantTable, const_id: ConstantId) -> (r: Maybe<
    ConstValueId,
>)
    ensures
        r == table.spec_const_value(const_id, true),
{
    table.const_value(const_id, true)
}

/// The type of the constant.
pub fn constant_const_type(table: &ConstantTable, db: &SemanticDb, const_id: ConstantId) -> (r:
    Maybe<TypeId>)
    requires
        table.wf(*db),
    ensures
        r == table.spec_const_type(*db, const_id, false),
{
    table.const_type(db, const_id, false)
}

/// [constant_const_type], where the constant depends on itself.
pub fn constant_const_type_cycle(
    table: &ConstantTable,
    db: &SemanticDb,
    const_id: ConstantId,
) -> (r: Maybe<TypeId>)
    requires
        table.wf(*db),
    ensures
        r == table.spec_const_type(*db, const_id, true),
{
    table.const_type(db, const_id, true)
}

/// What is asked of a constant is answered by its own data: those of the cycle where the constant
/// depends on itself. A constant without data has no answers.
pub proof fn answers_are_those_of_the_constant(
    table: ConstantTable,
    db: SemanticDb,
    const_id: ConstantId,
    in_cycle: bool,
)
    ensures
        ({
            let entries = if in_cycle {
                table.cycle_data@
            } else {
                table.data@
            };
            match if const_id.0 < entries.len() {
                entries[const_id.0 as int]
            } else {
                Err(DiagnosticAdded {  })
            } {
                Ok(data) => {
                    &&& table.spec_get(const_id, in_cycle) == Ok::<ConstantData, DiagnosticAdded>(
                        data,
                    )
                    &&& table.spec_constant(const_id, in_cycle) == data.constant
                    &&& table.spec_resolver_data(const_id, in_cycle) == Ok::<
                        Arc<ResolverData>,
                        DiagnosticAdded,
                    >(data.resolver_data)
                    &&& table.spec_const_value(const_id, in_cycle) == Ok::<
                        ConstValueId,
                        DiagnosticAdded,
                    >(data.const_value)
                    &&& table.spec_const_type(db, const_id, in_cycle) == db.spec_const_ty(
                        db.const_values@[data.const_value.0 as int]@,
                    )
                },
                Err(_) => {
                    &&& table.spec_get(const_id, in_cycle) is Err
                    &&& table.spec_constant(const_id, in_cycle) is Err
                    &&& table.spec_resolver_data(const_id, in_cycle) is Err
                    &&& table.spec_const_value(const_id, in_cycle) is Err
                    &&& table.spec_const_type(db, const_id, in_cycle) is Err
                },
            }
        }),
{
}

} // verus!
