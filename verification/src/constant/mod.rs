//! Constant values and their calculation.
use vstd::prelude::*;

pub mod calc_info;
pub mod call;
pub mod context;
pub mod evaluate;
pub mod format;
pub mod item;
pub mod laws;
pub mod literal;
pub mod queries;
pub mod resolve;
pub mod rules;
pub mod semantics;
pub mod validity;
pub mod value;

use crate::constant::format::value_text;
use crate::semantic::db::SemanticDb;
use crate::semantic::ids::{Maybe, TypeId};

verus! {

/// A constant value, by its place in the table of constant values.
#[derive(Clone, Copy, Debug, PartialEq, Eq, Structural)]
pub struct ConstValueId(pub usize);

impl ConstValueId {
    /// The text of the constant.
    pub fn format(&self, db: &SemanticDb) -> (r: String)
        requires
            self.0 < db.const_values@.len(),
            value_text(*db, db.const_values@[self.0 as int]@) is Some,
        ensures
            value_text(*db, db.const_values@[self.0 as int]@) == Some(r@),
    {
        db.const_values[self.0].debug(db)
    }

    /// Returns true if the const does not depend on any generics.
    pub fn is_fully_concrete(&self, db: &SemanticDb) -> (r: bool)
        requires
            self.0 < db.const_values@.len(),
            db.spec_is_fully_concrete(db.const_values@[self.0 as int]@) is Some,
        ensures
            db.spec_is_fully_concrete(db.const_values@[self.0 as int]@) == Some(r),
    {
        db.const_values[self.0].is_fully_concrete(db)
    }

    /// Returns true if the const does not contain any inference variables.
    pub fn is_var_free(&self, db: &SemanticDb) -> (r: bool)
        requires
            self.0 < db.const_values@.len(),
            db.spec_is_var_free(db.const_values@[self.0 as int]@) is Some,
        ensures
            db.spec_is_var_free(db.const_values@[self.0 as int]@) == Some(r),
    {
        db.const_values[self.0].is_var_free(db)
    }

    /// Returns the type of the const.
    pub fn ty(&self, db: &SemanticDb) -> (r: Maybe<TypeId>)
        requires
            self.0 < db.const_values@.len(),
        ensures
            r == db.spec_const_ty(db.const_values@[self.0 as int]@),
    {
        db.const_values[self.0].ty(db)
    }
}

} // verus!
