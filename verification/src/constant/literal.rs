//! Constant values of integers, and the integers of constant values.
use vstd::arithmetic::power2::{lemma_pow2_pos, pow2};
use vstd::prelude::*;

use crate::constant::value::{lemma_struct_view, views, ConstValue, ConstView};
use crate::integer::{lemma_low_bits, lemma_pow2_128, Integer};
use crate::semantic::db::SemanticDb;
use crate::semantic::diagnostics::LiteralError;
use crate::semantic::ids::{DiagnosticAdded, TypeId};

verus! {

/// The constant of the type `ty`, which is no `NonZero`: a pair of two halves for `u256`.
pub open spec fn basic_const_value(db: SemanticDb, ty: TypeId, value: int) -> ConstView {
    if ty == db.core_info.u256 {
        ConstView::Struct(
            seq![
                ConstView::Int(value % (pow2(128) as int), db.core_info.u128),
                ConstView::Int(value / (pow2(128) as int), db.core_info.u128),
            ],
            ty,
        )
    } else {
        ConstView::Int(value, ty)
    }
}

/// The constant of the type `ty` with the value `value`, where the type can hold it.
pub open spec fn spec_value_as_const_value(db: SemanticDb, ty: TypeId, value: int) -> Result<
    ConstView,
    LiteralError,
> {
    match db.spec_validate_literal(ty, value) {
        Err(err) => Err(err),
        Ok(_) => Ok(
            match ty {
                TypeId::NonZero(inner) => ConstView::NonZero(
                    Box::new(basic_const_value(db, *inner, value)),
                ),
                _ => basic_const_value(db, ty, value),
            },
        ),
    }
}

fn get_basic_const_value(db: &SemanticDb, ty: &TypeId, value: &Integer) -> (r: ConstValue)
    ensures
        r@ == basic_const_value(*db, *ty, value@),
{
    if !(*ty == db.core_info.u256) {
        ConstValue::Int(value.clone(), ty.clone())
    } else {
        let mask128 = Integer::from_u128(u128::MAX);
        let low = value.bitand(&mask128);
        let high = value.shr(128);
        proof {
            lemma_pow2_128();
            lemma_low_bits(value@, 128);
        }
        let mut halves: Vec<ConstValue> = Vec::new();
        halves.push(ConstValue::Int(low, db.core_info.u128.clone()));
        halves.push(ConstValue::Int(high, db.core_info.u128.clone()));
        proof {
            lemma_struct_view(halves, *ty);
            assert(views(halves@) =~= basic_const_value(*db, *ty, value@)->Struct_0);
        }
        ConstValue::Struct(halves, ty.clone())
    }
}

/// Creates the constant of the type `ty` with the value `value`.
pub fn value_as_const_value(db: &SemanticDb, ty: &TypeId, value: &Integer) -> (r: Result<
    ConstValue,
    LiteralError,
>)
    ensures
        match r {
            Ok(constant) => spec_value_as_const_value(*db, *ty, value@) == Ok::<
                ConstView,
                LiteralError,
            >(constant@),
            Err(err) => spec_value_as_const_value(*db, *ty, value@) == Err::<
                ConstView,
                LiteralError,
            >(err),
        },
{
    match db.validate_literal(ty, value) {
        Ok(_) => {},
        Err(err) => {
            return Err(err);
        },
    }
    match ty {
        TypeId::NonZero(inner) => Ok(
            ConstValue::NonZero(Box::new(get_basic_const_value(db, inner, value))),
        ),
        _ => Ok(get_basic_const_value(db, ty, value)),
    }
}

/// The integer of a constant: that of an integer, of a pair of two halves, or of a `NonZero` of
/// one of them.
pub open spec fn spec_numeric_arg_value(value: ConstView) -> Option<int>
    decreases value,
{
    match value {
        ConstView::Int(value, _) => Some(value),
        ConstView::Struct(members, _) => if members.len() == 2 && members[0] is Int
            && members[1] is Int {
            Some(members[0]->Int_0 + members[1]->Int_0 * pow2(128))
        } else {
            None
        },
        ConstView::NonZero(inner) => spec_numeric_arg_value(*inner),
        _ => None,
    }
}

/// Helper for creating a [NumericArg] value.
/// This includes unwrapping of `NonZero` values and struct of 2 values as a `u256`.
pub fn numeric_arg_value(value: &ConstValue) -> (r: Option<Integer>)
    ensures
        match r {
            Some(v) => spec_numeric_arg_value(value@) == Some(v@),
            None => spec_numeric_arg_value(value@) is None,
        },
    decreases *value,
{
    match value {
        ConstValue::Int(value, _) => Some(value.clone()),
        ConstValue::Struct(members, ty) => {
            proof {
                lemma_struct_view(*members, *ty);
                assert(views(members@).len() == members@.len());
            }
            if members.len() != 2 {
                return None;
            }
            assert(views(members@)[0] == members@[0]@ && views(members@)[1] == members@[1]@);
            match (&members[0], &members[1]) {
                (ConstValue::Int(low, _), ConstValue::Int(high, _)) => Some(
                    low.plus(&high.shl(128)),
                ),
                _ => None,
            }
        },
        ConstValue::NonZero(inner) => numeric_arg_value(inner),
        _ => None,
    }
}

/// An argument of a calculation: its integer, and its type.
pub struct NumericArg {
    /// The arg's integer value.
    pub v: Integer,
    /// The arg's type.
    pub ty: TypeId,
}

impl NumericArg {
    pub open spec fn spec_try_new(db: SemanticDb, arg: ConstView) -> Option<(int, TypeId)> {
        match (db.spec_const_ty(arg), spec_numeric_arg_value(arg)) {
            (Ok(ty), Some(v)) => Some((v, ty)),
            _ => None,
        }
    }

    pub fn try_new(db: &SemanticDb, arg: &ConstValue) -> (r: Option<NumericArg>)
        ensures
            match r {
                Some(numeric) => Self::spec_try_new(*db, arg@) == Some((numeric.v@, numeric.ty)),
                None => Self::spec_try_new(*db, arg@) is None,
            },
    {
        let ty = match arg.ty(db) {
            Ok(ty) => ty,
            Err(_) => {
                return None;
            },
        };
        match numeric_arg_value(arg) {
            Some(v) => Some(NumericArg { v, ty }),
            None => None,
        }
    }
}

/// A constant that was made of an integer gives the integer back.
pub proof fn numeric_value_of_const_value(db: SemanticDb, ty: TypeId, value: int)
    requires
        spec_value_as_const_value(db, ty, value) is Ok,
    ensures
        spec_numeric_arg_value(spec_value_as_const_value(db, ty, value)->Ok_0) == Some(value),
{
    reveal_with_fuel(spec_numeric_arg_value, 2);
    let p = pow2(128) as int;
    lemma_pow2_pos(128);
    assert(value % p + (value / p) * p == value) by (nonlinear_arith)
        requires
            p > 0,
    ;
}

/// A constant that was made for a type has that type.
pub proof fn const_value_has_its_type(db: SemanticDb, ty: TypeId, value: int)
    requires
        spec_value_as_const_value(db, ty, value) is Ok,
    ensures
        db.spec_const_ty(spec_value_as_const_value(db, ty, value)->Ok_0) == Ok::<
            TypeId,
            DiagnosticAdded,
        >(ty),
{
    reveal_with_fuel(SemanticDb::spec_const_ty, 2);
}

/// Constants of one type that were made of different integers are different.
pub proof fn const_value_is_injective(db: SemanticDb, ty: TypeId, a: int, b: int)
    requires
        spec_value_as_const_value(db, ty, a) is Ok,
        spec_value_as_const_value(db, ty, a) == spec_value_as_const_value(db, ty, b),
    ensures
        a == b,
{
    numeric_value_of_const_value(db, ty, a);
    numeric_value_of_const_value(db, ty, b);
}

/// A `u256` is a pair of two `u128`: the lower half, and the upper half.
pub proof fn wide_integers_are_pairs_of_halves(
    db: SemanticDb,
    value: int,
    low: int,
    high: int,
)
    requires
        db.spec_validate_literal(db.core_info.u256, value) is Ok,
        !(db.core_info.u256 is NonZero),
        value == low + high * 0x1_0000_0000_0000_0000_0000_0000_0000_0000,
        0 <= low < 0x1_0000_0000_0000_0000_0000_0000_0000_0000,
    ensures
        spec_value_as_const_value(db, db.core_info.u256, value) == Ok::<ConstView, LiteralError>(
            ConstView::Struct(
                seq![
                    ConstView::Int(low, db.core_info.u128),
                    ConstView::Int(high, db.core_info.u128),
                ],
                db.core_info.u256,
            ),
        ),
{
    lemma_pow2_128();
    let p = 0x1_0000_0000_0000_0000_0000_0000_0000_0000int;
    assert(value % p == low && value / p == high) by (nonlinear_arith)
        requires
            value == low + high * p,
            0 <= low < p,
            p > 0,
    ;
}

/// A `NonZero` wraps the constant of the type that it wraps. What is no literal of a type has no
/// constant of it.
pub proof fn constants_exist_where_literals_do(db: SemanticDb, ty: TypeId, value: int)
    ensures
        spec_value_as_const_value(db, ty, value) is Ok <==> db.spec_validate_literal(
            ty,
            value,
        ) is Ok,
        ty is Named && ty != db.core_info.u256 && db.spec_validate_literal(ty, value) is Ok ==> {
            &&& spec_value_as_const_value(db, ty, value) == Ok::<ConstView, LiteralError>(
                ConstView::Int(value, ty),
            )
            &&& value != 0 ==> spec_value_as_const_value(db, TypeId::NonZero(Box::new(ty)), value)
                == Ok::<ConstView, LiteralError>(
                ConstView::NonZero(Box::new(ConstView::Int(value, ty))),
            )
        },
{
    reveal_with_fuel(SemanticDb::spec_validate_literal, 2);
}

/// The integer of a constant is that of its number, of its two halves, or of what it wraps.
pub proof fn integers_of_constants(value: ConstView, low: int, high: int, ty: TypeId, half: TypeId)
    ensures
        spec_numeric_arg_value(ConstView::Int(low, ty)) == Some(low),
        spec_numeric_arg_value(
            ConstView::Struct(seq![ConstView::Int(low, half), ConstView::Int(high, half)], ty),
        ) == Some(low + high * 0x1_0000_0000_0000_0000_0000_0000_0000_0000),
        spec_numeric_arg_value(ConstView::NonZero(Box::new(value))) == spec_numeric_arg_value(
            value,
        ),
        value is Enum || value is Boxed || value is Generic || value is Var || value is Missing
            || value is ImplConstant ==> spec_numeric_arg_value(value) is None,
{
    reveal_with_fuel(spec_numeric_arg_value, 2);
    lemma_pow2_128();
}

/// The number of an argument is that of the constant, and its type is that of the constant.
pub proof fn arguments_are_numbers_with_types(
    db: SemanticDb,
    value: ConstView,
    number: int,
    ty: TypeId,
)
    ensures
        NumericArg::spec_try_new(db, ConstView::Int(number, ty)) == Some((number, ty)),
        NumericArg::spec_try_new(db, ConstView::NonZero(Box::new(ConstView::Int(number, ty))))
            == Some((number, TypeId::NonZero(Box::new(ty)))),
        spec_numeric_arg_value(value) is None || db.spec_const_ty(value) is Err
            ==> NumericArg::spec_try_new(db, value) is None,
        spec_numeric_arg_value(value) matches Some(number) && (db.spec_const_ty(value) matches Ok(
            ty,
        ) && NumericArg::spec_try_new(db, value) == Some((number, ty))) || spec_numeric_arg_value(
            value,
        ) is None || db.spec_const_ty(value) is Err,
{
    reveal_with_fuel(spec_numeric_arg_value, 2);
    reveal_with_fuel(SemanticDb::spec_const_ty, 2);
}

} // verus!
