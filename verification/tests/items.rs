use std::sync::Arc;

use cairo_lang_core::constant::calc_info::{
    const_calc_info, ConstCalcInfo, CoreModule, CoreModules,
};
use cairo_lang_core::constant::format::{MatchArmSelector, ValueSelectorArm};
use cairo_lang_core::constant::item::{
    constant_semantic_data_cycle_helper, constant_semantic_data_helper,
    priv_constant_semantic_data, priv_constant_semantic_data_cycle,
    try_constant_semantic_data_helper, Constant, ConstantData, ItemConstant, LookupItemId,
    ResolverData,
};
use cairo_lang_core::constant::literal::{numeric_arg_value, value_as_const_value, NumericArg};
use cairo_lang_core::constant::queries::{
    constant_const_type, constant_const_type_cycle, constant_const_value,
    constant_const_value_cycle, constant_resolver_data, constant_resolver_data_cycle,
    constant_semantic_data, constant_semantic_data_cycle, constant_semantic_diagnostics,
    ConstantTable,
};
use cairo_lang_core::constant::resolve::{ExprAndId, InferenceOutcome};
use cairo_lang_core::constant::value::{ConstValue, ImplConstantId};
use cairo_lang_core::constant::ConstValueId;
use cairo_lang_core::integer::Integer;
use cairo_lang_core::semantic::db::{
    CoreInfo, EnumInfo, GenericConstParam, ImplInfo, SemanticDb, TraitConstantInfo, TypeInfo,
};
use cairo_lang_core::semantic::diagnostics::LiteralError;
use cairo_lang_core::semantic::exprs::{Arenas, Expr};
use cairo_lang_core::semantic::ids::{
    ConcreteEnumId, ConcreteVariant, ConstVarId, ConstantId, CrateId, DiagnosticAdded, ExprId,
    ExternFunctionId, FunctionId, GenericParamId, ImplId, SyntaxStablePtrId, TraitConstantId,
    TraitFunctionId, TraitId, TypeId, VariantId,
};

const FELT: usize = 0;
const U8: usize = 1;
const U128: usize = 2;
const U256: usize = 3;
const UNIT: usize = 4;
const MISSING: usize = 5;
const BOOL: usize = 6;
const GENERIC: usize = 7;
const WITH_VAR: usize = 8;

fn ty(idx: usize) -> TypeId {
    TypeId::Named(idx)
}

fn n(value: u128) -> Integer {
    Integer::from_u128(value)
}

fn number(value: u128, idx: usize) -> ConstValue {
    ConstValue::Int(n(value), ty(idx))
}

fn missing() -> ConstValue {
    ConstValue::Missing(DiagnosticAdded {})
}

fn ptr(place: u64) -> SyntaxStablePtrId {
    SyntaxStablePtrId(place)
}

fn type_info(name: &str, max: Option<Integer>) -> TypeInfo {
    TypeInfo {
        name: name.to_string(),
        is_fully_concrete: true,
        is_var_free: true,
        literal_range: max.map(|max| (n(0), max)),
        enum_id: None,
    }
}

fn variant(idx: usize) -> ConcreteVariant {
    ConcreteVariant {
        concrete_enum_id: ConcreteEnumId(0),
        id: VariantId(idx as u64),
        ty: ty(UNIT),
        idx,
    }
}

fn core_info() -> CoreInfo {
    CoreInfo {
        felt252: ty(FELT),
        u128: ty(U128),
        u256: ty(U256),
        unit: ty(UNIT),
        missing: ty(MISSING),
        true_variant: variant(1),
        false_variant: variant(0),
        neg_fn: TraitFunctionId(1),
        add_fn: TraitFunctionId(2),
        sub_fn: TraitFunctionId(3),
        mul_fn: TraitFunctionId(4),
        div_fn: TraitFunctionId(5),
        rem_fn: TraitFunctionId(6),
        div_rem_fn: TraitFunctionId(7),
        bitand_fn: TraitFunctionId(8),
        bitor_fn: TraitFunctionId(9),
        bitxor_fn: TraitFunctionId(10),
        eq_fn: TraitFunctionId(11),
        ne_fn: TraitFunctionId(12),
        lt_fn: TraitFunctionId(13),
        le_fn: TraitFunctionId(14),
        gt_fn: TraitFunctionId(15),
        ge_fn: TraitFunctionId(16),
        not_fn: TraitFunctionId(17),
        neg_trt: TraitId(1),
        add_trt: TraitId(2),
        sub_trt: TraitId(3),
        mul_trt: TraitId(4),
        div_trt: TraitId(5),
        rem_trt: TraitId(6),
        div_rem_trt: TraitId(7),
        bitand_trt: TraitId(8),
        bitor_trt: TraitId(9),
        bitxor_trt: TraitId(10),
        partialeq_trt: TraitId(11),
        partialord_trt: TraitId(12),
        not_trt: TraitId(13),
    }
}

fn db_with(const_values: Vec<ConstValue>) -> SemanticDb {
    let max_u256 = "ffffffffffffffffffffffffffffffffffffffffffffffffffffffffffffffff";
    let mut generic = type_info("T", None);
    generic.is_fully_concrete = false;
    let mut with_var = type_info("?0", None);
    with_var.is_var_free = false;
    let mut boolean = type_info("core::bool", None);
    boolean.enum_id = Some(ConcreteEnumId(0));
    SemanticDb {
        types: vec![
            type_info("core::felt252", Some(n(1000))),
            type_info("core::integer::u8", Some(n(255))),
            type_info("core::integer::u128", Some(n(u128::MAX))),
            type_info("core::integer::u256", Some(Integer::from_hex(max_u256))),
            type_info("()", None),
            type_info("<missing>", None),
            boolean,
            generic,
            with_var,
        ],
        nonzero_path: "core::zeroable::NonZero".to_string(),
        box_path: "core::box::Box".to_string(),
        structs: vec![],
        enums: vec![EnumInfo {
            name: "bool".to_string(),
            ty: ty(BOOL),
            variants: Ok(vec![variant(0), variant(1)]),
            variant_names: vec![
                (VariantId(0), "False".to_string()),
                (VariantId(1), "True".to_string()),
            ],
        }],
        functions: vec![],
        const_values,
        generic_const_params: vec![GenericConstParam {
            id: GenericParamId(3),
            name: "N".to_string(),
            ty: Ok(ty(U8)),
        }],
        impls: vec![ImplInfo {
            name: "TraitImpl".to_string(),
            is_var_free: true,
            concrete_trait: Some(Ok(TraitId(40))),
        }],
        trait_constants: vec![TraitConstantInfo {
            name: "VALUE".to_string(),
            trait_id: TraitId(40),
        }],
        impl_constant_types: vec![],
        core_crate: CrateId(1),
        core_info: core_info(),
    }
}

fn db() -> SemanticDb {
    db_with(vec![])
}

fn impl_constant_id() -> ImplConstantId {
    ImplConstantId::new(ImplId(0), TraitConstantId(0), &db())
}

fn module(first: u64, names: &[&str]) -> CoreModule {
    CoreModule {
        extern_functions: names
            .iter()
            .enumerate()
            .map(|(i, name)| (name.to_string(), ExternFunctionId(first + i as u64)))
            .collect(),
    }
}

fn info(db: &SemanticDb) -> Arc<ConstCalcInfo> {
    const_calc_info(
        db,
        &CoreModules {
            bounded_int: module(100, &[
                "upcast",
                "downcast",
                "bounded_int_trim_min",
                "bounded_int_trim_max",
            ]),
            integer: module(200, &[
                "u8_to_felt252",
                "u16_to_felt252",
                "u32_to_felt252",
                "u64_to_felt252",
                "u128_to_felt252",
                "i8_to_felt252",
                "i16_to_felt252",
                "i32_to_felt252",
                "i64_to_felt252",
                "i128_to_felt252",
                "u8_try_from_felt252",
                "u16_try_from_felt252",
                "u32_try_from_felt252",
                "u64_try_from_felt252",
                "i8_try_from_felt252",
                "i16_try_from_felt252",
                "i32_try_from_felt252",
                "i64_try_from_felt252",
                "i128_try_from_felt252",
            ]),
            zeroable: module(300, &["unwrap_non_zero"]),
            class_hash: module(400, &["class_hash_to_felt252", "class_hash_try_from_felt252"]),
            contract_address: module(500, &[
                "contract_address_to_felt252",
                "contract_address_try_from_felt252",
            ]),
            panic_with_felt252: FunctionId(0),
        },
    )
}

fn unit() -> ConstValue {
    ConstValue::Struct(vec![], ty(UNIT))
}

fn impl_constant() -> ConstValue {
    ConstValue::ImplConstant(impl_constant_id())
}

#[test]
fn values_have_texts() {
    let db = db_with(vec![number(5, U8)]);
    let text = |value: ConstValue| value.debug(&db);
    assert_eq!(text(number(12, U8)), "12");
    assert_eq!(text(ConstValue::Int(n(12).negated(), ty(FELT))), "-12");
    assert_eq!(text(unit()), "{}");
    assert_eq!(
        text(ConstValue::Struct(vec![number(1, U8), number(2, FELT)], ty(UNIT))),
        "{ 1: core::integer::u8, 2: core::felt252 }"
    );
    assert_eq!(text(ConstValue::Enum(variant(1), Box::new(unit()))), "bool::True({})");
    assert_eq!(text(ConstValue::NonZero(Box::new(number(3, U8)))), "NonZero(3)");
    assert_eq!(text(ConstValue::Boxed(Box::new(number(3, U8)))), "3.into_box()");
    assert_eq!(text(ConstValue::Generic(GenericParamId(3))), "N");
    assert_eq!(text(ConstValue::Var(ConstVarId(17), ty(U8))), "?17");
    assert_eq!(text(missing()), "missing");
    assert_eq!(text(impl_constant()), "TraitImpl::VALUE");
    let nested = ConstValue::Struct(
        vec![
            ConstValue::NonZero(Box::new(number(3, U8))),
            ConstValue::Boxed(Box::new(number(4, U8))),
        ],
        ty(UNIT),
    );
    assert_eq!(
        text(nested),
        "{ NonZero(3): core::zeroable::NonZero::<core::integer::u8>, \
         4.into_box(): core::box::Box::<core::integer::u8> }"
    );
    assert_eq!(ConstValueId(0).format(&db), "5");
}

#[test]
fn selectors_have_texts() {
    let db = db();
    assert_eq!(MatchArmSelector::VariantId(variant(0)).debug(&db), "bool::False");
    assert_eq!(MatchArmSelector::Value(ValueSelectorArm { value: 42 }).debug(&db), "42");
}

#[test]
fn impl_constants_keep_their_parts() {
    let id = impl_constant_id();
    assert_eq!(id.impl_id(), ImplId(0));
    assert_eq!(id.trait_constant_id(), TraitConstantId(0));
    assert_eq!(id.format(&db()), "TraitImpl::VALUE");
}

#[test]
fn values_have_types() {
    let mut db = db_with(vec![number(5, U8)]);
    db.impl_constant_types = vec![(impl_constant_id(), Ok(ty(U8)))];
    let nz = |idx: usize| TypeId::NonZero(Box::new(ty(idx)));
    assert_eq!(number(1, U8).ty(&db), Ok(ty(U8)));
    assert_eq!(unit().ty(&db), Ok(ty(UNIT)));
    assert_eq!(ConstValue::Enum(variant(1), Box::new(unit())).ty(&db), Ok(ty(BOOL)));
    assert_eq!(ConstValue::NonZero(Box::new(number(1, U8))).ty(&db), Ok(nz(U8)));
    assert_eq!(
        ConstValue::Boxed(Box::new(number(1, U8))).ty(&db),
        Ok(TypeId::Boxed(Box::new(ty(U8))))
    );
    assert_eq!(ConstValue::Generic(GenericParamId(3)).ty(&db), Ok(ty(U8)));
    assert_eq!(ConstValue::Generic(GenericParamId(4)).ty(&db), Err(DiagnosticAdded {}));
    assert_eq!(impl_constant().ty(&db), Ok(ty(U8)));
    assert_eq!(ConstValue::Var(ConstVarId(1), ty(U8)).ty(&db), Ok(ty(U8)));
    assert_eq!(missing().ty(&db), Ok(ty(MISSING)));
    assert_eq!(ConstValueId(0).ty(&db), Ok(ty(U8)));
}

#[test]
fn concrete_values() {
    let mut db = db_with(vec![number(5, U8), ConstValue::Generic(GenericParamId(3))]);
    db.impl_constant_types = vec![(impl_constant_id(), Ok(ty(U8)))];
    let concrete = |value: ConstValue| value.is_fully_concrete(&db);
    assert!(concrete(number(1, U8)));
    assert!(!concrete(number(1, GENERIC)));
    assert!(concrete(ConstValue::Struct(vec![number(1, U8), number(2, U8)], ty(UNIT))));
    assert!(!concrete(ConstValue::Struct(vec![number(1, U8), missing()], ty(UNIT))));
    assert!(concrete(ConstValue::Enum(variant(0), Box::new(unit()))));
    assert!(concrete(ConstValue::NonZero(Box::new(number(1, U8)))));
    assert!(!concrete(ConstValue::Boxed(Box::new(number(1, GENERIC)))));
    assert!(!concrete(ConstValue::Generic(GenericParamId(3))));
    assert!(!concrete(ConstValue::Var(ConstVarId(1), ty(U8))));
    assert!(!concrete(impl_constant()));
    assert!(ConstValueId(0).is_fully_concrete(&db));
    assert!(!ConstValueId(1).is_fully_concrete(&db));
}

#[test]
fn values_without_variables() {
    let mut db = db_with(vec![number(5, U8), ConstValue::Var(ConstVarId(1), ty(U8))]);
    db.impl_constant_types = vec![(impl_constant_id(), Ok(ty(U8)))];
    let var_free = |value: ConstValue| value.is_var_free(&db);
    assert!(var_free(number(1, U8)));
    assert!(!var_free(number(1, WITH_VAR)));
    assert!(var_free(ConstValue::Generic(GenericParamId(3))));
    assert!(var_free(missing()));
    assert!(var_free(impl_constant()));
    assert!(!var_free(ConstValue::Var(ConstVarId(1), ty(U8))));
    assert!(!var_free(ConstValue::Struct(
        vec![number(1, U8), ConstValue::Var(ConstVarId(1), ty(U8))],
        ty(UNIT)
    )));
    assert!(!var_free(ConstValue::Enum(
        variant(0),
        Box::new(ConstValue::Var(ConstVarId(1), ty(U8)))
    )));
    assert!(ConstValueId(0).is_var_free(&db));
    assert!(!ConstValueId(1).is_var_free(&db));
}

#[test]
fn integers_come_back() {
    assert_eq!(number(7, U8).into_int(), Some(n(7)));
    assert_eq!(unit().into_int(), None);
    let db = db();
    let wide = Integer::from_hex("100000000000000000000000000000000000000000000000a");
    let nz = TypeId::NonZero(Box::new(ty(U256)));
    for ty in [ty(U256), nz] {
        let constant = value_as_const_value(&db, &ty, &wide).unwrap();
        assert_eq!(numeric_arg_value(&constant), Some(wide.clone()));
        assert_eq!(constant.ty(&db), Ok(ty.clone()));
        let arg = NumericArg::try_new(&db, &constant).unwrap();
        assert_eq!(arg.v, wide);
        assert_eq!(arg.ty, ty);
    }
    assert_eq!(
        value_as_const_value(&db, &ty(U256), &wide).unwrap(),
        ConstValue::Struct(
            vec![number(10, U128), number(0x10000000000000000, U128)],
            ty(U256)
        )
    );
    assert!(matches!(
        value_as_const_value(&db, &ty(U8), &n(256)),
        Err(LiteralError::OutOfRange(TypeId::Named(U8)))
    ));
    assert!(matches!(
        value_as_const_value(&db, &ty(UNIT), &n(1)),
        Err(LiteralError::InvalidTypeForLiteral(TypeId::Named(UNIT)))
    ));
    assert!(numeric_arg_value(&unit()).is_none());
    assert!(NumericArg::try_new(&db, &missing()).is_none());
}

#[test]
fn equal_values_have_one_id() {
    let mut db = db();
    let a = db.intern_const_value(number(1, U8));
    let b = db.intern_const_value(number(2, U8));
    let c = db.intern_const_value(number(1, U8));
    assert_eq!(a, c);
    assert_ne!(a, b);
    assert_eq!(*db.lookup_intern_const_value(b), number(2, U8));
    assert_eq!(db.const_values.len(), 2);
}

fn item(value: Integer) -> ItemConstant {
    let expr = || Expr::Literal { value: value.clone(), ty: ty(U8), stable_ptr: ptr(1) };
    ItemConstant {
        stable_ptr: ptr(50),
        module_file_id: 6,
        diagnostics: vec![],
        value: ExprAndId { expr: expr(), id: ExprId(0) },
        arenas: Arenas { exprs: vec![expr()], statements: vec![], patterns: vec![] },
        inference: InferenceOutcome { conform: None, finalize: vec![], solve: None },
    }
}

fn lookup() -> LookupItemId {
    LookupItemId::Constant(ConstantId(4))
}

#[test]
fn items_are_calculated() {
    let mut db = db();
    let info = info(&db);
    let parent = Arc::new(ResolverData { module_file_id: 9, inference_id: LookupItemId::Other(1) });
    let data = constant_semantic_data_helper(
        &mut db,
        &info,
        item(n(7)),
        lookup(),
        Some(parent),
        |value: ConstValue| Ok(value),
    )
    .unwrap();
    assert!(data.diagnostics.is_empty());
    assert_eq!(*db.lookup_intern_const_value(data.const_value), number(7, U8));
    assert_eq!(
        *data.resolver_data,
        ResolverData { module_file_id: 9, inference_id: lookup() }
    );
    let constant = data.constant.unwrap();
    assert_eq!(constant.value, ExprId(0));
    assert_eq!(constant.ty(), ty(U8));
}

#[test]
fn items_are_rewritten() {
    let mut db = db();
    let info = info(&db);
    let rewritten = try_constant_semantic_data_helper(
        &mut db,
        &info,
        item(n(7)),
        lookup(),
        None,
        |_value: ConstValue| Ok(number(8, U8)),
    )
    .unwrap();
    assert_eq!(*db.lookup_intern_const_value(rewritten.const_value), number(8, U8));
    assert_eq!(rewritten.resolver_data.module_file_id, 6);
    let failed = try_constant_semantic_data_helper(
        &mut db,
        &info,
        item(n(7)),
        lookup(),
        None,
        |_value: ConstValue| Err(DiagnosticAdded {}),
    )
    .unwrap();
    assert_eq!(*db.lookup_intern_const_value(failed.const_value), missing());
}

#[test]
fn wrong_items_are_reported() {
    let mut db = db();
    let info = info(&db);
    let data = priv_constant_semantic_data(
        &mut db,
        &info,
        Ok(Some(item(n(256)))),
        ConstantId(4),
        false,
        |value: ConstValue| Ok(value),
    )
    .unwrap();
    assert_eq!(data.diagnostics.len(), 1);
    assert_eq!(data.diagnostics[0].stable_ptr, ptr(1));
    assert_eq!(*db.lookup_intern_const_value(data.const_value), missing());
    assert!(priv_constant_semantic_data(
        &mut db,
        &info,
        Ok(None),
        ConstantId(4),
        false,
        |value: ConstValue| Ok(value),
    )
    .is_err());
}

fn assert_cycle(db: &SemanticDb, data: &ConstantData) {
    assert!(data.constant.is_err());
    assert_eq!(data.diagnostics.len(), 1);
    assert_eq!(format!("{:?}", data.diagnostics[0].kind), "ConstCycle");
    assert_eq!(data.diagnostics[0].stable_ptr, ptr(50));
    assert_eq!(*db.lookup_intern_const_value(data.const_value), missing());
}

#[test]
fn cycles_are_reported() {
    let mut db = db();
    let info = info(&db);
    let data =
        constant_semantic_data_cycle_helper(&mut db, ptr(50), 6, lookup(), None).unwrap();
    assert_cycle(&db, &data);
    assert_eq!(
        *data.resolver_data,
        ResolverData { module_file_id: 6, inference_id: lookup() }
    );
    let data =
        priv_constant_semantic_data_cycle(&mut db, Ok(Some(item(n(7)))), ConstantId(4)).unwrap();
    assert_cycle(&db, &data);
    let data = priv_constant_semantic_data(
        &mut db,
        &info,
        Ok(Some(item(n(7)))),
        ConstantId(4),
        true,
        |value: ConstValue| Ok(value),
    )
    .unwrap();
    assert_cycle(&db, &data);
    assert!(
        priv_constant_semantic_data_cycle(&mut db, Err(DiagnosticAdded {}), ConstantId(4)).is_err()
    );
}

#[test]
fn queries_ask_the_table() {
    let mut db = db();
    let info = info(&db);
    let data = constant_semantic_data_helper(
        &mut db,
        &info,
        item(n(7)),
        lookup(),
        None,
        |value: ConstValue| Ok(value),
    )
    .unwrap();
    let cycle =
        constant_semantic_data_cycle_helper(&mut db, ptr(50), 8, lookup(), None).unwrap();
    let table = ConstantTable { data: vec![Ok(data)], cycle_data: vec![Ok(cycle)] };
    let id = ConstantId(0);
    let unknown = ConstantId(1);
    assert!(constant_semantic_diagnostics(&table, id).is_empty());
    assert!(constant_semantic_diagnostics(&table, unknown).is_empty());
    assert_eq!(constant_semantic_data(&table, id).unwrap().value, ExprId(0));
    assert!(constant_semantic_data(&table, unknown).is_err());
    assert!(constant_semantic_data_cycle(&table, id).is_err());
    assert_eq!(constant_resolver_data(&table, id).unwrap().module_file_id, 6);
    assert_eq!(constant_resolver_data_cycle(&table, id).unwrap().module_file_id, 8);
    let value = constant_const_value(&table, id).unwrap();
    assert_eq!(*db.lookup_intern_const_value(value), number(7, U8));
    let value = constant_const_value_cycle(&table, id).unwrap();
    assert_eq!(*db.lookup_intern_const_value(value), missing());
    assert_eq!(constant_const_type(&table, &db, id), Ok(ty(U8)));
    assert_eq!(constant_const_type_cycle(&table, &db, id), Ok(ty(MISSING)));
    assert_eq!(constant_const_type(&table, &db, unknown), Err(DiagnosticAdded {}));
}

#[test]
fn diagnostics_of_constants_are_copied() {
    let mut db = db();
    let info = info(&db);
    let data = constant_semantic_data_helper(
        &mut db,
        &info,
        item(n(256)),
        lookup(),
        None,
        |value: ConstValue| Ok(value),
    )
    .unwrap();
    let table = ConstantTable { data: vec![Ok(data)], cycle_data: vec![] };
    let diagnostics = constant_semantic_diagnostics(&table, ConstantId(0));
    assert_eq!(diagnostics.len(), 1);
    assert_eq!(format!("{:?}", diagnostics[0].kind), "LiteralError(OutOfRange(Named(1)))");
}

#[test]
fn constants_are_updated_where_their_value_changes() {
    let arenas = || {
        Arc::new(Arenas {
            exprs: vec![
                Expr::Missing { ty: ty(U8), stable_ptr: ptr(1) },
                Expr::Missing { ty: ty(FELT), stable_ptr: ptr(1) },
            ],
            statements: vec![],
            patterns: vec![],
        })
    };
    let mut constant = Constant { value: ExprId(0), arenas: arenas() };
    assert!(!constant.maybe_update(Constant { value: ExprId(0), arenas: arenas() }));
    assert_eq!(constant.ty(), ty(U8));
    assert!(constant.maybe_update(Constant { value: ExprId(1), arenas: arenas() }));
    assert_eq!(constant.ty(), ty(FELT));
}
