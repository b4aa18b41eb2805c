use cairo_lang_core::constant::calc_info::{
    const_calc_info, ConstCalcInfo, CoreModule, CoreModules,
};
use cairo_lang_core::constant::resolve::{
    resolve_const_expr_and_evaluate, try_resolve_const_expr_and_evaluate, validate_const_expr,
    ComputationContext, ExprAndId, InferenceError, InferenceOutcome,
};
use cairo_lang_core::constant::semantics::Fault;
use cairo_lang_core::constant::value::ConstValue;
use cairo_lang_core::constant::ConstValueId;
use cairo_lang_core::integer::Integer;
use cairo_lang_core::semantic::db::{
    ConcreteFunction, CoreInfo, EnumInfo, FunctionBody, FunctionWithBody, GenericFunctionId,
    GenericFunctionWithBodyId, GenericSubstitution, ImplGenericFunctionId, ImplLongId, SemanticDb,
    Signature, TypeInfo,
};
use cairo_lang_core::semantic::diagnostics::{
    LiteralError, SemanticDiagnostic, SemanticDiagnosticKind, SemanticDiagnostics,
};
use cairo_lang_core::semantic::exprs::{
    Arenas, Condition, Expr, ExprFunctionCall, ExprFunctionCallArg, ExprIf, ExprMatch,
    ExprMemberAccess, ExprStructCtor, FixedSizeArrayItems, LogicalOperator, MatchArm, Pattern,
    Statement,
};
use cairo_lang_core::semantic::ids::{
    ConcreteEnumId, ConcreteStructId, ConcreteVariant, CrateId, DiagnosticAdded, ExprId,
    ExternFunctionId, FunctionId, MemberId, PatternId, StatementId, SyntaxStablePtrId,
    TraitFunctionId, TraitId, TypeId, VarId, VariantId,
};

const PRIME: &str = "800000000000011000000000000000000000000000000000000000000000001";

const FELT: usize = 0;
const U8: usize = 1;
const U128: usize = 2;
const U256: usize = 3;
const UNIT: usize = 4;
const MISSING: usize = 5;
const BOOL: usize = 6;
const OPTION_U8: usize = 7;
const POINT: usize = 8;
const NO_LITERALS: usize = 9;
const TUPLE: usize = 10;
const OPTION_POINT: usize = 11;

const PANIC: usize = 0;
const NEG: usize = 1;
const ADD: usize = 2;
const SUB: usize = 3;
const MUL: usize = 4;
const DIV: usize = 5;
const REM: usize = 6;
const DIV_REM: usize = 7;
const BITAND: usize = 8;
const BITOR: usize = 9;
const BITXOR: usize = 10;
const EQ: usize = 11;
const NE: usize = 12;
const LT: usize = 13;
const LE: usize = 14;
const GT: usize = 15;
const GE: usize = 16;
const NOT: usize = 17;
const OTHER_TRAIT: usize = 18;
const UPCAST: usize = 19;
const DOWNCAST: usize = 20;
const TRIM_MIN: usize = 21;
const UNWRAP_NON_ZERO: usize = 22;
const OTHER_EXTERN: usize = 23;
const NOT_CONST: usize = 24;
const FIRST_OWN: usize = 25;

fn ty(idx: usize) -> TypeId {
    TypeId::Named(idx)
}

fn n(value: u128) -> Integer {
    Integer::from_u128(value)
}

fn prime() -> Integer {
    Integer::from_hex(PRIME)
}

fn ptr(place: u64) -> SyntaxStablePtrId {
    SyntaxStablePtrId(place)
}

fn type_info(
    name: &str,
    literal_range: Option<(Integer, Integer)>,
    enum_id: Option<ConcreteEnumId>,
) -> TypeInfo {
    TypeInfo {
        name: name.to_string(),
        is_fully_concrete: true,
        is_var_free: true,
        literal_range,
        enum_id,
    }
}

fn variant(enm: usize, idx: usize, ty: TypeId) -> ConcreteVariant {
    ConcreteVariant {
        concrete_enum_id: ConcreteEnumId(enm),
        id: VariantId((enm * 10 + idx) as u64),
        ty,
        idx,
    }
}

fn false_variant() -> ConcreteVariant {
    variant(0, 0, ty(UNIT))
}

fn true_variant() -> ConcreteVariant {
    variant(0, 1, ty(UNIT))
}

fn some_u8() -> ConcreteVariant {
    variant(1, 0, ty(U8))
}

fn none_u8() -> ConcreteVariant {
    variant(1, 1, ty(UNIT))
}

fn signature(is_const: bool, params: Vec<u64>) -> Signature {
    Signature { is_const, params }
}

fn trait_function(number: usize, is_const: bool) -> ConcreteFunction {
    ConcreteFunction {
        generic_function: GenericFunctionId::Impl(ImplGenericFunctionId {
            impl_id: ImplLongId::Other,
            function: TraitFunctionId(number as u64),
            trait_signature: Ok(signature(is_const, vec![])),
        }),
        full_path: format!("core::function_{number}"),
        body: Ok(None),
    }
}

fn extern_function(id: u64) -> ConcreteFunction {
    ConcreteFunction {
        generic_function: GenericFunctionId::Extern {
            id: ExternFunctionId(id),
            signature: Ok(signature(true, vec![])),
        },
        full_path: format!("core::extern_{id}"),
        body: Ok(None),
    }
}

fn const_function(name: &str, params: Vec<u64>, body: Body, body_expr: ExprId) -> ConcreteFunction {
    ConcreteFunction {
        generic_function: GenericFunctionId::Free { signature: Ok(signature(true, vec![])) },
        full_path: name.to_string(),
        body: Ok(Some(FunctionWithBody {
            generic_function: GenericFunctionWithBodyId::Other,
            signature: Ok(signature(true, params)),
            substitution: Ok(GenericSubstitution::new()),
            body: Ok(FunctionBody { arenas: body.arenas, body_expr }),
        })),
    }
}

fn core_info() -> CoreInfo {
    let function = |number: usize| TraitFunctionId(number as u64);
    CoreInfo {
        felt252: ty(FELT),
        u128: ty(U128),
        u256: ty(U256),
        unit: ty(UNIT),
        missing: ty(MISSING),
        true_variant: true_variant(),
        false_variant: false_variant(),
        neg_fn: function(NEG),
        add_fn: function(ADD),
        sub_fn: function(SUB),
        mul_fn: function(MUL),
        div_fn: function(DIV),
        rem_fn: function(REM),
        div_rem_fn: function(DIV_REM),
        bitand_fn: function(BITAND),
        bitor_fn: function(BITOR),
        bitxor_fn: function(BITXOR),
        eq_fn: function(EQ),
        ne_fn: function(NE),
        lt_fn: function(LT),
        le_fn: function(LE),
        gt_fn: function(GT),
        ge_fn: function(GE),
        not_fn: function(NOT),
        neg_trt: TraitId(1),
        add_trt: TraitId(2),
        sub_trt: TraitId(3),
        mul_trt: TraitId(4),
        div_trt: TraitId(5),
        rem_trt: TraitId(6),
        div_rem_trt: TraitId(7),
        bitand_trt: TraitId(8),
        bitor_trt: TraitId(9),
        bitxor_trt: TraitId(10),
        partialeq_trt: TraitId(11),
        partialord_trt: TraitId(12),
        not_trt: TraitId(13),
    }
}

fn module(first: u64, names: &[&str]) -> CoreModule {
    CoreModule {
        extern_functions: names
            .iter()
            .enumerate()
            .map(|(i, name)| (name.to_string(), ExternFunctionId(first + i as u64)))
            .collect(),
    }
}

fn core_modules() -> CoreModules {
    CoreModules {
        bounded_int: module(
            100,
            &["upcast", "downcast", "bounded_int_trim_min", "bounded_int_trim_max"],
        ),
        integer: module(
            200,
            &[
                "u8_to_felt252",
                "u16_to_felt252",
                "u32_to_felt252",
                "u64_to_felt252",
                "u128_to_felt252",
                "i8_to_felt252",
                "i16_to_felt252",
                "i32_to_felt252",
                "i64_to_felt252",
                "i128_to_felt252",
                "u8_try_from_felt252",
                "u16_try_from_felt252",
                "u32_try_from_felt252",
                "u64_try_from_felt252",
                "i8_try_from_felt252",
                "i16_try_from_felt252",
                "i32_try_from_felt252",
                "i64_try_from_felt252",
                "i128_try_from_felt252",
            ],
        ),
        zeroable: module(300, &["unwrap_non_zero"]),
        class_hash: module(400, &["class_hash_to_felt252", "class_hash_try_from_felt252"]),
        contract_address: module(
            500,
            &["contract_address_to_felt252", "contract_address_try_from_felt252"],
        ),
        panic_with_felt252: FunctionId(PANIC),
    }
}

fn db_with(own_functions: Vec<ConcreteFunction>, const_values: Vec<ConstValue>) -> SemanticDb {
    let mut functions = vec![trait_function(PANIC, false)];
    for number in NEG..OTHER_TRAIT + 1 {
        functions.push(trait_function(number, true));
    }
    functions.push(extern_function(100));
    functions.push(extern_function(101));
    functions.push(extern_function(102));
    functions.push(extern_function(300));
    functions.push(extern_function(999));
    functions.push(trait_function(NOT_CONST, false));
    functions.extend(own_functions);
    let max_u256 = "ffffffffffffffffffffffffffffffffffffffffffffffffffffffffffffffff";
    SemanticDb {
        types: vec![
            type_info(
                "core::felt252",
                Some((prime().minus(&n(1)).negated(), prime().minus(&n(1)))),
                None,
            ),
            type_info("core::integer::u8", Some((n(0), n(255))), None),
            type_info("core::integer::u128", Some((n(0), n(u128::MAX))), None),
            type_info("core::integer::u256", Some((n(0), Integer::from_hex(max_u256))), None),
            type_info("()", None, None),
            type_info("<missing>", None, None),
            type_info("core::bool", None, Some(ConcreteEnumId(0))),
            type_info("core::option::Option::<u8>", None, Some(ConcreteEnumId(1))),
            type_info("test::Point", None, None),
            type_info("test::NoLiterals", None, None),
            type_info("(u8, u8)", None, None),
            type_info("core::option::Option::<Point>", None, Some(ConcreteEnumId(2))),
        ],
        nonzero_path: "core::zeroable::NonZero".to_string(),
        box_path: "core::box::Box".to_string(),
        structs: vec![Ok(vec![MemberId(1), MemberId(2)]), Err(DiagnosticAdded {})],
        enums: vec![
            EnumInfo {
                name: "bool".to_string(),
                ty: ty(BOOL),
                variants: Ok(vec![false_variant(), true_variant()]),
                variant_names: vec![
                    (VariantId(0), "False".to_string()),
                    (VariantId(1), "True".to_string()),
                ],
            },
            EnumInfo {
                name: "Option".to_string(),
                ty: ty(OPTION_U8),
                variants: Ok(vec![some_u8(), none_u8()]),
                variant_names: vec![
                    (VariantId(10), "Some".to_string()),
                    (VariantId(11), "None".to_string()),
                ],
            },
            EnumInfo {
                name: "Option".to_string(),
                ty: ty(OPTION_POINT),
                variants: Ok(vec![variant(2, 0, ty(POINT)), variant(2, 1, ty(UNIT))]),
                variant_names: vec![],
            },
        ],
        functions,
        const_values,
        generic_const_params: vec![],
        impls: vec![],
        trait_constants: vec![],
        impl_constant_types: vec![],
        core_crate: CrateId(1),
        core_info: core_info(),
    }
}

fn db() -> SemanticDb {
    db_with(vec![], vec![])
}

struct Body {
    arenas: Arenas,
}

impl Body {
    fn new() -> Body {
        Body { arenas: Arenas { exprs: vec![], statements: vec![], patterns: vec![] } }
    }

    fn add(&mut self, expr: Expr) -> ExprId {
        self.arenas.exprs.push(expr);
        ExprId(self.arenas.exprs.len() - 1)
    }

    fn pattern(&mut self, pattern: Pattern) -> PatternId {
        self.arenas.patterns.push(pattern);
        PatternId(self.arenas.patterns.len() - 1)
    }

    fn literal(&mut self, value: Integer, ty: TypeId) -> ExprId {
        self.add(Expr::Literal { value, ty, stable_ptr: ptr(1) })
    }

    fn u8(&mut self, value: u128) -> ExprId {
        self.literal(n(value), ty(U8))
    }

    fn var(&mut self, var: VarId) -> ExprId {
        self.add(Expr::Var { var, ty: ty(U8), stable_ptr: ptr(2) })
    }

    fn call(&mut self, function: usize, args: Vec<ExprId>, ty: TypeId) -> ExprId {
        self.add(Expr::FunctionCall(ExprFunctionCall {
            function: FunctionId(function),
            args: args.into_iter().map(ExprFunctionCallArg::Value).collect(),
            ty,
            stable_ptr: ptr(3),
        }))
    }

    fn tuple(&mut self, items: Vec<ExprId>) -> ExprId {
        self.add(Expr::Tuple { items, ty: ty(TUPLE), stable_ptr: ptr(4) })
    }

    fn enum_value(&mut self, variant: ConcreteVariant, value_expr: ExprId) -> ExprId {
        self.add(Expr::EnumVariantCtor {
            variant,
            value_expr,
            ty: ty(OPTION_U8),
            stable_ptr: ptr(5),
        })
    }

    fn boolean(&mut self, value: bool) -> ExprId {
        let unit = self.add(Expr::Tuple { items: vec![], ty: ty(UNIT), stable_ptr: ptr(6) });
        self.enum_value(if value { true_variant() } else { false_variant() }, unit)
    }

    fn point(&mut self, x: ExprId, y: ExprId) -> ExprId {
        self.add(Expr::StructCtor(ExprStructCtor {
            concrete_struct_id: ConcreteStructId(0),
            members: vec![(y, MemberId(2)), (x, MemberId(1))],
            base_struct: None,
            ty: ty(POINT),
            stable_ptr: ptr(7),
        }))
    }

    fn let_statement(&mut self, pattern: PatternId, expr: ExprId) -> StatementId {
        self.arenas.statements.push(Statement::Let { pattern, expr, stable_ptr: ptr(8) });
        StatementId(self.arenas.statements.len() - 1)
    }

    fn block(&mut self, statements: Vec<StatementId>, tail: Option<ExprId>) -> ExprId {
        self.add(Expr::Block { statements, tail, ty: ty(U8), stable_ptr: ptr(9) })
    }

    fn match_on(&mut self, matched_expr: ExprId, arms: Vec<MatchArm>) -> ExprId {
        self.add(Expr::Match(ExprMatch { matched_expr, arms, ty: ty(U8), stable_ptr: ptr(10) }))
    }

    fn if_else(
        &mut self,
        conditions: Vec<Condition>,
        if_block: ExprId,
        else_block: Option<ExprId>,
    ) -> ExprId {
        self.add(Expr::If(ExprIf {
            conditions,
            if_block,
            else_block,
            ty: ty(U8),
            stable_ptr: ptr(11),
        }))
    }
}

fn no_inference_errors() -> InferenceOutcome {
    InferenceOutcome { conform: None, finalize: vec![], solve: None }
}

fn info(db: &SemanticDb) -> std::sync::Arc<ConstCalcInfo> {
    const_calc_info(db, &core_modules())
}

fn other_expr() -> Expr {
    Expr::Other { ty: ty(U8), stable_ptr: ptr(0) }
}

fn try_eval(
    db: &SemanticDb,
    body: Body,
    id: ExprId,
) -> (Result<ConstValue, Fault>, Vec<SemanticDiagnostic>) {
    let mut ctx =
        ComputationContext { diagnostics: SemanticDiagnostics::new(), arenas: body.arenas };
    let value = try_resolve_const_expr_and_evaluate(
        db,
        &info(db),
        &mut ctx,
        &ExprAndId { expr: other_expr(), id },
        ptr(50),
        &no_inference_errors(),
        true,
    );
    (value, ctx.diagnostics.into_entries())
}

fn eval(db: &SemanticDb, body: Body, id: ExprId) -> (ConstValue, Vec<SemanticDiagnostic>) {
    let (value, diagnostics) = try_eval(db, body, id);
    (value.unwrap(), diagnostics)
}

fn number(value: u128, idx: usize) -> ConstValue {
    ConstValue::Int(n(value), ty(idx))
}

fn unit() -> ConstValue {
    ConstValue::Struct(vec![], ty(UNIT))
}

fn boolean(value: bool) -> ConstValue {
    ConstValue::Enum(if value { true_variant() } else { false_variant() }, Box::new(unit()))
}

fn missing() -> ConstValue {
    ConstValue::Missing(DiagnosticAdded {})
}

fn u8_call(function: usize, args: &[u128]) -> (ConstValue, Vec<SemanticDiagnostic>) {
    let mut body = Body::new();
    let args = args.iter().map(|value| body.u8(*value)).collect();
    let id = body.call(function, args, ty(U8));
    eval(&db(), body, id)
}

fn assert_value(result: (ConstValue, Vec<SemanticDiagnostic>), expected: ConstValue) {
    assert_eq!(result.0, expected);
    assert!(result.1.is_empty());
}

fn kinds(diagnostics: &[SemanticDiagnostic]) -> Vec<String> {
    diagnostics.iter().map(|d| format!("{:?}", d.kind)).collect()
}

#[test]
fn integers_are_calculated() {
    assert_value(u8_call(ADD, &[1, 2]), number(3, U8));
    assert_value(u8_call(SUB, &[9, 2]), number(7, U8));
    assert_value(u8_call(MUL, &[6, 7]), number(42, U8));
    assert_value(u8_call(DIV, &[23, 5]), number(4, U8));
    assert_value(u8_call(REM, &[23, 5]), number(3, U8));
    assert_value(u8_call(BITAND, &[12, 10]), number(8, U8));
    assert_value(u8_call(BITOR, &[12, 10]), number(14, U8));
    assert_value(u8_call(BITXOR, &[12, 10]), number(6, U8));
}

#[test]
fn integers_are_compared() {
    for (a, b) in [(1, 2), (2, 2), (3, 2)] {
        assert_value(u8_call(LT, &[a, b]), boolean(a < b));
        assert_value(u8_call(LE, &[a, b]), boolean(a <= b));
        assert_value(u8_call(GT, &[a, b]), boolean(a > b));
        assert_value(u8_call(GE, &[a, b]), boolean(a >= b));
        assert_value(u8_call(EQ, &[a, b]), boolean(a == b));
        assert_value(u8_call(NE, &[a, b]), boolean(a != b));
    }
}

#[test]
fn not_compares_with_false() {
    for value in [true, false] {
        let mut body = Body::new();
        let arg = body.boolean(value);
        let id = body.call(NOT, vec![arg], ty(BOOL));
        assert_value(eval(&db(), body, id), boolean(!value));
    }
}

#[test]
fn results_out_of_range_are_reported() {
    let (value, diagnostics) = u8_call(ADD, &[200, 100]);
    assert_eq!(value, missing());
    assert_eq!(diagnostics.len(), 1);
    assert_eq!(diagnostics[0].stable_ptr, ptr(3));
    assert!(matches!(
        &diagnostics[0].kind,
        SemanticDiagnosticKind::LiteralError(LiteralError::OutOfRange(TypeId::Named(U8)))
    ));
    let (value, diagnostics) = u8_call(NEG, &[1]);
    assert_eq!(value, missing());
    assert_eq!(kinds(&diagnostics), vec!["LiteralError(OutOfRange(Named(1)))"]);
}

#[test]
fn division_by_zero_is_reported() {
    for function in [DIV, REM] {
        let (value, diagnostics) = u8_call(function, &[1, 0]);
        assert_eq!(value, missing());
        assert_eq!(kinds(&diagnostics), vec!["DivisionByZero"]);
        assert_eq!(diagnostics[0].stable_ptr, ptr(3));
    }
}

#[test]
fn felts_are_reduced_by_the_prime() {
    let mut body = Body::new();
    let a = body.literal(prime().minus(&n(1)), ty(FELT));
    let b = body.literal(n(3), ty(FELT));
    let id = body.call(ADD, vec![a, b], ty(FELT));
    assert_value(eval(&db(), body, id), number(2, FELT));
    // The remainder has the sign of what is reduced.
    let mut body = Body::new();
    let a = body.literal(n(2), ty(FELT));
    let b = body.literal(n(5), ty(FELT));
    let id = body.call(SUB, vec![a, b], ty(FELT));
    assert_value(eval(&db(), body, id), ConstValue::Int(n(3).negated(), ty(FELT)));
}

#[test]
fn wide_integers_are_pairs() {
    let mut body = Body::new();
    let a = body.literal(n(u128::MAX), ty(U256));
    let b = body.literal(n(2), ty(U256));
    let id = body.call(MUL, vec![a, b], ty(U256));
    assert_value(
        eval(&db(), body, id),
        ConstValue::Struct(vec![number(u128::MAX - 1, U128), number(1, U128)], ty(U256)),
    );
}

#[test]
fn div_rem_gives_both_results() {
    let mut body = Body::new();
    let a = body.u8(23);
    let b = body.literal(n(5), TypeId::NonZero(Box::new(ty(U8))));
    let id = body.call(DIV_REM, vec![a, b], ty(TUPLE));
    assert_value(
        eval(&db(), body, id),
        ConstValue::Struct(vec![number(4, U8), number(3, U8)], ty(TUPLE)),
    );
}

#[test]
fn divisions_agree() {
    let signed = |value: i64| {
        let magnitude = n(value.unsigned_abs() as u128);
        if value < 0 { magnitude.negated() } else { magnitude }
    };
    for (a, b) in [(23, 5), (-23, 5), (23, -5), (-23, -5), (20, -5), (3, 5), (0, 7)] {
        let quotient = ConstValue::Int(signed(a / b), ty(FELT));
        let remainder = ConstValue::Int(signed(a % b), ty(FELT));
        for (function, expected) in [(DIV, quotient), (REM, remainder)] {
            let mut body = Body::new();
            let args =
                vec![body.literal(signed(a), ty(FELT)), body.literal(signed(b), ty(FELT))];
            let id = body.call(function, args, ty(FELT));
            assert_value(eval(&db(), body, id), expected);
        }
        let quotient = ConstValue::Int(signed(a / b), ty(FELT));
        let remainder = ConstValue::Int(signed(a % b), ty(FELT));
        let mut body = Body::new();
        let dividend = body.literal(signed(a), ty(FELT));
        let divisor = body.literal(signed(b), TypeId::NonZero(Box::new(ty(FELT))));
        let id = body.call(DIV_REM, vec![dividend, divisor], ty(TUPLE));
        assert_value(
            eval(&db(), body, id),
            ConstValue::Struct(vec![quotient, remainder], ty(TUPLE)),
        );
    }
}

#[test]
fn comparisons_agree() {
    for (a, b) in [(1, 2), (2, 2), (3, 2), (0, 255)] {
        let value = |function: usize, a: u128, b: u128| {
            let (value, diagnostics) = u8_call(function, &[a, b]);
            assert!(diagnostics.is_empty());
            assert!(value == boolean(true) || value == boolean(false));
            value == boolean(true)
        };
        assert_eq!(value(LT, a, b), a < b);
        assert_eq!(value(LT, a, b), !value(GE, a, b));
        assert_eq!(value(LE, a, b), !value(GT, a, b));
        assert_eq!(value(EQ, a, b), !value(NE, a, b));
        assert_eq!(value(LT, a, b), value(GT, b, a));
        assert_eq!(value(EQ, a, b), value(EQ, b, a));
    }
}

#[test]
fn calls_that_make_no_sense_are_faults() {
    let fault = |function: usize, args: &[u128]| {
        let mut body = Body::new();
        let args = args.iter().map(|value| body.u8(*value)).collect();
        let id = body.call(function, args, ty(U8));
        try_eval(&db(), body, id).0.unwrap_err()
    };
    assert_eq!(fault(DIV_REM, &[1, 0]), Fault::DivisionByZero);
    assert_eq!(fault(ADD, &[1]), Fault::MissingArgument);
    assert_eq!(fault(NEG, &[]), Fault::MissingArgument);
    assert_eq!(fault(EQ, &[1]), Fault::MissingArgument);
    assert_eq!(fault(OTHER_TRAIT, &[1, 2]), Fault::UnexpectedFunction);
    assert_eq!(fault(OTHER_EXTERN, &[1]), Fault::UnexpectedExternFunction);
    let mut body = Body::new();
    let a = body.literal(n(3).negated(), ty(FELT));
    let b = body.literal(n(2), ty(FELT));
    let a = body.call(DIV, vec![a, b], ty(FELT));
    let id = body.call(DIV_REM, vec![a, b], ty(TUPLE));
    assert_eq!(
        eval(&db(), body, id).0,
        ConstValue::Struct(
            vec![ConstValue::Int(n(0), ty(FELT)), ConstValue::Int(n(1).negated(), ty(FELT))],
            ty(TUPLE)
        )
    );
}

#[test]
fn arguments_that_are_no_integers_leave_the_value_missing() {
    let mut body = Body::new();
    let a = body.boolean(true);
    let b = body.u8(1);
    let id = body.call(ADD, vec![a, b], ty(U8));
    assert_value(eval(&db(), body, id), missing());
}

#[test]
fn panics_are_reported() {
    let (value, diagnostics) = u8_call(PANIC, &[1]);
    assert_eq!(value, missing());
    assert_eq!(kinds(&diagnostics), vec!["FailedConstantCalculation"]);
}

#[test]
fn casts_are_calculated() {
    let mut body = Body::new();
    let a = body.u8(7);
    let id = body.call(UPCAST, vec![a], ty(U128));
    assert_value(eval(&db(), body, id), number(7, U128));

    let mut body = Body::new();
    let a = body.literal(n(7), ty(U128));
    let id = body.call(DOWNCAST, vec![a], ty(OPTION_U8));
    assert_value(eval(&db(), body, id), ConstValue::Enum(some_u8(), Box::new(number(7, U8))));

    let mut body = Body::new();
    let a = body.literal(n(300), ty(U128));
    let id = body.call(DOWNCAST, vec![a], ty(OPTION_U8));
    assert_value(eval(&db(), body, id), ConstValue::Enum(none_u8(), Box::new(unit())));

    // The variants are reversed: the second is for success, whose type has no literals.
    let mut body = Body::new();
    let a = body.literal(n(7), ty(U128));
    let id = body.call(TRIM_MIN, vec![a], ty(OPTION_U8));
    assert_eq!(try_eval(&db(), body, id).0, Err(Fault::InvalidDowncastType));

    let mut body = Body::new();
    let a = body.literal(n(5), TypeId::NonZero(Box::new(ty(U8))));
    let id = body.call(UNWRAP_NON_ZERO, vec![a], ty(U8));
    assert_value(eval(&db(), body, id), number(5, U8));
}

#[test]
fn casts_of_other_values_are_faults() {
    // An extern function that gives no value is no function of a trait either.
    let mut body = Body::new();
    let a = body.boolean(true);
    let id = body.call(UPCAST, vec![a], ty(U128));
    assert_eq!(try_eval(&db(), body, id).0, Err(Fault::NotAnImplFunction));
}

#[test]
fn structs_are_made_in_the_order_of_their_definition() {
    let mut body = Body::new();
    let x = body.u8(1);
    let y = body.u8(2);
    let id = body.point(x, y);
    assert_value(
        eval(&db(), body, id),
        ConstValue::Struct(vec![number(1, U8), number(2, U8)], ty(POINT)),
    );
}

#[test]
fn members_are_accessed() {
    for (member, expected) in [(1, number(1, U8)), (2, number(2, U8)), (3, missing())] {
        let mut body = Body::new();
        let x = body.u8(1);
        let y = body.u8(2);
        let point = body.point(x, y);
        let id = body.add(Expr::MemberAccess(ExprMemberAccess {
            expr: point,
            concrete_struct_id: ConcreteStructId(0),
            member: MemberId(member),
            ty: ty(U8),
            stable_ptr: ptr(12),
        }));
        assert_value(eval(&db(), body, id), expected);
    }
}

#[test]
fn incomplete_structs_are_faults() {
    let mut body = Body::new();
    let x = body.u8(1);
    let id = body.add(Expr::StructCtor(ExprStructCtor {
        concrete_struct_id: ConcreteStructId(0),
        members: vec![(x, MemberId(1))],
        base_struct: None,
        ty: ty(POINT),
        stable_ptr: ptr(7),
    }));
    assert_eq!(try_eval(&db(), body, id).0, Err(Fault::MissingMember));

    let mut body = Body::new();
    let x = body.u8(1);
    let tuple = body.tuple(vec![x]);
    let id = body.add(Expr::MemberAccess(ExprMemberAccess {
        expr: tuple,
        concrete_struct_id: ConcreteStructId(0),
        member: MemberId(2),
        ty: ty(U8),
        stable_ptr: ptr(12),
    }));
    assert_eq!(try_eval(&db(), body, id).0, Err(Fault::MissingValue));
}

#[test]
fn structs_without_known_members_are_missing() {
    let mut body = Body::new();
    let x = body.u8(1);
    let id = body.add(Expr::StructCtor(ExprStructCtor {
        concrete_struct_id: ConcreteStructId(1),
        members: vec![(x, MemberId(1))],
        base_struct: None,
        ty: ty(POINT),
        stable_ptr: ptr(7),
    }));
    assert_value(eval(&db(), body, id), missing());
}

#[test]
fn arrays_are_made() {
    let mut body = Body::new();
    let a = body.u8(1);
    let b = body.u8(2);
    let id = body.add(Expr::FixedSizeArray {
        items: FixedSizeArrayItems::Items(vec![a, b, a]),
        ty: ty(TUPLE),
        stable_ptr: ptr(13),
    });
    assert_value(
        eval(&db(), body, id),
        ConstValue::Struct(vec![number(1, U8), number(2, U8), number(1, U8)], ty(TUPLE)),
    );

    let sizes = || {
        vec![
            number(3, U8),
            boolean(true),
            ConstValue::Int(n(1).negated(), ty(FELT)),
        ]
    };
    let array = |size: usize| {
        let mut body = Body::new();
        let a = body.u8(5);
        let id = body.add(Expr::FixedSizeArray {
            items: FixedSizeArrayItems::ValueAndSize(a, ConstValueId(size)),
            ty: ty(TUPLE),
            stable_ptr: ptr(13),
        });
        try_eval(&db_with(vec![], sizes()), body, id)
    };
    let (value, diagnostics) = array(0);
    assert_eq!(
        value,
        Ok(ConstValue::Struct(vec![number(5, U8), number(5, U8), number(5, U8)], ty(TUPLE)))
    );
    assert!(diagnostics.is_empty());
    let (value, diagnostics) = array(1);
    assert_eq!(value, Ok(ConstValue::Struct(vec![], ty(TUPLE))));
    assert_eq!(kinds(&diagnostics), vec!["UnsupportedConstant"]);
    assert_eq!(diagnostics[0].stable_ptr, ptr(13));
    assert_eq!(array(2).0, Err(Fault::InvalidArraySize));
}

#[test]
fn blocks_bind_variables() {
    let mut body = Body::new();
    let a = body.u8(3);
    let variable = body.pattern(Pattern::Variable(1));
    let first = body.let_statement(variable, a);
    let x = body.var(VarId::Local(1));
    let y = body.u8(4);
    let sum = body.call(ADD, vec![x, y], ty(U8));
    let id = body.block(vec![first], Some(sum));
    assert_value(eval(&db(), body, id), number(7, U8));
}

#[test]
fn unbound_variables_are_reported() {
    let mut body = Body::new();
    let id = body.var(VarId::Local(1));
    let (value, diagnostics) = eval(&db(), body, id);
    assert_eq!(value, missing());
    assert_eq!(kinds(&diagnostics), vec!["UnsupportedConstant"]);
    assert_eq!(diagnostics[0].stable_ptr, ptr(2));
}

#[test]
fn patterns_take_values_apart() {
    // `let Point { y, x } = Point { x: 1, y: 2 }; let (a, _) = (x, y); let [_, b] = ...;`
    let mut body = Body::new();
    let x = body.u8(1);
    let y = body.u8(2);
    let point = body.point(x, y);
    let x_pattern = body.pattern(Pattern::Variable(1));
    let y_pattern = body.pattern(Pattern::Variable(2));
    let pattern = body.pattern(Pattern::Struct {
        concrete_struct_id: ConcreteStructId(0),
        field_patterns: vec![(y_pattern, MemberId(2)), (x_pattern, MemberId(1))],
    });
    let first = body.let_statement(pattern, point);
    let x = body.var(VarId::Local(1));
    let y = body.var(VarId::Local(2));
    let pair = body.tuple(vec![x, y]);
    let a_pattern = body.pattern(Pattern::Variable(3));
    let otherwise = body.pattern(Pattern::Otherwise);
    let pattern = body.pattern(Pattern::Tuple { field_patterns: vec![a_pattern, otherwise] });
    let second = body.let_statement(pattern, pair);
    let b_pattern = body.pattern(Pattern::Variable(4));
    let pattern =
        body.pattern(Pattern::FixedSizeArray { elements_patterns: vec![otherwise, b_pattern] });
    let third = body.let_statement(pattern, pair);
    let c_pattern = body.pattern(Pattern::Variable(5));
    let pattern =
        body.pattern(Pattern::EnumVariant { variant: some_u8(), inner_pattern: Some(c_pattern) });
    let nine = body.u8(9);
    let some = body.enum_value(some_u8(), nine);
    let fourth = body.let_statement(pattern, some);
    let a = body.var(VarId::Local(3));
    let b = body.var(VarId::Local(4));
    let c = body.var(VarId::Local(5));
    let all = body.tuple(vec![a, b, c]);
    let id = body.block(vec![first, second, third, fourth], Some(all));
    assert_value(
        eval(&db(), body, id),
        ConstValue::Struct(vec![number(1, U8), number(2, U8), number(9, U8)], ty(TUPLE)),
    );
}

#[test]
fn matches_take_the_first_arm() {
    for (chosen, expected) in [(some_u8(), 9), (none_u8(), 2)] {
        let mut body = Body::new();
        let nine = body.u8(9);
        let matched = body.enum_value(chosen, nine);
        let inner = body.pattern(Pattern::Variable(1));
        let some = body
            .pattern(Pattern::EnumVariant { variant: some_u8(), inner_pattern: Some(inner) });
        let otherwise = body.pattern(Pattern::Otherwise);
        let x = body.var(VarId::Local(1));
        let two = body.u8(2);
        let three = body.u8(3);
        let id = body.match_on(
            matched,
            vec![
                MatchArm { patterns: vec![some], expression: x },
                MatchArm { patterns: vec![otherwise], expression: two },
                MatchArm { patterns: vec![otherwise], expression: three },
            ],
        );
        assert_value(eval(&db(), body, id), number(expected, U8));
    }
}

#[test]
fn matches_without_an_arm_are_reported() {
    let mut body = Body::new();
    let nine = body.u8(9);
    let matched = body.enum_value(none_u8(), nine);
    let some =
        body.pattern(Pattern::EnumVariant { variant: some_u8(), inner_pattern: None });
    let id = body.match_on(matched, vec![MatchArm { patterns: vec![some], expression: nine }]);
    let (value, diagnostics) = eval(&db(), body, id);
    assert_eq!(value, missing());
    assert_eq!(kinds(&diagnostics), vec!["UnsupportedConstant"]);
    assert_eq!(diagnostics[0].stable_ptr, ptr(10));
    // What is no enum has no arm, and is not reported.
    let mut body = Body::new();
    let nine = body.u8(9);
    let id = body.match_on(nine, vec![]);
    assert_value(eval(&db(), body, id), missing());
}

#[test]
fn conditions_choose_a_block() {
    for (condition, expected) in [(true, 1), (false, 2)] {
        let mut body = Body::new();
        let condition = body.boolean(condition);
        let one = body.u8(1);
        let two = body.u8(2);
        let id = body.if_else(vec![Condition::BoolExpr(condition)], one, Some(two));
        assert_value(eval(&db(), body, id), number(expected, U8));
    }
    let mut body = Body::new();
    let condition = body.boolean(false);
    let one = body.u8(1);
    let id = body.if_else(vec![Condition::BoolExpr(condition)], one, None);
    assert_value(eval(&db(), body, id), unit());
    let mut body = Body::new();
    let one = body.u8(1);
    let id = body.if_else(vec![Condition::BoolExpr(one)], one, None);
    assert_value(eval(&db(), body, id), missing());
}

#[test]
fn let_conditions_bind_variables() {
    for (chosen, expected) in [(some_u8(), 9), (none_u8(), 2)] {
        let mut body = Body::new();
        let nine = body.u8(9);
        let matched = body.enum_value(chosen, nine);
        let inner = body.pattern(Pattern::Variable(1));
        let otherwise = body.pattern(Pattern::Otherwise);
        let some = body
            .pattern(Pattern::EnumVariant { variant: some_u8(), inner_pattern: Some(inner) });
        let x = body.var(VarId::Local(1));
        let two = body.u8(2);
        // Only patterns of variants are looked at.
        let id = body.if_else(
            vec![Condition::Let(matched, vec![otherwise, some])],
            x,
            Some(two),
        );
        assert_value(eval(&db(), body, id), number(expected, U8));
    }
}

#[test]
fn logical_operators_are_calculated() {
    for a in [true, false] {
        for b in [true, false] {
            for (op, expected) in
                [(LogicalOperator::AndAnd, a && b), (LogicalOperator::OrOr, a || b)]
            {
                let mut body = Body::new();
                let lhs = body.boolean(a);
                let rhs = body.boolean(b);
                let id = body.add(Expr::LogicalOperator {
                    lhs,
                    op,
                    rhs,
                    ty: ty(BOOL),
                    stable_ptr: ptr(14),
                });
                assert_value(eval(&db(), body, id), boolean(expected));
            }
        }
    }
}

#[test]
fn logical_operators_stop_early() {
    // The right operand divides by zero, which is reported only where it is calculated.
    for (op, value) in [
        (LogicalOperator::AndAnd, false),
        (LogicalOperator::OrOr, true),
        (LogicalOperator::AndAnd, true),
        (LogicalOperator::OrOr, false),
    ] {
        let mut body = Body::new();
        let lhs = body.boolean(value);
        let one = body.u8(1);
        let zero = body.u8(0);
        let rhs = body.call(DIV, vec![one, zero], ty(BOOL));
        let id = body.add(Expr::LogicalOperator {
            lhs,
            op,
            rhs,
            ty: ty(BOOL),
            stable_ptr: ptr(14),
        });
        let (result, diagnostics) = eval(&db(), body, id);
        if value == (op == LogicalOperator::OrOr) {
            assert_eq!(result, boolean(value));
            assert!(diagnostics.is_empty());
        } else {
            assert_eq!(result, missing());
            assert_eq!(kinds(&diagnostics), vec!["DivisionByZero"]);
        }
    }
    // What is no boolean decides nothing.
    let mut body = Body::new();
    let lhs = body.u8(1);
    let rhs = body.boolean(true);
    let id = body.add(Expr::LogicalOperator {
        lhs,
        op: LogicalOperator::OrOr,
        rhs,
        ty: ty(BOOL),
        stable_ptr: ptr(14),
    });
    assert_value(eval(&db(), body, id), missing());
}

#[test]
fn snapshots_have_the_value_of_what_they_hold() {
    let mut body = Body::new();
    let one = body.u8(1);
    let snapshot =
        body.add(Expr::Snapshot { inner: one, ty: ty(U8), stable_ptr: ptr(15) });
    let id = body.add(Expr::Desnap { inner: snapshot, ty: ty(U8), stable_ptr: ptr(15) });
    assert_value(eval(&db(), body, id), number(1, U8));
}

#[test]
fn constant_functions_are_called() {
    // `const fn add_one(x: u8) -> u8 { x + 1 }`
    let mut function = Body::new();
    let x = function.var(VarId::Param(1));
    let one = function.u8(1);
    let sum = function.call(ADD, vec![x, one], ty(U8));
    let db =
        db_with(vec![const_function("test::add_one", vec![1], function, sum)], vec![]);
    let mut body = Body::new();
    let four = body.u8(4);
    let id = body.call(FIRST_OWN, vec![four], ty(U8));
    assert_value(eval(&db, body, id), number(5, U8));
}

#[test]
fn diagnostics_of_bodies_say_where_they_come_from() {
    // `const fn inner(x: u8) -> u8 { x / 0 }` and `const fn outer(x: u8) -> u8 { inner(x) }`
    let mut inner = Body::new();
    let x = inner.var(VarId::Param(1));
    let zero = inner.u8(0);
    let ratio = inner.call(DIV, vec![x, zero], ty(U8));
    let mut outer = Body::new();
    let x = outer.var(VarId::Param(2));
    let called = outer.call(FIRST_OWN, vec![x], ty(U8));
    let db = db_with(
        vec![
            const_function("test::inner", vec![1], inner, ratio),
            const_function("test::outer", vec![2], outer, called),
        ],
        vec![],
    );
    let mut body = Body::new();
    let four = body.u8(4);
    let id = body.add(Expr::FunctionCall(ExprFunctionCall {
        function: FunctionId(FIRST_OWN + 1),
        args: vec![ExprFunctionCallArg::Value(four)],
        ty: ty(U8),
        stable_ptr: ptr(70),
    }));
    let (value, diagnostics) = eval(&db, body, id);
    assert_eq!(value, missing());
    assert_eq!(diagnostics.len(), 1);
    assert_eq!(diagnostics[0].stable_ptr, ptr(70));
    match &diagnostics[0].kind {
        SemanticDiagnosticKind::InnerFailedConstantCalculation(inner, notes) => {
            assert!(matches!(inner.kind, SemanticDiagnosticKind::DivisionByZero));
            assert_eq!(inner.stable_ptr, ptr(3));
            assert_eq!(notes.len(), 2);
            assert_eq!(notes[0].text, "In `test::inner`");
            assert_eq!(notes[0].location, ptr(3));
            assert_eq!(notes[1].text, "In `test::outer`");
            assert_eq!(notes[1].location, ptr(3));
        }
        other => panic!("{other:?}"),
    }
}

#[test]
fn endless_calls_end() {
    // `const fn f(x: u8) -> u8 { f(x) }`
    let mut function = Body::new();
    let x = function.var(VarId::Param(1));
    let called = function.call(FIRST_OWN, vec![x], ty(U8));
    let db = db_with(vec![const_function("test::f", vec![1], function, called)], vec![]);
    let mut body = Body::new();
    let four = body.u8(4);
    let id = body.call(FIRST_OWN, vec![four], ty(U8));
    let (value, diagnostics) = eval(&db, body, id);
    assert_eq!(value, missing());
    assert_eq!(kinds(&diagnostics), vec!["ConstantCalculationDepthExceeded"]);
}

#[test]
fn generic_bodies_are_instantiated() {
    // `fn cast<T>() -> T { upcast(N) }`, where `N` is 7 and `T` is `u128`.
    let mut function = Body::new();
    let constant = function.add(Expr::Constant {
        const_value_id: ConstValueId(0),
        ty: ty(U8),
        stable_ptr: ptr(16),
    });
    let cast = function.call(UPCAST, vec![constant], ty(NO_LITERALS));
    let sum = function.call(OTHER_TRAIT, vec![cast, cast], ty(U128));
    let mut generic = const_function("test::cast", vec![], function, sum);
    if let Ok(Some(body)) = &mut generic.body {
        body.substitution = Ok(GenericSubstitution {
            consts: vec![(ConstValueId(0), Ok(number(7, U8)))],
            types: vec![(ty(NO_LITERALS), Ok(ty(U128)))],
            functions: vec![(FunctionId(OTHER_TRAIT), Ok(FunctionId(ADD)))],
        });
    }
    let db = db_with(vec![generic], vec![number(1, U8)]);
    let mut body = Body::new();
    let id = body.call(FIRST_OWN, vec![], ty(U128));
    assert_value(eval(&db, body, id), number(14, U128));
}

#[test]
fn literals_are_validated() {
    let mut body = Body::new();
    let id = body.u8(256);
    let (value, diagnostics) = eval(&db(), body, id);
    assert_eq!(value, missing());
    assert_eq!(kinds(&diagnostics), vec!["LiteralError(OutOfRange(Named(1)))"]);
    let mut body = Body::new();
    let id = body.literal(n(1), ty(NO_LITERALS));
    let (_, diagnostics) = eval(&db(), body, id);
    assert_eq!(kinds(&diagnostics), vec!["LiteralError(InvalidTypeForLiteral(Named(9)))"]);
    let mut body = Body::new();
    let id = body.literal(n(0), TypeId::NonZero(Box::new(ty(U8))));
    let (_, diagnostics) = eval(&db(), body, id);
    assert_eq!(kinds(&diagnostics), vec!["LiteralError(OutOfRange(NonZero(Named(1))))"]);
}

#[test]
fn literals_of_unvalidated_bodies_are_faults() {
    let mut function = Body::new();
    let wrong = function.u8(256);
    let db = db_with(vec![const_function("test::f", vec![], function, wrong)], vec![]);
    let mut body = Body::new();
    let id = body.call(FIRST_OWN, vec![], ty(U8));
    assert_eq!(try_eval(&db, body, id).0, Err(Fault::InvalidLiteral));
}

#[test]
fn unsupported_expressions_are_reported() {
    let mut body = Body::new();
    let id = body.add(Expr::Other { ty: ty(U8), stable_ptr: ptr(17) });
    let (value, diagnostics) = eval(&db(), body, id);
    assert_eq!(value, missing());
    assert_eq!(kinds(&diagnostics), vec!["UnsupportedConstant"]);
    assert_eq!(diagnostics[0].stable_ptr, ptr(17));
    // A block without a value.
    let mut body = Body::new();
    let id = body.block(vec![], None);
    let (value, diagnostics) = eval(&db(), body, id);
    assert_eq!(value, missing());
    assert_eq!(diagnostics[0].stable_ptr, ptr(9));
    // A function that is not constant.
    let mut body = Body::new();
    let id = body.call(NOT_CONST, vec![], ty(U8));
    let (value, diagnostics) = eval(&db(), body, id);
    assert_eq!(value, missing());
    assert_eq!(diagnostics[0].stable_ptr, ptr(3));
}

#[test]
fn arguments_are_validated_twice() {
    let mut body = Body::new();
    let wrong = body.u8(256);
    let id = body.call(ADD, vec![wrong, wrong], ty(U8));
    let (_, diagnostics) = eval(&db(), body, id);
    assert_eq!(kinds(&diagnostics), vec!["LiteralError(OutOfRange(Named(1)))"; 4]);
    let mut body = Body::new();
    let id = body.add(Expr::FunctionCall(ExprFunctionCall {
        function: FunctionId(ADD),
        args: vec![ExprFunctionCallArg::Reference(ptr(18))],
        ty: ty(U8),
        stable_ptr: ptr(3),
    }));
    let (_, diagnostics) = eval(&db(), body, id);
    assert_eq!(kinds(&diagnostics), vec!["UnsupportedConstant"]);
    assert_eq!(diagnostics[0].stable_ptr, ptr(18));
}

#[test]
fn functions_of_core_traits_may_be_called() {
    let mut db = db();
    db.functions[NOT_CONST].body = Ok(Some(FunctionWithBody {
        generic_function: GenericFunctionWithBodyId::Impl {
            owning_crate: CrateId(1),
            trait_id: Ok(TraitId(2)),
        },
        signature: Ok(signature(false, vec![])),
        substitution: Ok(GenericSubstitution::new()),
        body: Err(DiagnosticAdded {}),
    }));
    let mut body = Body::new();
    let one = body.u8(1);
    let id = body.call(NOT_CONST, vec![one, one], ty(U8));
    let (value, diagnostics) = try_eval(&db, body, id);
    assert!(diagnostics.is_empty());
    assert_eq!(value, Err(Fault::UnexpectedFunction));
    // Another crate, or another trait.
    for (owning_crate, trait_id) in [(2, 2), (1, 99)] {
        let mut db = db_with(vec![], vec![]);
        db.functions[NOT_CONST].body = Ok(Some(FunctionWithBody {
            generic_function: GenericFunctionWithBodyId::Impl {
                owning_crate: CrateId(owning_crate),
                trait_id: Ok(TraitId(trait_id)),
            },
            signature: Ok(signature(false, vec![])),
            substitution: Ok(GenericSubstitution::new()),
            body: Err(DiagnosticAdded {}),
        }));
        let mut body = Body::new();
        let one = body.u8(1);
        let id = body.call(NOT_CONST, vec![one], ty(U8));
        assert_eq!(kinds(&eval(&db, body, id).1), vec!["UnsupportedConstant"]);
    }
}

#[test]
fn validation_adds_to_the_diagnostics() {
    let db = db();
    let mut body = Body::new();
    let wrong = body.u8(256);
    let mut diagnostics = SemanticDiagnostics::new();
    diagnostics.report(ptr(99), SemanticDiagnosticKind::DivisionByZero);
    let mut ctx = ComputationContext { diagnostics, arenas: body.arenas };
    validate_const_expr(&db, &info(&db), &mut ctx, wrong);
    assert_eq!(
        kinds(&ctx.diagnostics.into_entries()),
        vec!["DivisionByZero", "LiteralError(OutOfRange(Named(1)))"]
    );
}

fn resolve(inference: InferenceOutcome, expr: Expr, finalize: bool) -> (ConstValue, Vec<String>) {
    let db = db_with(vec![], vec![number(9, U8)]);
    let mut body = Body::new();
    let one = body.u8(1);
    let mut ctx =
        ComputationContext { diagnostics: SemanticDiagnostics::new(), arenas: body.arenas };
    let value = resolve_const_expr_and_evaluate(
        &db,
        &info(&db),
        &mut ctx,
        &ExprAndId { expr, id: one },
        ptr(50),
        &inference,
        finalize,
    );
    let diagnostics = ctx.diagnostics.into_entries();
    (value, diagnostics.iter().map(|d| format!("{} {:?}", d.stable_ptr.0, d.kind)).collect())
}

#[test]
fn errors_of_the_inference_leave_the_value_missing() {
    let error = |number: u64, location: Option<u64>| InferenceError {
        number,
        location: location.map(ptr),
    };
    let errors = || InferenceOutcome {
        conform: Some(error(1, None)),
        finalize: vec![error(2, Some(60)), error(3, None)],
        solve: Some(error(4, None)),
    };
    assert_eq!(
        resolve(errors(), other_expr(), true),
        (
            missing(),
            vec![
                "50 Inference(1)".to_string(),
                "60 Inference(2)".to_string(),
                "50 Inference(3)".to_string()
            ]
        )
    );
    assert_eq!(
        resolve(errors(), other_expr(), false),
        (missing(), vec!["50 Inference(1)".to_string(), "50 Inference(4)".to_string()])
    );
    // A constant keeps its value.
    let constant =
        Expr::Constant { const_value_id: ConstValueId(0), ty: ty(U8), stable_ptr: ptr(0) };
    let (value, diagnostics) = resolve(errors(), constant, false);
    assert_eq!(value, number(9, U8));
    assert_eq!(diagnostics.len(), 2);
    assert_eq!(resolve(no_inference_errors(), other_expr(), true), (number(1, U8), vec![]));
}

#[test]
fn earlier_diagnostics_stay() {
    let db = db();
    let mut body = Body::new();
    let one = body.u8(1);
    let zero = body.u8(0);
    let id = body.call(DIV, vec![one, zero], ty(U8));
    let mut diagnostics = SemanticDiagnostics::new();
    diagnostics.report(ptr(99), SemanticDiagnosticKind::ConstCycle);
    let mut ctx = ComputationContext { diagnostics, arenas: body.arenas };
    let value = resolve_const_expr_and_evaluate(
        &db,
        &info(&db),
        &mut ctx,
        &ExprAndId { expr: other_expr(), id },
        ptr(50),
        &no_inference_errors(),
        true,
    );
    assert_eq!(value, missing());
    assert_eq!(kinds(&ctx.diagnostics.into_entries()), vec!["ConstCycle", "DivisionByZero"]);
}

#[test]
fn the_greatest_depth_of_calls() {
    // `const fn f(x: u8) -> u8 { if x == 0 { 0 } else { f(x - 1) } }`
    let mut function = Body::new();
    let x = function.var(VarId::Param(1));
    let zero = function.u8(0);
    let one = function.u8(1);
    let is_zero = function.call(EQ, vec![x, zero], ty(BOOL));
    let less = function.call(SUB, vec![x, one], ty(U8));
    let called = function.call(FIRST_OWN, vec![less], ty(U8));
    let root = function.if_else(vec![Condition::BoolExpr(is_zero)], zero, Some(called));
    let db = db_with(vec![const_function("test::f", vec![1], function, root)], vec![]);
    for (calls, fits) in [(100, true), (101, false)] {
        let mut body = Body::new();
        let x = body.u8(calls);
        let id = body.call(FIRST_OWN, vec![x], ty(U8));
        let (value, diagnostics) = eval(&db, body, id);
        assert_eq!(value, if fits { number(0, U8) } else { missing() });
        assert_eq!(diagnostics.is_empty(), fits);
    }
}
