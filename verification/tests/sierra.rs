use cairo_lang_core::integer::Integer;
use cairo_lang_core::sierra::db::{
    FunctionEntry, LibfuncEntry, SierraApChange, SierraGenDb, SierraTypeLongId, TypeEntry,
    TypeInfo,
};
use cairo_lang_core::sierra::debug_names::{
    replace_sierra_ids, replace_sierra_ids_in_program, DebugReplacer,
};
use cairo_lang_core::sierra::ids::{
    ConcreteLibfuncId, ConcreteTypeId, FunctionId, UserTypeId, VarId,
};
use cairo_lang_core::sierra::pre_sierra::{
    LabelId, PreStatement, PushValue, StableLocation, StatementWithLocation,
};
use cairo_lang_core::sierra::program::{
    BranchInfo, BranchTarget, DeclaredTypeInfo, Function, FunctionSignature, GenericArg,
    Invocation, LibfuncDeclaration, LongId, Param, Program, Statement, StatementIdx,
    TypeDeclaration,
};
use cairo_lang_core::sierra::replace_ids::SierraIdReplacer;
use cairo_lang_core::sierra::resolve_labels::{
    resolve_labels_and_extract_locations, LabelReplacer,
};
use cairo_lang_core::sierra::specialization_context::SierraSignatureSpecializationContext;
use cairo_lang_core::semantic::ids::DiagnosticAdded;

fn type_id(id: u64) -> ConcreteTypeId {
    ConcreteTypeId { id, debug_name: None }
}

fn libfunc_id(id: u64) -> ConcreteLibfuncId {
    ConcreteLibfuncId { id, debug_name: None }
}

fn function_id(id: u64) -> FunctionId {
    FunctionId { id, debug_name: None }
}

fn var(id: u64) -> VarId {
    VarId { id, debug_name: None }
}

fn long_id(generic_id: &str, generic_args: Vec<GenericArg>) -> LongId {
    LongId { generic_id: generic_id.to_string(), generic_args }
}

fn user_type(name: &str) -> GenericArg {
    GenericArg::UserType(UserTypeId {
        id: Integer::from_u128(77),
        debug_name: Some(name.to_string()),
    })
}

fn regular(generic_id: &str, generic_args: Vec<GenericArg>, created: u64) -> TypeEntry {
    TypeEntry {
        long_id: SierraTypeLongId::Regular(long_id(generic_id, generic_args)),
        created,
        info: Err(DiagnosticAdded {}),
    }
}

fn ty(id: u64) -> GenericArg {
    GenericArg::Type(type_id(id))
}

fn db() -> SierraGenDb {
    let phantom = |long_id: SierraTypeLongId, created: u64| TypeEntry {
        long_id,
        created,
        info: Err(DiagnosticAdded {}),
    };
    SierraGenDb {
        types: vec![
            regular("felt252", vec![], 0),
            regular("Box", vec![ty(0)], 1),
            regular("Box", vec![ty(1)], 2),
            regular("Struct", vec![user_type("test::Point"), ty(0), ty(0)], 3),
            regular("Struct", vec![user_type("Tuple"), ty(0), ty(1)], 4),
            regular("Struct", vec![user_type("Tuple")], 5),
            regular("Enum", vec![user_type("test::Choice"), ty(0)], 6),
            phantom(SierraTypeLongId::Phantom("test::Phantom".to_string()), 7),
            phantom(SierraTypeLongId::CycleBreaker("test::List".to_string()), 8),
            regular(
                "Struct",
                vec![GenericArg::UserType(UserTypeId {
                    id: Integer::from_u128(1000),
                    debug_name: None,
                })],
                9,
            ),
        ],
        libfuncs: vec![
            LibfuncEntry {
                long_id: long_id(
                    "felt252_const",
                    vec![GenericArg::Value(Integer::from_u128(2))],
                ),
                created: 10,
            },
            LibfuncEntry { long_id: long_id("unbox", vec![ty(2)]), created: 11 },
            LibfuncEntry {
                long_id: long_id(
                    "function_call",
                    vec![GenericArg::UserFunc(function_id(0)), GenericArg::Libfunc(libfunc_id(0))],
                ),
                created: 12,
            },
            LibfuncEntry {
                long_id: long_id("struct_construct", vec![user_type("test::Point")]),
                created: 13,
            },
        ],
        functions: vec![
            FunctionEntry {
                name: "test::foo".to_string(),
                signature: Ok(FunctionSignature {
                    param_types: vec![type_id(0)],
                    ret_types: vec![type_id(1)],
                }),
                ap_change: Some(Ok(SierraApChange::Known { new_vars_only: true })),
            },
            FunctionEntry {
                name: "test::bar".to_string(),
                signature: Err(DiagnosticAdded {}),
                ap_change: Some(Err(DiagnosticAdded {})),
            },
        ],
    }
}

fn name_of_type(id: u64) -> String {
    let db = db();
    let replaced = DebugReplacer { db: &db }.replace_type_id(&type_id(id));
    replaced.debug_name.unwrap()
}

#[test]
fn types_are_named_by_what_they_are() {
    assert_eq!(name_of_type(0), "felt252");
    assert_eq!(name_of_type(2), "Box<Box<felt252>>");
    assert_eq!(name_of_type(3), "test::Point");
    assert_eq!(name_of_type(4), "Tuple<felt252, Box<felt252>>");
    assert_eq!(name_of_type(5), "Unit");
    assert_eq!(name_of_type(6), "test::Choice");
    assert_eq!(name_of_type(7), "test::Phantom");
    assert_eq!(name_of_type(8), "test::List");
    assert_eq!(name_of_type(9), "[1000]");
}

#[test]
fn types_keep_their_numbers() {
    let db = db();
    let replacer = DebugReplacer { db: &db };
    for id in 0..7 {
        assert_eq!(replacer.replace_type_id(&type_id(id)).id, id);
    }
    // But those that are no types of Sierra have the number of their name.
    let id = cairo_lang_sierra::ids::ConcreteTypeId::from("test::Phantom").id;
    assert_eq!(replacer.replace_type_id(&type_id(7)).id, id);
    assert_ne!(id, 7);
}

#[test]
fn libfuncs_are_named_by_what_they_are() {
    let db = db();
    let replacer = DebugReplacer { db: &db };
    let name = |id: u64| {
        let replaced = replacer.replace_libfunc_id(&libfunc_id(id));
        assert_eq!(replaced.id, id);
        replaced.debug_name.unwrap()
    };
    assert_eq!(name(0), "felt252_const<2>");
    assert_eq!(name(1), "unbox<Box<Box<felt252>>>");
    assert_eq!(name(2), "function_call<user@test::foo, lib@felt252_const<2>>");
    assert_eq!(name(3), "struct_construct<ut@test::Point>");
    let function = replacer.replace_function_id(&function_id(1));
    assert_eq!(function.id, 1);
    assert_eq!(function.debug_name, Some("test::bar".to_string()));
}

#[test]
fn texts_agree_with_those_of_sierra_itself() {
    let ours = long_id(
        "some",
        vec![
            ty(5),
            GenericArg::Value(Integer::from_u128(7).negated()),
            GenericArg::UserFunc(function_id(3)),
            GenericArg::Libfunc(libfunc_id(4)),
            user_type("a::B"),
        ],
    );
    let mut user_type = cairo_lang_sierra::ids::UserTypeId::from("a::B");
    user_type.debug_name = Some("a::B".into());
    let theirs = cairo_lang_sierra::program::ConcreteTypeLongId {
        generic_id: "some".into(),
        generic_args: vec![
            cairo_lang_sierra::program::GenericArg::Type(5.into()),
            cairo_lang_sierra::program::GenericArg::Value(num_bigint::BigInt::from(-7)),
            cairo_lang_sierra::program::GenericArg::UserFunc(3.into()),
            cairo_lang_sierra::program::GenericArg::Libfunc(4.into()),
            cairo_lang_sierra::program::GenericArg::UserType(user_type),
        ],
    };
    assert_eq!(ours.text(), theirs.to_string());
    assert_eq!(ours.text(), "some<[5], -7, user@[3], lib@[4], ut@a::B>");
    assert_eq!(long_id("felt252", vec![]).text(), "felt252");
}

fn program() -> Program {
    Program {
        type_declarations: vec![TypeDeclaration {
            id: type_id(1),
            long_id: long_id("Box", vec![ty(0)]),
            declared_type_info: Some(DeclaredTypeInfo {
                storable: true,
                droppable: true,
                duplicatable: false,
                zero_sized: false,
            }),
        }],
        libfunc_declarations: vec![LibfuncDeclaration {
            id: libfunc_id(1),
            long_id: long_id("unbox", vec![ty(2), GenericArg::UserFunc(function_id(1))]),
        }],
        statements: vec![
            Statement::Invocation(Invocation {
                libfunc_id: libfunc_id(1),
                args: vec![var(3)],
                branches: vec![BranchInfo {
                    target: BranchTarget::Statement(StatementIdx(1)),
                    results: vec![var(4)],
                }],
            }),
            Statement::Return(vec![var(4)]),
        ],
        funcs: vec![Function {
            id: function_id(0),
            signature: FunctionSignature {
                param_types: vec![type_id(0)],
                ret_types: vec![type_id(1)],
            },
            params: vec![Param { id: var(0), ty: type_id(0) }],
            entry_point: StatementIdx(0),
        }],
    }
}

#[test]
fn programs_are_named() {
    let db = db();
    let named = replace_sierra_ids_in_program(&db, &program());
    let declaration = &named.type_declarations[0];
    assert_eq!(declaration.id.debug_name, Some("Box<felt252>".to_string()));
    assert_eq!(declaration.long_id.text(), "Box<felt252>");
    assert!(declaration.declared_type_info.unwrap().storable);
    let declaration = &named.libfunc_declarations[0];
    assert_eq!(declaration.id.debug_name, Some("unbox<Box<Box<felt252>>>".to_string()));
    assert_eq!(declaration.long_id.text(), "unbox<Box<Box<felt252>>, user@test::bar>");
    match &named.statements[0] {
        Statement::Invocation(invocation) => {
            assert_eq!(invocation.libfunc_id.text(), "unbox<Box<Box<felt252>>>");
            assert_eq!(invocation.args[0].id, 3);
            assert!(matches!(
                invocation.branches[0].target,
                BranchTarget::Statement(StatementIdx(1))
            ));
        }
        Statement::Return(_) => panic!("an invocation stays one"),
    }
    assert!(matches!(&named.statements[1], Statement::Return(vars) if vars[0].id == 4));
    let function = &named.funcs[0];
    assert_eq!(function.id.text(), "test::foo");
    assert_eq!(function.params[0].ty.text(), "felt252");
    assert_eq!(function.signature.param_types[0].text(), "felt252");
    assert_eq!(function.signature.ret_types[0].text(), "Box<felt252>");
    // Naming a second time changes nothing.
    let again = replace_sierra_ids_in_program(&db, &named);
    assert_eq!(format!("{again:?}"), format!("{named:?}"));
}

#[test]
fn functions_are_enriched() {
    let db = db();
    let mut program = program();
    DebugReplacer { db: &db }.enrich_function_names(&mut program);
    assert_eq!(program.funcs[0].id.text(), "test::foo");
    assert_eq!(program.funcs[0].params[0].ty.debug_name, None);
    assert_eq!(program.type_declarations[0].id.debug_name, None);
}

fn at(statement: PreStatement, location: u64) -> StatementWithLocation {
    StatementWithLocation { statement, location: vec![StableLocation(location)] }
}

fn jump(label: u64) -> PreStatement {
    PreStatement::Sierra(Statement::Invocation(Invocation {
        libfunc_id: libfunc_id(0),
        args: vec![],
        branches: vec![
            BranchInfo { target: BranchTarget::Fallthrough, results: vec![] },
            BranchInfo {
                target: BranchTarget::Statement(LabelId(label)),
                results: vec![var(8)],
            },
        ],
    }))
}

#[test]
fn statements_are_named() {
    let db = db();
    let named = replace_sierra_ids(&db, &at(jump(5), 9));
    assert_eq!(named.location, vec![StableLocation(9)]);
    match &named.statement {
        PreStatement::Sierra(Statement::Invocation(invocation)) => {
            assert_eq!(invocation.libfunc_id.text(), "felt252_const<2>");
            assert_eq!(invocation.branches.len(), 2);
        }
        _ => panic!("an invocation stays one"),
    }
    let values = vec![PushValue {
        var: var(1),
        var_on_stack: var(2),
        ty: type_id(1),
        dup: true,
    }];
    match replace_sierra_ids(&db, &at(PreStatement::PushValues(values), 9)).statement {
        PreStatement::PushValues(values) => {
            assert_eq!(values[0].ty.text(), "Box<felt252>");
            assert_eq!(values[0].var_on_stack.id, 2);
            assert!(values[0].dup);
        }
        _ => panic!("values stay values"),
    }
    let label = replace_sierra_ids(&db, &at(PreStatement::Label(LabelId(3)), 9));
    assert!(matches!(label.statement, PreStatement::Label(LabelId(3))));
}

#[test]
fn labels_are_resolved() {
    let statements = vec![
        at(PreStatement::Label(LabelId(1)), 0),
        at(jump(2), 1),
        at(PreStatement::Label(LabelId(2)), 2),
        at(PreStatement::Label(LabelId(3)), 3),
        at(jump(1), 4),
        at(PreStatement::Sierra(Statement::Return(vec![])), 5),
        at(PreStatement::Label(LabelId(4)), 6),
    ];
    let replacer = LabelReplacer::from_statements(&statements);
    assert_eq!(replacer.handle_label_id(LabelId(1)), StatementIdx(0));
    assert_eq!(replacer.handle_label_id(LabelId(2)), StatementIdx(1));
    assert_eq!(replacer.handle_label_id(LabelId(3)), StatementIdx(1));
    assert_eq!(replacer.handle_label_id(LabelId(4)), StatementIdx(3));
    let (resolved, locations) = resolve_labels_and_extract_locations(statements, &replacer);
    assert_eq!(resolved.len(), 3);
    assert_eq!(
        locations,
        vec![vec![StableLocation(1)], vec![StableLocation(4)], vec![StableLocation(5)]]
    );
    let target = |at: usize| match &resolved[at] {
        Statement::Invocation(invocation) => {
            assert!(matches!(invocation.branches[0].target, BranchTarget::Fallthrough));
            assert_eq!(invocation.branches[1].results[0].id, 8);
            match invocation.branches[1].target {
                BranchTarget::Statement(to) => to,
                BranchTarget::Fallthrough => panic!("a jump stays one"),
            }
        }
        Statement::Return(_) => panic!("an invocation stays one"),
    };
    assert_eq!(target(0), StatementIdx(1));
    assert_eq!(target(1), StatementIdx(0));
    assert!(matches!(resolved[2], Statement::Return(_)));
}

#[test]
fn a_later_place_of_a_label_counts() {
    let statements = vec![
        at(PreStatement::Label(LabelId(1)), 0),
        at(PreStatement::Sierra(Statement::Return(vec![])), 1),
        at(PreStatement::Label(LabelId(1)), 2),
    ];
    let replacer = LabelReplacer::from_statements(&statements);
    assert_eq!(replacer.handle_label_id(LabelId(1)), StatementIdx(1));
}

#[test]
fn types_are_interned() {
    let mut context = SierraSignatureSpecializationContext(db());
    let known = context.try_get_concrete_type("Box".to_string(), &vec![ty(0)], 20).unwrap();
    assert_eq!(known.id, 1);
    // The names of ids make no difference.
    let named = GenericArg::Type(ConcreteTypeId { id: 0, debug_name: Some("felt252".to_string()) });
    let known = context.try_get_concrete_type("Box".to_string(), &vec![named], 20).unwrap();
    assert_eq!(known.id, 1);
    let new = context.try_get_concrete_type("Array".to_string(), &vec![ty(0)], 20).unwrap();
    assert_eq!(new.id, 10);
    let again = context.try_get_concrete_type("Array".to_string(), &vec![ty(0)], 21).unwrap();
    assert_eq!(again.id, 10);
    assert_eq!(context.0.types.len(), 11);
    assert_eq!(context.0.types[10].created, 20);
    assert!(context.try_get_type_info(&new).is_none());
    // The new entry keeps the names of the ids.
    let named = GenericArg::Type(ConcreteTypeId { id: 1, debug_name: Some("Box".to_string()) });
    let new = context.try_get_concrete_type("Array".to_string(), &vec![named], 22).unwrap();
    assert_eq!(new.id, 11);
    match &context.0.types[11].long_id {
        SierraTypeLongId::Regular(long_id) => {
            assert_eq!(long_id.generic_id, "Array".to_string());
            match &long_id.generic_args[0] {
                GenericArg::Type(id) => {
                    assert_eq!(id.id, 1);
                    assert_eq!(id.debug_name, Some("Box".to_string()));
                }
                other => panic!("{other:?}"),
            }
        }
        other => panic!("{other:?}"),
    }
}

#[test]
fn the_context_knows_functions_and_types() {
    let mut db = db();
    db.types[0].info = Ok(TypeInfo {
        long_id: long_id("felt252", vec![]),
        storable: true,
        droppable: true,
        duplicatable: true,
        zero_sized: false,
    });
    let context = SierraSignatureSpecializationContext(db);
    let info = context.try_get_type_info(&type_id(0)).unwrap();
    assert_eq!(info.long_id.text(), "felt252");
    assert!(info.duplicatable && !info.zero_sized);
    let signature = context.try_get_function_signature(&function_id(0)).unwrap();
    assert_eq!(signature.param_types[0].id, 0);
    assert_eq!(signature.ret_types[0].id, 1);
    assert!(context.try_get_function_signature(&function_id(1)).is_none());
    assert_eq!(
        context.try_get_function_ap_change(&function_id(0)),
        Some(SierraApChange::Known { new_vars_only: true })
    );
    assert_eq!(context.try_get_function_ap_change(&function_id(1)), None);
}

#[test]
fn new_entries_are_created_last() {
    let empty = SierraGenDb { types: vec![], libfuncs: vec![], functions: vec![] };
    assert_eq!(empty.next_created(), Some(0));
    let mut db = db();
    assert_eq!(db.next_created(), Some(14));
    db.types[3].created = 30;
    assert_eq!(db.next_created(), Some(31));
    db.libfuncs[0].created = u64::MAX - 1;
    assert_eq!(db.next_created(), Some(u64::MAX));
    db.types[0].created = u64::MAX;
    assert_eq!(db.next_created(), None);
}

#[test]
fn new_types_can_be_named() {
    let mut context = SierraSignatureSpecializationContext(db());
    let mut arg = ty(2);
    for name in ["Array<Box<Box<felt252>>>", "Array<Array<Box<Box<felt252>>>>"] {
        let created = context.0.next_created().unwrap();
        let id = context.try_get_concrete_type("Array".to_string(), &vec![arg], created).unwrap();
        let replaced = DebugReplacer { db: &context.0 }.replace_type_id(&id);
        assert_eq!(replaced.debug_name, Some(name.to_string()));
        arg = GenericArg::Type(id);
    }
}
