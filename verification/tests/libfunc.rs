use cairo_lang_casm::ap_change::ApChange;
use cairo_lang_casm::cell_expression::CellExpression;
use cairo_lang_core::integer::Integer;
use cairo_lang_core::libfunc::{
    compile_libfunc, prepare_invocation, BranchChanges, CompiledInvocation, IntroductionPoint,
    LibfuncFault, LibfuncInvocation, LibfuncSignature, MockSpecializationContext,
    ReducedCompiledInvocation, ReferenceExpression, ReferenceValue,
};
use cairo_lang_core::libfunc_text::text_numbers_fit;
use cairo_lang_core::sierra::ids::ConcreteTypeId;
use cairo_lang_core::sierra::program::{BranchTarget, GenericArg, StatementIdx};
use num_bigint::BigInt;

fn type_id(id: u64) -> ConcreteTypeId {
    ConcreteTypeId { id, debug_name: None }
}

fn immediate(value: i64) -> CellExpression {
    CellExpression::Immediate(BigInt::from(value))
}

fn reference(value: i64) -> ReferenceExpression {
    ReferenceExpression { cells: vec![immediate(value)] }
}

fn signature() -> LibfuncSignature {
    LibfuncSignature {
        params: vec![type_id(1), type_id(2)],
        branches: vec![vec![type_id(3), type_id(1)], vec![], vec![type_id(4)]],
        fallthrough: Some(1),
    }
}

#[test]
fn invocations_are_prepared() {
    let prepared = prepare_invocation(&signature(), vec![reference(5), reference(6)]);
    for id in [1, 2, 3, 4] {
        assert_eq!(prepared.type_sizes.get(&id), Some(&1));
    }
    assert_eq!(prepared.type_sizes.get(&5), None);
    assert_eq!(prepared.args.len(), 2);
    assert_eq!(prepared.args[1].expression.cells, vec![immediate(6)]);
    assert_eq!(prepared.args[1].ty.id, 2);
    assert_eq!(prepared.args[1].stack_idx, None);
    assert_eq!(
        prepared.args[1].introduction_point,
        IntroductionPoint {
            source_statement_idx: None,
            destination_statement_idx: StatementIdx(0),
            output_idx: 0,
        }
    );
    let invocation = &prepared.invocation;
    assert_eq!(
        invocation.libfunc_id.id,
        cairo_lang_sierra::ids::ConcreteLibfuncId::from("").id
    );
    assert_eq!(invocation.libfunc_id.debug_name, Some(String::new()));
    assert_eq!(invocation.args.iter().map(|var| var.id).collect::<Vec<u64>>(), vec![0, 1]);
    assert_eq!(invocation.branches.len(), 3);
    assert!(matches!(
        invocation.branches[0].target,
        BranchTarget::Statement(StatementIdx(0))
    ));
    assert!(matches!(invocation.branches[1].target, BranchTarget::Fallthrough));
    assert!(matches!(
        invocation.branches[2].target,
        BranchTarget::Statement(StatementIdx(2))
    ));
    assert_eq!(invocation.branches[0].results.len(), 2);
    assert_eq!(invocation.branches[0].results[1].id, 1);
}

fn compiled(prepared: LibfuncInvocation) -> CompiledInvocation<u64> {
    CompiledInvocation {
        instructions: vec![],
        relocations: vec![11, 12],
        results: vec![BranchChanges { refs: prepared.args, ap_change: ApChange::Known(3) }],
    }
}

fn assert_reduced(reduced: &ReducedCompiledInvocation<u64>) {
    assert!(reduced.instructions.is_empty());
    assert_eq!(reduced.relocations, vec![11, 12]);
    assert_eq!(reduced.results.len(), 1);
    assert_eq!(reduced.results[0].ap_change, ApChange::Known(3));
    assert_eq!(reduced.results[0].refs[0].cells, vec![immediate(5)]);
    assert_eq!(reduced.results[0].refs[1].cells, vec![immediate(6)]);
}

#[test]
fn libfuncs_are_compiled() {
    let reduced = compile_libfunc(
        "felt252_add",
        vec![reference(5), reference(6)],
        |long_id| {
            assert_eq!(long_id.generic_id.to_string(), "felt252_add");
            signature()
        },
        compiled,
    )
    .unwrap();
    assert_reduced(&reduced);
}

#[test]
fn arguments_of_libfuncs_are_read() {
    let mut args = vec![];
    let result = compile_libfunc(
        "felt252_const<2>",
        vec![],
        |long_id| {
            args = long_id.generic_args.iter().map(|arg| arg.to_string()).collect();
            LibfuncSignature { params: vec![], branches: vec![], fallthrough: None }
        },
        compiled,
    );
    assert!(result.is_ok());
    assert_eq!(args, vec!["2".to_string()]);
}

#[test]
fn what_cannot_be_compiled() {
    let result = compile_libfunc("<", vec![], |_long_id| signature(), compiled);
    assert!(matches!(result, Err(LibfuncFault::NotALibfunc)));
    let result =
        compile_libfunc("felt252_add", vec![reference(5)], |_long_id| signature(), compiled);
    assert!(matches!(result, Err(LibfuncFault::WrongNumberOfArguments)));
}

#[test]
fn results_are_reduced() {
    let value = |value: i64| ReferenceValue {
        expression: reference(value),
        ty: type_id(1),
        stack_idx: Some(7),
        introduction_point: IntroductionPoint {
            source_statement_idx: Some(StatementIdx(4)),
            destination_statement_idx: StatementIdx(0),
            output_idx: 1,
        },
    };
    let reduced = ReducedCompiledInvocation::new(CompiledInvocation {
        instructions: vec![],
        relocations: vec![11, 12],
        results: vec![BranchChanges {
            refs: vec![value(5), value(6)],
            ap_change: ApChange::Known(3),
        }],
    });
    assert_reduced(&reduced);
}

#[test]
fn the_mock_context_names_types_by_their_text() {
    let context = MockSpecializationContext {};
    let felt = context.try_get_concrete_type(&"felt252".to_string(), &vec![]).unwrap();
    assert_eq!(felt.debug_name, Some("felt252".to_string()));
    assert_eq!(felt.id, cairo_lang_sierra::ids::ConcreteTypeId::from("felt252").id);
    let args = vec![GenericArg::Type(felt), GenericArg::Value(Integer::from_u128(3))];
    let array = context.try_get_concrete_type(&"Array".to_string(), &args).unwrap();
    assert_eq!(array.debug_name, Some("Array<felt252, 3>".to_string()));
    assert_eq!(array.id, cairo_lang_sierra::ids::ConcreteTypeId::from("Array<felt252, 3>").id);
}

#[test]
fn ids_are_hashes_of_names() {
    let context = MockSpecializationContext {};
    let empty = context.try_get_concrete_type(&String::new(), &vec![]).unwrap();
    assert_eq!(empty.id, 0xcbf29ce484222325);
    let a = context.try_get_concrete_type(&"a".to_string(), &vec![]).unwrap();
    assert_eq!(a.id, 0xaf63dc4c8601ec8c);
}

#[test]
fn numbers_that_fit() {
    assert!(text_numbers_fit(""));
    assert!(text_numbers_fit("felt252_add"));
    assert!(text_numbers_fit("felt252_const<99999999999999999999999>"));
    assert!(text_numbers_fit("felt252_const<-1>"));
    assert!(text_numbers_fit("f<[6]>"));
    assert!(text_numbers_fit("f<[18446744073709551615]>"));
    assert!(text_numbers_fit("f<ut@[99999999999999999999999]>"));
    assert!(text_numbers_fit("f<user@g[99999999999999999999999]>"));
    assert!(text_numbers_fit("f<user@g{[99999999999999999999999]}>"));
    assert!(text_numbers_fit("f<[felt252; 3]>"));
    assert!(text_numbers_fit("f<//[99999999999999999999999]\n[6]>"));
}

#[test]
fn numbers_that_do_not_fit() {
    assert!(!text_numbers_fit("f<[18446744073709551616]>"));
    assert!(!text_numbers_fit("f<[ \t\n18446744073709551616]>"));
    assert!(!text_numbers_fit("f<[-1]>"));
    assert!(!text_numbers_fit("f<ut@[-1]>"));
    assert!(!text_numbers_fit("f<user@[18446744073709551616]>"));
    assert!(!text_numbers_fit("f<[felt252; 99999999999999999999]>"));
    assert!(!text_numbers_fit("f<[// a comment\n18446744073709551616]>"));
    assert!(!text_numbers_fit("f<[6], [18446744073709551616]>"));
}

#[test]
fn large_numbers_of_user_types_are_read() {
    let mut args = vec![];
    let result = compile_libfunc(
        "f<ut@[99999999999999999999999], user@g[99999999999999999999999]>",
        vec![],
        |long_id| {
            args = long_id.generic_args.iter().map(|arg| arg.to_string()).collect();
            LibfuncSignature { params: vec![], branches: vec![], fallthrough: None }
        },
        compiled,
    );
    assert!(result.is_ok());
    assert_eq!(
        args,
        vec![
            "ut@[99999999999999999999999]".to_string(),
            "user@g[99999999999999999999999]".to_string(),
        ]
    );
}

#[test]
fn results_are_compared() {
    let compile = |value: i64| {
        let refs = vec![reference(value), reference(6)];
        compile_libfunc("felt252_add", refs, |_long_id| signature(), compiled).unwrap()
    };
    assert_eq!(compile(5), compile(5));
    assert_ne!(compile(5), compile(4));
    let reduced = compile(5);
    assert_eq!(reduced.results[0].clone(), reduced.results[0]);
}
