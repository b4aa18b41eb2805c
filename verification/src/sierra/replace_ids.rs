//! Replacing the ids of a program by ids with readable names.
use vstd::prelude::*;

use crate::duplicate::{duplicates, viewed, Duplicate};
use crate::sierra::ids::{ConcreteLibfuncId, ConcreteTypeId, FunctionId, IdView, VarId};
use crate::sierra::program::{
    BranchInfo, Function, FunctionSignature, FunctionSignatureView, FunctionView, GenericArg,
    GenericArgView, Invocation, InvocationView, LibfuncDeclaration, LibfuncDeclarationView, LongId,
    LongIdView, Param, ParamView, Program, ProgramView, Statement, StatementIdx, StatementView,
    TypeDeclaration, TypeDeclarationView,
};

verus! {

/// What becomes of each id, and which numbers of ids are known.
pub struct Replacement {
    pub libfuncs: spec_fn(IdView) -> IdView,
    pub types: spec_fn(IdView) -> IdView,
    pub functions: spec_fn(IdView) -> IdView,
    pub known_libfuncs: spec_fn(u64) -> bool,
    pub known_types: spec_fn(u64) -> bool,
    pub known_functions: spec_fn(u64) -> bool,
}

// What becomes of the parts of a program.

pub open spec fn arg_to(to: Replacement, arg: GenericArgView) -> GenericArgView {
    match arg {
        GenericArgView::Type(id) => GenericArgView::Type((to.types)(id)),
        GenericArgView::UserFunc(id) => GenericArgView::UserFunc((to.functions)(id)),
        GenericArgView::Libfunc(id) => GenericArgView::Libfunc((to.libfuncs)(id)),
        other => other,
    }
}

pub open spec fn knows_arg(to: Replacement, arg: GenericArgView) -> bool {
    match arg {
        GenericArgView::Type(id) => (to.known_types)(id.id),
        GenericArgView::UserFunc(id) => (to.known_functions)(id.id),
        GenericArgView::Libfunc(id) => (to.known_libfuncs)(id.id),
        _ => true,
    }
}

pub open spec fn args_to(to: Replacement, args: Seq<GenericArgView>) -> Seq<
    GenericArgView,
> {
    Seq::new(args.len(), |i: int| arg_to(to, args[i]))
}

pub open spec fn knows_args(to: Replacement, args: Seq<GenericArgView>) -> bool {
    forall|i: int| 0 <= i < args.len() ==> knows_arg(to, #[trigger] args[i])
}

pub open spec fn long_id_to(to: Replacement, long_id: LongIdView) -> LongIdView {
    LongIdView { generic_args: args_to(to, long_id.generic_args), ..long_id }
}

pub open spec fn statement_to<S>(
    to: Replacement,
    statement: StatementView<S>,
) -> StatementView<S> {
    match statement {
        StatementView::Invocation(invocation) => StatementView::Invocation(
            InvocationView { libfunc_id: (to.libfuncs)(invocation.libfunc_id), ..invocation },
        ),
        StatementView::Return(vars) => StatementView::Return(vars),
    }
}

pub open spec fn knows_statement<S>(
    to: Replacement,
    statement: StatementView<S>,
) -> bool {
    statement matches StatementView::Invocation(invocation) ==> (to.known_libfuncs)(
        invocation.libfunc_id.id,
    )
}

pub open spec fn type_declaration_to(
    to: Replacement,
    declaration: TypeDeclarationView,
) -> TypeDeclarationView {
    TypeDeclarationView {
        id: (to.types)(declaration.id),
        long_id: long_id_to(to, declaration.long_id),
        declared_type_info: declaration.declared_type_info,
    }
}

pub open spec fn knows_type_declaration(
    to: Replacement,
    declaration: TypeDeclarationView,
) -> bool {
    (to.known_types)(declaration.id.id) && knows_args(to, declaration.long_id.generic_args)
}

pub open spec fn libfunc_declaration_to(
    to: Replacement,
    declaration: LibfuncDeclarationView,
) -> LibfuncDeclarationView {
    LibfuncDeclarationView {
        id: (to.libfuncs)(declaration.id),
        long_id: long_id_to(to, declaration.long_id),
    }
}

pub open spec fn knows_libfunc_declaration(
    to: Replacement,
    declaration: LibfuncDeclarationView,
) -> bool {
    (to.known_libfuncs)(declaration.id.id) && knows_args(
        to,
        declaration.long_id.generic_args,
    )
}

pub open spec fn types_to(to: Replacement, types: Seq<IdView>) -> Seq<IdView> {
    Seq::new(types.len(), |i: int| (to.types)(types[i]))
}

pub open spec fn knows_types(to: Replacement, types: Seq<IdView>) -> bool {
    forall|i: int| 0 <= i < types.len() ==> (to.known_types)((#[trigger] types[i]).id)
}

pub open spec fn params_to(to: Replacement, params: Seq<ParamView>) -> Seq<
    ParamView,
> {
    Seq::new(
        params.len(),
        |i: int| ParamView { id: params[i].id, ty: (to.types)(params[i].ty) },
    )
}

pub open spec fn knows_params(to: Replacement, params: Seq<ParamView>) -> bool {
    forall|i: int| 0 <= i < params.len() ==> (to.known_types)((#[trigger] params[i]).ty.id)
}

pub open spec fn function_entry_to(
    to: Replacement,
    function: FunctionView,
) -> FunctionView {
    FunctionView {
        id: (to.functions)(function.id),
        signature: FunctionSignatureView {
            param_types: types_to(to, function.signature.param_types),
            ret_types: types_to(to, function.signature.ret_types),
        },
        params: params_to(to, function.params),
        entry_point: function.entry_point,
    }
}

pub open spec fn knows_function_entry(
    to: Replacement,
    function: FunctionView,
) -> bool {
    &&& (to.known_functions)(function.id.id)
    &&& knows_types(to, function.signature.param_types)
    &&& knows_types(to, function.signature.ret_types)
    &&& knows_params(to, function.params)
}

/// The program with all ids replaced.
pub open spec fn program_to(to: Replacement, program: ProgramView) -> ProgramView {
    ProgramView {
        type_declarations: Seq::new(
            program.type_declarations.len(),
            |i: int| type_declaration_to(to, program.type_declarations[i]),
        ),
        libfunc_declarations: Seq::new(
            program.libfunc_declarations.len(),
            |i: int| libfunc_declaration_to(to, program.libfunc_declarations[i]),
        ),
        statements: Seq::new(
            program.statements.len(),
            |i: int| statement_to(to, program.statements[i]),
        ),
        funcs: Seq::new(
            program.funcs.len(),
            |i: int| function_entry_to(to, program.funcs[i]),
        ),
    }
}

/// All ids of the program are known.
pub open spec fn knows_program(to: Replacement, program: ProgramView) -> bool {
    &&& forall|i: int|
        0 <= i < program.type_declarations.len() ==> knows_type_declaration(
            to,
            #[trigger] program.type_declarations[i],
        )
    &&& forall|i: int|
        0 <= i < program.libfunc_declarations.len() ==> knows_libfunc_declaration(
            to,
            #[trigger] program.libfunc_declarations[i],
        )
    &&& forall|i: int|
        0 <= i < program.statements.len() ==> knows_statement(
            to,
            #[trigger] program.statements[i],
        )
    &&& forall|i: int|
        0 <= i < program.funcs.len() ==> knows_function_entry(
            to,
            #[trigger] program.funcs[i],
        )
}

/// Replaces the ids of programs.
pub trait SierraIdReplacer: Sized {
    /// What becomes of each id.
    spec fn replacement(&self) -> Replacement;

    /// Replaces the id of a library function.
    fn replace_libfunc_id(&self, id: &ConcreteLibfuncId) -> (r: ConcreteLibfuncId)
        requires
            (self.replacement().known_libfuncs)(id@.id),
        ensures
            r@ == (self.replacement().libfuncs)(id@),
    ;

    /// Replaces the id of a type.
    fn replace_type_id(&self, id: &ConcreteTypeId) -> (r: ConcreteTypeId)
        requires
            (self.replacement().known_types)(id@.id),
        ensures
            r@ == (self.replacement().types)(id@),
    ;

    /// Replaces the id of a user function.
    fn replace_function_id(&self, id: &FunctionId) -> (r: FunctionId)
        requires
            (self.replacement().known_functions)(id@.id),
        ensures
            r@ == (self.replacement().functions)(id@),
    ;

    /// Replaces the ids in generic arguments.
    fn replace_generic_args(&self, generic_args: &mut Vec<GenericArg>)
        requires
            knows_args(self.replacement(), viewed(old(generic_args)@)),
        ensures
            viewed(final(generic_args)@) == args_to(self.replacement(), viewed(old(generic_args)@)),
    {
        let ghost before = viewed(generic_args@);
        let mut i: usize = 0;
        while i < generic_args.len()
            invariant
                i <= generic_args@.len(),
                generic_args@.len() == before.len(),
                before == viewed(old(generic_args)@),
                knows_args(self.replacement(), before),
                forall|j: int|
                    0 <= j < i ==> (#[trigger] generic_args@[j])@ == arg_to(
                        self.replacement(),
                        before[j],
                    ),
                forall|j: int|
                    i <= j < before.len() ==> (#[trigger] generic_args@[j])@ == before[j],
            decreases generic_args@.len() - i,
        {
            assert(knows_arg(self.replacement(), before[i as int]));
            let replaced = match &generic_args[i] {
                GenericArg::Type(id) => GenericArg::Type(self.replace_type_id(id)),
                GenericArg::UserFunc(id) => GenericArg::UserFunc(self.replace_function_id(id)),
                GenericArg::Libfunc(id) => GenericArg::Libfunc(self.replace_libfunc_id(id)),
                other => other.duplicate(),
            };
            generic_args.set(i, replaced);
            i += 1;
        }
        assert(viewed(generic_args@) =~= args_to(self.replacement(), before));
    }

    /// Returns a new program where all the ids are replaced.
    fn apply(&self, program: &Program) -> (r: Program)
        requires
            knows_program(self.replacement(), program@),
        ensures
            r@ == program_to(self.replacement(), program@),
    {
        assert(program@.type_declarations.len() == program.type_declarations@.len());
        assert(program@.libfunc_declarations.len() == program.libfunc_declarations@.len());
        assert(program@.statements.len() == program.statements@.len());
        assert(program@.funcs.len() == program.funcs@.len());
        let type_declarations = self.replace_type_declarations(&program.type_declarations);
        let libfunc_declarations = self.replace_libfunc_declarations(
            &program.libfunc_declarations,
        );
        let statements = self.replace_statements(&program.statements);
        let funcs = self.replace_functions(&program.funcs);
        let r = Program { type_declarations, libfunc_declarations, statements, funcs };
        assert(r@ =~= program_to(self.replacement(), program@));
        r
    }

    fn replace_long_id(&self, long_id: &LongId) -> (r: LongId)
        requires
            knows_args(self.replacement(), long_id@.generic_args),
        ensures
            r@ == long_id_to(self.replacement(), long_id@),
    {
        let mut generic_args = duplicates(&long_id.generic_args);
        self.replace_generic_args(&mut generic_args);
        LongId { generic_id: long_id.generic_id.clone(), generic_args }
    }

    fn replace_type_declarations(&self, declarations: &Vec<TypeDeclaration>) -> (r: Vec<
        TypeDeclaration,
    >)
        requires
            forall|i: int|
                0 <= i < declarations@.len() ==> knows_type_declaration(
                    self.replacement(),
                    #[trigger] viewed(declarations@)[i],
                ),
        ensures
            viewed(r@) == Seq::new(
                declarations@.len(),
                |i: int| type_declaration_to(self.replacement(), viewed(declarations@)[i]),
            ),
    {
        let mut replaced: Vec<TypeDeclaration> = Vec::new();
        let mut i: usize = 0;
        while i < declarations.len()
            invariant
                i <= declarations@.len(),
                replaced@.len() == i,
                forall|i: int|
                    0 <= i < declarations@.len() ==> knows_type_declaration(
                        self.replacement(),
                        #[trigger] viewed(declarations@)[i],
                    ),
                forall|j: int|
                    0 <= j < i ==> (#[trigger] replaced@[j])@ == type_declaration_to(
                        self.replacement(),
                        declarations@[j]@,
                    ),
            decreases declarations@.len() - i,
        {
            let declaration = &declarations[i];
            assert(viewed(declarations@)[i as int] == declaration@);
            replaced.push(
                TypeDeclaration {
                    id: self.replace_type_id(&declaration.id),
                    long_id: self.replace_long_id(&declaration.long_id),
                    declared_type_info: declaration.declared_type_info,
                },
            );
            i += 1;
        }
        assert(viewed(replaced@) =~= Seq::new(
            declarations@.len(),
            |i: int| type_declaration_to(self.replacement(), viewed(declarations@)[i]),
        ));
        replaced
    }

    fn replace_libfunc_declarations(&self, declarations: &Vec<LibfuncDeclaration>) -> (r: Vec<
        LibfuncDeclaration,
    >)
        requires
            forall|i: int|
                0 <= i < declarations@.len() ==> knows_libfunc_declaration(
                    self.replacement(),
                    #[trigger] viewed(declarations@)[i],
                ),
        ensures
            viewed(r@) == Seq::new(
                declarations@.len(),
                |i: int| libfunc_declaration_to(self.replacement(), viewed(declarations@)[i]),
            ),
    {
        let mut replaced: Vec<LibfuncDeclaration> = Vec::new();
        let mut i: usize = 0;
        while i < declarations.len()
            invariant
                i <= declarations@.len(),
                replaced@.len() == i,
                forall|i: int|
                    0 <= i < declarations@.len() ==> knows_libfunc_declaration(
                        self.replacement(),
                        #[trigger] viewed(declarations@)[i],
                    ),
                forall|j: int|
                    0 <= j < i ==> (#[trigger] replaced@[j])@ == libfunc_declaration_to(
                        self.replacement(),
                        declarations@[j]@,
                    ),
            decreases declarations@.len() - i,
        {
            let declaration = &declarations[i];
            assert(viewed(declarations@)[i as int] == declaration@);
            replaced.push(
                LibfuncDeclaration {
                    id: self.replace_libfunc_id(&declaration.id),
                    long_id: self.replace_long_id(&declaration.long_id),
                },
            );
            i += 1;
        }
        assert(viewed(replaced@) =~= Seq::new(
            declarations@.len(),
            |i: int| libfunc_declaration_to(self.replacement(), viewed(declarations@)[i]),
        ));
        replaced
    }

    /// Replaces the id of the library function of a statement.
    fn replace_statement<S: Copy>(&self, statement: &Statement<S>) -> (r: Statement<S>)
        requires
            knows_statement(self.replacement(), statement@),
        ensures
            r@ == statement_to(self.replacement(), statement@),
    {
        match statement {
            Statement::Invocation(invocation) => Statement::Invocation(
                Invocation {
                    libfunc_id: self.replace_libfunc_id(&invocation.libfunc_id),
                    args: duplicates(&invocation.args),
                    branches: duplicates(&invocation.branches),
                },
            ),
            Statement::Return(vars) => Statement::Return(duplicates(vars)),
        }
    }

    fn replace_statements(&self, statements: &Vec<Statement<StatementIdx>>) -> (r: Vec<
        Statement<StatementIdx>,
    >)
        requires
            forall|i: int|
                0 <= i < statements@.len() ==> knows_statement(
                    self.replacement(),
                    #[trigger] viewed(statements@)[i],
                ),
        ensures
            viewed(r@) == Seq::new(
                statements@.len(),
                |i: int| statement_to(self.replacement(), viewed(statements@)[i]),
            ),
    {
        let mut replaced: Vec<Statement<StatementIdx>> = Vec::new();
        let mut i: usize = 0;
        while i < statements.len()
            invariant
                i <= statements@.len(),
                replaced@.len() == i,
                forall|i: int|
                    0 <= i < statements@.len() ==> knows_statement(
                        self.replacement(),
                        #[trigger] viewed(statements@)[i],
                    ),
                forall|j: int|
                    0 <= j < i ==> (#[trigger] replaced@[j])@ == statement_to(
                        self.replacement(),
                        statements@[j]@,
                    ),
            decreases statements@.len() - i,
        {
            assert(viewed(statements@)[i as int] == statements@[i as int]@);
            replaced.push(self.replace_statement(&statements[i]));
            i += 1;
        }
        assert(viewed(replaced@) =~= Seq::new(
            statements@.len(),
            |i: int| statement_to(self.replacement(), viewed(statements@)[i]),
        ));
        replaced
    }

    fn replace_types(&self, types: &Vec<ConcreteTypeId>) -> (r: Vec<
        ConcreteTypeId,
    >)
        requires
            knows_types(self.replacement(), viewed(types@)),
        ensures
            viewed(r@) == types_to(self.replacement(), viewed(types@)),
    {
        let mut replaced: Vec<ConcreteTypeId> = Vec::new();
        let mut i: usize = 0;
        while i < types.len()
            invariant
                i <= types@.len(),
                replaced@.len() == i,
                knows_types(self.replacement(), viewed(types@)),
                forall|j: int|
                    0 <= j < i ==> (#[trigger] replaced@[j])@ == (self.replacement().types)(
                        types@[j]@,
                    ),
            decreases types@.len() - i,
        {
            assert(viewed(types@)[i as int] == types@[i as int]@);
            replaced.push(self.replace_type_id(&types[i]));
            i += 1;
        }
        assert(viewed(replaced@) =~= types_to(self.replacement(), viewed(types@)));
        replaced
    }

    fn replace_params(&self, params: &Vec<Param>) -> (r: Vec<Param>)
        requires
            knows_params(self.replacement(), viewed(params@)),
        ensures
            viewed(r@) == params_to(self.replacement(), viewed(params@)),
    {
        let mut replaced: Vec<Param> = Vec::new();
        let mut i: usize = 0;
        while i < params.len()
            invariant
                i <= params@.len(),
                replaced@.len() == i,
                knows_params(self.replacement(), viewed(params@)),
                forall|j: int|
                    0 <= j < i ==> (#[trigger] replaced@[j])@ == params_to(
                        self.replacement(),
                        viewed(params@),
                    )[j],
            decreases params@.len() - i,
        {
            assert(viewed(params@)[i as int] == params@[i as int]@);
            replaced.push(
                Param {
                    id: params[i].id.duplicate(),
                    ty: self.replace_type_id(&params[i].ty),
                },
            );
            i += 1;
        }
        assert(viewed(replaced@) =~= params_to(self.replacement(), viewed(params@)));
        replaced
    }

    fn replace_functions(&self, functions: &Vec<Function>) -> (r: Vec<
        Function,
    >)
        requires
            forall|i: int|
                0 <= i < functions@.len() ==> knows_function_entry(
                    self.replacement(),
                    #[trigger] viewed(functions@)[i],
                ),
        ensures
            viewed(r@) == Seq::new(
                functions@.len(),
                |i: int| function_entry_to(self.replacement(), viewed(functions@)[i]),
            ),
    {
        let mut replaced: Vec<Function> = Vec::new();
        let mut i: usize = 0;
        while i < functions.len()
            invariant
                i <= functions@.len(),
                replaced@.len() == i,
                forall|i: int|
                    0 <= i < functions@.len() ==> knows_function_entry(
                        self.replacement(),
                        #[trigger] viewed(functions@)[i],
                    ),
                forall|j: int|
                    0 <= j < i ==> (#[trigger] replaced@[j])@ == function_entry_to(
                        self.replacement(),
                        functions@[j]@,
                    ),
            decreases functions@.len() - i,
        {
            let function = &functions[i];
            assert(viewed(functions@)[i as int] == function@);
            replaced.push(
                Function {
                    id: self.replace_function_id(&function.id),
                    signature: FunctionSignature {
                        param_types: self.replace_types(&function.signature.param_types),
                        ret_types: self.replace_types(&function.signature.ret_types),
                    },
                    params: self.replace_params(&function.params),
                    entry_point: function.entry_point,
                },
            );
            i += 1;
        }
        assert(viewed(replaced@) =~= Seq::new(
            functions@.len(),
            |i: int| function_entry_to(self.replacement(), viewed(functions@)[i]),
        ));
        replaced
    }
}

// Laws.

/// The texts are equal, or both are missing.
pub open spec fn same_text(a: Option<String>, b: Option<String>) -> bool {
    match (a, b) {
        (Some(a), Some(b)) => a@ == b@,
        (None, None) => true,
        _ => false,
    }
}

/// The variables are the same, one by one.
pub open spec fn same_vars(a: Seq<VarId>, b: Seq<VarId>) -> bool {
    &&& a.len() == b.len()
    &&& forall|i: int|
        0 <= i < a.len() ==> (#[trigger] a[i]).id == b[i].id && same_text(
            a[i].debug_name,
            b[i].debug_name,
        )
}

/// The first argument was replaced by the second: an argument with an id by one of the same kind,
/// and the others by themselves.
pub open spec fn is_replaced_arg(to: Replacement, a: GenericArg, b: GenericArg) -> bool {
    match (a, b) {
        (GenericArg::Type(a), GenericArg::Type(b)) => b@ == (to.types)(a@),
        (GenericArg::UserFunc(a), GenericArg::UserFunc(b)) => b@ == (to.functions)(a@),
        (GenericArg::Libfunc(a), GenericArg::Libfunc(b)) => b@ == (to.libfuncs)(a@),
        (GenericArg::Value(a), GenericArg::Value(b)) => a@ == b@,
        (GenericArg::UserType(a), GenericArg::UserType(b)) => a.id@ == b.id@ && same_text(
            a.debug_name,
            b.debug_name,
        ),
        _ => false,
    }
}

/// Variables with the same views are the same.
pub proof fn lemma_same_vars(a: Seq<VarId>, b: Seq<VarId>)
    requires
        viewed(a) == viewed(b),
    ensures
        same_vars(a, b),
{
    assert(viewed(a).len() == a.len() && viewed(b).len() == b.len());
    assert forall|i: int| 0 <= i < a.len() implies (#[trigger] a[i]).id == b[i].id && same_text(
        a[i].debug_name,
        b[i].debug_name,
    ) by {
        assert(viewed(a)[i] == a[i]@ && viewed(b)[i] == b[i]@);
    }
}

proof fn lemma_same_branches<S>(a: Seq<BranchInfo<S>>, b: Seq<BranchInfo<S>>)
    requires
        viewed(a) == viewed(b),
    ensures
        a.len() == b.len(),
        forall|i: int|
            0 <= i < a.len() ==> (#[trigger] a[i]).target == b[i].target && same_vars(
                a[i].results@,
                b[i].results@,
            ),
{
    assert(viewed(a).len() == a.len() && viewed(b).len() == b.len());
    assert forall|i: int| 0 <= i < a.len() implies (#[trigger] a[i]).target == b[i].target
        && same_vars(a[i].results@, b[i].results@) by {
        assert(viewed(a)[i] == a[i]@ && viewed(b)[i] == b[i]@);
        lemma_same_vars(a[i].results@, b[i].results@);
    }
}

/// Replacing the ids of generic arguments keeps their number, their order and their kinds.
pub proof fn arguments_are_replaced_one_by_one(
    to: Replacement,
    args: Seq<GenericArg>,
    replaced: Seq<GenericArg>,
)
    requires
        viewed(replaced) == args_to(to, viewed(args)),
    ensures
        replaced.len() == args.len(),
        forall|i: int|
            0 <= i < args.len() ==> is_replaced_arg(to, args[i], #[trigger] replaced[i]),
{
    assert(viewed(replaced).len() == replaced.len() && viewed(args).len() == args.len());
    assert forall|i: int| 0 <= i < args.len() implies is_replaced_arg(
        to,
        args[i],
        #[trigger] replaced[i],
    ) by {
        assert(viewed(args)[i] == args[i]@);
        assert(viewed(replaced)[i] == replaced[i]@);
        assert(viewed(replaced)[i] == arg_to(to, args[i]@));
    }
}

/// Replacing the ids of a statement changes nothing but the id of the library function: its
/// arguments, the targets and results of its branches, and the variables that are returned stay.
pub proof fn statements_keep_their_variables<S>(
    to: Replacement,
    statement: Statement<S>,
    replaced: Statement<S>,
)
    requires
        replaced@ == statement_to(to, statement@),
    ensures
        match (statement, replaced) {
            (Statement::Invocation(from), Statement::Invocation(into)) => {
                &&& into.libfunc_id@ == (to.libfuncs)(from.libfunc_id@)
                &&& same_vars(from.args@, into.args@)
                &&& from.branches@.len() == into.branches@.len()
                &&& forall|i: int|
                    0 <= i < from.branches@.len() ==> (#[trigger] from.branches@[i]).target
                        == into.branches@[i].target && same_vars(
                        from.branches@[i].results@,
                        into.branches@[i].results@,
                    )
            },
            (Statement::Return(from), Statement::Return(into)) => same_vars(from@, into@),
            _ => false,
        },
{
    match (statement, replaced) {
        (Statement::Invocation(from), Statement::Invocation(into)) => {
            lemma_same_vars(from.args@, into.args@);
            lemma_same_branches(from.branches@, into.branches@);
        },
        (Statement::Return(from), Statement::Return(into)) => {
            lemma_same_vars(from@, into@);
        },
        _ => {},
    }
}

/// Replacing the ids of the declarations of a program keeps their number and order, the generic
/// types and library functions, and the declared type infos.
pub proof fn declarations_keep_what_they_declare(
    to: Replacement,
    program: Program,
    replaced: Program,
)
    requires
        replaced@ == program_to(to, program@),
    ensures
        replaced.type_declarations@.len() == program.type_declarations@.len(),
        forall|i: int|
            0 <= i < program.type_declarations@.len() ==> {
                let from = program.type_declarations@[i];
                let into = #[trigger] replaced.type_declarations@[i];
                &&& into.id@ == (to.types)(from.id@)
                &&& into.long_id.generic_id@ == from.long_id.generic_id@
                &&& into.declared_type_info == from.declared_type_info
                &&& into.long_id.generic_args@.len() == from.long_id.generic_args@.len()
                &&& forall|j: int|
                    0 <= j < from.long_id.generic_args@.len() ==> is_replaced_arg(
                        to,
                        from.long_id.generic_args@[j],
                        #[trigger] into.long_id.generic_args@[j],
                    )
            },
        replaced.libfunc_declarations@.len() == program.libfunc_declarations@.len(),
        forall|i: int|
            0 <= i < program.libfunc_declarations@.len() ==> {
                let from = program.libfunc_declarations@[i];
                let into = #[trigger] replaced.libfunc_declarations@[i];
                &&& into.id@ == (to.libfuncs)(from.id@)
                &&& into.long_id.generic_id@ == from.long_id.generic_id@
                &&& into.long_id.generic_args@.len() == from.long_id.generic_args@.len()
                &&& forall|j: int|
                    0 <= j < from.long_id.generic_args@.len() ==> is_replaced_arg(
                        to,
                        from.long_id.generic_args@[j],
                        #[trigger] into.long_id.generic_args@[j],
                    )
            },
{
    let types = program.type_declarations@;
    let libfuncs = program.libfunc_declarations@;
    assert(replaced@.type_declarations.len() == replaced.type_declarations@.len());
    assert(program@.type_declarations.len() == types.len());
    assert(replaced@.libfunc_declarations.len() == replaced.libfunc_declarations@.len());
    assert(program@.libfunc_declarations.len() == libfuncs.len());
    assert forall|i: int| 0 <= i < types.len() implies {
        let from = types[i];
        let into = #[trigger] replaced.type_declarations@[i];
        &&& into.id@ == (to.types)(from.id@)
        &&& into.long_id.generic_id@ == from.long_id.generic_id@
        &&& into.declared_type_info == from.declared_type_info
        &&& into.long_id.generic_args@.len() == from.long_id.generic_args@.len()
        &&& forall|j: int|
            0 <= j < from.long_id.generic_args@.len() ==> is_replaced_arg(
                to,
                from.long_id.generic_args@[j],
                #[trigger] into.long_id.generic_args@[j],
            )
    } by {
        let from = types[i];
        let into = replaced.type_declarations@[i];
        assert(replaced@.type_declarations[i] == into@);
        assert(program@.type_declarations[i] == from@);
        assert(into@ == type_declaration_to(to, from@));
        arguments_are_replaced_one_by_one(
            to,
            from.long_id.generic_args@,
            into.long_id.generic_args@,
        );
    }
    assert forall|i: int| 0 <= i < libfuncs.len() implies {
        let from = libfuncs[i];
        let into = #[trigger] replaced.libfunc_declarations@[i];
        &&& into.id@ == (to.libfuncs)(from.id@)
        &&& into.long_id.generic_id@ == from.long_id.generic_id@
        &&& into.long_id.generic_args@.len() == from.long_id.generic_args@.len()
        &&& forall|j: int|
            0 <= j < from.long_id.generic_args@.len() ==> is_replaced_arg(
                to,
                from.long_id.generic_args@[j],
                #[trigger] into.long_id.generic_args@[j],
            )
    } by {
        let from = libfuncs[i];
        let into = replaced.libfunc_declarations@[i];
        assert(replaced@.libfunc_declarations[i] == into@);
        assert(program@.libfunc_declarations[i] == from@);
        assert(into@ == libfunc_declaration_to(to, from@));
        arguments_are_replaced_one_by_one(
            to,
            from.long_id.generic_args@,
            into.long_id.generic_args@,
        );
    }
}

/// Each type was replaced.
pub open spec fn are_replaced_types(
    to: Replacement,
    types: Seq<ConcreteTypeId>,
    replaced: Seq<ConcreteTypeId>,
) -> bool {
    &&& types.len() == replaced.len()
    &&& forall|i: int|
        0 <= i < types.len() ==> (#[trigger] replaced[i])@ == (to.types)(types[i]@)
}

proof fn lemma_types_replaced(
    to: Replacement,
    types: Seq<ConcreteTypeId>,
    replaced: Seq<ConcreteTypeId>,
)
    requires
        viewed(replaced) == types_to(to, viewed(types)),
    ensures
        are_replaced_types(to, types, replaced),
{
    assert(viewed(replaced).len() == replaced.len() && viewed(types).len() == types.len());
    assert forall|i: int| 0 <= i < types.len() implies (#[trigger] replaced[i])@ == (to.types)(
        types[i]@,
    ) by {
        assert(viewed(replaced)[i] == replaced[i]@ && viewed(types)[i] == types[i]@);
    }
}

/// Replacing the ids of a program changes nothing but the ids of its functions and their types:
/// each function starts at the same statement, and has the same variables as parameters. The
/// statements stay what they are but for the ids of their library functions.
pub proof fn functions_keep_their_entry_points(
    to: Replacement,
    program: Program,
    replaced: Program,
)
    requires
        replaced@ == program_to(to, program@),
    ensures
        replaced.funcs@.len() == program.funcs@.len(),
        forall|i: int|
            0 <= i < program.funcs@.len() ==> {
                let from = program.funcs@[i];
                let into = #[trigger] replaced.funcs@[i];
                &&& into.id@ == (to.functions)(from.id@)
                &&& into.entry_point == from.entry_point
                &&& into.params@.len() == from.params@.len()
                &&& forall|j: int|
                    0 <= j < from.params@.len() ==> (#[trigger] into.params@[j]).id.id
                        == from.params@[j].id.id && same_text(
                        into.params@[j].id.debug_name,
                        from.params@[j].id.debug_name,
                    ) && into.params@[j].ty@ == (to.types)(from.params@[j].ty@)
                &&& are_replaced_types(
                    to,
                    from.signature.param_types@,
                    into.signature.param_types@,
                )
                &&& are_replaced_types(to, from.signature.ret_types@, into.signature.ret_types@)
            },
        replaced.statements@.len() == program.statements@.len(),
        forall|i: int|
            0 <= i < program.statements@.len() ==> (#[trigger] replaced.statements@[i])@
                == statement_to(to, program.statements@[i]@),
{
    assert(replaced@.funcs.len() == replaced.funcs@.len());
    assert(program@.funcs.len() == program.funcs@.len());
    assert(replaced@.statements.len() == replaced.statements@.len());
    assert(program@.statements.len() == program.statements@.len());
    assert forall|i: int| 0 <= i < program.statements@.len() implies (
    #[trigger] replaced.statements@[i])@ == statement_to(to, program.statements@[i]@) by {
        assert(replaced@.statements[i] == replaced.statements@[i]@);
        assert(program@.statements[i] == program.statements@[i]@);
    }
    assert forall|i: int| 0 <= i < program.funcs@.len() implies {
        let from = program.funcs@[i];
        let into = #[trigger] replaced.funcs@[i];
        &&& into.id@ == (to.functions)(from.id@)
        &&& into.entry_point == from.entry_point
        &&& into.params@.len() == from.params@.len()
        &&& forall|j: int|
            0 <= j < from.params@.len() ==> (#[trigger] into.params@[j]).id.id
                == from.params@[j].id.id && same_text(
                into.params@[j].id.debug_name,
                from.params@[j].id.debug_name,
            ) && into.params@[j].ty@ == (to.types)(from.params@[j].ty@)
        &&& are_replaced_types(to, from.signature.param_types@, into.signature.param_types@)
        &&& are_replaced_types(to, from.signature.ret_types@, into.signature.ret_types@)
    } by {
        let from = program.funcs@[i];
        let into = replaced.funcs@[i];
        assert(replaced@.funcs[i] == into@);
        assert(program@.funcs[i] == from@);
        assert(into@ == function_entry_to(to, from@));
        lemma_types_replaced(to, from.signature.param_types@, into.signature.param_types@);
        lemma_types_replaced(to, from.signature.ret_types@, into.signature.ret_types@);
        assert(viewed(into.params@).len() == into.params@.len());
        assert(viewed(from.params@).len() == from.params@.len());
        assert forall|j: int| 0 <= j < from.params@.len() implies (
        #[trigger] into.params@[j]).id.id == from.params@[j].id.id && same_text(
            into.params@[j].id.debug_name,
            from.params@[j].id.debug_name,
        ) && into.params@[j].ty@ == (to.types)(from.params@[j].ty@) by {
            assert(viewed(into.params@)[j] == into.params@[j]@);
            assert(viewed(from.params@)[j] == from.params@[j]@);
        }
    }
}

} // verus!
