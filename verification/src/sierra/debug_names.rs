//! Replacing ids by ids whose names say what they stand for.
use vstd::prelude::*;

use crate::duplicate::{viewed, Duplicate};
use crate::sierra::db::{is_user_type, SierraGenDb, SierraTypeLongId};
use crate::sierra::ids::{
    id_of_name, user_type_text, ConcreteLibfuncId, ConcreteTypeId, FunctionId, IdView,
};
use crate::sierra::pre_sierra::{
    PreStatement, PreStatementView, PushValue, PushValueView, StatementWithLocation,
    StatementWithLocationView,
};
use crate::sierra::program::{
    arg_texts, long_id_text, FunctionView, GenericArg, GenericArgView, LongId, LongIdView, Program,
    ProgramView, StatementView,
};
use crate::sierra::replace_ids::{
    arg_to, args_to, function_entry_to, knows_arg, knows_args, knows_function_entry,
    knows_libfunc_declaration, knows_program, knows_statement, knows_type_declaration, knows_types,
    params_to, program_to, same_text, statement_to, types_to, Replacement, SierraIdReplacer,
};
use crate::text::{int_text, joined};

verus! {

/// Calls `ConcreteTypeId::from` of `cairo_lang_sierra`: the number of the id is the 64-bit FNV-1a
/// hash of the name.
#[verifier::external_body]
pub(crate) fn sierra_type_id_from(name: &String) -> (r: u64)
    ensures
        r == id_of_name(name@),
{
    cairo_lang_sierra::ids::ConcreteTypeId::from(name.clone()).id
}

/// The names of user types stand for themselves, without their members: only tuples keep them.
pub open spec fn simplified(long_id: LongIdView) -> LongIdView {
    if is_user_type(long_id.generic_id) {
        let name = user_type_text(long_id.generic_args[0]->UserType_0);
        if name == "Tuple"@ {
            let members = long_id.generic_args.skip(1);
            LongIdView {
                generic_id: if members.len() == 0 {
                    "Unit"@
                } else {
                    name
                },
                generic_args: members,
            }
        } else {
            LongIdView { generic_id: name, generic_args: Seq::empty() }
        }
    } else {
        long_id
    }
}

/// The id of a type, named by what the type is.
pub open spec fn named_type(db: SierraGenDb, id: IdView) -> IdView
    decreases db.types@[id.id as int].created, 2nat, 0nat,
{
    let entry = db.types@[id.id as int];
    match entry.long_id {
        SierraTypeLongId::Phantom(name) => IdView {
            id: id_of_name(name@),
            debug_name: Some(name@),
        },
        SierraTypeLongId::CycleBreaker(name) => IdView {
            id: id_of_name(name@),
            debug_name: Some(name@),
        },
        SierraTypeLongId::Regular(long_id) => IdView {
            id: id.id,
            debug_name: Some(
                long_id_text(
                    simplified(
                        LongIdView {
                            generic_id: long_id.generic_id@,
                            generic_args: named_args(
                                db,
                                viewed(long_id.generic_args@),
                                entry.created as nat,
                                viewed(long_id.generic_args@).len(),
                            ),
                        },
                    ),
                ),
            ),
        },
    }
}

/// The id of a library function, named by what the function is.
pub open spec fn named_libfunc(db: SierraGenDb, id: IdView) -> IdView
    decreases db.libfuncs@[id.id as int].created, 2nat, 0nat,
{
    let entry = db.libfuncs@[id.id as int];
    IdView {
        id: id.id,
        debug_name: Some(
            long_id_text(
                LongIdView {
                    generic_id: entry.long_id.generic_id@,
                    generic_args: named_args(
                        db,
                        viewed(entry.long_id.generic_args@),
                        entry.created as nat,
                        viewed(entry.long_id.generic_args@).len(),
                    ),
                },
            ),
        ),
    }
}

/// The id of a function, named by its full name.
pub open spec fn named_function(db: SierraGenDb, id: IdView) -> IdView {
    IdView { id: id.id, debug_name: Some(db.functions@[id.id as int].name@) }
}

/// An argument of something that was created at `bound`, with the id in it named.
pub open spec fn named_arg(db: SierraGenDb, arg: GenericArgView, bound: nat) -> GenericArgView
    decreases bound, 0nat, 0nat,
{
    match arg {
        GenericArgView::Type(id) => if db.types@[id.id as int].created < bound {
            GenericArgView::Type(named_type(db, id))
        } else {
            arg
        },
        GenericArgView::UserFunc(id) => GenericArgView::UserFunc(named_function(db, id)),
        GenericArgView::Libfunc(id) => if db.libfuncs@[id.id as int].created < bound {
            GenericArgView::Libfunc(named_libfunc(db, id))
        } else {
            arg
        },
        other => other,
    }
}

/// The first `n` arguments of something that was created at `bound`, with the ids in them named.
pub open spec fn named_args(
    db: SierraGenDb,
    args: Seq<GenericArgView>,
    bound: nat,
    n: nat,
) -> Seq<GenericArgView>
    decreases bound, 1nat, n,
{
    if n == 0 {
        Seq::empty()
    } else {
        named_args(db, args, bound, (n - 1) as nat).push(named_arg(db, args[n - 1], bound))
    }
}

/// There are as many arguments afterwards, each of the same kind.
proof fn lemma_named_args(db: SierraGenDb, args: Seq<GenericArgView>, bound: nat, n: nat)
    requires
        n <= args.len(),
    ensures
        named_args(db, args, bound, n).len() == n,
        forall|i: int|
            0 <= i < n ==> (#[trigger] named_args(db, args, bound, n)[i]) == named_arg(
                db,
                args[i],
                bound,
            ),
        forall|i: int|
            0 <= i < n && args[i] is UserType ==> (#[trigger] named_args(db, args, bound, n)[i])
                == args[i],
    decreases n,
{
    if n > 0 {
        lemma_named_args(db, args, bound, (n - 1) as nat);
        let before = named_args(db, args, bound, (n - 1) as nat);
        assert forall|i: int| 0 <= i < n implies (#[trigger] named_args(db, args, bound, n)[i])
            == named_arg(db, args[i], bound) by {
            if i < n - 1 {
                assert(named_args(db, args, bound, n)[i] == before[i]);
            }
        }
    }
}

/// Replaces ids with ids whose name is the text representing the expanded information about the id.
///
/// For library functions and types - that would be recursively opening their generic arguments, for
/// functions - that would be getting their original name. For example, while the original text may
/// be `[6]`, the resulting text may be:
///  - For library functions: `felt252_const<2>` or `unbox<Box<Box<felt252>>>`.
///  - For types: `felt252` or `Box<Box<felt252>>`.
///  - For user functions: `test::foo`.
pub struct DebugReplacer<'a> {
    pub db: &'a SierraGenDb,
}

pub open spec fn debug_replacement(db: SierraGenDb) -> Replacement {
    Replacement {
        libfuncs: |id: IdView| named_libfunc(db, id),
        types: |id: IdView| named_type(db, id),
        functions: |id: IdView| named_function(db, id),
        known_libfuncs: |id: u64| db.wf() && db.knows_libfunc(id),
        known_types: |id: u64| db.wf() && db.knows_type(id),
        known_functions: |id: u64| db.knows_function(id),
    }
}

impl<'a> DebugReplacer<'a> {
    fn open_args(&self, args: &Vec<GenericArg>, bound: u64) -> (r: Vec<GenericArg>)
        requires
            self.db.wf(),
            self.db.args_below(viewed(args@), bound),
        ensures
            viewed(r@) == named_args(
                *self.db,
                viewed(args@),
                bound as nat,
                viewed(args@).len(),
            ),
        decreases bound, 0nat,
    {
        let mut opened: Vec<GenericArg> = Vec::new();
        let mut i: usize = 0;
        assert(viewed(opened@) =~= Seq::empty());
        while i < args.len()
            invariant
                i <= args@.len(),
                self.db.wf(),
                self.db.args_below(viewed(args@), bound),
                viewed(opened@) == named_args(*self.db, viewed(args@), bound as nat, i as nat),
            decreases args@.len() - i,
        {
            let ghost done = opened@;
            proof {
                assert(viewed(args@)[i as int] == args@[i as int]@);
                assert(self.db.arg_below(args@[i as int]@, bound));
                reveal_with_fuel(named_args, 2);
            }
            let arg = match &args[i] {
                GenericArg::Type(id) => GenericArg::Type(self.open_type(id)),
                GenericArg::UserFunc(id) => GenericArg::UserFunc(self.open_function(id)),
                GenericArg::Libfunc(id) => GenericArg::Libfunc(self.open_libfunc(id)),
                other => other.duplicate(),
            };
            opened.push(arg);
            i += 1;
            assert(viewed(opened@) =~= viewed(done).push(arg@));
        }
        opened
    }

    fn open_function(&self, id: &FunctionId) -> (r: FunctionId)
        requires
            self.db.knows_function(id@.id),
        ensures
            r@ == named_function(*self.db, id@),
    {
        assert(id.id < self.db.functions.len());
        FunctionId {
            id: id.id,
            debug_name: Some(self.db.functions[id.id as usize].name.clone()),
        }
    }

    fn open_libfunc(&self, id: &ConcreteLibfuncId) -> (r: ConcreteLibfuncId)
        requires
            self.db.wf(),
            self.db.knows_libfunc(id@.id),
        ensures
            r@ == named_libfunc(*self.db, id@),
        decreases self.db.libfuncs@[id@.id as int].created, 1nat,
    {
        assert(id.id < self.db.libfuncs.len());
        let entry = &self.db.libfuncs[id.id as usize];
        assert(self.db.libfunc_ok(id.id as int));
        let long_id = LongId {
            generic_id: entry.long_id.generic_id.clone(),
            generic_args: self.open_args(&entry.long_id.generic_args, entry.created),
        };
        ConcreteLibfuncId { id: id.id, debug_name: Some(long_id.text()) }
    }

    fn open_type(&self, id: &ConcreteTypeId) -> (r: ConcreteTypeId)
        requires
            self.db.wf(),
            self.db.knows_type(id@.id),
        ensures
            r@ == named_type(*self.db, id@),
        decreases self.db.types@[id@.id as int].created, 1nat,
    {
        assert(id.id < self.db.types.len());
        let entry = &self.db.types[id.id as usize];
        assert(self.db.type_ok(id.id as int));
        match &entry.long_id {
            SierraTypeLongId::Phantom(name) => ConcreteTypeId {
                id: sierra_type_id_from(name),
                debug_name: Some(name.clone()),
            },
            SierraTypeLongId::CycleBreaker(name) => ConcreteTypeId {
                id: sierra_type_id_from(name),
                debug_name: Some(name.clone()),
            },
            SierraTypeLongId::Regular(long_id) => {
                proof {
                    lemma_named_args(
                        *self.db,
                        viewed(long_id.generic_args@),
                        entry.created as nat,
                        viewed(long_id.generic_args@).len(),
                    );
                }
                let opened = LongId {
                    generic_id: long_id.generic_id.clone(),
                    generic_args: self.open_args(&long_id.generic_args, entry.created),
                };
                ConcreteTypeId { id: id.id, debug_name: Some(simplify(opened).text()) }
            },
        }
    }
}

/// Leaves out the members of user types other than tuples.
fn simplify(long_id: LongId) -> (r: LongId)
    requires
        is_user_type(long_id@.generic_id) ==> long_id@.generic_args.len() > 0
            && long_id@.generic_args[0] is UserType,
    ensures
        r@ == simplified(long_id@),
{
    if long_id.generic_id == "Enum".to_owned() || long_id.generic_id == "Struct".to_owned() {
        assert(long_id@.generic_args[0] == long_id.generic_args@[0]@);
        let name = match &long_id.generic_args[0] {
            GenericArg::UserType(id) => id.text(),
            _ => String::new(),
        };
        if name == "Tuple".to_owned() {
            let mut members: Vec<GenericArg> = Vec::new();
            let mut i: usize = 1;
            while i < long_id.generic_args.len()
                invariant
                    1 <= i <= long_id.generic_args@.len(),
                    members@.len() == i - 1,
                    forall|j: int|
                        0 <= j < i - 1 ==> (#[trigger] members@[j])@ == long_id.generic_args@[j
                            + 1]@,
                decreases long_id.generic_args@.len() - i,
            {
                members.push(long_id.generic_args[i].duplicate());
                i += 1;
            }
            assert(viewed(members@) =~= long_id@.generic_args.skip(1));
            let generic_id = if members.len() == 0 {
                "Unit".to_owned()
            } else {
                name
            };
            LongId { generic_id, generic_args: members }
        } else {
            let none: Vec<GenericArg> = Vec::new();
            assert(viewed(none@) =~= Seq::empty());
            LongId { generic_id: name, generic_args: none }
        }
    } else {
        long_id
    }
}

impl<'a> SierraIdReplacer for DebugReplacer<'a> {
    open spec fn replacement(&self) -> Replacement {
        debug_replacement(*self.db)
    }

    fn replace_libfunc_id(&self, id: &ConcreteLibfuncId) -> (r: ConcreteLibfuncId) {
        self.open_libfunc(id)
    }

    fn replace_type_id(&self, id: &ConcreteTypeId) -> (r: ConcreteTypeId) {
        self.open_type(id)
    }

    fn replace_function_id(&self, id: &FunctionId) -> (r: FunctionId) {
        self.open_function(id)
    }
}

impl<'a> DebugReplacer<'a> {
    /// Enriches the function entries with their full function name. Required for tests and cairo
    /// running.
    pub fn enrich_function_names(&self, program: &mut Program)
        requires
            forall|i: int|
                0 <= i < old(program)@.funcs.len() ==> self.db.knows_function(
                    (#[trigger] old(program)@.funcs[i]).id.id,
                ),
        ensures
            final(program)@ == (ProgramView {
                funcs: named_functions(*self.db, old(program)@.funcs),
                ..old(program)@
            }),
    {
        let ghost before = program@;
        let mut i: usize = 0;
        assert(before.funcs.len() == program.funcs@.len());
        while i < program.funcs.len()
            invariant
                i <= program.funcs@.len(),
                before == old(program)@,
                program.funcs@.len() == before.funcs.len(),
                program.type_declarations == old(program).type_declarations,
                program.libfunc_declarations == old(program).libfunc_declarations,
                program.statements == old(program).statements,
                forall|i: int|
                    0 <= i < before.funcs.len() ==> self.db.knows_function(
                        (#[trigger] before.funcs[i]).id.id,
                    ),
                forall|j: int|
                    0 <= j < i ==> (#[trigger] program.funcs@[j])@ == named_functions(
                        *self.db,
                        before.funcs,
                    )[j],
                forall|j: int|
                    i <= j < before.funcs.len() ==> (#[trigger] program.funcs@[j])@
                        == before.funcs[j],
            decreases program.funcs@.len() - i,
        {
            assert(self.db.knows_function(before.funcs[i as int].id.id));
            let id = self.replace_function_id(&program.funcs[i].id);
            program.funcs[i].id = id;
            i += 1;
        }
        assert(program@.funcs =~= named_functions(*self.db, before.funcs));
    }
}

/// The functions with their full names.
pub open spec fn named_functions(db: SierraGenDb, funcs: Seq<FunctionView>) -> Seq<FunctionView> {
    Seq::new(
        funcs.len(),
        |i: int| FunctionView { id: named_function(db, funcs[i].id), ..funcs[i] },
    )
}

pub open spec fn named_push_values(db: SierraGenDb, values: Seq<PushValueView>) -> Seq<
    PushValueView,
> {
    Seq::new(
        values.len(),
        |i: int| PushValueView { ty: named_type(db, values[i].ty), ..values[i] },
    )
}

/// The statement with its ids named.
pub open spec fn named_statement(
    db: SierraGenDb,
    statement: StatementWithLocationView,
) -> StatementWithLocationView {
    StatementWithLocationView {
        statement: match statement.statement {
            PreStatementView::Sierra(sierra) => PreStatementView::Sierra(
                statement_to(debug_replacement(db), sierra),
            ),
            PreStatementView::PushValues(values) => PreStatementView::PushValues(
                named_push_values(db, values),
            ),
            PreStatementView::Label(label) => PreStatementView::Label(label),
        },
        location: statement.location,
    }
}

/// The ids of the statement are known.
pub open spec fn knows_pre_statement(db: SierraGenDb, statement: PreStatementView) -> bool {
    match statement {
        PreStatementView::Sierra(sierra) => knows_statement(debug_replacement(db), sierra),
        PreStatementView::PushValues(values) => forall|i: int|
            0 <= i < values.len() ==> db.knows_type((#[trigger] values[i]).ty.id),
        PreStatementView::Label(_) => true,
    }
}

/// Replaces the ids of a statement with ids whose names say what they stand for.
pub fn replace_sierra_ids(db: &SierraGenDb, statement: &StatementWithLocation) -> (r:
    StatementWithLocation)
    requires
        db.wf(),
        knows_pre_statement(*db, statement@.statement),
    ensures
        r@ == named_statement(*db, statement@),
{
    let replacer = DebugReplacer { db };
    let replaced = match &statement.statement {
        PreStatement::Sierra(sierra) => PreStatement::Sierra(replacer.replace_statement(sierra)),
        PreStatement::PushValues(values) => {
            let mut replaced: Vec<PushValue> = Vec::new();
            let mut i: usize = 0;
            assert(viewed(values@).len() == values@.len());
            while i < values.len()
                invariant
                    i <= values@.len(),
                    db.wf(),
                    replacer.db == db,
                    viewed(values@).len() == values@.len(),
                    forall|i: int|
                        0 <= i < viewed(values@).len() ==> db.knows_type(
                            (#[trigger] viewed(values@)[i]).ty.id,
                        ),
                    replaced@.len() == i,
                    forall|j: int|
                        0 <= j < i ==> (#[trigger] replaced@[j])@ == named_push_values(
                            *db,
                            viewed(values@),
                        )[j],
                decreases values@.len() - i,
            {
                let value = &values[i];
                assert(viewed(values@)[i as int] == value@);
                replaced.push(
                    PushValue {
                        var: value.var.duplicate(),
                        var_on_stack: value.var_on_stack.duplicate(),
                        ty: replacer.replace_type_id(&value.ty),
                        dup: value.dup,
                    },
                );
                i += 1;
            }
            assert(viewed(replaced@) =~= named_push_values(*db, viewed(values@)));
            PreStatement::PushValues(replaced)
        },
        PreStatement::Label(label) => PreStatement::Label(*label),
    };
    StatementWithLocation { statement: replaced, location: statement.location.clone() }
}

/// Replaces the ids of a program with ids whose names say what they stand for.
///
/// Similar to [replace_sierra_ids] except that it acts on a program.
pub fn replace_sierra_ids_in_program(db: &SierraGenDb, program: &Program) -> (r: Program)
    requires
        knows_program(debug_replacement(*db), program@),
    ensures
        r@ == program_to(debug_replacement(*db), program@),
{
    DebugReplacer { db }.apply(program)
}

/// Whether all types are types of Sierra.
pub open spec fn all_regular(db: SierraGenDb) -> bool {
    forall|at: int| 0 <= at < db.types@.len() ==> (#[trigger] db.types@[at]).long_id is Regular
}

/// A new name leaves the number of an id as it is.
pub proof fn names_keep_numbers(db: SierraGenDb, id: IdView)
    ensures
        named_libfunc(db, id).id == id.id,
        named_function(db, id).id == id.id,
        db.types@[id.id as int].long_id is Regular ==> named_type(db, id).id == id.id,
{
}

/// A new name depends on the number of an id alone, not on its old name.
pub proof fn names_depend_on_numbers(db: SierraGenDb, a: IdView, b: IdView)
    requires
        a.id == b.id,
    ensures
        named_libfunc(db, a) == named_libfunc(db, b),
        named_function(db, a) == named_function(db, b),
        named_type(db, a) == named_type(db, b),
{
}

proof fn lemma_arg_twice(db: SierraGenDb, arg: GenericArgView)
    requires
        all_regular(db),
        knows_arg(debug_replacement(db), arg),
    ensures
        arg_to(debug_replacement(db), arg_to(debug_replacement(db), arg)) == arg_to(
            debug_replacement(db),
            arg,
        ),
{
    match arg {
        GenericArgView::Type(id) => {
            assert(db.types@[id.id as int].long_id is Regular);
            names_depend_on_numbers(db, id, named_type(db, id));
        },
        GenericArgView::Libfunc(id) => {
            names_depend_on_numbers(db, id, named_libfunc(db, id));
        },
        GenericArgView::UserFunc(id) => {
            names_depend_on_numbers(db, id, named_function(db, id));
        },
        _ => {},
    }
}

proof fn lemma_args_twice(db: SierraGenDb, args: Seq<GenericArgView>)
    requires
        all_regular(db),
        knows_args(debug_replacement(db), args),
    ensures
        args_to(debug_replacement(db), args_to(debug_replacement(db), args)) == args_to(
            debug_replacement(db),
            args,
        ),
{
    let to = debug_replacement(db);
    assert forall|i: int| 0 <= i < args.len() implies (#[trigger] args_to(
        to,
        args_to(to, args),
    )[i]) == args_to(to, args)[i] by {
        assert(knows_arg(to, args[i]));
        lemma_arg_twice(db, args[i]);
    }
    assert(args_to(to, args_to(to, args)) =~= args_to(to, args));
}

proof fn lemma_types_twice(db: SierraGenDb, types: Seq<IdView>)
    requires
        all_regular(db),
        knows_types(debug_replacement(db), types),
    ensures
        types_to(debug_replacement(db), types_to(debug_replacement(db), types)) == types_to(
            debug_replacement(db),
            types,
        ),
{
    let to = debug_replacement(db);
    assert forall|i: int| 0 <= i < types.len() implies (#[trigger] types_to(
        to,
        types_to(to, types),
    )[i]) == types_to(to, types)[i] by {
        assert(db.knows_type(types[i].id));
        assert(db.types@[types[i].id as int].long_id is Regular);
        names_depend_on_numbers(db, types[i], named_type(db, types[i]));
    }
    assert(types_to(to, types_to(to, types)) =~= types_to(to, types));
}

proof fn lemma_function_twice(db: SierraGenDb, function: FunctionView)
    requires
        all_regular(db),
        knows_function_entry(debug_replacement(db), function),
    ensures
        function_entry_to(
            debug_replacement(db),
            function_entry_to(debug_replacement(db), function),
        ) == function_entry_to(debug_replacement(db), function),
{
    let to = debug_replacement(db);
    lemma_types_twice(db, function.signature.param_types);
    lemma_types_twice(db, function.signature.ret_types);
    let params = function.params;
    assert forall|i: int| 0 <= i < params.len() implies (#[trigger] params_to(
        to,
        params_to(to, params),
    )[i]) == params_to(to, params)[i] by {
        assert(db.knows_type(params[i].ty.id));
        assert(db.types@[params[i].ty.id as int].long_id is Regular);
        names_depend_on_numbers(db, params[i].ty, named_type(db, params[i].ty));
    }
    assert(params_to(to, params_to(to, params)) =~= params_to(to, params));
}

/// Naming the ids of a program a second time changes nothing, where all types are types of Sierra.
pub proof fn naming_twice_changes_nothing(db: SierraGenDb, program: ProgramView)
    requires
        all_regular(db),
        knows_program(debug_replacement(db), program),
    ensures
        program_to(debug_replacement(db), program_to(debug_replacement(db), program))
            == program_to(debug_replacement(db), program),
{
    let to = debug_replacement(db);
    let once = program_to(to, program);
    let twice = program_to(to, once);
    assert forall|i: int| 0 <= i < program.type_declarations.len() implies (
    #[trigger] twice.type_declarations[i]) == once.type_declarations[i] by {
        let declaration = program.type_declarations[i];
        assert(knows_type_declaration(to, declaration));
        assert(db.types@[declaration.id.id as int].long_id is Regular);
        names_depend_on_numbers(db, declaration.id, named_type(db, declaration.id));
        lemma_args_twice(db, declaration.long_id.generic_args);
    }
    assert(twice.type_declarations =~= once.type_declarations);
    assert forall|i: int| 0 <= i < program.libfunc_declarations.len() implies (
    #[trigger] twice.libfunc_declarations[i]) == once.libfunc_declarations[i] by {
        let declaration = program.libfunc_declarations[i];
        assert(knows_libfunc_declaration(to, declaration));
        names_depend_on_numbers(db, declaration.id, named_libfunc(db, declaration.id));
        lemma_args_twice(db, declaration.long_id.generic_args);
    }
    assert(twice.libfunc_declarations =~= once.libfunc_declarations);
    assert forall|i: int| 0 <= i < program.statements.len() implies (#[trigger] twice.statements[i])
        == once.statements[i] by {
        if let StatementView::Invocation(invocation) = program.statements[i] {
            names_depend_on_numbers(
                db,
                invocation.libfunc_id,
                named_libfunc(db, invocation.libfunc_id),
            );
        }
    }
    assert(twice.statements =~= once.statements);
    assert forall|i: int| 0 <= i < program.funcs.len() implies (#[trigger] twice.funcs[i])
        == once.funcs[i] by {
        assert(knows_function_entry(to, program.funcs[i]));
        names_depend_on_numbers(
            db,
            program.funcs[i].id,
            named_function(db, program.funcs[i].id),
        );
        lemma_function_twice(db, program.funcs[i]);
    }
    assert(twice.funcs =~= once.funcs);
}

/// The text of an argument after its id was named: that of the type, library function or function
/// that it stands for, with a mark of its kind.
pub open spec fn is_opened_text(db: SierraGenDb, arg: GenericArgView, text: Seq<char>) -> bool {
    match arg {
        GenericArgView::Type(id) => named_type(db, id).debug_name == Some(text),
        GenericArgView::Libfunc(id) => named_libfunc(db, id).debug_name matches Some(name) && text
            == "lib@"@ + name,
        GenericArgView::UserFunc(id) => text == "user@"@ + db.functions@[id.id as int].name@,
        GenericArgView::UserType(id) => text == "ut@"@ + (match id.debug_name {
            Some(name) => name,
            None => "["@ + int_text(id.id) + "]"@,
        }),
        GenericArgView::Value(value) => text == int_text(value),
    }
}

/// The texts are those of the arguments, in their order.
pub open spec fn are_opened_texts(
    db: SierraGenDb,
    args: Seq<GenericArgView>,
    texts: Seq<Seq<char>>,
) -> bool {
    &&& texts.len() == args.len()
    &&& forall|i: int| 0 <= i < args.len() ==> is_opened_text(db, #[trigger] args[i], texts[i])
}

proof fn lemma_opened_texts(
    db: SierraGenDb,
    args: Seq<GenericArgView>,
    created: u64,
    texts: Seq<Seq<char>>,
)
    requires
        db.args_below(args, created),
        are_opened_texts(db, args, texts),
    ensures
        named_args(db, args, created as nat, args.len()).len() == args.len(),
        arg_texts(named_args(db, args, created as nat, args.len())) == texts,
{
    let named = named_args(db, args, created as nat, args.len());
    lemma_named_args(db, args, created as nat, args.len());
    assert forall|i: int| 0 <= i < args.len() implies #[trigger] arg_texts(named)[i]
        == texts[i] by {
        assert(named[i] == named_arg(db, args[i], created as nat));
        assert(db.arg_below(args[i], created));
        assert(is_opened_text(db, args[i], texts[i]));
    }
    assert(arg_texts(named) =~= texts);
}

/// The name of a library function is that of the generic one, with the texts of its arguments in
/// angle brackets where it has any. The ids of the arguments are opened in turn.
pub proof fn libfunc_names_open_their_arguments(
    db: SierraGenDb,
    id: IdView,
    texts: Seq<Seq<char>>,
)
    requires
        db.wf(),
        db.knows_libfunc(id.id),
        are_opened_texts(db, viewed(db.libfuncs@[id.id as int].long_id.generic_args@), texts),
    ensures
        ({
            let generic = db.libfuncs@[id.id as int].long_id.generic_id@;
            &&& named_libfunc(db, id).id == id.id
            &&& named_libfunc(db, id).debug_name == Some(
                if texts.len() == 0 {
                    generic
                } else {
                    generic + "<"@ + joined(texts, ", "@) + ">"@
                },
            )
        }),
{
    let entry = db.libfuncs@[id.id as int];
    assert(db.libfunc_ok(id.id as int));
    lemma_opened_texts(db, viewed(entry.long_id.generic_args@), entry.created, texts);
}

/// The name of a type is that of the generic one, with the texts of its arguments in angle brackets
/// where it has any; it keeps its number. This is about types that are not defined by users.
pub proof fn type_names_open_their_arguments(
    db: SierraGenDb,
    id: IdView,
    long_id: LongId,
    texts: Seq<Seq<char>>,
)
    requires
        db.wf(),
        db.knows_type(id.id),
        db.types@[id.id as int].long_id == SierraTypeLongId::Regular(long_id),
        long_id.generic_id@ != "Struct"@,
        long_id.generic_id@ != "Enum"@,
        are_opened_texts(db, viewed(long_id.generic_args@), texts),
    ensures
        named_type(db, id).id == id.id,
        named_type(db, id).debug_name == Some(
            if texts.len() == 0 {
                long_id.generic_id@
            } else {
                long_id.generic_id@ + "<"@ + joined(texts, ", "@) + ">"@
            },
        ),
{
    assert(db.type_ok(id.id as int));
    lemma_opened_texts(
        db,
        viewed(long_id.generic_args@),
        db.types@[id.id as int].created,
        texts,
    );
}

/// A user defined type has the name that the user gave it, without its members. A tuple is named by
/// its members, and the tuple without any is `Unit`.
pub proof fn user_types_have_their_own_names(
    db: SierraGenDb,
    id: IdView,
    long_id: LongId,
    name: String,
    members: Seq<Seq<char>>,
)
    requires
        db.wf(),
        db.knows_type(id.id),
        db.types@[id.id as int].long_id == SierraTypeLongId::Regular(long_id),
        long_id.generic_id@ == "Struct"@ || long_id.generic_id@ == "Enum"@,
        viewed(long_id.generic_args@).len() > 0,
        viewed(long_id.generic_args@)[0] matches GenericArgView::UserType(ty) && ty.debug_name
            == Some(name@),
        are_opened_texts(db, viewed(long_id.generic_args@).skip(1), members),
    ensures
        named_type(db, id).id == id.id,
        named_type(db, id).debug_name == Some(
            if name@ != "Tuple"@ {
                name@
            } else if members.len() == 0 {
                "Unit"@
            } else {
                "Tuple<"@ + joined(members, ", "@) + ">"@
            },
        ),
{
    let entry = db.types@[id.id as int];
    let args = viewed(long_id.generic_args@);
    assert(db.type_ok(id.id as int));
    let texts = seq!["ut@"@ + name@] + members;
    assert forall|i: int| 0 <= i < args.len() implies is_opened_text(
        db,
        #[trigger] args[i],
        texts[i],
    ) by {
        if i > 0 {
            assert(args.skip(1)[i - 1] == args[i]);
            assert(texts[i] == members[i - 1]);
        }
    }
    lemma_opened_texts(db, args, entry.created, texts);
    let named = named_args(db, args, entry.created as nat, args.len());
    lemma_named_args(db, args, entry.created as nat, args.len());
    assert(named[0] == args[0]);
    assert forall|i: int| 0 <= i < members.len() implies #[trigger] arg_texts(named.skip(1))[i]
        == members[i] by {
        assert(arg_texts(named)[i + 1] == texts[i + 1]);
    }
    assert(arg_texts(named.skip(1)) =~= members);
    reveal_strlit("Tuple");
    reveal_strlit("<");
    reveal_strlit("Tuple<");
    assert("Tuple<"@ =~= "Tuple"@ + "<"@);
}

/// What is no type of Sierra has its own text as its name, and the hash of that as its number.
pub proof fn other_types_are_named_by_their_texts(db: SierraGenDb, id: IdView, text: String)
    requires
        db.types@[id.id as int].long_id == SierraTypeLongId::Phantom(text)
            || db.types@[id.id as int].long_id == SierraTypeLongId::CycleBreaker(text),
    ensures
        named_type(db, id).debug_name == Some(text@),
        named_type(db, id).id == id_of_name(text@),
{
}

/// A function has its full name.
pub proof fn functions_have_their_full_names(db: SierraGenDb, id: IdView)
    ensures
        named_function(db, id).id == id.id,
        named_function(db, id).debug_name == Some(db.functions@[id.id as int].name@),
{
}

/// Enriching the names of functions changes nothing but these names.
pub proof fn enriching_changes_only_names(db: SierraGenDb, program: Program, enriched: Program)
    requires
        enriched@ == (ProgramView {
            funcs: named_functions(db, program@.funcs),
            ..program@
        }),
    ensures
        enriched@.statements == program@.statements,
        enriched@.type_declarations == program@.type_declarations,
        enriched@.libfunc_declarations == program@.libfunc_declarations,
        enriched.funcs@.len() == program.funcs@.len(),
        forall|i: int|
            0 <= i < program.funcs@.len() ==> {
                let from = program.funcs@[i];
                let into = #[trigger] enriched.funcs@[i];
                &&& into.id.id == from.id.id
                &&& into.id.debug_name matches Some(name) && name@
                    == db.functions@[from.id.id as int].name@
                &&& into.entry_point == from.entry_point
                &&& into.params@.len() == from.params@.len()
                &&& viewed(into.params@) == viewed(from.params@)
                &&& into.signature@ == from.signature@
            },
{
    assert(enriched@.funcs.len() == enriched.funcs@.len());
    assert(program@.funcs.len() == program.funcs@.len());
    assert forall|i: int| 0 <= i < program.funcs@.len() implies {
        let from = program.funcs@[i];
        let into = #[trigger] enriched.funcs@[i];
        &&& into.id.id == from.id.id
        &&& into.id.debug_name matches Some(name) && name@
            == db.functions@[from.id.id as int].name@
        &&& into.entry_point == from.entry_point
        &&& into.params@.len() == from.params@.len()
        &&& viewed(into.params@) == viewed(from.params@)
        &&& into.signature@ == from.signature@
    } by {
        let from = program.funcs@[i];
        let into = enriched.funcs@[i];
        assert(enriched@.funcs[i] == into@);
        assert(program@.funcs[i] == from@);
        assert(viewed(into.params@).len() == into.params@.len());
        assert(viewed(from.params@).len() == from.params@.len());
    }
}

/// Replacing the ids of a statement before its labels are resolved changes nothing but the ids of
/// library functions and types: labels, locations and variables stay.
pub proof fn pre_statements_keep_their_variables(
    db: SierraGenDb,
    statement: StatementWithLocation,
    replaced: StatementWithLocation,
)
    requires
        replaced@ == named_statement(db, statement@),
    ensures
        replaced.location@ == statement.location@,
        match (statement.statement, replaced.statement) {
            (PreStatement::Sierra(from), PreStatement::Sierra(into)) => into@ == statement_to(
                debug_replacement(db),
                from@,
            ),
            (PreStatement::Label(from), PreStatement::Label(into)) => from == into,
            (PreStatement::PushValues(from), PreStatement::PushValues(into)) => {
                &&& from@.len() == into@.len()
                &&& forall|i: int|
                    0 <= i < from@.len() ==> {
                        &&& (#[trigger] into@[i]).var.id == from@[i].var.id
                        &&& same_text(into@[i].var.debug_name, from@[i].var.debug_name)
                        &&& into@[i].var_on_stack.id == from@[i].var_on_stack.id
                        &&& same_text(
                            into@[i].var_on_stack.debug_name,
                            from@[i].var_on_stack.debug_name,
                        )
                        &&& into@[i].dup == from@[i].dup
                        &&& into@[i].ty@ == named_type(db, from@[i].ty@)
                    }
            },
            _ => false,
        },
{
    if let (PreStatement::PushValues(from), PreStatement::PushValues(into)) = (
        statement.statement,
        replaced.statement,
    ) {
        assert(viewed(from@).len() == from@.len() && viewed(into@).len() == into@.len());
        assert forall|i: int| 0 <= i < from@.len() implies {
            &&& (#[trigger] into@[i]).var.id == from@[i].var.id
            &&& same_text(into@[i].var.debug_name, from@[i].var.debug_name)
            &&& into@[i].var_on_stack.id == from@[i].var_on_stack.id
            &&& same_text(into@[i].var_on_stack.debug_name, from@[i].var_on_stack.debug_name)
            &&& into@[i].dup == from@[i].dup
            &&& into@[i].ty@ == named_type(db, from@[i].ty@)
        } by {
            assert(viewed(from@)[i] == from@[i]@ && viewed(into@)[i] == into@[i]@);
        }
    }
}

} // verus!
