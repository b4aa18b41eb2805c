//! Compiling a single library function: what it is invoked with, and what is kept of the result.
use cairo_lang_casm::ap_change::ApChange;
use cairo_lang_casm::cell_expression::CellExpression;
use cairo_lang_casm::instructions::Instruction;
use cairo_lang_sierra::program::ConcreteLibfuncLongId;
use vstd::prelude::*;

use crate::containers::{new_sizes, set_size, sizes, TypeSizes};
use crate::duplicate::{duplicates, viewed, Duplicate};
use crate::libfunc_text::numbers_fit;
use crate::sierra::debug_names::sierra_type_id_from;
use crate::sierra::ids::{id_of_name, ConcreteLibfuncId, ConcreteTypeId, IdView, VarId};
use crate::sierra::program::{
    long_id_text, BranchInfo, BranchInfoView, BranchTarget, GenericArg, Invocation, InvocationView,
    LongId, LongIdView, StatementIdx,
};

verus! {

/// An expression of a cell of the memory.
#[verifier::external_type_specification]
#[verifier::external_body]
pub struct ExCellExpression(CellExpression);

/// An instruction of the machine.
#[verifier::external_type_specification]
#[verifier::external_body]
pub struct ExInstruction(Instruction);

/// A change of the allocation pointer.
#[verifier::external_type_specification]
#[verifier::external_body]
pub struct ExApChange(ApChange);

/// `ApChange::clone` of `cairo_lang_casm`: the copy is the same change.
pub assume_specification[ <ApChange as Clone>::clone ](change: &ApChange) -> (r: ApChange)
    ensures
        r == *change,
;

/// A library function with its arguments.
#[verifier::external_type_specification]
#[verifier::external_body]
pub struct ExConcreteLibfuncLongId(ConcreteLibfuncLongId);

/// The library function that `ConcreteLibfuncLongIdParser` of `cairo_lang_sierra` reads in a text,
/// if it reads one.
pub uninterp spec fn libfunc_of_text(text: Seq<char>) -> Option<ConcreteLibfuncLongId>;

/// Calls `ConcreteLibfuncLongIdParser::parse` of `cairo_lang_sierra`. What it reads depends on the
/// text alone. It panics where the number of an id or the size of an array does not fit into 64
/// bits, or where the number of a user type is negative.
#[verifier::external_body]
fn sierra_parse_libfunc(text: &str) -> (r: Option<ConcreteLibfuncLongId>)
    requires
        numbers_fit(text@),
    ensures
        r == libfunc_of_text(text@),
{
    cairo_lang_sierra::ConcreteLibfuncLongIdParser::new().parse(text).ok()
}

/// Calls `ConcreteLibfuncId::from` of `cairo_lang_sierra`: the number of the id is the 64-bit
/// FNV-1a hash of the name.
#[verifier::external_body]
fn sierra_libfunc_id_from(name: &String) -> (r: u64)
    ensures
        r == id_of_name(name@),
{
    cairo_lang_sierra::ids::ConcreteLibfuncId::from(name.clone()).id
}

/// Specialization context for libfuncs and types, based on string names only, allows building
/// libfuncs without a program.
pub struct MockSpecializationContext {}

impl MockSpecializationContext {
    /// The id of a type is made of its text.
    pub fn try_get_concrete_type(&self, id: &String, generic_args: &Vec<GenericArg>) -> (r: Option<
        ConcreteTypeId,
    >)
        ensures
            ({
                let name = long_id_text(
                    LongIdView { generic_id: id@, generic_args: viewed(generic_args@) },
                );
                r matches Some(id) && id@ == (IdView {
                    id: id_of_name(name),
                    debug_name: Some(name),
                })
            }),
    {
        let long_id = LongId { generic_id: id.clone(), generic_args: duplicates(generic_args) };
        let name = long_id.text();
        Some(ConcreteTypeId { id: sierra_type_id_from(&name), debug_name: Some(name) })
    }
}

/// A reference to memory cells.
#[derive(Clone, Debug, PartialEq, Eq)]
pub struct ReferenceExpression {
    pub cells: Vec<CellExpression>,
}

/// Where a reference was introduced.
#[derive(Clone, Copy, Debug, PartialEq, Eq, Structural)]
pub struct IntroductionPoint {
    /// The statement that introduced the reference, if any did.
    pub source_statement_idx: Option<StatementIdx>,
    /// The statement that the reference is introduced at.
    pub destination_statement_idx: StatementIdx,
    /// The place of the reference in the results of the statement.
    pub output_idx: usize,
}

/// A reference with its type.
#[derive(Debug)]
pub struct ReferenceValue {
    pub expression: ReferenceExpression,
    pub ty: ConcreteTypeId,
    /// The place on the stack, if the reference is there.
    pub stack_idx: Option<usize>,
    pub introduction_point: IntroductionPoint,
}

/// The signature of a library function.
#[derive(Debug)]
pub struct LibfuncSignature {
    /// The types of the parameters.
    pub params: Vec<ConcreteTypeId>,
    /// The types of the results of each branch.
    pub branches: Vec<Vec<ConcreteTypeId>>,
    /// The branch that continues with the next statement, if there is one.
    pub fallthrough: Option<usize>,
}

/// What a library function is invoked with.
#[derive(Debug)]
pub struct LibfuncInvocation {
    pub type_sizes: TypeSizes,
    pub args: Vec<ReferenceValue>,
    pub invocation: Invocation<StatementIdx>,
}

/// Whether the type with this number is one of the list.
pub open spec fn has_type_id(types: Seq<ConcreteTypeId>, id: u64) -> bool {
    exists|i: int| 0 <= i < types.len() && (#[trigger] types[i]).id == id
}

pub open spec fn in_branches(branches: Seq<Vec<ConcreteTypeId>>, id: u64) -> bool {
    exists|i: int| 0 <= i < branches.len() && has_type_id((#[trigger] branches[i])@, id)
}

impl LibfuncSignature {
    /// Whether a parameter or a result has the type with this number.
    pub open spec fn mentions(self, id: u64) -> bool {
        has_type_id(self.params@, id) || in_branches(self.branches@, id)
    }
}

/// The variables with the numbers from zero on.
pub open spec fn first_vars(n: nat) -> Seq<IdView> {
    Seq::new(n, |i: int| IdView { id: i as u64, debug_name: None })
}

/// The branches of the invocation: each continues to the statement with its own place, but for the
/// one that falls through.
pub open spec fn invocation_branches(signature: LibfuncSignature) -> Seq<
    BranchInfoView<StatementIdx>,
> {
    Seq::new(
        signature.branches@.len(),
        |i: int|
            BranchInfoView {
                target: if signature.fallthrough == Some(i as usize) {
                    BranchTarget::Fallthrough
                } else {
                    BranchTarget::Statement(StatementIdx(i as usize))
                },
                results: first_vars(signature.branches@[i]@.len()),
            },
    )
}

/// The argument is the given expression, with the type of its parameter.
pub open spec fn is_arg(
    arg: ReferenceValue,
    expression: ReferenceExpression,
    ty: ConcreteTypeId,
) -> bool {
    &&& arg.expression == expression
    &&& arg.ty@ == ty@
    &&& arg.stack_idx is None
    &&& arg.introduction_point == (IntroductionPoint {
        source_statement_idx: None,
        destination_statement_idx: StatementIdx(0),
        output_idx: 0,
    })
}

/// The library function is invoked with the given expressions; all its types have size one.
pub open spec fn is_invocation(
    prepared: LibfuncInvocation,
    signature: LibfuncSignature,
    refs: Seq<ReferenceExpression>,
) -> bool {
    &&& sizes(prepared.type_sizes) == Map::new(|id: u64| signature.mentions(id), |id: u64| 1i16)
    &&& signature.params@.len() == refs.len()
    &&& prepared.args@.len() == refs.len()
    &&& forall|i: int|
        0 <= i < refs.len() ==> is_arg(
            #[trigger] prepared.args@[i],
            refs[i],
            signature.params@[i],
        )
    &&& prepared.invocation@ == (InvocationView {
        libfunc_id: IdView { id: id_of_name(""@), debug_name: Some(""@) },
        args: first_vars(refs.len()),
        branches: invocation_branches(signature),
    })
}

fn vars_up_to(n: usize) -> (r: Vec<VarId>)
    ensures
        viewed(r@) == first_vars(n as nat),
{
    let mut vars: Vec<VarId> = Vec::new();
    let mut i: usize = 0;
    while i < n
        invariant
            i <= n,
            vars@.len() == i,
            forall|j: int|
                0 <= j < i ==> (#[trigger] vars@[j])@ == (IdView {
                    id: j as u64,
                    debug_name: None,
                }),
        decreases n - i,
    {
        vars.push(VarId { id: i as u64, debug_name: None });
        i += 1;
    }
    assert(viewed(vars@) =~= first_vars(n as nat));
    vars
}

/// Gives the types of a list the size one.
fn add_sizes(type_sizes: &mut TypeSizes, types: &Vec<ConcreteTypeId>)
    ensures
        forall|id: u64| #[trigger]
            sizes(*final(type_sizes)).contains_key(id) <==> sizes(*old(type_sizes)).contains_key(id)
                || has_type_id(types@, id),
        forall|id: u64|
            sizes(*final(type_sizes)).contains_key(id) ==> (#[trigger] sizes(
                *final(type_sizes),
            )[id]) == (if has_type_id(types@, id) {
                1i16
            } else {
                sizes(*old(type_sizes))[id]
            }),
{
    let mut i: usize = 0;
    while i < types.len()
        invariant
            i <= types@.len(),
            forall|id: u64|
                sizes(*type_sizes).contains_key(id) <==> sizes(*old(type_sizes)).contains_key(id)
                    || has_type_id(types@.take(i as int), id),
            forall|id: u64|
                sizes(*type_sizes).contains_key(id) ==> (#[trigger] sizes(*type_sizes)[id]) == (
                if has_type_id(types@.take(i as int), id) {
                    1i16
                } else {
                    sizes(*old(type_sizes))[id]
                }),
        decreases types@.len() - i,
    {
        let ghost before = types@.take(i as int);
        set_size(type_sizes, types[i].id, 1);
        i += 1;
        let ghost after = types@.take(i as int);
        assert forall|id: u64| has_type_id(after, id) <==> has_type_id(before, id) || id
            == types@[i - 1].id by {
            if has_type_id(before, id) {
                let j = choose|j: int| 0 <= j < before.len() && (#[trigger] before[j]).id == id;
                assert(after[j] == before[j]);
            }
            if id == types@[i - 1].id {
                assert(after[i - 1].id == id);
            }
            if has_type_id(after, id) {
                let j = choose|j: int| 0 <= j < after.len() && (#[trigger] after[j]).id == id;
                if j < i - 1 {
                    assert(before[j] == after[j]);
                }
            }
        }
    }
    assert(types@.take(i as int) =~= types@);
}

/// Prepares the invocation of a library function with the given expressions.
pub fn prepare_invocation(signature: &LibfuncSignature, refs: Vec<ReferenceExpression>) -> (r:
    LibfuncInvocation)
    requires
        refs@.len() == signature.params@.len(),
    ensures
        is_invocation(r, *signature, refs@),
{
    let mut type_sizes = new_sizes();
    add_sizes(&mut type_sizes, &signature.params);
    let mut i: usize = 0;
    assert(!in_branches(signature.branches@.take(0), 0));
    while i < signature.branches.len()
        invariant
            i <= signature.branches@.len(),
            forall|id: u64|
                sizes(type_sizes).contains_key(id) <==> has_type_id(signature.params@, id)
                    || in_branches(signature.branches@.take(i as int), id),
            forall|id: u64|
                sizes(type_sizes).contains_key(id) ==> (#[trigger] sizes(type_sizes)[id]) == 1i16,
        decreases signature.branches@.len() - i,
    {
        let ghost before = signature.branches@.take(i as int);
        let ghost earlier = sizes(type_sizes);
        add_sizes(&mut type_sizes, &signature.branches[i]);
        i += 1;
        let ghost after = signature.branches@.take(i as int);
        assert forall|id: u64| #[trigger]
            in_branches(after, id) <==> in_branches(before, id) || has_type_id(
            signature.branches@[i - 1]@,
            id,
        ) by {
            if in_branches(before, id) {
                let j = choose|j: int|
                    0 <= j < before.len() && has_type_id((#[trigger] before[j])@, id);
                assert(after[j] == before[j]);
            }
            if has_type_id(signature.branches@[i - 1]@, id) {
                assert(after[i - 1] == signature.branches@[i - 1]);
            }
            if in_branches(after, id) {
                let j = choose|j: int|
                    0 <= j < after.len() && has_type_id((#[trigger] after[j])@, id);
                if j < i - 1 {
                    assert(before[j] == after[j]);
                }
            }
        }
        assert forall|id: u64|
            sizes(type_sizes).contains_key(id) <==> has_type_id(signature.params@, id)
                || in_branches(after, id) by {
            assert(earlier.contains_key(id) <==> has_type_id(signature.params@, id)
                || in_branches(before, id));
            assert(sizes(type_sizes).contains_key(id) <==> earlier.contains_key(id)
                || has_type_id(signature.branches@[i - 1]@, id));
        }
    }
    assert(signature.branches@.take(i as int) =~= signature.branches@);
    assert(sizes(type_sizes) =~= Map::new(
        |id: u64| signature.mentions(id),
        |id: u64| 1i16,
    ));

    let ghost all = refs@;
    let n: usize = refs.len();
    let mut args: Vec<ReferenceValue> = Vec::new();
    for expression in it: refs
        invariant
            all == it.seq(),
            all.len() == signature.params@.len(),
            args@.len() == it.index(),
            forall|j: int|
                0 <= j < it.index() ==> is_arg(
                    #[trigger] args@[j],
                    all[j],
                    signature.params@[j],
                ),
    {
        let at: usize = args.len();
        args.push(
            ReferenceValue {
                expression,
                ty: signature.params[at].duplicate(),
                stack_idx: None,
                introduction_point: IntroductionPoint {
                    source_statement_idx: None,
                    destination_statement_idx: StatementIdx(0),
                    output_idx: 0,
                },
            },
        );
    }

    let mut branches: Vec<BranchInfo<StatementIdx>> = Vec::new();
    let mut k: usize = 0;
    while k < signature.branches.len()
        invariant
            k <= signature.branches@.len(),
            branches@.len() == k,
            forall|j: int|
                0 <= j < k ==> (#[trigger] branches@[j])@ == invocation_branches(*signature)[j],
        decreases signature.branches@.len() - k,
    {
        let falls_through = match signature.fallthrough {
            Some(at) => at == k,
            None => false,
        };
        branches.push(
            BranchInfo {
                target: if falls_through {
                    BranchTarget::Fallthrough
                } else {
                    BranchTarget::Statement(StatementIdx(k))
                },
                results: vars_up_to(signature.branches[k].len()),
            },
        );
        k += 1;
    }
    assert(viewed(branches@) =~= invocation_branches(*signature));
    let name = "".to_owned();
    let invocation = Invocation {
        libfunc_id: ConcreteLibfuncId {
            id: sierra_libfunc_id_from(&name),
            debug_name: Some(name),
        },
        args: vars_up_to(n),
        branches,
    };
    LibfuncInvocation { type_sizes, args, invocation }
}

/// What a branch of a compiled invocation changes.
#[derive(Debug)]
pub struct BranchChanges {
    /// New references defined at a given branch.
    pub refs: Vec<ReferenceValue>,
    /// The change to AP caused by the libfunc in the branch.
    pub ap_change: ApChange,
}

/// A compiled invocation, with relocations of the given kind.
#[derive(Debug)]
pub struct CompiledInvocation<Relocation> {
    /// A vector of instructions that implement the invocation.
    pub instructions: Vec<Instruction>,
    /// A vector of static relocations.
    pub relocations: Vec<Relocation>,
    /// What the branches of the invocation change.
    pub results: Vec<BranchChanges>,
}

/// Information from [BranchChanges] we should test when only testing a libfunc lowering by itself.
#[derive(Clone, Debug, PartialEq, Eq)]
pub struct ReducedBranchChanges {
    /// New references defined at a given branch.
    /// should correspond to BranchInfo.results.
    pub refs: Vec<ReferenceExpression>,
    /// The change to AP caused by the libfunc in the branch.
    pub ap_change: ApChange,
}

/// Information from [CompiledInvocation] we should test when only testing a libfunc lowering by
/// itself.
#[derive(Debug, PartialEq, Eq)]
pub struct ReducedCompiledInvocation<Relocation> {
    /// A vector of instructions that implement the invocation.
    pub instructions: Vec<Instruction>,
    /// A vector of static relocations.
    pub relocations: Vec<Relocation>,
    /// A vector of ReducedBranchChanges, should correspond to the branches of the invocation
    /// statement.
    pub results: Vec<ReducedBranchChanges>,
}

/// What is left of the changes of a branch.
pub open spec fn is_reduced_branch(reduced: ReducedBranchChanges, changes: BranchChanges) -> bool {
    &&& reduced.ap_change == changes.ap_change
    &&& reduced.refs@ == changes.refs@.map_values(|value: ReferenceValue| value.expression)
}

/// What is left of a compiled invocation.
pub open spec fn is_reduced<Relocation>(
    reduced: ReducedCompiledInvocation<Relocation>,
    compiled: CompiledInvocation<Relocation>,
) -> bool {
    &&& reduced.instructions == compiled.instructions
    &&& reduced.relocations == compiled.relocations
    &&& reduced.results@.len() == compiled.results@.len()
    &&& forall|i: int|
        0 <= i < compiled.results@.len() ==> is_reduced_branch(
            #[trigger] reduced.results@[i],
            compiled.results@[i],
        )
}

fn reduce_branch(changes: BranchChanges) -> (r: ReducedBranchChanges)
    ensures
        is_reduced_branch(r, changes),
{
    let ghost all = changes.refs@;
    let mut refs: Vec<ReferenceExpression> = Vec::new();
    for value in it: changes.refs
        invariant
            all == it.seq(),
            refs@.len() == it.index(),
            forall|j: int| 0 <= j < it.index() ==> (#[trigger] refs@[j]) == all[j].expression,
    {
        refs.push(value.expression);
    }
    assert(refs@ =~= all.map_values(|value: ReferenceValue| value.expression));
    ReducedBranchChanges { refs, ap_change: changes.ap_change }
}

impl<Relocation> ReducedCompiledInvocation<Relocation> {
    /// Leaves out what is not tested.
    pub fn new(compiled_invocation: CompiledInvocation<Relocation>) -> (r:
        ReducedCompiledInvocation<Relocation>)
        ensures
            is_reduced(r, compiled_invocation),
    {
        let ghost all = compiled_invocation.results@;
        let mut results: Vec<ReducedBranchChanges> = Vec::new();
        for changes in it: compiled_invocation.results
            invariant
                all == it.seq(),
                results@.len() == it.index(),
                forall|j: int|
                    0 <= j < it.index() ==> is_reduced_branch(#[trigger] results@[j], all[j]),
        {
            results.push(reduce_branch(changes));
        }
        ReducedCompiledInvocation {
            instructions: compiled_invocation.instructions,
            relocations: compiled_invocation.relocations,
            results,
        }
    }
}

/// Why a library function cannot be compiled.
#[derive(Clone, Copy, Debug, PartialEq, Eq, Structural)]
pub enum LibfuncFault {
    /// The text is not that of a library function.
    NotALibfunc,
    /// There is not one expression for each parameter.
    WrongNumberOfArguments,
}

/// The result is what is left of the invocation, compiled by `compile`, of the library function
/// `long_id`, whose signature `specialize` gave.
pub open spec fn is_compiled<S, C, Relocation>(
    r: ReducedCompiledInvocation<Relocation>,
    long_id: ConcreteLibfuncLongId,
    refs: Seq<ReferenceExpression>,
    specialize: S,
    compile: C,
) -> bool where
    S: FnOnce(ConcreteLibfuncLongId) -> LibfuncSignature,
    C: FnOnce(LibfuncInvocation) -> CompiledInvocation<Relocation>,
 {
    exists|
        signature: LibfuncSignature,
        prepared: LibfuncInvocation,
        compiled: CompiledInvocation<Relocation>,
    |
        {
            &&& #[trigger] call_ensures(specialize, (long_id,), signature)
            &&& is_invocation(prepared, signature, refs)
            &&& #[trigger] call_ensures(compile, (prepared,), compiled)
            &&& is_reduced(r, compiled)
        }
}

/// The compiled invocation has one result for each branch, with one reference for each result of
/// the branch.
pub open spec fn follows_invocation<Relocation>(
    compiled: CompiledInvocation<Relocation>,
    invocation: Invocation<StatementIdx>,
) -> bool {
    &&& compiled.results@.len() == invocation.branches@.len()
    &&& forall|i: int|
        0 <= i < compiled.results@.len() ==> (#[trigger] compiled.results@[i]).refs@.len()
            == invocation.branches@[i].results@.len()
}

/// There is one result for each branch of the library function, with one reference for each
/// variable of the branch.
pub open spec fn follows_branches<Relocation>(
    r: ReducedCompiledInvocation<Relocation>,
    signature: LibfuncSignature,
) -> bool {
    &&& r.results@.len() == signature.branches@.len()
    &&& forall|i: int|
        0 <= i < r.results@.len() ==> (#[trigger] r.results@[i]).refs@.len()
            == signature.branches@[i]@.len()
}

/// Where the compiler of invocations follows them, the results of a compiled library function
/// follow the branches of its signature, which has as many parameters as there are references.
pub proof fn results_follow_the_branches<S, C, Relocation>(
    r: ReducedCompiledInvocation<Relocation>,
    long_id: ConcreteLibfuncLongId,
    refs: Seq<ReferenceExpression>,
    specialize: S,
    compile: C,
) where
    S: FnOnce(ConcreteLibfuncLongId) -> LibfuncSignature,
    C: FnOnce(LibfuncInvocation) -> CompiledInvocation<Relocation>,

    requires
        is_compiled(r, long_id, refs, specialize, compile),
        forall|prepared: LibfuncInvocation, compiled: CompiledInvocation<Relocation>| #[trigger]
            call_ensures(compile, (prepared,), compiled) ==> follows_invocation(
                compiled,
                prepared.invocation,
            ),
    ensures
        exists|signature: LibfuncSignature|
            {
                &&& #[trigger] call_ensures(specialize, (long_id,), signature)
                &&& signature.params@.len() == refs.len()
                &&& follows_branches(r, signature)
            },
{
    let (signature, prepared, compiled) = choose|
        signature: LibfuncSignature,
        prepared: LibfuncInvocation,
        compiled: CompiledInvocation<Relocation>,
    |
        {
            &&& #[trigger] call_ensures(specialize, (long_id,), signature)
            &&& is_invocation(prepared, signature, refs)
            &&& #[trigger] call_ensures(compile, (prepared,), compiled)
            &&& is_reduced(r, compiled)
        };
    let branches = prepared.invocation.branches@;
    assert(prepared.invocation@.branches.len() == branches.len());
    assert forall|i: int| 0 <= i < r.results@.len() implies (#[trigger] r.results@[i]).refs@.len()
        == signature.branches@[i]@.len() by {
        assert(is_reduced_branch(r.results@[i], compiled.results@[i]));
        assert(prepared.invocation@.branches[i] == branches[i]@);
        assert(branches[i]@.results.len() == branches[i].results@.len());
    }
    assert(call_ensures(specialize, (long_id,), signature));
}

/// Compiles a libfunc into a [ReducedCompiledInvocation].
/// the arguments are auto-filled according to the signature
/// I.e. the libfunc is invoked by:
/// libfunc(*refs) -> {
///     0([0], [2],..., [n_0])
///     1([0], [2],..., [n_1])
///     ...
///     Fallthrough([0], [2],..., [n_fallthrough_idx])
///     ...
///     k([0], [2],..., [n_k])
/// }
///
/// Currently, only works if all the libfunc's types (both inputs and output) are of size 1.
///
/// Says so where the text is not that of a libfunc, or where there is not one expression for each
/// of its parameters.
pub fn compile_libfunc<S, C, Relocation>(
    libfunc: &str,
    refs: Vec<ReferenceExpression>,
    specialize: S,
    compile: C,
) -> (r: Result<ReducedCompiledInvocation<Relocation>, LibfuncFault>) where
    S: FnOnce(ConcreteLibfuncLongId) -> LibfuncSignature,
    C: FnOnce(LibfuncInvocation) -> CompiledInvocation<Relocation>,

    requires
        numbers_fit(libfunc@),
        forall|long_id: ConcreteLibfuncLongId| call_requires(specialize, (long_id,)),
        forall|prepared: LibfuncInvocation| call_requires(compile, (prepared,)),
    ensures
        match libfunc_of_text(libfunc@) {
            None => r matches Err(LibfuncFault::NotALibfunc),
            Some(long_id) => match r {
                Ok(reduced) => is_compiled(reduced, long_id, refs@, specialize, compile),
                Err(LibfuncFault::WrongNumberOfArguments) => exists|signature: LibfuncSignature|
                    #[trigger] call_ensures(specialize, (long_id,), signature)
                        && signature.params@.len() != refs@.len(),
                Err(LibfuncFault::NotALibfunc) => false,
            },
        },
{
    let long_id = match sierra_parse_libfunc(libfunc) {
        Some(long_id) => long_id,
        None => {
            return Err(LibfuncFault::NotALibfunc);
        },
    };
    let ghost parsed = long_id;
    let signature = specialize(long_id);
    assert(call_ensures(specialize, (parsed,), signature));
    if refs.len() != signature.params.len() {
        return Err(LibfuncFault::WrongNumberOfArguments);
    }
    let prepared = prepare_invocation(&signature, refs);
    let ghost invoked = prepared;
    let compiled = compile(prepared);
    assert(call_ensures(compile, (invoked,), compiled));
    Ok(ReducedCompiledInvocation::new(compiled))
}

/// The invocation of a library function passes each expression as the argument at its own place,
/// with the type of the parameter there. All types of the signature have size one, and no others a
/// size. The variables of the invocation, and those of the results of each branch, are numbered
/// from zero on. A branch continues to the statement with its own number, unless it falls through.
pub proof fn invocations_follow_the_signature(
    prepared: LibfuncInvocation,
    signature: LibfuncSignature,
    refs: Seq<ReferenceExpression>,
)
    requires
        is_invocation(prepared, signature, refs),
        refs.len() <= usize::MAX,
        signature.branches@.len() <= usize::MAX,
    ensures
        prepared.args@.len() == refs.len(),
        forall|i: int|
            0 <= i < refs.len() ==> (#[trigger] prepared.args@[i]).expression == refs[i]
                && prepared.args@[i].ty.id == signature.params@[i].id
                && prepared.args@[i].stack_idx is None
                && prepared.args@[i].introduction_point.source_statement_idx is None
                && prepared.args@[i].introduction_point.destination_statement_idx.0 == 0
                && prepared.args@[i].introduction_point.output_idx == 0,
        prepared.invocation.libfunc_id.debug_name matches Some(name) && name@.len() == 0,
        prepared.invocation.libfunc_id.id == id_of_name(Seq::empty()),
        forall|i: int|
            0 <= i < signature.params@.len() ==> sizes(prepared.type_sizes).contains_key(
                (#[trigger] signature.params@[i]).id,
            ) && sizes(prepared.type_sizes)[signature.params@[i].id] == 1,
        forall|i: int, j: int|
            0 <= i < signature.branches@.len() && 0 <= j < signature.branches@[i]@.len() ==> sizes(
                prepared.type_sizes,
            ).contains_key((#[trigger] signature.branches@[i]@[j]).id) && sizes(
                prepared.type_sizes,
            )[signature.branches@[i]@[j].id] == 1,
        forall|id: u64| #[trigger]
            sizes(prepared.type_sizes).contains_key(id) ==> {
                ||| exists|i: int|
                    0 <= i < signature.params@.len() && (#[trigger] signature.params@[i]).id == id
                ||| exists|i: int, j: int|
                    0 <= i < signature.branches@.len() && 0 <= j < signature.branches@[i]@.len()
                        && (#[trigger] signature.branches@[i]@[j]).id == id
            },
        prepared.invocation.args@.len() == refs.len(),
        forall|i: int|
            0 <= i < refs.len() ==> (#[trigger] prepared.invocation.args@[i]).id == i,
        prepared.invocation.branches@.len() == signature.branches@.len(),
        forall|i: int|
            0 <= i < signature.branches@.len() ==> {
                let branch = #[trigger] prepared.invocation.branches@[i];
                &&& branch.results@.len() == signature.branches@[i]@.len()
                &&& forall|j: int|
                    0 <= j < branch.results@.len() && j <= u64::MAX ==> (
                    #[trigger] branch.results@[j]).id == j
                &&& branch.target == (if signature.fallthrough == Some(i as usize) {
                    BranchTarget::Fallthrough
                } else {
                    BranchTarget::Statement(StatementIdx(i as usize))
                })
            },
{
    reveal_strlit("");
    assert(""@ =~= Seq::empty());
    let all = sizes(prepared.type_sizes);
    let args = prepared.invocation.args@;
    let branches = prepared.invocation.branches@;
    assert(viewed(args).len() == args.len());
    assert(viewed(branches).len() == branches.len());
    assert forall|i: int| 0 <= i < refs.len() implies (#[trigger] prepared.args@[i]).expression
        == refs[i] && prepared.args@[i].ty.id == signature.params@[i].id
        && prepared.args@[i].stack_idx is None
        && prepared.args@[i].introduction_point.source_statement_idx is None
        && prepared.args@[i].introduction_point.destination_statement_idx.0 == 0
        && prepared.args@[i].introduction_point.output_idx == 0 by {
        assert(is_arg(prepared.args@[i], refs[i], signature.params@[i]));
        assert(prepared.args@[i].ty@ == signature.params@[i]@);
    }
    assert forall|i: int| 0 <= i < signature.params@.len() implies all.contains_key(
        (#[trigger] signature.params@[i]).id,
    ) && all[signature.params@[i].id] == 1 by {
        assert(has_type_id(signature.params@, signature.params@[i].id));
        assert(signature.mentions(signature.params@[i].id));
    }
    assert forall|i: int, j: int|
        0 <= i < signature.branches@.len() && 0 <= j
            < signature.branches@[i]@.len() implies all.contains_key(
        (#[trigger] signature.branches@[i]@[j]).id,
    ) && all[signature.branches@[i]@[j].id] == 1 by {
        let id = signature.branches@[i]@[j].id;
        assert(has_type_id(signature.branches@[i]@, id));
        assert(in_branches(signature.branches@, id));
        assert(signature.mentions(id));
    }
    assert forall|id: u64| #[trigger] all.contains_key(id) implies {
        ||| exists|i: int|
            0 <= i < signature.params@.len() && (#[trigger] signature.params@[i]).id == id
        ||| exists|i: int, j: int|
            0 <= i < signature.branches@.len() && 0 <= j < signature.branches@[i]@.len() && (
            #[trigger] signature.branches@[i]@[j]).id == id
    } by {
        assert(signature.mentions(id));
        if !has_type_id(signature.params@, id) {
            let i = choose|i: int|
                0 <= i < signature.branches@.len() && has_type_id(
                    (#[trigger] signature.branches@[i])@,
                    id,
                );
            let j = choose|j: int|
                0 <= j < signature.branches@[i]@.len() && (
                #[trigger] signature.branches@[i]@[j]).id == id;
            assert(signature.branches@[i]@[j].id == id);
        }
    }
    assert forall|i: int| 0 <= i < refs.len() implies (#[trigger] args[i]).id == i by {
        assert(viewed(args)[i] == args[i]@);
    }
    assert forall|i: int| 0 <= i < signature.branches@.len() implies {
        let branch = #[trigger] branches[i];
        &&& branch.results@.len() == signature.branches@[i]@.len()
        &&& forall|j: int|
            0 <= j < branch.results@.len() && j <= u64::MAX ==> (#[trigger] branch.results@[j]).id
                == j
        &&& branch.target == (if signature.fallthrough == Some(i as usize) {
            BranchTarget::Fallthrough
        } else {
            BranchTarget::Statement(StatementIdx(i as usize))
        })
    } by {
        let branch = branches[i];
        assert(viewed(branches)[i] == branch@);
        assert(viewed(branch.results@).len() == branch.results@.len());
        assert forall|j: int| 0 <= j < branch.results@.len() && j <= u64::MAX implies (
        #[trigger] branch.results@[j]).id == j by {
            assert(viewed(branch.results@)[j] == branch.results@[j]@);
        }
    }
}

/// What is left of a compiled invocation has its instructions and relocations, and for each branch
/// the change of the allocation pointer and the expressions of its references, in their order.
pub proof fn reducing_keeps_expressions<Relocation>(
    reduced: ReducedCompiledInvocation<Relocation>,
    compiled: CompiledInvocation<Relocation>,
)
    requires
        is_reduced(reduced, compiled),
    ensures
        reduced.instructions@ == compiled.instructions@,
        reduced.relocations@ == compiled.relocations@,
        reduced.results@.len() == compiled.results@.len(),
        forall|i: int|
            0 <= i < compiled.results@.len() ==> {
                let from = compiled.results@[i];
                let into = #[trigger] reduced.results@[i];
                &&& into.ap_change == from.ap_change
                &&& into.refs@.len() == from.refs@.len()
                &&& forall|j: int|
                    0 <= j < from.refs@.len() ==> #[trigger] into.refs@[j]
                        == from.refs@[j].expression
            },
{
    assert forall|i: int| 0 <= i < compiled.results@.len() implies {
        let from = compiled.results@[i];
        let into = #[trigger] reduced.results@[i];
        &&& into.ap_change == from.ap_change
        &&& into.refs@.len() == from.refs@.len()
        &&& forall|j: int|
            0 <= j < from.refs@.len() ==> #[trigger] into.refs@[j] == from.refs@[j].expression
    } by {
        assert(is_reduced_branch(reduced.results@[i], compiled.results@[i]));
    }
}

/// A library function is compiled with the given expressions, each as the argument at its own
/// place, and what is left of the result has its instructions and relocations.
pub proof fn libfuncs_are_compiled_with_their_expressions<S, C, Relocation>(
    r: ReducedCompiledInvocation<Relocation>,
    long_id: ConcreteLibfuncLongId,
    refs: Seq<ReferenceExpression>,
    specialize: S,
    compile: C,
) where
    S: FnOnce(ConcreteLibfuncLongId) -> LibfuncSignature,
    C: FnOnce(LibfuncInvocation) -> CompiledInvocation<Relocation>,

    requires
        is_compiled(r, long_id, refs, specialize, compile),
    ensures
        exists|prepared: LibfuncInvocation, compiled: CompiledInvocation<Relocation>|
            {
                &&& #[trigger] call_ensures(compile, (prepared,), compiled)
                &&& prepared.args@.len() == refs.len()
                &&& forall|i: int|
                    0 <= i < refs.len() ==> (#[trigger] prepared.args@[i]).expression == refs[i]
                &&& r.instructions@ == compiled.instructions@
                &&& r.relocations@ == compiled.relocations@
                &&& r.results@.len() == compiled.results@.len()
            },
{
    let (signature, prepared, compiled) = choose|
        signature: LibfuncSignature,
        prepared: LibfuncInvocation,
        compiled: CompiledInvocation<Relocation>,
    |
        {
            &&& #[trigger] call_ensures(specialize, (long_id,), signature)
            &&& is_invocation(prepared, signature, refs)
            &&& #[trigger] call_ensures(compile, (prepared,), compiled)
            &&& is_reduced(r, compiled)
        };
    assert forall|i: int| 0 <= i < refs.len() implies (#[trigger] prepared.args@[i]).expression
        == refs[i] by {
        assert(is_arg(prepared.args@[i], refs[i], signature.params@[i]));
    }
    assert(call_ensures(compile, (prepared,), compiled));
}

} // verus!
