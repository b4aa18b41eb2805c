//! Replacing labels by the places of statements.
use vstd::prelude::*;

use crate::containers::{get_place, new_places, places, set_place, IdPlaces};
use crate::duplicate::viewed;
use crate::search::lemma_filter_take;
use crate::sierra::pre_sierra::{LabelId, PreStatement, StableLocation, StatementWithLocation};
use crate::sierra::program::{
    BranchInfo, BranchInfoView, BranchTarget, Invocation, InvocationView, Statement, StatementIdx,
    StatementView,
};
use crate::sierra::replace_ids::{lemma_same_vars, same_text, same_vars};

verus! {

/// The number of the first `n` statements that are no labels.
pub open spec fn statement_count(statements: Seq<StatementWithLocation>, n: nat) -> nat
    decreases n,
{
    if n == 0 {
        0
    } else {
        statement_count(statements, (n - 1) as nat) + (if statements[n - 1].statement is Label {
            0nat
        } else {
            1nat
        })
    }
}

/// The places of the labels among the first `n` statements: a label stands for the statement that
/// follows it. A later place of a label replaces an earlier one.
pub open spec fn label_places(statements: Seq<StatementWithLocation>, n: nat) -> Map<u64, usize>
    decreases n,
{
    if n == 0 {
        Map::empty()
    } else {
        let before = label_places(statements, (n - 1) as nat);
        match statements[n - 1].statement {
            PreStatement::Label(label) => before.insert(
                label.0,
                statement_count(statements, (n - 1) as nat) as usize,
            ),
            _ => before,
        }
    }
}

pub open spec fn resolved_target(
    to: Map<u64, usize>,
    target: BranchTarget<LabelId>,
) -> BranchTarget<StatementIdx> {
    match target {
        BranchTarget::Fallthrough => BranchTarget::Fallthrough,
        BranchTarget::Statement(label) => BranchTarget::Statement(StatementIdx(to[label.0])),
    }
}

pub open spec fn resolved_branches(
    to: Map<u64, usize>,
    branches: Seq<BranchInfoView<LabelId>>,
) -> Seq<BranchInfoView<StatementIdx>> {
    Seq::new(
        branches.len(),
        |i: int|
            BranchInfoView {
                target: resolved_target(to, branches[i].target),
                results: branches[i].results,
            },
    )
}

/// The statement, with the labels replaced by places.
pub open spec fn resolved_statement(
    to: Map<u64, usize>,
    statement: StatementView<LabelId>,
) -> StatementView<StatementIdx> {
    match statement {
        StatementView::Invocation(invocation) => StatementView::Invocation(
            InvocationView {
                libfunc_id: invocation.libfunc_id,
                args: invocation.args,
                branches: resolved_branches(to, invocation.branches),
            },
        ),
        StatementView::Return(vars) => StatementView::Return(vars),
    }
}

pub open spec fn knows_target(to: Map<u64, usize>, target: BranchTarget<LabelId>) -> bool {
    target matches BranchTarget::Statement(label) ==> to.contains_key(label.0)
}

/// The labels that the statement continues to have places.
pub open spec fn knows_labels(to: Map<u64, usize>, statement: StatementView<LabelId>) -> bool {
    statement matches StatementView::Invocation(invocation) ==> forall|i: int|
        0 <= i < invocation.branches.len() ==> knows_target(
            to,
            (#[trigger] invocation.branches[i]).target,
        )
}

/// Helper struct for resolving labels.
pub struct LabelReplacer {
    label_places: IdPlaces,
}

impl LabelReplacer {
    /// The places of the labels.
    pub closed spec fn places(self) -> Map<u64, usize> {
        places(self.label_places)
    }

    /// Finds the places of the labels of a list of statements.
    pub fn from_statements(statements: &Vec<StatementWithLocation>) -> (r: LabelReplacer)
        ensures
            r.places() == label_places(statements@, statements@.len()),
    {
        let mut label_map = new_places();
        let mut next_statement: usize = 0;
        let mut i: usize = 0;
        while i < statements.len()
            invariant
                i <= statements@.len(),
                next_statement <= i,
                next_statement == statement_count(statements@, i as nat),
                places(label_map) == label_places(statements@, i as nat),
            decreases statements@.len() - i,
        {
            match &statements[i].statement {
                PreStatement::Label(label) => {
                    set_place(&mut label_map, label.0, next_statement);
                },
                _ => {
                    next_statement += 1;
                },
            }
            i += 1;
        }
        LabelReplacer { label_places: label_map }
    }

    /// Replaces the labels in the given statement.
    pub fn handle_statement(&self, statement: Statement<LabelId>) -> (r: Statement<StatementIdx>)
        requires
            knows_labels(self.places(), statement@),
        ensures
            r@ == resolved_statement(self.places(), statement@),
    {
        match statement {
            Statement::Invocation(invocation) => Statement::Invocation(
                self.handle_invocation(invocation),
            ),
            Statement::Return(vars) => Statement::Return(vars),
        }
    }

    /// Replaces the labels in the given invocation.
    pub fn handle_invocation(&self, invocation: Invocation<LabelId>) -> (r: Invocation<
        StatementIdx,
    >)
        requires
            knows_labels(self.places(), StatementView::Invocation(invocation@)),
        ensures
            StatementView::Invocation(r@) == resolved_statement(
                self.places(),
                StatementView::Invocation(invocation@),
            ),
    {
        let ghost from = invocation@.branches;
        let mut branches: Vec<BranchInfo<StatementIdx>> = Vec::new();
        for branch in it: invocation.branches
            invariant
                from == viewed(it.seq()),
                forall|i: int|
                    0 <= i < from.len() ==> knows_target(
                        self.places(),
                        (#[trigger] from[i]).target,
                    ),
                branches@.len() == it.index(),
                forall|j: int|
                    0 <= j < it.index() ==> (#[trigger] branches@[j])@ == resolved_branches(
                        self.places(),
                        from,
                    )[j],
        {
            assert(from[it.index() as int] == branch@);
            branches.push(self.handle_branch_info(branch));
        }
        assert(viewed(branches@) =~= resolved_branches(self.places(), from));
        Invocation { libfunc_id: invocation.libfunc_id, args: invocation.args, branches }
    }

    /// Replaces the labels in the given branch.
    pub fn handle_branch_info(&self, branch_info: BranchInfo<LabelId>) -> (r: BranchInfo<
        StatementIdx,
    >)
        requires
            knows_target(self.places(), branch_info.target),
        ensures
            r@ == (BranchInfoView {
                target: resolved_target(self.places(), branch_info.target),
                results: branch_info@.results,
            }),
    {
        BranchInfo {
            target: self.handle_branch_target(branch_info.target),
            results: branch_info.results,
        }
    }

    /// Replaces the label in the given branch target.
    pub fn handle_branch_target(&self, branch_target: BranchTarget<LabelId>) -> (r: BranchTarget<
        StatementIdx,
    >)
        requires
            knows_target(self.places(), branch_target),
        ensures
            r == resolved_target(self.places(), branch_target),
    {
        match branch_target {
            BranchTarget::Fallthrough => BranchTarget::Fallthrough,
            BranchTarget::Statement(label_id) => BranchTarget::Statement(
                self.handle_label_id(label_id),
            ),
        }
    }

    /// Resolves the given label.
    pub fn handle_label_id(&self, label_id: LabelId) -> (r: StatementIdx)
        requires
            self.places().contains_key(label_id.0),
        ensures
            r == StatementIdx(self.places()[label_id.0]),
    {
        match get_place(&self.label_places, label_id.0) {
            Some(place) => StatementIdx(place),
            None => StatementIdx(0),
        }
    }
}

/// The first `n` statements that are no labels, with their labels replaced.
pub open spec fn resolved_statements(
    to: Map<u64, usize>,
    statements: Seq<StatementWithLocation>,
    n: nat,
) -> Seq<StatementView<StatementIdx>>
    decreases n,
{
    if n == 0 {
        Seq::empty()
    } else {
        let before = resolved_statements(to, statements, (n - 1) as nat);
        match statements[n - 1].statement {
            PreStatement::Sierra(statement) => before.push(resolved_statement(to, statement@)),
            _ => before,
        }
    }
}

/// Where the first `n` statements that are no labels come from.
pub open spec fn statement_locations(statements: Seq<StatementWithLocation>, n: nat) -> Seq<
    Seq<StableLocation>,
>
    decreases n,
{
    if n == 0 {
        Seq::empty()
    } else {
        let before = statement_locations(statements, (n - 1) as nat);
        match statements[n - 1].statement {
            PreStatement::Sierra(_) => before.push(statements[n - 1].location@),
            _ => before,
        }
    }
}

/// A statement whose labels can be resolved: no values are left to be pushed, and the labels have
/// places.
pub open spec fn resolvable(to: Map<u64, usize>, statement: StatementWithLocation) -> bool {
    match statement.statement {
        PreStatement::Sierra(statement) => knows_labels(to, statement@),
        PreStatement::Label(_) => true,
        PreStatement::PushValues(_) => false,
    }
}

pub open spec fn all_locations(locations: Seq<Vec<StableLocation>>) -> Seq<Seq<StableLocation>> {
    locations.map_values(|location: Vec<StableLocation>| location@)
}

/// Replaces labels with the places of the statements that they stand for.
pub fn resolve_labels_and_extract_locations(
    statements: Vec<StatementWithLocation>,
    label_replacer: &LabelReplacer,
) -> (r: (Vec<Statement<StatementIdx>>, Vec<Vec<StableLocation>>))
    requires
        forall|i: int|
            0 <= i < statements@.len() ==> resolvable(
                label_replacer.places(),
                #[trigger] statements@[i],
            ),
    ensures
        viewed(r.0@) == resolved_statements(
            label_replacer.places(),
            statements@,
            statements@.len(),
        ),
        all_locations(r.1@) == statement_locations(statements@, statements@.len()),
{
    let ghost all = statements@;
    let ghost to = label_replacer.places();
    let mut resolved: Vec<Statement<StatementIdx>> = Vec::new();
    let mut locations: Vec<Vec<StableLocation>> = Vec::new();
    assert(viewed(resolved@) =~= Seq::empty());
    assert(all_locations(locations@) =~= Seq::empty());
    for statement in it: statements
        invariant
            all == it.seq(),
            to == label_replacer.places(),
            forall|i: int| 0 <= i < all.len() ==> resolvable(to, #[trigger] all[i]),
            viewed(resolved@) == resolved_statements(to, all, it.index() as nat),
            all_locations(locations@) == statement_locations(all, it.index() as nat),
    {
        let ghost done = resolved@;
        let ghost done_locations = locations@;
        assert(resolvable(to, all[it.index() as int]));
        match statement.statement {
            PreStatement::Sierra(sierra_statement) => {
                let handled = label_replacer.handle_statement(sierra_statement);
                resolved.push(handled);
                locations.push(statement.location);
                assert(viewed(resolved@) =~= viewed(done).push(handled@));
                assert(all_locations(locations@) =~= all_locations(done_locations).push(
                    statement.location@,
                ));
            },
            _ => {},
        }
    }
    (resolved, locations)
}

// Laws.

proof fn lemma_counts(statements: Seq<StatementWithLocation>, to: Map<u64, usize>, n: nat)
    requires
        n <= statements.len(),
        forall|i: int| 0 <= i < statements.len() ==> resolvable(to, #[trigger] statements[i]),
    ensures
        resolved_statements(to, statements, n).len() == statement_count(statements, n),
        statement_locations(statements, n).len() == statement_count(statements, n),
    decreases n,
{
    if n > 0 {
        lemma_counts(statements, to, (n - 1) as nat);
        assert(resolvable(to, statements[n - 1]));
    }
}

/// There is one statement, with one list of locations, for each statement that is no label.
pub proof fn one_statement_for_each(statements: Seq<StatementWithLocation>, to: Map<u64, usize>)
    requires
        forall|i: int| 0 <= i < statements.len() ==> resolvable(to, #[trigger] statements[i]),
    ensures
        resolved_statements(to, statements, statements.len()).len() == statement_count(
            statements,
            statements.len(),
        ),
        statement_locations(statements, statements.len()).len() == statement_count(
            statements,
            statements.len(),
        ),
{
    lemma_counts(statements, to, statements.len());
}

proof fn lemma_prefix(
    statements: Seq<StatementWithLocation>,
    to: Map<u64, usize>,
    n: nat,
    m: nat,
)
    requires
        n <= m <= statements.len(),
    ensures
        statement_count(statements, n) <= statement_count(statements, m),
        resolved_statements(to, statements, n).len() <= resolved_statements(
            to,
            statements,
            m,
        ).len(),
        forall|i: int|
            0 <= i < resolved_statements(to, statements, n).len() ==> (
            #[trigger] resolved_statements(to, statements, m)[i]) == resolved_statements(
                to,
                statements,
                n,
            )[i],
    decreases m - n,
{
    if n < m {
        lemma_prefix(statements, to, n, (m - 1) as nat);
    }
}

proof fn lemma_label_place(statements: Seq<StatementWithLocation>, at: int, n: nat)
    requires
        0 <= at < n <= statements.len() <= usize::MAX,
        statements[at].statement is Label,
        forall|j: int|
            at < j < n ==> (#[trigger] statements[j]).statement
                != statements[at].statement,
    ensures
        label_places(statements, n).contains_key((statements[at].statement->Label_0).0),
        label_places(statements, n)[(statements[at].statement->Label_0).0] == statement_count(
            statements,
            at as nat,
        ),
    decreases n,
{
    if at < n - 1 {
        lemma_label_place(statements, at, (n - 1) as nat);
        assert(statements[n - 1].statement != statements[at].statement);
    } else {
        lemma_count_bound(statements, at as nat);
    }
}

proof fn lemma_count_bound(statements: Seq<StatementWithLocation>, n: nat)
    ensures
        statement_count(statements, n) <= n,
    decreases n,
{
    if n > 0 {
        lemma_count_bound(statements, (n - 1) as nat);
    }
}

proof fn lemma_labels_between(statements: Seq<StatementWithLocation>, n: nat, m: nat)
    requires
        n <= m <= statements.len(),
        forall|j: int| n <= j < m ==> (#[trigger] statements[j]).statement is Label,
    ensures
        statement_count(statements, m) == statement_count(statements, n),
    decreases m - n,
{
    if n < m {
        lemma_labels_between(statements, n, (m - 1) as nat);
        assert(statements[m - 1].statement is Label);
    }
}

/// A label stands for the statement that follows it: where nothing but labels is between the last
/// place of the label and a statement, the label is resolved to the place of that statement.
pub proof fn labels_lead_to_what_follows(
    statements: Seq<StatementWithLocation>,
    at: int,
    next: int,
)
    requires
        0 <= at < next < statements.len(),
        statements.len() <= usize::MAX,
        forall|j: int| at <= j < next ==> (#[trigger] statements[j]).statement is Label,
        statements[next].statement is Sierra,
        forall|j: int|
            at < j < statements.len() ==> (#[trigger] statements[j]).statement
                != statements[at].statement,
        ({
            let to = label_places(statements, statements.len());
            forall|i: int| 0 <= i < statements.len() ==> resolvable(to, #[trigger] statements[i])
        }),
    ensures
        ({
            let to = label_places(statements, statements.len());
            let resolved = resolved_statements(to, statements, statements.len());
            let place = to[(statements[at].statement->Label_0).0];
            &&& to.contains_key((statements[at].statement->Label_0).0)
            &&& place < resolved.len()
            &&& resolved[place as int] == resolved_statement(
                to,
                statements[next].statement->Sierra_0@,
            )
        }),
{
    let to = label_places(statements, statements.len());
    assert(statements[at].statement is Label);
    lemma_label_place(statements, at, statements.len());
    lemma_labels_between(statements, at as nat, next as nat);
    lemma_counts(statements, to, next as nat);
    lemma_counts(statements, to, (next + 1) as nat);
    lemma_prefix(statements, to, (next + 1) as nat, statements.len());
    let before = resolved_statements(to, statements, next as nat);
    let after = resolved_statements(to, statements, (next + 1) as nat);
    assert(after == before.push(resolved_statement(to, statements[next].statement->Sierra_0@)));
    assert(resolved_statements(to, statements, statements.len())[before.len() as int]
        == after[before.len() as int]);
}

/// A label is resolved to the place of a statement, or to the place after the last one.
pub proof fn labels_lead_into_the_program(
    statements: Seq<StatementWithLocation>,
    n: nat,
    label: u64,
)
    requires
        n <= statements.len() <= usize::MAX,
        label_places(statements, n).contains_key(label),
    ensures
        label_places(statements, n)[label] <= statement_count(statements, n),
    decreases n,
{
    lemma_count_bound(statements, (n - 1) as nat);
    if label_places(statements, (n - 1) as nat).contains_key(label) {
        labels_lead_into_the_program(statements, (n - 1) as nat, label);
    }
}

/// Whether the statement is one of Sierra.
pub open spec fn is_sierra() -> spec_fn(StatementWithLocation) -> bool {
    |statement: StatementWithLocation| statement.statement is Sierra
}

/// The target is where the label leads to.
pub open spec fn is_resolved_target(
    to: Map<u64, usize>,
    from: BranchTarget<LabelId>,
    into: BranchTarget<StatementIdx>,
) -> bool {
    match (from, into) {
        (BranchTarget::Fallthrough, BranchTarget::Fallthrough) => true,
        (BranchTarget::Statement(label), BranchTarget::Statement(at)) => at.0 == to[label.0],
        _ => false,
    }
}

/// Resolving the labels of a statement changes nothing but the targets of its branches.
pub proof fn resolving_changes_only_targets(
    to: Map<u64, usize>,
    statement: Statement<LabelId>,
    resolved: Statement<StatementIdx>,
)
    requires
        resolved@ == resolved_statement(to, statement@),
    ensures
        match (statement, resolved) {
            (Statement::Invocation(from), Statement::Invocation(into)) => {
                &&& into.libfunc_id.id == from.libfunc_id.id
                &&& same_text(into.libfunc_id.debug_name, from.libfunc_id.debug_name)
                &&& same_vars(from.args@, into.args@)
                &&& from.branches@.len() == into.branches@.len()
                &&& forall|i: int|
                    0 <= i < from.branches@.len() ==> is_resolved_target(
                        to,
                        (#[trigger] from.branches@[i]).target,
                        into.branches@[i].target,
                    ) && same_vars(from.branches@[i].results@, into.branches@[i].results@)
            },
            (Statement::Return(from), Statement::Return(into)) => same_vars(from@, into@),
            _ => false,
        },
{
    match (statement, resolved) {
        (Statement::Invocation(from), Statement::Invocation(into)) => {
            lemma_same_vars(from.args@, into.args@);
            assert(viewed(from.branches@).len() == from.branches@.len());
            assert(viewed(into.branches@).len() == into.branches@.len());
            assert forall|i: int| 0 <= i < from.branches@.len() implies is_resolved_target(
                to,
                (#[trigger] from.branches@[i]).target,
                into.branches@[i].target,
            ) && same_vars(from.branches@[i].results@, into.branches@[i].results@) by {
                assert(viewed(from.branches@)[i] == from.branches@[i]@);
                assert(viewed(into.branches@)[i] == into.branches@[i]@);
                lemma_same_vars(from.branches@[i].results@, into.branches@[i].results@);
            }
        },
        (Statement::Return(from), Statement::Return(into)) => {
            lemma_same_vars(from@, into@);
        },
        _ => {},
    }
}

proof fn lemma_resolved_in_order(
    statements: Seq<StatementWithLocation>,
    to: Map<u64, usize>,
    n: nat,
)
    requires
        n <= statements.len(),
    ensures
        ({
            let kept = statements.take(n as int).filter(is_sierra());
            let resolved = resolved_statements(to, statements, n);
            let locations = statement_locations(statements, n);
            &&& resolved.len() == kept.len()
            &&& locations.len() == kept.len()
            &&& forall|k: int|
                0 <= k < kept.len() ==> (#[trigger] kept[k]).statement is Sierra && resolved[k]
                    == resolved_statement(to, kept[k].statement->Sierra_0@) && locations[k]
                    == kept[k].location@
        }),
    decreases n,
{
    if n > 0 {
        lemma_resolved_in_order(statements, to, (n - 1) as nat);
        lemma_filter_take(statements, is_sierra(), n - 1);
        let before = statements.take(n - 1).filter(is_sierra());
        let kept = statements.take(n as int).filter(is_sierra());
        assert forall|k: int| 0 <= k < kept.len() implies (#[trigger] kept[k]).statement is Sierra
            && resolved_statements(to, statements, n)[k] == resolved_statement(
            to,
            kept[k].statement->Sierra_0@,
        ) && statement_locations(statements, n)[k] == kept[k].location@ by {
            if k < before.len() {
                assert(kept[k] == before[k]);
            }
        }
    } else {
        reveal(Seq::filter);
        assert(statements.take(0) =~= Seq::empty());
    }
}

/// The resolved statements are the statements of Sierra, in their order, each with its locations,
/// and with the labels in it resolved.
pub proof fn statements_stay_in_their_order(
    statements: Seq<StatementWithLocation>,
    to: Map<u64, usize>,
    resolved: Seq<Statement<StatementIdx>>,
    locations: Seq<Vec<StableLocation>>,
)
    requires
        viewed(resolved) == resolved_statements(to, statements, statements.len()),
        all_locations(locations) == statement_locations(statements, statements.len()),
    ensures
        ({
            let kept = statements.filter(is_sierra());
            &&& resolved.len() == kept.len()
            &&& locations.len() == kept.len()
            &&& forall|k: int|
                0 <= k < kept.len() ==> (#[trigger] kept[k]).statement is Sierra && resolved[k]@
                    == resolved_statement(to, kept[k].statement->Sierra_0@) && locations[k]@
                    == kept[k].location@
        }),
{
    let kept = statements.filter(is_sierra());
    lemma_resolved_in_order(statements, to, statements.len());
    assert(statements.take(statements.len() as int) =~= statements);
    assert(viewed(resolved).len() == resolved.len());
    assert(all_locations(locations).len() == locations.len());
    assert forall|k: int| 0 <= k < kept.len() implies (#[trigger] kept[k]).statement is Sierra
        && resolved[k]@ == resolved_statement(to, kept[k].statement->Sierra_0@) && locations[k]@
        == kept[k].location@ by {
        assert(viewed(resolved)[k] == resolved[k]@);
        assert(all_locations(locations)[k] == locations[k]@);
    }
}

proof fn lemma_count_is_filter(statements: Seq<StatementWithLocation>, n: nat)
    requires
        n <= statements.len(),
    ensures
        statement_count(statements, n) == statements.take(n as int).filter(
            |statement: StatementWithLocation| !(statement.statement is Label),
        ).len(),
    decreases n,
{
    let p = |statement: StatementWithLocation| !(statement.statement is Label);
    if n > 0 {
        lemma_count_is_filter(statements, (n - 1) as nat);
        lemma_filter_take(statements, p, n - 1);
    } else {
        reveal(Seq::filter);
        assert(statements.take(0) =~= Seq::empty());
    }
}

/// A label is resolved to the number of statements before its last place, labels not counted.
pub proof fn labels_count_what_precedes(statements: Seq<StatementWithLocation>, at: int)
    requires
        0 <= at < statements.len() <= usize::MAX,
        statements[at].statement is Label,
        forall|j: int|
            at < j < statements.len() ==> (#[trigger] statements[j]).statement
                != statements[at].statement,
    ensures
        ({
            let to = label_places(statements, statements.len());
            let label = (statements[at].statement->Label_0).0;
            &&& to.contains_key(label)
            &&& to[label] == statements.take(at).filter(
                |statement: StatementWithLocation| !(statement.statement is Label),
            ).len()
        }),
{
    lemma_label_place(statements, at, statements.len());
    lemma_count_is_filter(statements, at as nat);
}

/// Only labels of the statements have a place.
pub proof fn only_labels_have_places(
    statements: Seq<StatementWithLocation>,
    n: nat,
    label: u64,
)
    requires
        n <= statements.len(),
        label_places(statements, n).contains_key(label),
    ensures
        exists|at: int|
            0 <= at < n && (#[trigger] statements[at]).statement == PreStatement::Label(
                LabelId(label),
            ),
    decreases n,
{
    if n > 0 {
        if statements[n - 1].statement == PreStatement::Label(LabelId(label)) {
        } else {
            only_labels_have_places(statements, (n - 1) as nat, label);
        }
    }
}

} // verus!
