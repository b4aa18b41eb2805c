//! The flow control graph: the first of the two steps that lower `match` and `if` expressions.
//!
//! The graph is directed and acyclic: each node may point to nodes that were added before it.
//! Variables ([FlowControlVar]) are assigned to values while it is built.
//!
//! For example, `if x { 1 } else { 2 }` is represented by the following graph, whose root is
//! `NodeId(3)`:
//!
//! ```plain
//! 0 - ArmExpr { expr: `1` }
//! 1 - ArmExpr { expr: `2` }
//! 2 - BooleanIf { condition_var: v0, true_branch: NodeId(0), false_branch: NodeId(1) }
//! 3 - EvaluateExpr { expr: `x`, var_id: v0, next: NodeId(2) }
//! ```
use vstd::prelude::*;

use crate::semantic::ids::{ConcreteEnumId, ConcreteVariant, ExprId, TypeId};
use crate::text::{concat3, decimal, join, joined, number, texts};

verus! {

/// A location in the source.
#[derive(Clone, Copy, Debug, PartialEq, Eq, Structural)]
pub struct LocationId(pub u64);

/// A variable in the flow control graph.
#[derive(Clone, Copy, Debug, PartialEq, Eq, Structural, Hash)]
pub struct FlowControlVar {
    idx: usize,
}

/// Unique identifier for nodes in the flow control graph.
#[derive(Clone, Copy, Debug, PartialEq, Eq, Structural, Hash)]
pub struct NodeId(pub usize);

/// Instructs to lower an expression and to assign the result to a variable, which [BooleanIf] or
/// [EnumMatch] can use.
#[derive(Debug)]
pub struct EvaluateExpr {
    /// The expression to evaluate.
    pub expr: ExprId,
    /// The (output) variable to assign the result to.
    pub var_id: FlowControlVar,
    /// The next node.
    pub next: NodeId,
}

/// Boolean if condition node.
#[derive(Debug)]
pub struct BooleanIf {
    /// The condition variable.
    pub condition_var: FlowControlVar,
    /// The node to jump to if the condition is true.
    pub true_branch: NodeId,
    /// The node to jump to if the condition is false.
    pub false_branch: NodeId,
}

/// Enum match node.
#[derive(Debug)]
pub struct EnumMatch {
    /// The input value to match.
    pub matched_var: FlowControlVar,
    /// The concrete enum id.
    pub concrete_enum_id: ConcreteEnumId,
    /// For each variant, the node to jump to and an output variable for the inner value.
    pub variants: Vec<(ConcreteVariant, NodeId, FlowControlVar)>,
}

/// An arm (final node) that returns an expression.
#[derive(Debug)]
pub struct ArmExpr {
    /// The expression to evaluate.
    pub expr: ExprId,
}

/// A node in the flow control graph for a match or if lowering.
#[derive(Debug)]
pub enum FlowControlNode {
    /// Evaluates an expression and assigns the result to a [FlowControlVar].
    EvaluateExpr(EvaluateExpr),
    /// Boolean if condition node.
    BooleanIf(BooleanIf),
    /// Enum match node.
    EnumMatch(EnumMatch),
    /// An arm (final node) that returns an expression.
    ArmExpr(ArmExpr),
    /// An arm (final node) that returns a unit value - `()`.
    UnitResult,
}

/// Graph of flow control nodes.
///
/// Invariant: The next nodes of a node are always before the node in [Self::nodes] (and therefore
/// have a smaller node id).
#[derive(Debug)]
pub struct FlowControlGraph {
    /// All nodes in the graph.
    pub nodes: Vec<FlowControlNode>,
    /// The type of each [FlowControlVar].
    pub var_types: Vec<TypeId>,
    /// The location of each [FlowControlVar].
    pub var_locations: Vec<LocationId>,
}

/// Builder for [FlowControlGraph].
#[derive(Debug)]
pub struct FlowControlGraphBuilder {
    /// All nodes in the graph.
    pub nodes: Vec<FlowControlNode>,
    /// The type of each [FlowControlVar].
    pub var_types: Vec<TypeId>,
    /// The location of each [FlowControlVar].
    pub var_locations: Vec<LocationId>,
    /// The number of [FlowControlVar]s allocated so far.
    pub n_vars: usize,
}

/// Whether `node` can be the node with the number `at`: its next nodes come before it, and its
/// variables are among the first `n_vars`.
pub open spec fn node_ok(node: FlowControlNode, at: int, n_vars: int) -> bool {
    match node {
        FlowControlNode::EvaluateExpr(node) => node.next.0 < at && node.var_id.index() < n_vars,
        FlowControlNode::BooleanIf(node) => {
            &&& node.true_branch.0 < at
            &&& node.false_branch.0 < at
            &&& node.condition_var.index() < n_vars
        },
        FlowControlNode::EnumMatch(node) => {
            &&& node.matched_var.index() < n_vars
            &&& forall|i: int|
                0 <= i < node.variants@.len() ==> (#[trigger] node.variants@[i]).1.0 < at
                    && node.variants@[i].2.index() < n_vars
        },
        FlowControlNode::ArmExpr(_) | FlowControlNode::UnitResult => true,
    }
}

/// Whether each of the nodes comes after its next nodes, and uses only the first `n_vars`
/// variables.
pub open spec fn nodes_ok(nodes: Seq<FlowControlNode>, n_vars: int) -> bool {
    forall|at: int| 0 <= at < nodes.len() ==> node_ok(#[trigger] nodes[at], at, n_vars)
}

/// The nodes that `node` points to.
pub open spec fn next_nodes(node: FlowControlNode) -> Seq<NodeId> {
    match node {
        FlowControlNode::EvaluateExpr(node) => seq![node.next],
        FlowControlNode::BooleanIf(node) => seq![node.true_branch, node.false_branch],
        FlowControlNode::EnumMatch(node) => Seq::new(
            node.variants@.len(),
            |i: int| node.variants@[i].1,
        ),
        FlowControlNode::ArmExpr(_) | FlowControlNode::UnitResult => Seq::empty(),
    }
}

impl FlowControlVar {
    /// The number of the variable.
    pub closed spec fn index(self) -> int {
        self.idx as int
    }

    /// Returns the type of the variable.
    pub fn ty(&self, graph: &FlowControlGraph) -> (r: TypeId)
        requires
            self.index() < graph.var_types@.len(),
        ensures
            r == graph.var_types@[self.index()],
    {
        graph.var_types[self.idx].clone()
    }

    /// Returns the location of the variable.
    pub fn location(&self, graph: &FlowControlGraph) -> (r: LocationId)
        requires
            self.index() < graph.var_locations@.len(),
        ensures
            r == graph.var_locations@[self.index()],
    {
        graph.var_locations[self.idx]
    }
}

impl FlowControlGraph {
    /// The invariant of the graph: it has a root, its nodes come after their next nodes, and each
    /// of its variables has a type and a location.
    pub open spec fn wf(self) -> bool {
        &&& self.nodes@.len() > 0
        &&& self.var_types@.len() == self.var_locations@.len()
        &&& nodes_ok(self.nodes@, self.var_types@.len() as int)
    }

    /// Returns the root node of the graph.
    pub fn root(&self) -> (r: NodeId)
        requires
            self.nodes@.len() > 0,
        ensures
            r.0 == self.nodes@.len() - 1,
    {
        // The root is always the last node.
        NodeId(self.nodes.len() - 1)
    }
}

impl FlowControlGraphBuilder {
    /// The nodes added so far.
    pub open spec fn added(self) -> Seq<FlowControlNode> {
        self.nodes@
    }

    /// The types of the variables created so far.
    pub open spec fn types(self) -> Seq<TypeId> {
        self.var_types@
    }

    /// The locations of the variables created so far.
    pub open spec fn locations(self) -> Seq<LocationId> {
        self.var_locations@
    }

    /// The number of variables created so far.
    pub open spec fn var_count(self) -> int {
        self.n_vars as int
    }

    /// The invariant of the builder: its nodes come after their next nodes, and each of its
    /// variables has a type and a location.
    pub open spec fn wf(self) -> bool {
        &&& self.types().len() == self.var_count()
        &&& self.locations().len() == self.var_count()
        &&& nodes_ok(self.added(), self.var_count())
    }

    /// Adds a new node to the graph. Returns the new node's id.
    pub fn add_node(&mut self, node: FlowControlNode) -> (r: NodeId)
        ensures
            r.0 == old(self).added().len(),
            final(self).added() == old(self).added().push(node),
            final(self).types() == old(self).types(),
            final(self).locations() == old(self).locations(),
            final(self).var_count() == old(self).var_count(),
            old(self).wf() && node_ok(node, r.0 as int, old(self).var_count()) ==> final(self).wf(),
    {
        let id = NodeId(self.nodes.len());
        self.nodes.push(node);
        id
    }

    /// Finalizes the graph and returns the final [FlowControlGraph]. The root must be the last
    /// node.
    pub fn finalize(self, root: NodeId) -> (r: FlowControlGraph)
        requires
            root.0 == self.added().len() - 1,
        ensures
            r.nodes@ == self.added(),
            r.var_types@ == self.types(),
            r.var_locations@ == self.locations(),
            self.wf() ==> r.wf(),
    {
        let FlowControlGraphBuilder { nodes, var_types, var_locations, n_vars: _ } = self;
        FlowControlGraph { nodes, var_types, var_locations }
    }

    /// Creates a new [FlowControlVar].
    pub fn new_var(&mut self, ty: TypeId, location: LocationId) -> (r: FlowControlVar)
        requires
            old(self).var_count() < usize::MAX,
        ensures
            r.index() == old(self).var_count(),
            final(self).var_count() == old(self).var_count() + 1,
            final(self).types() == old(self).types().push(ty),
            final(self).locations() == old(self).locations().push(location),
            final(self).added() == old(self).added(),
            old(self).wf() ==> final(self).wf(),
    {
        let var = FlowControlVar { idx: self.n_vars };
        self.var_types.push(ty);
        self.var_locations.push(location);
        self.n_vars += 1;
        var
    }

    /// Returns the type of the given [FlowControlVar].
    pub fn var_ty(&self, input_var: FlowControlVar) -> (r: TypeId)
        requires
            input_var.index() < self.types().len(),
        ensures
            r == self.types()[input_var.index()],
    {
        self.var_types[input_var.idx].clone()
    }
}

impl Default for FlowControlGraphBuilder {
    fn default() -> (r: Self)
        ensures
            r.wf(),
            r.added().len() == 0,
            r.var_count() == 0,
    {
        FlowControlGraphBuilder {
            nodes: Vec::new(),
            var_types: Vec::new(),
            var_locations: Vec::new(),
            n_vars: 0,
        }
    }
}

/// The text of a variable.
pub open spec fn var_text(var: FlowControlVar) -> Seq<char> {
    "FlowControlVar { idx: "@ + decimal(var.index() as nat) + " }"@
}

/// The text of a node id.
pub open spec fn node_id_text(id: NodeId) -> Seq<char> {
    "NodeId("@ + decimal(id.0 as nat) + ")"@
}

/// The text of an expression id.
pub open spec fn expr_id_text(id: ExprId) -> Seq<char> {
    "ExprId("@ + decimal(id.0 as nat) + ")"@
}

/// The text of what follows a variant: its node and its variable.
pub open spec fn variant_text(variant: (ConcreteVariant, NodeId, FlowControlVar)) -> Seq<char> {
    "("@ + node_id_text(variant.1) + ", "@ + var_text(variant.2) + ")"@
}

/// The text of a match: its variable, and the node and the variable of each variant.
pub open spec fn enum_match_text(node: EnumMatch) -> Seq<char> {
    "EnumMatch { matched_var: "@ + var_text(node.matched_var) + ", variants: "@ + joined(
        Seq::new(node.variants@.len(), |i: int| variant_text(node.variants@[i])),
        ", "@,
    ) + "}"@
}

/// The text of a node.
pub open spec fn node_text(node: FlowControlNode) -> Seq<char> {
    match node {
        FlowControlNode::EvaluateExpr(node) => "EvaluateExpr { expr: "@ + expr_id_text(node.expr)
            + ", var_id: "@ + var_text(node.var_id) + ", next: "@ + node_id_text(node.next)
            + " }"@,
        FlowControlNode::BooleanIf(node) => "BooleanIf { condition_var: "@ + var_text(
            node.condition_var,
        ) + ", true_branch: "@ + node_id_text(node.true_branch) + ", false_branch: "@
            + node_id_text(node.false_branch) + " }"@,
        FlowControlNode::EnumMatch(node) => enum_match_text(node),
        FlowControlNode::ArmExpr(node) => "ArmExpr { expr: "@ + expr_id_text(node.expr) + " }"@,
        FlowControlNode::UnitResult => "UnitResult"@,
    }
}

/// The text of the first `n` nodes, each with its number on a line of its own.
pub open spec fn nodes_text(nodes: Seq<FlowControlNode>, n: nat) -> Seq<char>
    decreases n,
{
    if n == 0 {
        Seq::empty()
    } else {
        nodes_text(nodes, (n - 1) as nat) + decimal((n - 1) as nat) + " "@ + node_text(nodes[n - 1])
            + "\n"@
    }
}

/// The text of a graph: its root, and its nodes.
pub open spec fn graph_text(graph: FlowControlGraph) -> Seq<char> {
    "Root: "@ + decimal((graph.nodes@.len() - 1) as nat) + "\n"@ + nodes_text(
        graph.nodes@,
        graph.nodes@.len(),
    )
}

impl FlowControlVar {
    /// The text of the variable.
    pub fn debug(&self) -> (r: String)
        ensures
            r@ == var_text(*self),
    {
        concat3("FlowControlVar { idx: ", number(self.idx as u64).as_str(), " }")
    }
}

impl NodeId {
    /// The text of the id.
    pub fn debug(&self) -> (r: String)
        ensures
            r@ == node_id_text(*self),
    {
        concat3("NodeId(", number(self.0 as u64).as_str(), ")")
    }
}

fn expr_id_debug(id: ExprId) -> (r: String)
    ensures
        r@ == expr_id_text(id),
{
    concat3("ExprId(", number(id.0 as u64).as_str(), ")")
}

impl EnumMatch {
    /// The text of the node.
    pub fn debug(&self) -> (r: String)
        ensures
            r@ == enum_match_text(*self),
    {
        let mut variants: Vec<String> = Vec::new();
        let mut i: usize = 0;
        while i < self.variants.len()
            invariant
                i <= self.variants@.len(),
                variants@.len() == i,
                forall|j: int|
                    0 <= j < i ==> (#[trigger] variants@[j])@ == variant_text(self.variants@[j]),
            decreases self.variants@.len() - i,
        {
            let (_, node, var) = &self.variants[i];
            let mut text = concat3("(", node.debug().as_str(), ", ");
            text.append(var.debug().as_str());
            text.append(")");
            variants.push(text);
            i += 1;
        }
        let mut text = concat3(
            "EnumMatch { matched_var: ",
            self.matched_var.debug().as_str(),
            ", variants: ",
        );
        text.append(join(&variants, ", ").as_str());
        text.append("}");
        assert(texts(variants@) =~= Seq::new(
            self.variants@.len(),
            |i: int| variant_text(self.variants@[i]),
        ));
        text
    }
}

impl FlowControlNode {
    /// The text of the node.
    pub fn debug(&self) -> (r: String)
        ensures
            r@ == node_text(*self),
    {
        match self {
            FlowControlNode::EvaluateExpr(node) => {
                let mut text = concat3(
                    "EvaluateExpr { expr: ",
                    expr_id_debug(node.expr).as_str(),
                    ", var_id: ",
                );
                text.append(node.var_id.debug().as_str());
                text.append(", next: ");
                text.append(node.next.debug().as_str());
                text.append(" }");
                text
            },
            FlowControlNode::BooleanIf(node) => {
                let mut text = concat3(
                    "BooleanIf { condition_var: ",
                    node.condition_var.debug().as_str(),
                    ", true_branch: ",
                );
                text.append(node.true_branch.debug().as_str());
                text.append(", false_branch: ");
                text.append(node.false_branch.debug().as_str());
                text.append(" }");
                text
            },
            FlowControlNode::EnumMatch(node) => node.debug(),
            FlowControlNode::ArmExpr(node) => concat3(
                "ArmExpr { expr: ",
                expr_id_debug(node.expr).as_str(),
                " }",
            ),
            FlowControlNode::UnitResult => "UnitResult".to_owned(),
        }
    }
}

impl FlowControlGraph {
    /// The text of the graph: its root, and its nodes, one on each line.
    pub fn debug(&self) -> (r: String)
        requires
            self.nodes@.len() > 0,
        ensures
            r@ == graph_text(*self),
    {
        let mut text = concat3("Root: ", number(self.root().0 as u64).as_str(), "\n");
        let ghost head = text@;
        let mut i: usize = 0;
        while i < self.nodes.len()
            invariant
                i <= self.nodes@.len(),
                text@ =~= head + nodes_text(self.nodes@, i as nat),
            decreases self.nodes@.len() - i,
        {
            text.append(number(i as u64).as_str());
            text.append(" ");
            text.append(self.nodes[i].debug().as_str());
            text.append("\n");
            i += 1;
        }
        text
    }
}

/// A node points only to nodes before it: following the next nodes in any way ends.
pub proof fn next_nodes_come_before(graph: FlowControlGraph, at: int, i: int)
    requires
        graph.wf(),
        0 <= at < graph.nodes@.len(),
        0 <= i < next_nodes(graph.nodes@[at]).len(),
    ensures
        0 <= next_nodes(graph.nodes@[at])[i].0 < at,
{
    assert(node_ok(graph.nodes@[at], at, graph.var_types@.len() as int));
}

/// The number of the `i`-th next node of the node with the number `at`.
pub open spec fn next_of(graph: FlowControlGraph, at: int, i: int) -> int {
    next_nodes(graph.nodes@[at])[i].0 as int
}

/// Whether the node `to` can be reached from the node `from` in at most `steps` steps.
pub open spec fn reaches(graph: FlowControlGraph, from: int, to: int, steps: nat) -> bool
    decreases steps,
{
    from == to || (steps > 0 && exists|i: int|
        0 <= i < next_nodes(graph.nodes@[from]).len() && reaches(
            graph,
            #[trigger] next_of(graph, from, i),
            to,
            (steps - 1) as nat,
        ))
}

/// The graph has no cycles: two nodes that reach each other are one.
pub proof fn graph_is_acyclic(graph: FlowControlGraph, a: int, b: int, there: nat, back: nat)
    requires
        graph.wf(),
        0 <= a < graph.nodes@.len(),
        reaches(graph, a, b, there),
        reaches(graph, b, a, back),
    ensures
        a == b,
{
    lemma_reaches_down(graph, a, b, there);
    lemma_reaches_down(graph, b, a, back);
}

proof fn lemma_reaches_down(graph: FlowControlGraph, from: int, to: int, steps: nat)
    requires
        graph.wf(),
        0 <= from < graph.nodes@.len(),
        reaches(graph, from, to, steps),
    ensures
        0 <= to <= from,
    decreases steps,
{
    if from != to {
        let i = choose|i: int|
            0 <= i < next_nodes(graph.nodes@[from]).len() && reaches(
                graph,
                #[trigger] next_of(graph, from, i),
                to,
                (steps - 1) as nat,
            );
        next_nodes_come_before(graph, from, i);
        lemma_reaches_down(graph, next_of(graph, from, i), to, (steps - 1) as nat);
    }
}

/// The text of a graph is the number of its root, which is its last node, and a line for each of
/// its nodes with the number of the node, in their order.
pub proof fn graphs_are_written_line_by_line(graph: FlowControlGraph)
    requires
        graph.nodes@.len() > 0,
    ensures
        graph_text(graph) == "Root: "@ + decimal((graph.nodes@.len() - 1) as nat) + "\n"@
            + Seq::new(graph.nodes@.len(), |i: int| i).flat_map(
            |i: int| decimal(i as nat) + " "@ + node_text(graph.nodes@[i]) + "\n"@,
        ),
{
    let numbers = Seq::new(graph.nodes@.len(), |i: int| i);
    lemma_lines(graph.nodes@, graph.nodes@.len());
    assert(numbers.take(graph.nodes@.len() as int) =~= numbers);
}

proof fn lemma_lines(nodes: Seq<FlowControlNode>, n: nat)
    requires
        n <= nodes.len(),
    ensures
        nodes_text(nodes, n) == Seq::new(nodes.len(), |i: int| i).take(n as int).flat_map(
            |i: int| decimal(i as nat) + " "@ + node_text(nodes[i]) + "\n"@,
        ),
    decreases n,
{
    let numbers = Seq::new(nodes.len(), |i: int| i);
    let line = |i: int| decimal(i as nat) + " "@ + node_text(nodes[i]) + "\n"@;
    if n > 0 {
        lemma_lines(nodes, (n - 1) as nat);
        numbers.lemma_flat_map_take_append(line, n - 1);
        assert(nodes_text(nodes, n) =~= nodes_text(nodes, (n - 1) as nat) + line(n - 1));
    } else {
        assert(numbers.take(0).map_values(line) =~= Seq::empty());
    }
}

/// The text of a node names its kind, and then its parts in their order: variables, nodes and
/// expressions by their numbers.
pub proof fn nodes_are_written_with_their_parts(
    evaluate: EvaluateExpr,
    condition: BooleanIf,
    arm: ArmExpr,
    matched: EnumMatch,
)
    ensures
        node_text(FlowControlNode::EvaluateExpr(evaluate)) == "EvaluateExpr { expr: "@ + ("ExprId("@
            + decimal(evaluate.expr.0 as nat) + ")"@) + ", var_id: "@ + ("FlowControlVar { idx: "@
            + decimal(evaluate.var_id.index() as nat) + " }"@) + ", next: "@ + ("NodeId("@
            + decimal(evaluate.next.0 as nat) + ")"@) + " }"@,
        node_text(FlowControlNode::BooleanIf(condition)) == "BooleanIf { condition_var: "@ + (
        "FlowControlVar { idx: "@ + decimal(condition.condition_var.index() as nat) + " }"@)
            + ", true_branch: "@ + ("NodeId("@ + decimal(condition.true_branch.0 as nat) + ")"@)
            + ", false_branch: "@ + ("NodeId("@ + decimal(condition.false_branch.0 as nat) + ")"@)
            + " }"@,
        node_text(FlowControlNode::ArmExpr(arm)) == "ArmExpr { expr: "@ + ("ExprId("@ + decimal(
            arm.expr.0 as nat,
        ) + ")"@) + " }"@,
        node_text(FlowControlNode::UnitResult) == "UnitResult"@,
        node_text(FlowControlNode::EnumMatch(matched)) == "EnumMatch { matched_var: "@ + (
        "FlowControlVar { idx: "@ + decimal(matched.matched_var.index() as nat) + " }"@)
            + ", variants: "@ + joined(
            Seq::new(
                matched.variants@.len(),
                |i: int|
                    "("@ + ("NodeId("@ + decimal(matched.variants@[i].1.0 as nat) + ")"@) + ", "@
                        + ("FlowControlVar { idx: "@ + decimal(
                        matched.variants@[i].2.index() as nat,
                    ) + " }"@) + ")"@,
            ),
            ", "@,
        ) + "}"@,
{
    assert(Seq::new(matched.variants@.len(), |i: int| variant_text(matched.variants@[i]))
        =~= Seq::new(
        matched.variants@.len(),
        |i: int|
            "("@ + ("NodeId("@ + decimal(matched.variants@[i].1.0 as nat) + ")"@) + ", "@ + (
            "FlowControlVar { idx: "@ + decimal(matched.variants@[i].2.index() as nat) + " }"@)
                + ")"@,
    ));
}

} // verus!
