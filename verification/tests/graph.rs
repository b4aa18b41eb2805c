use cairo_lang_core::graph::{
    ArmExpr, BooleanIf, EnumMatch, EvaluateExpr, FlowControlGraphBuilder, FlowControlNode,
    LocationId, NodeId,
};
use cairo_lang_core::semantic::ids::{
    ConcreteEnumId, ConcreteVariant, ExprId, TypeId, VariantId,
};

#[test]
fn var_has_its_type() {
    let mut builder = FlowControlGraphBuilder::default();
    let var = builder.new_var(TypeId::Named(3), LocationId(7));
    assert_eq!(builder.var_ty(var), TypeId::Named(3));
    let root = builder.add_node(FlowControlNode::ArmExpr(ArmExpr { expr: ExprId(4) }));
    let graph = builder.finalize(root);
    assert_eq!(graph.root(), root);
    assert_eq!(var.location(&graph), LocationId(7));
    assert_eq!(graph.debug(), "Root: 0\n0 ArmExpr { expr: ExprId(4) }\n");
}

#[test]
fn conditions_come_after_their_branches() {
    let mut builder = FlowControlGraphBuilder::default();
    let condition_var = builder.new_var(TypeId::Named(1), LocationId(1));
    let true_branch = builder.add_node(FlowControlNode::ArmExpr(ArmExpr { expr: ExprId(1) }));
    let false_branch = builder.add_node(FlowControlNode::UnitResult);
    let next = builder.add_node(FlowControlNode::BooleanIf(BooleanIf {
        condition_var,
        true_branch,
        false_branch,
    }));
    let root = builder.add_node(FlowControlNode::EvaluateExpr(EvaluateExpr {
        expr: ExprId(0),
        var_id: condition_var,
        next,
    }));
    let graph = builder.finalize(root);
    assert_eq!(condition_var.ty(&graph), TypeId::Named(1));
    assert_eq!(graph.root(), NodeId(3));
    assert_eq!(
        graph.debug(),
        "Root: 3\n\
         0 ArmExpr { expr: ExprId(1) }\n\
         1 UnitResult\n\
         2 BooleanIf { condition_var: FlowControlVar { idx: 0 }, true_branch: NodeId(0), \
         false_branch: NodeId(1) }\n\
         3 EvaluateExpr { expr: ExprId(0), var_id: FlowControlVar { idx: 0 }, next: NodeId(2) }\n"
    );
    // Each node points to nodes before it.
    for (at, node) in graph.nodes.iter().enumerate() {
        let next = match node {
            FlowControlNode::EvaluateExpr(node) => vec![node.next],
            FlowControlNode::BooleanIf(node) => vec![node.true_branch, node.false_branch],
            _ => vec![],
        };
        assert!(next.iter().all(|id| id.0 < at));
    }
}

#[test]
fn matches_list_their_variants() {
    let mut builder = FlowControlGraphBuilder::default();
    let matched_var = builder.new_var(TypeId::Named(1), LocationId(1));
    let first = builder.new_var(TypeId::Named(2), LocationId(2));
    let second = builder.new_var(TypeId::Named(3), LocationId(3));
    let arm = builder.add_node(FlowControlNode::UnitResult);
    let variant = |idx: usize| ConcreteVariant {
        concrete_enum_id: ConcreteEnumId(0),
        id: VariantId(idx as u64),
        ty: TypeId::Named(2),
        idx,
    };
    let node = EnumMatch {
        matched_var,
        concrete_enum_id: ConcreteEnumId(0),
        variants: vec![(variant(0), arm, first), (variant(1), arm, second)],
    };
    assert_eq!(
        node.debug(),
        "EnumMatch { matched_var: FlowControlVar { idx: 0 }, variants: \
         (NodeId(0), FlowControlVar { idx: 1 }), (NodeId(0), FlowControlVar { idx: 2 })}"
    );
    let root = builder.add_node(FlowControlNode::EnumMatch(node));
    let graph = builder.finalize(root);
    assert_eq!(second.ty(&graph), TypeId::Named(3));
    assert_eq!(second.location(&graph), LocationId(3));
}

#[test]
fn the_builder_lists_types_and_locations() {
    let mut builder = FlowControlGraphBuilder::default();
    builder.new_var(TypeId::Named(3), LocationId(7));
    builder.add_node(FlowControlNode::UnitResult);
    builder.new_var(TypeId::Named(4), LocationId(8));
    assert_eq!(builder.var_types, vec![TypeId::Named(3), TypeId::Named(4)]);
    assert_eq!(builder.var_locations, vec![LocationId(7), LocationId(8)]);
}
