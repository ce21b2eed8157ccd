use verify::{
    ChipData, ChipError, ChipMetadata, DataError, Exponent, Expression, ExtFelt, Felt, FieldType,
    MachineError, MachineMetadata, Node, NodeError, RawChipMetadata, RawMachineMetadata, VarScope,
    ZerofierExpression,
};

fn ext(c: [u32; 4]) -> ExtFelt {
    ExtFelt { c0: Felt::new(c[0]), c1: Felt::new(c[1]), c2: Felt::new(c[2]), c3: Felt::new(c[3]) }
}

fn base(v: u32) -> ExtFelt {
    ExtFelt::from_base(Felt::new(v))
}

fn constraint(node_id: usize, zerofier_id: Option<usize>) -> Expression {
    Expression { node_id, zerofier_id }
}

fn raw_chip(nodes: Vec<Node>, constraints: Vec<Expression>) -> RawChipMetadata {
    RawChipMetadata {
        num_local_variables: vec![],
        trace_widths: vec![],
        zerofiers: vec![ZerofierExpression::Constant(Felt::one())],
        periodic: vec![],
        nodes,
        constraints,
    }
}

fn trace(segment: usize, col_offset: usize, row_offset: usize, field_type: FieldType) -> Node {
    Node::Trace { segment, col_offset, row_offset, field_type }
}

/// Quotient scalars encoding one chunk whose value is `v`.
fn encode(v: ExtFelt) -> Vec<ExtFelt> {
    vec![base(v.c0.val), base(v.c1.val), base(v.c2.val), base(v.c3.val)]
}

#[test]
fn smoke_accept() {
    let chip = ChipMetadata::try_from(raw_chip(
        vec![Node::Constant(Felt::zero())],
        vec![constraint(0, Some(0))],
    ))
    .unwrap();
    assert_eq!(chip.num_quotient_evals(), Some(1));
    let data = ChipData::new(&chip, vec![], vec![], encode(ExtFelt::zero()), 3).unwrap();
    assert_eq!(data.check_quotient(&[], ext([5, 6, 7, 8]), ext([1, 2, 3, 4])), Ok(()));
}

#[test]
fn dangling_node_id() {
    let r = ChipMetadata::try_from(raw_chip(
        vec![Node::Constant(Felt::zero())],
        vec![constraint(1, Some(0))],
    ));
    assert_eq!(r.err(), Some(ChipError::Constraint(0)));
}

#[test]
fn wrong_local_group_size() {
    let mut raw = raw_chip(vec![Node::Constant(Felt::zero())], vec![constraint(0, Some(0))]);
    raw.num_local_variables = vec![2];
    let chip = ChipMetadata::try_from(raw).unwrap();
    let r = ChipData::new(&chip, vec![vec![Felt::new(9)]], vec![], encode(ExtFelt::zero()), 0);
    assert_eq!(
        r.err(),
        Some(DataError::NumLocalVariables { group: 0, actual: 1, expected: 2 })
    );
}

#[test]
fn unfit_extension_width() {
    let mut raw = raw_chip(
        vec![Node::Var {
            scope: VarScope::Local { chip_id: 0 },
            group: 0,
            offset: 0,
            field_type: FieldType::Ext,
        }],
        vec![],
    );
    raw.num_local_variables = vec![3];
    let r = ChipMetadata::try_from(raw);
    assert_eq!(r.err(), Some(ChipError::NodeError(NodeError::Variable(0))));
}

#[test]
fn degree_check() {
    let mut raw = raw_chip(
        vec![
            trace(0, 0, 0, FieldType::Base),
            trace(0, 1, 0, FieldType::Base),
            Node::Mul { lhs_id: 0, rhs_id: 1 },
            Node::Mul { lhs_id: 2, rhs_id: 2 },
        ],
        vec![constraint(3, Some(0))],
    );
    raw.trace_widths = vec![2];
    let chip = ChipMetadata::try_from(raw).unwrap();
    assert_eq!(chip.degrees(), &vec![1, 1, 2, 4]);
    assert_eq!(chip.max_constraint_degree(), 4);
    assert_eq!(chip.num_quotient_evals(), Some(4));
}

#[test]
fn quotient_mismatch() {
    let chip = ChipMetadata::try_from(raw_chip(
        vec![Node::Constant(Felt::one())],
        vec![constraint(0, Some(0))],
    ))
    .unwrap();
    let zeta = ext([3, 1, 4, 1]);
    let alpha = ext([5, 9, 2, 6]);
    let zero = ChipData::new(&chip, vec![], vec![], encode(ExtFelt::zero()), 2).unwrap();
    assert_eq!(zero.check_quotient(&[], zeta, alpha), Err(DataError::InvalidQuotient));
    let one = ChipData::new(&chip, vec![], vec![], encode(ExtFelt::one()), 2).unwrap();
    assert_eq!(one.check_quotient(&[], zeta, alpha), Ok(()));
}

#[test]
fn low_degree_pads_to_one_chunk() {
    let chip = ChipMetadata::try_from(raw_chip(
        vec![trace(0, 0, 0, FieldType::Base)],
        vec![constraint(0, Some(0))],
    ));
    assert_eq!(chip.as_ref().err(), Some(&ChipError::NodeError(NodeError::Trace(0))));
    let mut raw = raw_chip(vec![trace(0, 0, 0, FieldType::Base)], vec![constraint(0, Some(0))]);
    raw.trace_widths = vec![1];
    let chip = ChipMetadata::try_from(raw).unwrap();
    assert_eq!(chip.max_constraint_degree(), 1);
    assert_eq!(chip.num_quotient_evals(), Some(1));
}

#[test]
fn periodic_column_height() {
    let mut raw = raw_chip(vec![Node::Periodic { column: 0 }], vec![constraint(0, Some(0))]);
    raw.periodic = vec![vec![Felt::one(); 8]];
    let chip = ChipMetadata::try_from(raw).unwrap();
    assert!(ChipData::new(&chip, vec![], vec![], encode(ExtFelt::zero()), 3).is_ok());
    let r = ChipData::new(&chip, vec![], vec![], encode(ExtFelt::zero()), 2);
    assert_eq!(r.err(), Some(DataError::MinHeight { column_index: 0, col_len: 8, height: 4 }));
}

#[test]
fn periodic_column_not_power_of_two() {
    let mut raw = raw_chip(vec![Node::Periodic { column: 0 }], vec![]);
    raw.periodic = vec![vec![Felt::one(); 4], vec![Felt::one(); 5]];
    assert_eq!(ChipMetadata::try_from(raw).err(), Some(ChipError::Periodic(1)));
}

#[test]
fn periodic_reference_out_of_range() {
    let raw = raw_chip(vec![Node::Periodic { column: 0 }], vec![]);
    assert_eq!(
        ChipMetadata::try_from(raw).err(),
        Some(ChipError::NodeError(NodeError::Periodic(0)))
    );
}

#[test]
fn chip_constraint_needs_zerofier() {
    let r = ChipMetadata::try_from(raw_chip(
        vec![Node::Constant(Felt::zero())],
        vec![constraint(0, Some(0)), constraint(0, None)],
    ));
    assert_eq!(r.err(), Some(ChipError::Constraint(1)));
    let r = ChipMetadata::try_from(raw_chip(
        vec![Node::Constant(Felt::zero())],
        vec![constraint(0, Some(1))],
    ));
    assert_eq!(r.err(), Some(ChipError::Constraint(0)));
}

#[test]
fn self_and_forward_references_rejected() {
    let r = ChipMetadata::try_from(raw_chip(vec![Node::Add { lhs_id: 0, rhs_id: 0 }], vec![]));
    assert_eq!(r.err(), Some(ChipError::NodeError(NodeError::InvalidReference(0))));
    let r = ChipMetadata::try_from(raw_chip(
        vec![Node::Constant(Felt::one()), Node::Sub { lhs_id: 0, rhs_id: 2 }],
        vec![],
    ));
    assert_eq!(r.err(), Some(ChipError::NodeError(NodeError::InvalidReference(1))));
}

fn machine(
    num_global_variables: Vec<usize>,
    chips: Vec<RawChipMetadata>,
    nodes: Vec<Node>,
    constraints: Vec<Expression>,
) -> Result<MachineMetadata, MachineError> {
    MachineMetadata::try_from(RawMachineMetadata { num_global_variables, chips, nodes, constraints })
}

#[test]
fn machine_constraints_have_no_zerofier() {
    let nodes = vec![Node::Constant(Felt::one())];
    let m = machine(vec![], vec![], nodes.clone(), vec![constraint(0, None)]).unwrap();
    assert_eq!(m.constraints().len(), 1);
    let r = machine(vec![], vec![], nodes.clone(), vec![constraint(0, Some(0))]);
    assert_eq!(r.err(), Some(MachineError::Constraint(0)));
    let r = machine(vec![], vec![], nodes, vec![constraint(1, None)]);
    assert_eq!(r.err(), Some(MachineError::Constraint(0)));
}

#[test]
fn machine_cross_chip_locals() {
    let local = |chip_id: usize, offset: usize| Node::Var {
        scope: VarScope::Local { chip_id },
        group: 0,
        offset,
        field_type: FieldType::Base,
    };
    let mut c0 = raw_chip(vec![Node::Constant(Felt::one())], vec![]);
    c0.num_local_variables = vec![1];
    let mut c1 = raw_chip(vec![Node::Constant(Felt::one())], vec![]);
    c1.num_local_variables = vec![3];
    let chips = || {
        let mut a = raw_chip(vec![Node::Constant(Felt::one())], vec![]);
        a.num_local_variables = vec![1];
        let mut b = raw_chip(vec![Node::Constant(Felt::one())], vec![]);
        b.num_local_variables = vec![3];
        vec![a, b]
    };
    let m = machine(vec![], vec![c0, c1], vec![local(1, 2), local(0, 0)], vec![]).unwrap();
    assert_eq!(m.chips().len(), 2);
    let r = machine(vec![], chips(), vec![local(0, 1)], vec![]);
    assert_eq!(r.err(), Some(MachineError::Nodes(NodeError::Variable(0))));
    let r = machine(vec![], chips(), vec![local(0, 0), local(2, 0)], vec![]);
    assert_eq!(r.err(), Some(MachineError::Nodes(NodeError::Variable(1))));
}

#[test]
fn machine_globals_and_chip_errors() {
    let global = Node::Var {
        scope: VarScope::Global,
        group: 1,
        offset: 0,
        field_type: FieldType::Ext,
    };
    assert!(machine(vec![0, 4], vec![], vec![global], vec![]).is_ok());
    let r = machine(vec![0, 3], vec![], vec![global], vec![]);
    assert_eq!(r.err(), Some(MachineError::Nodes(NodeError::Variable(0))));
    let chip = raw_chip(vec![global], vec![]);
    let r = machine(vec![0, 3], vec![chip], vec![], vec![]);
    assert_eq!(r.err(), Some(MachineError::Chip(0, ChipError::NodeError(NodeError::Variable(0)))));
    let ok = raw_chip(vec![Node::Constant(Felt::one())], vec![]);
    let bad = raw_chip(vec![Node::Mul { lhs_id: 1, rhs_id: 0 }], vec![]);
    let r = machine(vec![], vec![ok, bad], vec![], vec![]);
    assert_eq!(
        r.err(),
        Some(MachineError::Chip(1, ChipError::NodeError(NodeError::InvalidReference(0))))
    );
    let r = machine(vec![], vec![], vec![Node::Periodic { column: 0 }], vec![]);
    assert_eq!(r.err(), Some(MachineError::Nodes(NodeError::Periodic(0))));
    let r = machine(vec![], vec![], vec![trace(0, 0, 0, FieldType::Base)], vec![]);
    assert_eq!(r.err(), Some(MachineError::Nodes(NodeError::Trace(0))));
}

#[test]
fn machine_getters() {
    let global = Node::Var { scope: VarScope::Global, group: 0, offset: 0, field_type: FieldType::Base };
    let m = machine(
        vec![2],
        vec![raw_chip(vec![global], vec![constraint(0, Some(0))])],
        vec![global, Node::Mul { lhs_id: 0, rhs_id: 0 }],
        vec![constraint(1, None)],
    )
    .unwrap();
    assert_eq!(m.num_global_variables(), &vec![2]);
    assert_eq!(m.nodes().len(), 2);
    assert_eq!(m.chips()[0].degrees(), &vec![0]);
    assert_eq!(m.constraints()[0].node_id, 1);
}
