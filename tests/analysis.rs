use verify::{
    checked_next_power_of_two, is_power_of_two, ChipData, ChipError, ChipMetadata, DataError,
    Exponent, Expression, ExtFelt, Felt, FieldType, Node, NodeError, NodesInfo, RawChipMetadata,
    VarScope, ZerofierExpression, P,
};

fn ext(c: [u32; 4]) -> ExtFelt {
    ExtFelt { c0: Felt::new(c[0]), c1: Felt::new(c[1]), c2: Felt::new(c[2]), c3: Felt::new(c[3]) }
}

fn base(v: u32) -> ExtFelt {
    ExtFelt::from_base(Felt::new(v))
}

fn encode(v: ExtFelt) -> Vec<ExtFelt> {
    vec![base(v.c0.val), base(v.c1.val), base(v.c2.val), base(v.c3.val)]
}

fn chip_with(nodes: Vec<Node>, zerofiers: Vec<ZerofierExpression>, constraints: Vec<Expression>) -> RawChipMetadata {
    RawChipMetadata {
        num_local_variables: vec![],
        trace_widths: vec![],
        zerofiers,
        periodic: vec![],
        nodes,
        constraints,
    }
}

#[test]
fn exponent_power() {
    assert_eq!(Exponent::First(3).power(8), 3);
    assert_eq!(Exponent::Last(3).power(8), 5);
    assert_eq!(Exponent::Rate(4).power(8), 2);
    assert!(!Exponent::Last(9).is_defined_for(8));
    assert!(!Exponent::Rate(3).is_defined_for(8));
    assert!(!Exponent::Rate(0).is_defined_for(8));
    assert!(Exponent::Rate(8).is_defined_for(8));
}

#[test]
fn zerofier_eval() {
    let x = ext([2, 0, 0, 0]);
    let g = Felt::new(3);
    let z = ZerofierExpression::Sub(
        Box::new(ZerofierExpression::X(Exponent::Rate(2))),
        Box::new(ZerofierExpression::Constant(Felt::one())),
    );
    assert_eq!(z.eval(x, g, 8), Some(base(15)));
    let gz = ZerofierExpression::Mul(
        Box::new(ZerofierExpression::G(Exponent::Last(1))),
        Box::new(ZerofierExpression::X(Exponent::First(1))),
    );
    assert_eq!(gz.eval(x, g, 4), Some(base(54)));
    let div = ZerofierExpression::Div(
        Box::new(ZerofierExpression::Constant(Felt::one())),
        Box::new(ZerofierExpression::Add(
            Box::new(ZerofierExpression::X(Exponent::First(0))),
            Box::new(ZerofierExpression::Constant(Felt::new(P - 1))),
        )),
    );
    assert_eq!(div.eval(x, g, 4), None);
    let half = ZerofierExpression::Div(
        Box::new(ZerofierExpression::Constant(Felt::one())),
        Box::new(ZerofierExpression::X(Exponent::First(1))),
    );
    assert_eq!(half.eval(x, g, 4), Some(base((P + 1) / 2)));
    assert_eq!(ZerofierExpression::X(Exponent::Last(5)).eval(x, g, 4), None);
}

#[test]
fn node_eval() {
    let traces = vec![vec![vec![base(1), base(2), base(3), base(4), base(5)]]];
    let globals = vec![vec![Felt::new(7), Felt::new(8), Felt::new(9), Felt::new(10), Felt::new(11)]];
    let locals = vec![vec![vec![Felt::new(20)]]];
    let periodic = vec![base(30)];
    let prev = vec![base(6), base(7)];
    let ev = |n: Node| n.eval(&prev, &globals, &locals, &traces, &periodic);
    let t = |col, ft| Node::Trace { segment: 0, col_offset: col, row_offset: 0, field_type: ft };
    assert_eq!(ev(t(1, FieldType::Base)), base(2));
    assert_eq!(ev(t(1, FieldType::Ext)), ext([2, 3, 4, 5]));
    let v = |scope, offset, ft| Node::Var { scope, group: 0, offset, field_type: ft };
    assert_eq!(ev(v(VarScope::Global, 1, FieldType::Ext)), ext([8, 9, 10, 11]));
    assert_eq!(ev(v(VarScope::Global, 4, FieldType::Base)), base(11));
    assert_eq!(ev(v(VarScope::Local { chip_id: 0 }, 0, FieldType::Base)), base(20));
    assert_eq!(ev(Node::Periodic { column: 0 }), base(30));
    assert_eq!(ev(Node::Constant(Felt::new(P + 2))), base(2));
    assert_eq!(ev(Node::Add { lhs_id: 0, rhs_id: 1 }), base(13));
    assert_eq!(ev(Node::Sub { lhs_id: 0, rhs_id: 1 }), base(P - 1));
    assert_eq!(ev(Node::Mul { lhs_id: 0, rhs_id: 1 }), base(42));
}

#[test]
fn nodes_info_analysis() {
    let nodes = vec![
        Node::Trace { segment: 1, col_offset: 0, row_offset: 2, field_type: FieldType::Ext },
        Node::Periodic { column: 0 },
        Node::Add { lhs_id: 0, rhs_id: 1 },
        Node::Trace { segment: 1, col_offset: 4, row_offset: 0, field_type: FieldType::Base },
        Node::Mul { lhs_id: 2, rhs_id: 3 },
        Node::Var { scope: VarScope::Global, group: 0, offset: 0, field_type: FieldType::Base },
        Node::Sub { lhs_id: 5, rhs_id: 4 },
    ];
    let info = NodesInfo::new(&nodes).unwrap();
    assert_eq!(info.get_degrees(), vec![1, 1, 1, 1, 2, 0, 2]);
    let dims = info.get_dimension(&[3, 5]).unwrap();
    assert_eq!((dims[0].width, dims[0].height), (3, 0));
    assert_eq!((dims[1].width, dims[1].height), (5, 3));
    assert_eq!(info.get_dimension(&[3, 4]).err(), Some(NodeError::Trace(3)));
    assert_eq!(info.get_dimension(&[3]).err(), Some(NodeError::Trace(0)));
    assert_eq!(info.validate_periodic(1), Ok(()));
    assert_eq!(info.validate_periodic(0), Err(NodeError::Periodic(1)));
    assert_eq!(info.validate_global_variables(&vec![1]), Ok(()));
    assert_eq!(info.validate_global_variables(&vec![0]), Err(NodeError::Variable(5)));
    assert_eq!(info.validate_local_variables(&vec![]), Ok(()));
    let b = vec![1usize];
    assert_eq!(info.validate_shared_variables(&[&b]), Ok(()));
}

#[test]
fn row_offset_at_limit_rejected() {
    let nodes = vec![Node::Trace {
        segment: 0,
        col_offset: 0,
        row_offset: usize::MAX,
        field_type: FieldType::Base,
    }];
    let info = NodesInfo::new(&nodes).unwrap();
    assert_eq!(info.get_dimension(&[1]).err(), Some(NodeError::Trace(0)));
}

#[test]
fn saturating_degrees() {
    let mut nodes = vec![Node::Trace { segment: 0, col_offset: 0, row_offset: 0, field_type: FieldType::Base }];
    for i in 0..70 {
        nodes.push(Node::Mul { lhs_id: i, rhs_id: i });
    }
    let degrees = NodesInfo::new(&nodes).unwrap().get_degrees();
    assert_eq!(degrees[10], 1024);
    assert_eq!(degrees[63], 1 << 63);
    assert_eq!(degrees[64], usize::MAX);
    assert_eq!(degrees[70], usize::MAX);
}

#[test]
fn powers_of_two() {
    assert!(!is_power_of_two(0));
    assert!(is_power_of_two(1));
    assert!(is_power_of_two(1 << 40));
    assert!(!is_power_of_two(6));
    assert_eq!(checked_next_power_of_two(0), Some(1));
    assert_eq!(checked_next_power_of_two(3), Some(4));
    assert_eq!(checked_next_power_of_two(8), Some(8));
    assert_eq!(checked_next_power_of_two(9), Some(16));
    assert_eq!(checked_next_power_of_two((1 << 63) + 1), None);
}

fn shaped_chip() -> ChipMetadata {
    let raw = RawChipMetadata {
        num_local_variables: vec![1, 2],
        trace_widths: vec![2],
        zerofiers: vec![ZerofierExpression::Constant(Felt::one())],
        periodic: vec![],
        nodes: vec![Node::Trace { segment: 0, col_offset: 1, row_offset: 1, field_type: FieldType::Base }],
        constraints: vec![Expression { node_id: 0, zerofier_id: Some(0) }],
    };
    ChipMetadata::try_from(raw).unwrap()
}

#[test]
fn data_shape_errors() {
    let chip = shaped_chip();
    let locals = || vec![vec![Felt::one()], vec![Felt::one(), Felt::one()]];
    let traces = || vec![vec![vec![base(1), base(2)], vec![base(3), base(4)]]];
    let q = || encode(ExtFelt::zero());
    assert!(ChipData::new(&chip, locals(), traces(), q(), 27).is_ok());
    assert_eq!(
        ChipData::new(&chip, locals(), traces(), q(), 28).err(),
        Some(DataError::LogHeight { actual: 28, max: 27 })
    );
    assert_eq!(
        ChipData::new(&chip, vec![], traces(), q(), 1).err(),
        Some(DataError::NumLocalVariableGroups { actual: 0, expected: 2 })
    );
    assert_eq!(
        ChipData::new(&chip, locals(), vec![], q(), 1).err(),
        Some(DataError::NumTraces { actual: 0, expected: 1 })
    );
    assert_eq!(
        ChipData::new(&chip, locals(), vec![vec![vec![base(1), base(2)]]], q(), 1).err(),
        Some(DataError::SegmentHeight { segment_index: 0, actual: 1, expected: 2 })
    );
    assert_eq!(
        ChipData::new(&chip, locals(), vec![vec![vec![base(1), base(2)], vec![base(3)]]], q(), 1)
            .err(),
        Some(DataError::SegmentRowWidth { segment_index: 0, row_index: 1, actual: 1, expected: 2 })
    );
    assert_eq!(
        ChipData::new(&chip, locals(), traces(), vec![ExtFelt::zero(); 8], 1).err(),
        Some(DataError::NumQuotientEvals { actual: 8, expected: 4 })
    );
    let data = ChipData::new(&chip, locals(), traces(), q(), 5).unwrap();
    assert_eq!(data.log_height(), 5);
    assert_eq!(data.local_variables().len(), 2);
    assert_eq!(data.trace_evals()[0][1][1], base(4));
    assert_eq!(data.quotient_evals().len(), 4);
    assert_eq!(data.chip().trace_window_dimensions()[0].height, 2);
    assert_eq!(chip.num_local_variables(), &vec![1, 2]);
    assert_eq!(chip.zerofiers().len(), 1);
    assert_eq!(chip.periodic().len(), 0);
    assert_eq!(chip.nodes().len(), 1);
    assert_eq!(chip.constraints().len(), 1);
    assert_eq!(chip.node_info().get_degrees(), vec![1]);
}

#[test]
fn quotient_with_trace_and_two_constraints() {
    let raw = RawChipMetadata {
        num_local_variables: vec![],
        trace_widths: vec![1],
        zerofiers: vec![
            ZerofierExpression::Constant(Felt::new(2)),
            ZerofierExpression::X(Exponent::First(1)),
        ],
        periodic: vec![],
        nodes: vec![Node::Trace { segment: 0, col_offset: 0, row_offset: 0, field_type: FieldType::Base }],
        constraints: vec![
            Expression { node_id: 0, zerofier_id: Some(0) },
            Expression { node_id: 0, zerofier_id: Some(1) },
        ],
    };
    let chip = ChipMetadata::try_from(raw).unwrap();
    let t = base(10);
    let zeta = base(5);
    let alpha = base(3);
    // 10 / 2 + 3 * 10 / 5 = 11
    let data = ChipData::new(&chip, vec![], vec![vec![vec![t]]], encode(base(11)), 1).unwrap();
    assert_eq!(data.check_quotient(&[], zeta, alpha), Ok(()));
    let data = ChipData::new(&chip, vec![], vec![vec![vec![t]]], encode(base(12)), 1).unwrap();
    assert_eq!(data.check_quotient(&[], zeta, alpha), Err(DataError::InvalidQuotient));
    let data = ChipData::new(&chip, vec![], vec![vec![vec![t]]], encode(base(11)), 1).unwrap();
    assert_eq!(
        data.check_quotient(&[], ExtFelt::zero(), alpha),
        Err(DataError::UndefinedZerofierEval(1))
    );
}

#[test]
fn generator_zerofier() {
    // With log height 1 the generator is -1, so the quotient is 1 / -1 = -1.
    let chip = ChipMetadata::try_from(chip_with(
        vec![Node::Constant(Felt::one())],
        vec![ZerofierExpression::G(Exponent::First(1))],
        vec![Expression { node_id: 0, zerofier_id: Some(0) }],
    ))
    .unwrap();
    let minus_one = base(P - 1);
    let data = ChipData::new(&chip, vec![], vec![], encode(minus_one), 1).unwrap();
    assert_eq!(data.check_quotient(&[], base(7), base(9)), Ok(()));
    assert_eq!(data.check_quotient_at(&[], base(7), base(9), Felt::new(P - 1)), Ok(()));
    assert_eq!(
        data.check_quotient_at(&[], base(7), base(9), Felt::one()),
        Err(DataError::InvalidQuotient)
    );
}

#[test]
fn horner_over_chunks() {
    // Degree-4 constraint: four chunks q_i with q(zeta) = sum q_i zeta^(n i).
    let raw = RawChipMetadata {
        num_local_variables: vec![],
        trace_widths: vec![1],
        zerofiers: vec![ZerofierExpression::Constant(Felt::one())],
        periodic: vec![],
        nodes: vec![
            Node::Trace { segment: 0, col_offset: 0, row_offset: 0, field_type: FieldType::Base },
            Node::Mul { lhs_id: 0, rhs_id: 0 },
            Node::Mul { lhs_id: 1, rhs_id: 1 },
        ],
        constraints: vec![Expression { node_id: 2, zerofier_id: Some(0) }],
    };
    let chip = ChipMetadata::try_from(raw).unwrap();
    assert_eq!(chip.num_quotient_evals(), Some(4));
    // n = 2 and zeta = 2, so zeta^n = 4: chunks 1, 2, 3, 4 give 1 + 8 + 48 + 256 = 313,
    // while the constraint's value is t^4 = 1.
    let mut q = Vec::new();
    for c in [1u32, 2, 3, 4] {
        q.extend(encode(base(c)));
    }
    let data = ChipData::new(&chip, vec![], vec![vec![vec![base(1)]]], q.clone(), 1).unwrap();
    assert_eq!(data.check_quotient(&[], base(2), base(5)), Err(DataError::InvalidQuotient));
    // Chunks (P - 311, 2, 3, 4) give 313 - 312 = 1.
    let mut q = Vec::new();
    for c in [P - 311, 2, 3, 4] {
        q.extend(encode(base(c)));
    }
    let data = ChipData::new(&chip, vec![], vec![vec![vec![base(1)]]], q, 1).unwrap();
    assert_eq!(data.check_quotient(&[], base(2), base(5)), Ok(()));
}

#[test]
fn chip_error_order() {
    let raw = RawChipMetadata {
        num_local_variables: vec![],
        trace_widths: vec![],
        zerofiers: vec![],
        periodic: vec![vec![Felt::one(); 3]],
        nodes: vec![
            Node::Var { scope: VarScope::Local { chip_id: 1 }, group: 0, offset: 0, field_type: FieldType::Base },
            Node::Periodic { column: 5 },
        ],
        constraints: vec![Expression { node_id: 9, zerofier_id: None }],
    };
    assert_eq!(
        ChipMetadata::try_from(raw).err(),
        Some(ChipError::NodeError(NodeError::Variable(0)))
    );
}

#[test]
fn quotient_padding_is_power_of_two() {
    let nodes = vec![
        Node::Trace { segment: 0, col_offset: 0, row_offset: 0, field_type: FieldType::Base },
        Node::Mul { lhs_id: 0, rhs_id: 0 },
        Node::Mul { lhs_id: 0, rhs_id: 1 },
        Node::Mul { lhs_id: 1, rhs_id: 1 },
        Node::Mul { lhs_id: 3, rhs_id: 0 },
        Node::Mul { lhs_id: 3, rhs_id: 4 },
    ];
    let count = |node_id: usize| {
        let raw = RawChipMetadata {
            num_local_variables: vec![],
            trace_widths: vec![1],
            zerofiers: vec![ZerofierExpression::Constant(Felt::one())],
            periodic: vec![],
            nodes: nodes.clone(),
            constraints: vec![Expression { node_id, zerofier_id: Some(0) }],
        };
        let chip = ChipMetadata::try_from(raw).unwrap();
        (chip.max_constraint_degree(), chip.num_quotient_evals())
    };
    assert_eq!(count(1), (2, Some(1)));
    assert_eq!(count(2), (3, Some(2)));
    assert_eq!(count(3), (4, Some(4)));
    assert_eq!(count(4), (5, Some(4)));
    assert_eq!(count(5), (9, Some(8)));
}

#[test]
fn generator_of_order_four() {
    // With log height 2 the generator g has g^2 = -1.
    let chip = ChipMetadata::try_from(chip_with(
        vec![Node::Constant(Felt::one())],
        vec![ZerofierExpression::G(Exponent::First(2))],
        vec![Expression { node_id: 0, zerofier_id: Some(0) }],
    ))
    .unwrap();
    let data = ChipData::new(&chip, vec![], vec![], encode(base(P - 1)), 2).unwrap();
    assert_eq!(data.check_quotient(&[], base(7), base(9)), Ok(()));
}

#[test]
fn periodic_columns_evaluate_to_zero() {
    let raw = RawChipMetadata {
        num_local_variables: vec![],
        trace_widths: vec![],
        zerofiers: vec![ZerofierExpression::Constant(Felt::one())],
        periodic: vec![vec![Felt::new(5), Felt::new(6)]],
        nodes: vec![
            Node::Periodic { column: 0 },
            Node::Constant(Felt::new(3)),
            Node::Add { lhs_id: 0, rhs_id: 1 },
        ],
        constraints: vec![Expression { node_id: 2, zerofier_id: Some(0) }],
    };
    let chip = ChipMetadata::try_from(raw).unwrap();
    let data = ChipData::new(&chip, vec![], vec![], encode(base(3)), 1).unwrap();
    assert_eq!(data.check_quotient(&[], base(7), base(9)), Ok(()));
}

#[test]
fn quotient_reads_globals_and_locals() {
    let raw = RawChipMetadata {
        num_local_variables: vec![4],
        trace_widths: vec![],
        zerofiers: vec![ZerofierExpression::Constant(Felt::one())],
        periodic: vec![],
        nodes: vec![
            Node::Var { scope: VarScope::Global, group: 0, offset: 1, field_type: FieldType::Base },
            Node::Var { scope: VarScope::Local { chip_id: 0 }, group: 0, offset: 0, field_type: FieldType::Ext },
            Node::Mul { lhs_id: 0, rhs_id: 1 },
        ],
        constraints: vec![Expression { node_id: 2, zerofier_id: Some(0) }],
    };
    let chip = ChipMetadata::try_from(raw).unwrap();
    let locals = vec![vec![Felt::new(1), Felt::new(2), Felt::new(3), Felt::new(4)]];
    let globals = vec![vec![Felt::new(0), Felt::new(10)]];
    let data = ChipData::new(&chip, locals, vec![], encode(ext([10, 20, 30, 40])), 0).unwrap();
    assert_eq!(data.check_quotient(&globals, base(7), base(9)), Ok(()));
}
