//! The node language: a straight-line program over trace cells, variables,
//! periodic columns and earlier nodes, and its static analysis.
use crate::field::{
    ext_add, ext_from_base, ext_from_base_seq, ext_mul, ext_sub, ext_unflatten, unflatten_extension,
    ExtFelt, Felt, D,
};
use vstd::slice::slice_subrange;
use p3_matrix::Dimensions;
use vstd::prelude::*;

verus! {

/// p3_matrix's `Dimensions`: a plain pair of public `usize` fields, `width`
/// and `height`, which the library reads and writes directly.
#[verifier::external_type_specification]
pub struct ExDimensions(Dimensions);

/// Whether a reference reads one base element or `D` of them as one
/// extension element.
#[derive(Clone, Copy, Debug, PartialEq, Eq)]
pub enum FieldType {
    Base,
    Ext,
}

/// Which variable vector a `Node::Var` reads.
#[derive(Clone, Copy, Debug, PartialEq, Eq)]
pub enum VarScope {
    /// A shared variable (public value, challenge, ...).
    Global,
    /// A local variable (permutation hint, ...) of chip `chip_id`. Inside a
    /// chip's own nodes `chip_id` is 0 and refers to that chip.
    Local { chip_id: usize },
}

/// One instruction of a straight-line program.
#[derive(Clone, Copy, Debug, PartialEq, Eq)]
pub enum Node {
    Constant(Felt),
    /// A base or extension element of a trace segment, at a row of the window.
    Trace { segment: usize, col_offset: usize, row_offset: usize, field_type: FieldType },
    /// A base or extension element of a variable group.
    Var { scope: VarScope, group: usize, offset: usize, field_type: FieldType },
    /// The value of a periodic column.
    Periodic { column: usize },
    Add { lhs_id: usize, rhs_id: usize },
    Sub { lhs_id: usize, rhs_id: usize },
    Mul { lhs_id: usize, rhs_id: usize },
}

/// A constraint: the node whose value must vanish, and the zerofier that
/// divides it.
#[derive(Clone, Copy, Debug, PartialEq, Eq)]
pub struct Expression {
    pub node_id: usize,
    pub zerofier_id: Option<usize>,
}

#[derive(Clone, Copy, Debug, PartialEq, Eq)]
pub enum NodeError {
    /// An arithmetic node refers to itself or to a later node.
    InvalidReference(usize),
    /// A variable reference is out of range.
    Variable(usize),
    /// A trace reference is out of range.
    Trace(usize),
    /// A periodic column reference is out of range.
    Periodic(usize),
}

/// Number of base elements read for a field type.
pub open spec fn elem_width(ft: FieldType) -> nat {
    match ft {
        FieldType::Base => 1,
        FieldType::Ext => D as nat,
    }
}

/// Whether an element of type `ft` at `offset` overruns a buffer of `width`.
pub open spec fn exceeds_width(width: nat, offset: nat, ft: FieldType) -> bool {
    offset + elem_width(ft) > width
}

/// The operands of an arithmetic node at index `i` precede it.
pub open spec fn refs_earlier(node: Node, i: int) -> bool {
    match node {
        Node::Add { lhs_id, rhs_id } => lhs_id < i && rhs_id < i,
        Node::Sub { lhs_id, rhs_id } => lhs_id < i && rhs_id < i,
        Node::Mul { lhs_id, rhs_id } => lhs_id < i && rhs_id < i,
        _ => true,
    }
}

pub open spec fn is_topological(nodes: Seq<Node>) -> bool {
    forall|i: int| 0 <= i < nodes.len() ==> #[trigger] refs_earlier(nodes[i], i)
}

/// A local variable reference fits `shared[chip_id][group]`.
pub open spec fn local_var_ok(node: Node, shared: Seq<Seq<usize>>) -> bool {
    match node {
        Node::Var { scope: VarScope::Local { chip_id }, group, offset, field_type } => {
            &&& chip_id < shared.len()
            &&& group < shared[chip_id as int].len()
            &&& !exceeds_width(shared[chip_id as int][group as int] as nat, offset as nat, field_type)
        },
        _ => true,
    }
}

/// A global variable reference fits `sizes[group]`.
pub open spec fn global_var_ok(node: Node, sizes: Seq<usize>) -> bool {
    match node {
        Node::Var { scope: VarScope::Global, group, offset, field_type } => {
            &&& group < sizes.len()
            &&& !exceeds_width(sizes[group as int] as nat, offset as nat, field_type)
        },
        _ => true,
    }
}

pub open spec fn periodic_ok(node: Node, num_columns: nat) -> bool {
    match node {
        Node::Periodic { column } => column < num_columns,
        _ => true,
    }
}

/// A trace reference names a segment of `widths`, fits its width, and its
/// row offset leaves room for the window height `row_offset + 1`.
pub open spec fn trace_ok(node: Node, widths: Seq<usize>) -> bool {
    match node {
        Node::Trace { segment, col_offset, row_offset, field_type } => {
            &&& segment < widths.len()
            &&& !exceeds_width(widths[segment as int] as nat, col_offset as nat, field_type)
            &&& row_offset < usize::MAX
        },
        _ => true,
    }
}

/// `i` is the first node whose operands do not precede it.
pub open spec fn first_bad_ref(nodes: Seq<Node>, i: int) -> bool {
    &&& 0 <= i < nodes.len()
    &&& !refs_earlier(nodes[i], i)
    &&& forall|j: int| 0 <= j < i ==> #[trigger] refs_earlier(nodes[j], j)
}

pub open spec fn all_local_vars_ok(nodes: Seq<Node>, shared: Seq<Seq<usize>>) -> bool {
    forall|i: int| 0 <= i < nodes.len() ==> #[trigger] local_var_ok(nodes[i], shared)
}

/// `i` is the first node with a bad local variable reference.
pub open spec fn first_bad_local_var(nodes: Seq<Node>, shared: Seq<Seq<usize>>, i: int) -> bool {
    &&& 0 <= i < nodes.len()
    &&& !local_var_ok(nodes[i], shared)
    &&& forall|j: int| 0 <= j < i ==> #[trigger] local_var_ok(nodes[j], shared)
}

pub open spec fn all_global_vars_ok(nodes: Seq<Node>, sizes: Seq<usize>) -> bool {
    forall|i: int| 0 <= i < nodes.len() ==> #[trigger] global_var_ok(nodes[i], sizes)
}

/// `i` is the first node with a bad global variable reference.
pub open spec fn first_bad_global_var(nodes: Seq<Node>, sizes: Seq<usize>, i: int) -> bool {
    &&& 0 <= i < nodes.len()
    &&& !global_var_ok(nodes[i], sizes)
    &&& forall|j: int| 0 <= j < i ==> #[trigger] global_var_ok(nodes[j], sizes)
}

pub open spec fn all_periodic_ok(nodes: Seq<Node>, num_columns: nat) -> bool {
    forall|i: int| 0 <= i < nodes.len() ==> #[trigger] periodic_ok(nodes[i], num_columns)
}

/// `i` is the first node with a bad periodic column reference.
pub open spec fn first_bad_periodic(nodes: Seq<Node>, num_columns: nat, i: int) -> bool {
    &&& 0 <= i < nodes.len()
    &&& !periodic_ok(nodes[i], num_columns)
    &&& forall|j: int| 0 <= j < i ==> #[trigger] periodic_ok(nodes[j], num_columns)
}

pub open spec fn all_traces_ok(nodes: Seq<Node>, widths: Seq<usize>) -> bool {
    forall|i: int| 0 <= i < nodes.len() ==> #[trigger] trace_ok(nodes[i], widths)
}

/// `i` is the first node with a bad trace reference.
pub open spec fn first_bad_trace(nodes: Seq<Node>, widths: Seq<usize>, i: int) -> bool {
    &&& 0 <= i < nodes.len()
    &&& !trace_ok(nodes[i], widths)
    &&& forall|j: int| 0 <= j < i ==> #[trigger] trace_ok(nodes[j], widths)
}

/// A global variable reference fits the variable vectors `globals`.
pub open spec fn global_var_fits(node: Node, globals: Seq<Vec<Felt>>) -> bool {
    match node {
        Node::Var { scope: VarScope::Global, group, offset, field_type } => {
            &&& group < globals.len()
            &&& offset + elem_width(field_type) <= globals[group as int]@.len()
        },
        _ => true,
    }
}

pub open spec fn all_global_vars_fit(nodes: Seq<Node>, globals: Seq<Vec<Felt>>) -> bool {
    forall|i: int| 0 <= i < nodes.len() ==> #[trigger] global_var_fits(nodes[i], globals)
}

/// The deep view of a list of variable group sizes, one per chip.
pub open spec fn shared_view(s: Seq<&Vec<usize>>) -> Seq<Seq<usize>> {
    s.map_values(|v: &Vec<usize>| v@)
}

pub open spec fn sat_add(a: nat, b: nat) -> nat {
    if a + b > usize::MAX {
        usize::MAX as nat
    } else {
        a + b
    }
}

pub open spec fn max_nat(a: nat, b: nat) -> nat {
    if a >= b {
        a
    } else {
        b
    }
}

/// The arithmetic degree of node `i`: 0 for constants and variables, 1 for
/// trace and periodic values, the larger operand degree for `+` and `-`,
/// and the sum for `*`, saturating at `usize::MAX`.
pub open spec fn degree(nodes: Seq<Node>, i: int) -> nat
    decreases i,
{
    if i < 0 || i >= nodes.len() {
        0
    } else {
        match nodes[i] {
            Node::Constant(_) => 0,
            Node::Var { .. } => 0,
            Node::Trace { .. } => 1,
            Node::Periodic { .. } => 1,
            Node::Add { lhs_id, rhs_id } => if lhs_id < i && rhs_id < i {
                max_nat(degree(nodes, lhs_id as int), degree(nodes, rhs_id as int))
            } else {
                0
            },
            Node::Sub { lhs_id, rhs_id } => if lhs_id < i && rhs_id < i {
                max_nat(degree(nodes, lhs_id as int), degree(nodes, rhs_id as int))
            } else {
                0
            },
            Node::Mul { lhs_id, rhs_id } => if lhs_id < i && rhs_id < i {
                sat_add(degree(nodes, lhs_id as int), degree(nodes, rhs_id as int))
            } else {
                0
            },
        }
    }
}

/// The window height of segment `seg` that `nodes[0..k]` need: one more
/// than the largest row offset read from it, 0 when none reads it.
pub open spec fn segment_height(nodes: Seq<Node>, seg: int, k: int) -> nat
    decreases k,
{
    if k <= 0 {
        0
    } else {
        let h = segment_height(nodes, seg, k - 1);
        match nodes[k - 1] {
            Node::Trace { segment, row_offset, .. } => if segment == seg {
                max_nat(h, row_offset as nat + 1)
            } else {
                h
            },
            _ => h,
        }
    }
}

/// Read-only analysis of a node list whose arithmetic nodes only refer to
/// earlier nodes.
pub struct NodesInfo<'a> {
    nodes: &'a [Node],
}

impl<'a> NodesInfo<'a> {
    #[verifier::type_invariant]
    spec fn inv(self) -> bool {
        is_topological(self.nodes@)
    }

    pub closed spec fn nodes(self) -> Seq<Node> {
        self.nodes@
    }

    /// Checks that every arithmetic node refers to earlier nodes only.
    pub fn new(nodes: &'a [Node]) -> (r: Result<NodesInfo<'a>, NodeError>)
        ensures
            r is Ok <==> is_topological(nodes@),
            r matches Ok(info) ==> info.nodes() == nodes@,
            r matches Err(e) ==> e matches NodeError::InvalidReference(i) && first_bad_ref(
                nodes@,
                i as int,
            ),
    {
        let mut i: usize = 0;
        while i < nodes.len()
            invariant
                i <= nodes@.len(),
                forall|j: int| 0 <= j < i ==> #[trigger] refs_earlier(nodes@[j], j),
            decreases nodes@.len() - i,
        {
            let bad = match nodes[i] {
                Node::Add { lhs_id, rhs_id } => lhs_id >= i || rhs_id >= i,
                Node::Sub { lhs_id, rhs_id } => lhs_id >= i || rhs_id >= i,
                Node::Mul { lhs_id, rhs_id } => lhs_id >= i || rhs_id >= i,
                _ => false,
            };
            if bad {
                assert(!refs_earlier(nodes@[i as int], i as int));
                return Err(NodeError::InvalidReference(i));
            }
            i = i + 1;
        }
        Ok(NodesInfo::new_unchecked(nodes))
    }

    /// Wraps nodes already known to be in topological order.
    pub(crate) fn new_unchecked(nodes: &'a [Node]) -> (r: NodesInfo<'a>)
        requires
            is_topological(nodes@),
        ensures
            r.nodes() == nodes@,
    {
        NodesInfo { nodes }
    }

    /// Checks that an element of type `field_type` at `offset` overruns a
    /// buffer of length `width`.
    fn element_exceeds_width(width: usize, offset: usize, field_type: FieldType) -> (r: bool)
        ensures
            r == exceeds_width(width as nat, offset as nat, field_type),
    {
        let element_width = match field_type {
            FieldType::Base => 1,
            FieldType::Ext => D,
        };
        element_width > width || offset > width - element_width
    }

    /// Checks that every local variable reference `Local { chip_id }` names a
    /// group of `num_shared_vars[chip_id]` and fits in it.
    pub fn validate_shared_variables(&self, num_shared_vars: &[&Vec<usize>]) -> (r: Result<
        (),
        NodeError,
    >)
        ensures
            r is Ok <==> all_local_vars_ok(self.nodes(), shared_view(num_shared_vars@)),
            r matches Err(e) ==> e matches NodeError::Variable(i) && first_bad_local_var(
                self.nodes(),
                shared_view(num_shared_vars@),
                i as int,
            ),
    {
        let ghost shared = shared_view(num_shared_vars@);
        let mut i: usize = 0;
        while i < self.nodes.len()
            invariant
                i <= self.nodes@.len(),
                shared == shared_view(num_shared_vars@),
                forall|j: int| 0 <= j < i ==> #[trigger] local_var_ok(self.nodes@[j], shared),
            decreases self.nodes@.len() - i,
        {
            if let Node::Var { scope: VarScope::Local { chip_id }, group, offset, field_type } =
                self.nodes[i] {
                let ok = chip_id < num_shared_vars.len() && group < num_shared_vars[chip_id].len()
                    && !Self::element_exceeds_width(
                    num_shared_vars[chip_id][group],
                    offset,
                    field_type,
                );
                if !ok {
                    assert(!local_var_ok(self.nodes()[i as int], shared));
                    return Err(NodeError::Variable(i));
                }
            }
            assert(local_var_ok(self.nodes@[i as int], shared));
            i = i + 1;
        }
        Ok(())
    }

    /// Checks that every local variable reference has `chip_id == 0` and fits
    /// the chip's own groups `num_local_variables`.
    pub fn validate_local_variables(&self, num_local_variables: &Vec<usize>) -> (r: Result<
        (),
        NodeError,
    >)
        ensures
            r is Ok <==> all_local_vars_ok(self.nodes(), seq![num_local_variables@]),
            r matches Err(e) ==> e matches NodeError::Variable(i) && first_bad_local_var(
                self.nodes(),
                seq![num_local_variables@],
                i as int,
            ),
    {
        let shared = vec![num_local_variables];
        assert(shared_view(shared@) =~= seq![num_local_variables@]);
        self.validate_shared_variables(shared.as_slice())
    }

    /// Checks that every global variable reference names a group of
    /// `num_variables` and fits in it.
    pub fn validate_global_variables(&self, num_variables: &Vec<usize>) -> (r: Result<
        (),
        NodeError,
    >)
        ensures
            r is Ok <==> all_global_vars_ok(self.nodes(), num_variables@),
            r matches Err(e) ==> e matches NodeError::Variable(i) && first_bad_global_var(
                self.nodes(),
                num_variables@,
                i as int,
            ),
    {
        let mut i: usize = 0;
        while i < self.nodes.len()
            invariant
                i <= self.nodes@.len(),
                forall|j: int| 0 <= j < i ==> #[trigger] global_var_ok(self.nodes@[j], num_variables@),
            decreases self.nodes@.len() - i,
        {
            if let Node::Var { scope: VarScope::Global, group, offset, field_type } = self.nodes[i] {
                if group >= num_variables.len() || Self::element_exceeds_width(
                    num_variables[group],
                    offset,
                    field_type,
                ) {
                    assert(!global_var_ok(self.nodes()[i as int], num_variables@));
                    return Err(NodeError::Variable(i));
                }
            }
            assert(global_var_ok(self.nodes@[i as int], num_variables@));
            i = i + 1;
        }
        Ok(())
    }

    /// Checks that every periodic reference names one of `num_periodic_columns`
    /// columns.
    pub fn validate_periodic(&self, num_periodic_columns: usize) -> (r: Result<(), NodeError>)
        ensures
            r is Ok <==> all_periodic_ok(self.nodes(), num_periodic_columns as nat),
            r matches Err(e) ==> e matches NodeError::Periodic(i) && first_bad_periodic(
                self.nodes(),
                num_periodic_columns as nat,
                i as int,
            ),
    {
        let mut i: usize = 0;
        while i < self.nodes.len()
            invariant
                i <= self.nodes@.len(),
                forall|j: int|
                    0 <= j < i ==> #[trigger] periodic_ok(self.nodes@[j], num_periodic_columns as nat),
            decreases self.nodes@.len() - i,
        {
            if let Node::Periodic { column } = self.nodes[i] {
                if column >= num_periodic_columns {
                    assert(!periodic_ok(self.nodes()[i as int], num_periodic_columns as nat));
                    return Err(NodeError::Periodic(i));
                }
            }
            assert(periodic_ok(self.nodes@[i as int], num_periodic_columns as nat));
            i = i + 1;
        }
        Ok(())
    }

    /// The degree of every node.
    pub fn get_degrees(&self) -> (r: Vec<usize>)
        ensures
            r@.len() == self.nodes().len(),
            forall|i: int| 0 <= i < r@.len() ==> r@[i] == degree(self.nodes(), i),
    {
        proof {
            use_type_invariant(self);
        }
        let mut degrees: Vec<usize> = Vec::with_capacity(self.nodes.len());
        let mut i: usize = 0;
        while i < self.nodes.len()
            invariant
                i <= self.nodes@.len(),
                is_topological(self.nodes@),
                degrees@.len() == i,
                forall|j: int| 0 <= j < i ==> degrees@[j] == degree(self.nodes@, j),
            decreases self.nodes@.len() - i,
        {
            assert(refs_earlier(self.nodes@[i as int], i as int));
            let d: usize = match self.nodes[i] {
                Node::Constant(_) => 0,
                Node::Var { .. } => 0,
                Node::Trace { .. } => 1,
                Node::Periodic { .. } => 1,
                Node::Add { lhs_id, rhs_id } => max_usize(degrees[lhs_id], degrees[rhs_id]),
                Node::Sub { lhs_id, rhs_id } => max_usize(degrees[lhs_id], degrees[rhs_id]),
                Node::Mul { lhs_id, rhs_id } => degrees[lhs_id].saturating_add(degrees[rhs_id]),
            };
            degrees.push(d);
            i = i + 1;
        }
        degrees
    }

    /// The window of each trace segment: its width from `trace_widths`, its
    /// height one more than the largest row offset that reads it.
    pub fn get_dimension(&self, trace_widths: &[usize]) -> (r: Result<Vec<Dimensions>, NodeError>)
        ensures
            r is Ok <==> all_traces_ok(self.nodes(), trace_widths@),
            r matches Ok(dims) ==> dims@.len() == trace_widths@.len() && forall|s: int|
                0 <= s < dims@.len() ==> (#[trigger] dims@[s]).width == trace_widths@[s]
                    && dims@[s].height == segment_height(self.nodes(), s, self.nodes().len() as int),
            r matches Err(e) ==> e matches NodeError::Trace(i) && first_bad_trace(
                self.nodes(),
                trace_widths@,
                i as int,
            ),
    {
        let mut dims: Vec<Dimensions> = Vec::with_capacity(trace_widths.len());
        let mut s: usize = 0;
        while s < trace_widths.len()
            invariant
                s <= trace_widths@.len(),
                dims@.len() == s,
                forall|t: int|
                    0 <= t < s ==> (#[trigger] dims@[t]).width == trace_widths@[t] && dims@[t].height
                        == 0,
            decreases trace_widths@.len() - s,
        {
            dims.push(Dimensions { width: trace_widths[s], height: 0 });
            s = s + 1;
        }
        let ghost nodes = self.nodes();
        let mut i: usize = 0;
        while i < self.nodes.len()
            invariant
                i <= self.nodes@.len(),
                nodes == self.nodes@,
                dims@.len() == trace_widths@.len(),
                forall|t: int|
                    0 <= t < dims@.len() ==> (#[trigger] dims@[t]).width == trace_widths@[t]
                        && dims@[t].height == segment_height(nodes, t, i as int),
                forall|j: int| 0 <= j < i ==> #[trigger] trace_ok(self.nodes@[j], trace_widths@),
            decreases self.nodes@.len() - i,
        {
            if let Node::Trace { segment, col_offset, row_offset, field_type } = self.nodes[i] {
                if segment >= dims.len() || row_offset == usize::MAX
                    || Self::element_exceeds_width(dims[segment].width, col_offset, field_type) {
                    assert(!trace_ok(self.nodes()[i as int], trace_widths@));
                    return Err(NodeError::Trace(i));
                }
                let width = dims[segment].width;
                let height = max_usize(dims[segment].height, row_offset + 1);
                dims.set(segment, Dimensions { width, height });
            }
            assert(trace_ok(self.nodes@[i as int], trace_widths@));
            i = i + 1;
        }
        Ok(dims)
    }
}

/// The variable groups that a reference in `scope` reads.
pub open spec fn vars_of(
    scope: VarScope,
    globals: Seq<Vec<Felt>>,
    locals: Seq<Vec<Vec<Felt>>>,
) -> Seq<Vec<Felt>> {
    match scope {
        VarScope::Global => globals,
        VarScope::Local { chip_id } => locals[chip_id as int]@,
    }
}

/// Every index that evaluating `node` reads is in range: earlier evaluations,
/// variable groups (`locals` indexed by chip, then group), trace segments
/// (`traces[segment][row][column]`) and periodic values.
pub open spec fn node_in_range(
    node: Node,
    num_prev: nat,
    globals: Seq<Vec<Felt>>,
    locals: Seq<Vec<Vec<Felt>>>,
    traces: Seq<Vec<Vec<ExtFelt>>>,
    num_periodic: nat,
) -> bool {
    match node {
        Node::Constant(_) => true,
        Node::Trace { segment, col_offset, row_offset, field_type } => {
            &&& segment < traces.len()
            &&& row_offset < traces[segment as int]@.len()
            &&& col_offset + elem_width(field_type) <= traces[segment as int]@[row_offset as int]@.len()
        },
        Node::Var { scope, group, offset, field_type } => {
            &&& (scope matches VarScope::Local { chip_id } ==> chip_id < locals.len())
            &&& group < vars_of(scope, globals, locals).len()
            &&& offset + elem_width(field_type) <= vars_of(scope, globals, locals)[group as int]@.len()
        },
        Node::Periodic { column } => column < num_periodic,
        Node::Add { lhs_id, rhs_id } => lhs_id < num_prev && rhs_id < num_prev,
        Node::Sub { lhs_id, rhs_id } => lhs_id < num_prev && rhs_id < num_prev,
        Node::Mul { lhs_id, rhs_id } => lhs_id < num_prev && rhs_id < num_prev,
    }
}

/// The value of `node` in the extension field, given the values `prev` of
/// the nodes before it.
pub open spec fn node_value(
    node: Node,
    prev: Seq<ExtFelt>,
    globals: Seq<Vec<Felt>>,
    locals: Seq<Vec<Vec<Felt>>>,
    traces: Seq<Vec<Vec<ExtFelt>>>,
    periodic: Seq<ExtFelt>,
) -> ExtFelt {
    match node {
        Node::Constant(c) => ext_from_base(c),
        Node::Trace { segment, col_offset, row_offset, field_type } => {
            let row = traces[segment as int]@[row_offset as int]@;
            match field_type {
                FieldType::Base => row[col_offset as int],
                FieldType::Ext => ext_unflatten(
                    row.subrange(col_offset as int, col_offset + D as int),
                ),
            }
        },
        Node::Var { scope, group, offset, field_type } => {
            let data = vars_of(scope, globals, locals)[group as int]@;
            match field_type {
                FieldType::Base => ext_from_base(data[offset as int]),
                FieldType::Ext => ext_from_base_seq(data.subrange(offset as int, offset + D as int)),
            }
        },
        Node::Periodic { column } => periodic[column as int],
        Node::Add { lhs_id, rhs_id } => ext_add(prev[lhs_id as int], prev[rhs_id as int]),
        Node::Sub { lhs_id, rhs_id } => ext_sub(prev[lhs_id as int], prev[rhs_id as int]),
        Node::Mul { lhs_id, rhs_id } => ext_mul(prev[lhs_id as int], prev[rhs_id as int]),
    }
}

impl Node {
    /// Given the evaluations of the preceding nodes, evaluates this node over
    /// the extension field.
    pub fn eval(
        &self,
        prev_evals: &[ExtFelt],
        global_variables: &[Vec<Felt>],
        local_variables: &[Vec<Vec<Felt>>],
        trace_evals: &[Vec<Vec<ExtFelt>>],
        periodic_evals: &[ExtFelt],
    ) -> (r: ExtFelt)
        requires
            node_in_range(
                *self,
                prev_evals@.len(),
                global_variables@,
                local_variables@,
                trace_evals@,
                periodic_evals@.len(),
            ),
        ensures
            r == node_value(
                *self,
                prev_evals@,
                global_variables@,
                local_variables@,
                trace_evals@,
                periodic_evals@,
            ),
    {
        match *self {
            Node::Constant(c) => ExtFelt::from_base(c),
            Node::Trace { segment, col_offset, row_offset, field_type } => {
                let row = &trace_evals[segment][row_offset];
                let _width = row.len();
                match field_type {
                    FieldType::Base => row[col_offset],
                    FieldType::Ext => {
                        let bases = slice_subrange(row.as_slice(), col_offset, col_offset + D);
                        unflatten_extension(bases)
                    },
                }
            },
            Node::Var { scope, group, offset, field_type } => {
                let variables = match scope {
                    VarScope::Global => global_variables,
                    VarScope::Local { chip_id } => local_variables[chip_id].as_slice(),
                };
                let data = &variables[group];
                let _width = data.len();
                match field_type {
                    FieldType::Base => ExtFelt::from_base(data[offset]),
                    FieldType::Ext => ExtFelt::from_base_slice(
                        slice_subrange(data.as_slice(), offset, offset + D),
                    ),
                }
            },
            Node::Periodic { column } => periodic_evals[column],
            Node::Add { lhs_id, rhs_id } => prev_evals[lhs_id].add(prev_evals[rhs_id]),
            Node::Sub { lhs_id, rhs_id } => prev_evals[lhs_id].sub(prev_evals[rhs_id]),
            Node::Mul { lhs_id, rhs_id } => prev_evals[lhs_id].mul(prev_evals[rhs_id]),
        }
    }
}

fn max_usize(a: usize, b: usize) -> (r: usize)
    ensures
        r == max_nat(a as nat, b as nat),
{
    if a >= b {
        a
    } else {
        b
    }
}

} // verus!
