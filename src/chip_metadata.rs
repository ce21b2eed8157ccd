//! Validated constraint system of one chip.
use crate::field::Felt;
use crate::node::{
    max_nat, refs_earlier, all_local_vars_ok, all_periodic_ok, all_traces_ok, degree, first_bad_local_var,
    first_bad_periodic, first_bad_ref, first_bad_trace, is_topological, segment_height,
    Expression, Node, NodeError, NodesInfo,
};
use crate::zerofier::ZerofierExpression;
use p3_matrix::Dimensions;
use vstd::prelude::*;

verus! {

/// An unvalidated chip description.
pub struct RawChipMetadata {
    pub num_local_variables: Vec<usize>,
    pub trace_widths: Vec<usize>,
    pub zerofiers: Vec<ZerofierExpression>,
    pub periodic: Vec<Vec<Felt>>,
    pub nodes: Vec<Node>,
    pub constraints: Vec<Expression>,
}

#[derive(Clone, Copy, Debug, PartialEq, Eq)]
pub enum ChipError {
    NodeError(NodeError),
    /// The periodic column's length is not a power of two.
    Periodic(usize),
    /// The constraint has no zerofier, an invalid one, or an invalid node.
    Constraint(usize),
}

/// `n` is a power of two.
pub open spec fn is_pow2(n: nat) -> bool
    decreases n,
{
    if n == 0 {
        false
    } else if n == 1 {
        true
    } else {
        n % 2 == 0 && is_pow2(n / 2)
    }
}

/// The least power of two that is at least `x`.
pub open spec fn next_pow2(x: nat) -> nat
    decreases x,
{
    if x <= 1 {
        1
    } else {
        2 * next_pow2(((x + 1) / 2) as nat)
    }
}

pub open spec fn all_periodic_pow2(periodic: Seq<Vec<Felt>>) -> bool {
    forall|c: int| 0 <= c < periodic.len() ==> is_pow2(#[trigger] periodic[c]@.len())
}

/// `c` is the first periodic column whose length is not a power of two.
pub open spec fn first_periodic_not_pow2(periodic: Seq<Vec<Felt>>, c: int) -> bool {
    &&& 0 <= c < periodic.len()
    &&& !is_pow2(periodic[c]@.len())
    &&& forall|d: int| 0 <= d < c ==> is_pow2(#[trigger] periodic[d]@.len())
}

/// A chip constraint names an existing node and an existing zerofier.
pub open spec fn chip_constraint_ok(c: Expression, num_nodes: nat, num_zerofiers: nat) -> bool {
    &&& c.node_id < num_nodes
    &&& c.zerofier_id matches Some(z) && z < num_zerofiers
}

pub open spec fn all_chip_constraints_ok(
    cs: Seq<Expression>,
    num_nodes: nat,
    num_zerofiers: nat,
) -> bool {
    forall|k: int| 0 <= k < cs.len() ==> #[trigger] chip_constraint_ok(cs[k], num_nodes, num_zerofiers)
}

/// `k` is the first constraint that is not a valid chip constraint.
pub open spec fn first_bad_chip_constraint(
    cs: Seq<Expression>,
    num_nodes: nat,
    num_zerofiers: nat,
    k: int,
) -> bool {
    &&& 0 <= k < cs.len()
    &&& !chip_constraint_ok(cs[k], num_nodes, num_zerofiers)
    &&& forall|j: int| 0 <= j < k ==> #[trigger] chip_constraint_ok(cs[j], num_nodes, num_zerofiers)
}

/// The widths of a list of windows.
pub open spec fn widths_of(dims: Seq<Dimensions>) -> Seq<usize> {
    dims.map_values(|d: Dimensions| d.width)
}

/// The node checks of a chip, in the order in which they are made: topological
/// order, local variables of the chip itself (`chip_id == 0`), trace
/// references, periodic references.
pub open spec fn chip_nodes_ok(
    nodes: Seq<Node>,
    num_local_variables: Seq<usize>,
    trace_widths: Seq<usize>,
    num_periodic: nat,
) -> bool {
    &&& is_topological(nodes)
    &&& all_local_vars_ok(nodes, seq![num_local_variables])
    &&& all_traces_ok(nodes, trace_widths)
    &&& all_periodic_ok(nodes, num_periodic)
}

/// All checks of a raw chip pass.
pub open spec fn raw_chip_valid(raw: RawChipMetadata) -> bool {
    &&& chip_nodes_ok(
        raw.nodes@,
        raw.num_local_variables@,
        raw.trace_widths@,
        raw.periodic@.len(),
    )
    &&& all_periodic_pow2(raw.periodic@)
    &&& all_chip_constraints_ok(raw.constraints@, raw.nodes@.len(), raw.zerofiers@.len())
}

/// `e` is the error of the first check that the raw chip fails, at the first
/// offending index.
pub open spec fn chip_error_is(raw: RawChipMetadata, e: ChipError) -> bool {
    let n = raw.nodes@;
    let locals = seq![raw.num_local_variables@];
    match e {
        ChipError::NodeError(NodeError::InvalidReference(i)) => first_bad_ref(n, i as int),
        ChipError::NodeError(NodeError::Variable(i)) => is_topological(n) && first_bad_local_var(
            n,
            locals,
            i as int,
        ),
        ChipError::NodeError(NodeError::Trace(i)) => is_topological(n) && all_local_vars_ok(
            n,
            locals,
        ) && first_bad_trace(n, raw.trace_widths@, i as int),
        ChipError::NodeError(NodeError::Periodic(i)) => is_topological(n) && all_local_vars_ok(
            n,
            locals,
        ) && all_traces_ok(n, raw.trace_widths@) && first_bad_periodic(
            n,
            raw.periodic@.len(),
            i as int,
        ),
        ChipError::Periodic(c) => chip_nodes_ok(
            n,
            raw.num_local_variables@,
            raw.trace_widths@,
            raw.periodic@.len(),
        ) && first_periodic_not_pow2(raw.periodic@, c as int),
        ChipError::Constraint(k) => chip_nodes_ok(
            n,
            raw.num_local_variables@,
            raw.trace_widths@,
            raw.periodic@.len(),
        ) && all_periodic_pow2(raw.periodic@) && first_bad_chip_constraint(
            raw.constraints@,
            n.len(),
            raw.zerofiers@.len(),
            k as int,
        ),
    }
}

/// The largest degree among the constraints `cs[0..k]`, 0 when there are none.
pub open spec fn max_degree_upto(cs: Seq<Expression>, degrees: Seq<usize>, k: int) -> nat
    decreases k,
{
    if k <= 0 {
        0
    } else {
        let m = max_degree_upto(cs, degrees, k - 1);
        let d = degrees[cs[k - 1].node_id as int] as nat;
        if d > m {
            d
        } else {
            m
        }
    }
}

/// Number of quotient chunks for a maximal constraint degree `mcd`: the degree
/// is padded to at least 2, the zerofier division takes one off, and the
/// count is rounded up to a power of two.
pub open spec fn quotient_count(mcd: nat) -> nat {
    let padded: nat = if mcd < 2 {
        2
    } else {
        mcd
    };
    next_pow2((padded - 1) as nat)
}

/// Validated constraint system of one chip; immutable once built.
pub struct ChipMetadata {
    num_local_variables: Vec<usize>,
    trace_window_dimensions: Vec<Dimensions>,
    periodic: Vec<Vec<Felt>>,
    zerofiers: Vec<ZerofierExpression>,
    nodes: Vec<Node>,
    constraints: Vec<Expression>,
    degrees: Vec<usize>,
}

impl ChipMetadata {
    pub closed spec fn spec_num_local_variables(self) -> Seq<usize> {
        self.num_local_variables@
    }

    pub closed spec fn spec_trace_window_dimensions(self) -> Seq<Dimensions> {
        self.trace_window_dimensions@
    }

    pub closed spec fn spec_periodic(self) -> Seq<Vec<Felt>> {
        self.periodic@
    }

    pub closed spec fn spec_zerofiers(self) -> Seq<ZerofierExpression> {
        self.zerofiers@
    }

    pub closed spec fn spec_nodes(self) -> Seq<Node> {
        self.nodes@
    }

    pub closed spec fn spec_constraints(self) -> Seq<Expression> {
        self.constraints@
    }

    pub closed spec fn spec_degrees(self) -> Seq<usize> {
        self.degrees@
    }

    /// What every built chip satisfies.
    #[verifier::type_invariant]
    pub open spec fn wf(self) -> bool {
        let nodes = self.spec_nodes();
        let dims = self.spec_trace_window_dimensions();
        &&& chip_nodes_ok(
            nodes,
            self.spec_num_local_variables(),
            widths_of(dims),
            self.spec_periodic().len(),
        )
        &&& forall|s: int|
            0 <= s < dims.len() ==> (#[trigger] dims[s]).height == segment_height(
                nodes,
                s,
                nodes.len() as int,
            )
        &&& all_periodic_pow2(self.spec_periodic())
        &&& all_chip_constraints_ok(
            self.spec_constraints(),
            nodes.len(),
            self.spec_zerofiers().len(),
        )
        &&& self.spec_degrees().len() == nodes.len()
        &&& forall|i: int|
            0 <= i < nodes.len() ==> #[trigger] self.spec_degrees()[i] == degree(nodes, i)
    }

    /// This chip holds what `raw` describes.
    pub open spec fn built_from(self, raw: RawChipMetadata) -> bool {
        &&& self.spec_num_local_variables() == raw.num_local_variables@
        &&& widths_of(self.spec_trace_window_dimensions()) == raw.trace_widths@
        &&& self.spec_periodic() == raw.periodic@
        &&& self.spec_zerofiers() == raw.zerofiers@
        &&& self.spec_nodes() == raw.nodes@
        &&& self.spec_constraints() == raw.constraints@
    }

    /// The largest degree of a constraint's node.
    pub open spec fn spec_max_constraint_degree(self) -> nat {
        max_degree_upto(
            self.spec_constraints(),
            self.spec_degrees(),
            self.spec_constraints().len() as int,
        )
    }

    /// Validates a raw chip, failing on the first check that does not hold.
    pub fn try_from(raw: RawChipMetadata) -> (r: Result<ChipMetadata, ChipError>)
        ensures
            r is Ok <==> raw_chip_valid(raw),
            r matches Err(e) ==> chip_error_is(raw, e),
            r matches Ok(chip) ==> chip.built_from(raw) && chip.wf(),
    {
        let RawChipMetadata {
            num_local_variables,
            trace_widths,
            zerofiers,
            periodic,
            nodes,
            constraints,
        } = raw;
        let nodes_info = match NodesInfo::new(nodes.as_slice()) {
            Ok(info) => info,
            Err(e) => return Err(ChipError::NodeError(e)),
        };
        // Nodes may only reference the chip's own local variables.
        if let Err(e) = nodes_info.validate_local_variables(&num_local_variables) {
            return Err(ChipError::NodeError(e));
        }
        let trace_window_dimensions = match nodes_info.get_dimension(trace_widths.as_slice()) {
            Ok(dims) => dims,
            Err(e) => return Err(ChipError::NodeError(e)),
        };
        if let Err(e) = nodes_info.validate_periodic(periodic.len()) {
            return Err(ChipError::NodeError(e));
        }
        let mut c: usize = 0;
        while c < periodic.len()
            invariant
                c <= periodic@.len(),
                raw.nodes@ == nodes@,
                raw.num_local_variables@ == num_local_variables@,
                raw.trace_widths@ == trace_widths@,
                raw.periodic@ == periodic@,
                raw.zerofiers@ == zerofiers@,
                raw.constraints@ == constraints@,
                chip_nodes_ok(nodes@, num_local_variables@, trace_widths@, periodic@.len()),
                forall|d: int| 0 <= d < c ==> is_pow2(#[trigger] periodic@[d]@.len()),
            decreases periodic@.len() - c,
        {
            if !is_power_of_two(periodic[c].len()) {
                assert(!is_pow2(periodic@[c as int]@.len()));
                return Err(ChipError::Periodic(c));
            }
            c = c + 1;
        }
        let mut k: usize = 0;
        while k < constraints.len()
            invariant
                k <= constraints@.len(),
                raw.nodes@ == nodes@,
                raw.num_local_variables@ == num_local_variables@,
                raw.trace_widths@ == trace_widths@,
                raw.periodic@ == periodic@,
                raw.zerofiers@ == zerofiers@,
                raw.constraints@ == constraints@,
                chip_nodes_ok(nodes@, num_local_variables@, trace_widths@, periodic@.len()),
                all_periodic_pow2(periodic@),
                forall|j: int|
                    0 <= j < k ==> #[trigger] chip_constraint_ok(
                        constraints@[j],
                        nodes@.len(),
                        zerofiers@.len(),
                    ),
            decreases constraints@.len() - k,
        {
            let constraint = constraints[k];
            let ok = constraint.node_id < nodes.len() && match constraint.zerofier_id {
                Some(z) => z < zerofiers.len(),
                None => false,
            };
            if !ok {
                assert(!chip_constraint_ok(constraints@[k as int], nodes@.len(), zerofiers@.len()));
                return Err(ChipError::Constraint(k));
            }
            k = k + 1;
        }
        let degrees = nodes_info.get_degrees();
        proof {
            assert(widths_of(trace_window_dimensions@) =~= trace_widths@);
        }
        let chip = ChipMetadata {
            num_local_variables,
            trace_window_dimensions,
            periodic,
            zerofiers,
            nodes,
            constraints,
            degrees,
        };
        proof {
            use_type_invariant(&chip);
        }
        Ok(chip)
    }
}

impl ChipMetadata {
    /// The largest degree of a constraint's node, 0 without constraints.
    pub fn max_constraint_degree(&self) -> (r: usize)
        ensures
            r == self.spec_max_constraint_degree(),
    {
        proof {
            use_type_invariant(self);
        }
        let mut m: usize = 0;
        let mut k: usize = 0;
        while k < self.constraints.len()
            invariant
                self.wf(),
                k <= self.constraints@.len(),
                m == max_degree_upto(self.constraints@, self.degrees@, k as int),
            decreases self.constraints@.len() - k,
        {
            assert(chip_constraint_ok(
                self.constraints@[k as int],
                self.nodes@.len(),
                self.zerofiers@.len(),
            ));
            let d = self.degrees[self.constraints[k].node_id];
            if d > m {
                m = d;
            }
            k = k + 1;
        }
        m
    }

    /// Number of extension elements in the quotient's decomposition, or `None`
    /// when it does not fit in `usize`.
    pub fn num_quotient_evals(&self) -> (r: Option<usize>)
        ensures
            r is None <==> quotient_count(self.spec_max_constraint_degree()) > usize::MAX,
            r matches Some(v) ==> v == quotient_count(self.spec_max_constraint_degree()),
    {
        // A quotient argument needs at least degree 2.
        let mut max_degree = self.max_constraint_degree();
        if max_degree < 2 {
            max_degree = 2;
        }
        // Dividing by the zerofier takes one off the degree; the quotient is
        // padded to a power of two so that it splits evenly.
        checked_next_power_of_two(max_degree - 1)
    }

    /// The analysis of this chip's nodes.
    pub fn node_info(&self) -> (r: NodesInfo<'_>)
        ensures
            r.nodes() == self.spec_nodes(),
    {
        proof {
            use_type_invariant(self);
        }
        NodesInfo::new_unchecked(self.nodes.as_slice())
    }

    pub fn num_local_variables(&self) -> (r: &Vec<usize>)
        ensures
            r@ == self.spec_num_local_variables(),
    {
        &self.num_local_variables
    }

    pub fn trace_window_dimensions(&self) -> (r: &Vec<Dimensions>)
        ensures
            r@ == self.spec_trace_window_dimensions(),
    {
        &self.trace_window_dimensions
    }

    pub fn periodic(&self) -> (r: &Vec<Vec<Felt>>)
        ensures
            r@ == self.spec_periodic(),
    {
        &self.periodic
    }

    pub fn zerofiers(&self) -> (r: &Vec<ZerofierExpression>)
        ensures
            r@ == self.spec_zerofiers(),
    {
        &self.zerofiers
    }

    pub fn nodes(&self) -> (r: &Vec<Node>)
        ensures
            r@ == self.spec_nodes(),
    {
        &self.nodes
    }

    pub fn constraints(&self) -> (r: &Vec<Expression>)
        ensures
            r@ == self.spec_constraints(),
    {
        &self.constraints
    }

    pub fn degrees(&self) -> (r: &Vec<usize>)
        ensures
            r@ == self.spec_degrees(),
    {
        &self.degrees
    }
}

/// Evaluating a built chip's nodes in index order only reads values already
/// computed: each arithmetic node's operands come before it.
pub proof fn lemma_chip_evaluation_reads_earlier(chip: ChipMetadata)
    requires
        chip.wf(),
    ensures
        forall|i: int|
            0 <= i < chip.spec_nodes().len() ==> match #[trigger] chip.spec_nodes()[i] {
                Node::Add { lhs_id, rhs_id } => lhs_id < i && rhs_id < i,
                Node::Sub { lhs_id, rhs_id } => lhs_id < i && rhs_id < i,
                Node::Mul { lhs_id, rhs_id } => lhs_id < i && rhs_id < i,
                _ => true,
            },
{
    assert forall|i: int| 0 <= i < chip.spec_nodes().len() implies match #[trigger] chip.spec_nodes()[i] {
        Node::Add { lhs_id, rhs_id } => lhs_id < i && rhs_id < i,
        Node::Sub { lhs_id, rhs_id } => lhs_id < i && rhs_id < i,
        Node::Mul { lhs_id, rhs_id } => lhs_id < i && rhs_id < i,
        _ => true,
    } by {
        assert(refs_earlier(chip.spec_nodes()[i], i));
    }
}

/// The degree of each node of a built chip follows the rules: 0 for constants
/// and variables, 1 for trace and periodic values, the larger operand degree
/// for `+` and `-`, and the sum of the operand degrees for `*` (when it fits
/// in `usize`).
pub proof fn lemma_chip_degree_rules(chip: ChipMetadata, i: int)
    requires
        chip.wf(),
        0 <= i < chip.spec_nodes().len(),
    ensures
        ({
            let d = chip.spec_degrees();
            match chip.spec_nodes()[i] {
                Node::Constant(_) => d[i] == 0,
                Node::Var { .. } => d[i] == 0,
                Node::Trace { .. } => d[i] == 1,
                Node::Periodic { .. } => d[i] == 1,
                Node::Add { lhs_id, rhs_id } => d[i] == max_nat(
                    d[lhs_id as int] as nat,
                    d[rhs_id as int] as nat,
                ),
                Node::Sub { lhs_id, rhs_id } => d[i] == max_nat(
                    d[lhs_id as int] as nat,
                    d[rhs_id as int] as nat,
                ),
                Node::Mul { lhs_id, rhs_id } => d[lhs_id as int] + d[rhs_id as int] <= usize::MAX
                    ==> d[i] == d[lhs_id as int] + d[rhs_id as int],
            }
        }),
{
    let nodes = chip.spec_nodes();
    assert(refs_earlier(nodes[i], i));
    assert(chip.spec_degrees()[i] == degree(nodes, i));
    match nodes[i] {
        Node::Add { lhs_id, rhs_id } => {
            assert(chip.spec_degrees()[lhs_id as int] == degree(nodes, lhs_id as int));
            assert(chip.spec_degrees()[rhs_id as int] == degree(nodes, rhs_id as int));
        },
        Node::Sub { lhs_id, rhs_id } => {
            assert(chip.spec_degrees()[lhs_id as int] == degree(nodes, lhs_id as int));
            assert(chip.spec_degrees()[rhs_id as int] == degree(nodes, rhs_id as int));
        },
        Node::Mul { lhs_id, rhs_id } => {
            assert(chip.spec_degrees()[lhs_id as int] == degree(nodes, lhs_id as int));
            assert(chip.spec_degrees()[rhs_id as int] == degree(nodes, rhs_id as int));
        },
        _ => {},
    }
}

/// `next_pow2(x)` is a power of two, at least `x`, and the least such: its
/// half is below `x` unless it is 1.
pub proof fn lemma_next_pow2(x: nat)
    ensures
        is_pow2(next_pow2(x)),
        next_pow2(x) >= x,
        next_pow2(x) >= 1,
        next_pow2(x) == 1 || next_pow2(x) / 2 < x,
    decreases x,
{
    if x > 1 {
        let h = ((x + 1) / 2) as nat;
        lemma_next_pow2(h);
        assert((2 * next_pow2(h)) / 2 == next_pow2(h));
        assert((2 * next_pow2(h)) % 2 == 0);
    }
}

/// The number of quotient chunks is a power of two, at least 1, and the least
/// power of two that is at least `max(2, mcd) - 1`.
pub proof fn lemma_quotient_count_padding(mcd: nat)
    ensures
        ({
            let padded: int = if mcd < 2 {
                1
            } else {
                mcd - 1
            };
            let q = quotient_count(mcd);
            &&& is_pow2(q)
            &&& q >= 1
            &&& q >= padded
            &&& (q == 1 || q / 2 < padded)
        }),
        mcd <= 2 ==> quotient_count(mcd) == 1,
{
    let padded: nat = if mcd < 2 {
        2
    } else {
        mcd
    };
    lemma_next_pow2((padded - 1) as nat);
    if mcd <= 2 {
        assert(next_pow2(1) == 1);
    }
}

/// The least power of two that is at least `x`, or `None` when it does not
/// fit in `usize`.
pub fn checked_next_power_of_two(x: usize) -> (r: Option<usize>)
    ensures
        r is None <==> next_pow2(x as nat) > usize::MAX,
        r matches Some(v) ==> v == next_pow2(x as nat),
    decreases x,
{
    if x <= 1 {
        Some(1)
    } else {
        let half = x / 2 + x % 2;
        assert(half == (x + 1) / 2);
        match checked_next_power_of_two(half) {
            Some(h) => if h <= usize::MAX / 2 {
                Some(2 * h)
            } else {
                None
            },
            None => None,
        }
    }
}

/// Whether `n` is a power of two.
pub fn is_power_of_two(n: usize) -> (r: bool)
    ensures
        r == is_pow2(n as nat),
{
    let mut m = n;
    while m > 1 && m % 2 == 0
        invariant
            is_pow2(m as nat) == is_pow2(n as nat),
        decreases m,
    {
        m = m / 2;
    }
    m == 1
}

} // verus!
