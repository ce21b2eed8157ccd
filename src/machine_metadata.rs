//! Validated machine: its chips and the cross-chip constraint layer.
use crate::chip_metadata::{chip_error_is, raw_chip_valid, ChipError, ChipMetadata, RawChipMetadata};
use crate::node::{
    all_global_vars_ok, all_local_vars_ok, all_periodic_ok, all_traces_ok, first_bad_global_var,
    first_bad_local_var, first_bad_periodic, first_bad_ref, first_bad_trace, is_topological,
    refs_earlier, shared_view, Expression, Node, NodeError, NodesInfo,
};
use vstd::prelude::*;

verus! {

/// An unvalidated machine description.
pub struct RawMachineMetadata {
    pub num_global_variables: Vec<usize>,
    pub chips: Vec<RawChipMetadata>,
    pub nodes: Vec<Node>,
    pub constraints: Vec<Expression>,
}

#[derive(Clone, Copy, Debug, PartialEq, Eq)]
pub enum MachineError {
    /// The chip at this index is invalid.
    Chip(usize, ChipError),
    /// A machine-level node is invalid.
    Nodes(NodeError),
    /// The machine constraint has a zerofier or an invalid node.
    Constraint(usize),
}

/// The checks on the machine's own nodes, in order: topological order, no
/// periodic column, no trace, global variables in range.
pub open spec fn machine_nodes_ok(nodes: Seq<Node>, num_global: Seq<usize>) -> bool {
    &&& is_topological(nodes)
    &&& all_periodic_ok(nodes, 0)
    &&& all_traces_ok(nodes, seq![])
    &&& all_global_vars_ok(nodes, num_global)
}

/// A raw chip is valid and its global variable references fit `num_global`.
pub open spec fn raw_chip_ok_in(chip: RawChipMetadata, num_global: Seq<usize>) -> bool {
    raw_chip_valid(chip) && all_global_vars_ok(chip.nodes@, num_global)
}

pub open spec fn all_chips_ok(chips: Seq<RawChipMetadata>, num_global: Seq<usize>) -> bool {
    forall|c: int| 0 <= c < chips.len() ==> #[trigger] raw_chip_ok_in(chips[c], num_global)
}

/// The local variable groups of each chip.
pub open spec fn chip_locals(chips: Seq<RawChipMetadata>) -> Seq<Seq<usize>> {
    chips.map_values(|c: RawChipMetadata| c.num_local_variables@)
}

/// `e` is the error that chip validation reports for `chip`: its own error,
/// or the first global variable reference that does not fit.
pub open spec fn chip_failure_is(chip: RawChipMetadata, num_global: Seq<usize>, e: ChipError) -> bool {
    ||| !raw_chip_valid(chip) && chip_error_is(chip, e)
    ||| raw_chip_valid(chip) && (e matches ChipError::NodeError(NodeError::Variable(v))
        && first_bad_global_var(chip.nodes@, num_global, v as int))
}

/// A machine constraint names an existing node and has no zerofier.
pub open spec fn machine_constraint_ok(c: Expression, num_nodes: nat) -> bool {
    c.node_id < num_nodes && c.zerofier_id is None
}

pub open spec fn all_machine_constraints_ok(cs: Seq<Expression>, num_nodes: nat) -> bool {
    forall|k: int| 0 <= k < cs.len() ==> #[trigger] machine_constraint_ok(cs[k], num_nodes)
}

/// All checks of a raw machine pass.
pub open spec fn raw_machine_valid(raw: RawMachineMetadata) -> bool {
    &&& machine_nodes_ok(raw.nodes@, raw.num_global_variables@)
    &&& all_chips_ok(raw.chips@, raw.num_global_variables@)
    &&& all_local_vars_ok(raw.nodes@, chip_locals(raw.chips@))
    &&& all_machine_constraints_ok(raw.constraints@, raw.nodes@.len())
}

/// `e` is the error of the first check that the raw machine fails, at the
/// first offending index.
pub open spec fn machine_error_is(raw: RawMachineMetadata, e: MachineError) -> bool {
    let n = raw.nodes@;
    let g = raw.num_global_variables@;
    match e {
        MachineError::Nodes(NodeError::InvalidReference(i)) => first_bad_ref(n, i as int),
        MachineError::Nodes(NodeError::Periodic(i)) => is_topological(n) && first_bad_periodic(
            n,
            0,
            i as int,
        ),
        MachineError::Nodes(NodeError::Trace(i)) => is_topological(n) && all_periodic_ok(n, 0)
            && first_bad_trace(n, seq![], i as int),
        MachineError::Nodes(NodeError::Variable(i)) => {
            ||| is_topological(n) && all_periodic_ok(n, 0) && all_traces_ok(n, seq![])
                && first_bad_global_var(n, g, i as int)
            ||| machine_nodes_ok(n, g) && all_chips_ok(raw.chips@, g) && first_bad_local_var(
                n,
                chip_locals(raw.chips@),
                i as int,
            )
        },
        MachineError::Chip(c, ce) => {
            &&& machine_nodes_ok(n, g)
            &&& c < raw.chips@.len()
            &&& forall|j: int| 0 <= j < c ==> #[trigger] raw_chip_ok_in(raw.chips@[j], g)
            &&& chip_failure_is(raw.chips@[c as int], g, ce)
        },
        MachineError::Constraint(k) => {
            &&& machine_nodes_ok(n, g)
            &&& all_chips_ok(raw.chips@, g)
            &&& all_local_vars_ok(n, chip_locals(raw.chips@))
            &&& 0 <= k < raw.constraints@.len()
            &&& !machine_constraint_ok(raw.constraints@[k as int], n.len())
            &&& forall|j: int|
                0 <= j < k ==> #[trigger] machine_constraint_ok(raw.constraints@[j], n.len())
        },
    }
}

/// Validated machine; immutable once built.
pub struct MachineMetadata {
    num_global_variables: Vec<usize>,
    chips: Vec<ChipMetadata>,
    nodes: Vec<Node>,
    constraints: Vec<Expression>,
}

impl MachineMetadata {
    pub closed spec fn spec_num_global_variables(self) -> Seq<usize> {
        self.num_global_variables@
    }

    pub closed spec fn spec_chips(self) -> Seq<ChipMetadata> {
        self.chips@
    }

    pub closed spec fn spec_nodes(self) -> Seq<Node> {
        self.nodes@
    }

    pub closed spec fn spec_constraints(self) -> Seq<Expression> {
        self.constraints@
    }

    /// What every built machine satisfies.
    #[verifier::type_invariant]
    pub open spec fn wf(self) -> bool {
        let g = self.spec_num_global_variables();
        let chips = self.spec_chips();
        &&& machine_nodes_ok(self.spec_nodes(), g)
        &&& forall|c: int|
            0 <= c < chips.len() ==> all_global_vars_ok((#[trigger] chips[c]).spec_nodes(), g)
        &&& all_local_vars_ok(
            self.spec_nodes(),
            chips.map_values(|c: ChipMetadata| c.spec_num_local_variables()),
        )
        &&& all_machine_constraints_ok(self.spec_constraints(), self.spec_nodes().len())
    }

    /// Validates a raw machine, failing on the first check that does not hold.
    pub fn try_from(raw: RawMachineMetadata) -> (r: Result<MachineMetadata, MachineError>)
        ensures
            r is Ok <==> raw_machine_valid(raw),
            r matches Err(e) ==> machine_error_is(raw, e),
            r matches Ok(m) ==> {
                &&& m.wf()
                &&& m.spec_num_global_variables() == raw.num_global_variables@
                &&& m.spec_nodes() == raw.nodes@
                &&& m.spec_constraints() == raw.constraints@
                &&& m.spec_chips().len() == raw.chips@.len()
                &&& forall|c: int|
                    0 <= c < raw.chips@.len() ==> (#[trigger] m.spec_chips()[c]).built_from(
                        raw.chips@[c],
                    )
            },
    {
        let RawMachineMetadata { num_global_variables, chips, nodes, constraints } = raw;
        let machine_nodes_info = match NodesInfo::new(nodes.as_slice()) {
            Ok(info) => info,
            Err(e) => return Err(MachineError::Nodes(e)),
        };
        // No periodic columns at machine level.
        if let Err(e) = machine_nodes_info.validate_periodic(0) {
            return Err(MachineError::Nodes(e));
        }
        // No trace at machine level.
        let no_widths: Vec<usize> = Vec::new();
        if let Err(e) = machine_nodes_info.get_dimension(no_widths.as_slice()) {
            assert(no_widths@ =~= seq![]);
            return Err(MachineError::Nodes(e));
        }
        assert(no_widths@ =~= seq![]);
        if let Err(e) = machine_nodes_info.validate_global_variables(&num_global_variables) {
            return Err(MachineError::Nodes(e));
        }
        let mut rest = chips;
        let num_chips = rest.len();
        let mut built: Vec<ChipMetadata> = Vec::with_capacity(num_chips);
        let mut c: usize = 0;
        while rest.len() > 0
            invariant
                raw.chips@.len() == num_chips,
                raw.chips@.len() == c + rest@.len(),
                rest@ == raw.chips@.subrange(c as int, raw.chips@.len() as int),
                built@.len() == c,
                raw.nodes@ == nodes@,
                raw.num_global_variables@ == num_global_variables@,
                raw.constraints@ == constraints@,
                machine_nodes_ok(nodes@, num_global_variables@),
                machine_nodes_info.nodes() == nodes@,
                forall|j: int|
                    0 <= j < c ==> #[trigger] raw_chip_ok_in(raw.chips@[j], num_global_variables@),
                forall|j: int| 0 <= j < c ==> (#[trigger] built@[j]).built_from(raw.chips@[j]),
                forall|j: int|
                    0 <= j < c ==> all_global_vars_ok(
                        (#[trigger] built@[j]).spec_nodes(),
                        num_global_variables@,
                    ),
            decreases rest@.len(),
        {
            let raw_chip = rest.remove(0);
            assert(raw_chip == raw.chips@[c as int]);
            let chip = match ChipMetadata::try_from(raw_chip) {
                Ok(chip) => chip,
                Err(e) => {
                    assert(!raw_chip_ok_in(raw.chips@[c as int], num_global_variables@));
                    return Err(MachineError::Chip(c, e));
                },
            };
            // The chip's nodes may reference global variables too.
            if let Err(e) = chip.node_info().validate_global_variables(&num_global_variables) {
                assert(!raw_chip_ok_in(raw.chips@[c as int], num_global_variables@));
                return Err(MachineError::Chip(c, ChipError::NodeError(e)));
            }
            built.push(chip);
            c = c + 1;
        }
        // Machine nodes may reference the local variables of any chip.
        let mut shared: Vec<&Vec<usize>> = Vec::with_capacity(built.len());
        let mut c: usize = 0;
        while c < built.len()
            invariant
                c <= built@.len(),
                shared@.len() == c,
                built@.len() == raw.chips@.len(),
                forall|j: int| 0 <= j < built@.len() ==> (#[trigger] built@[j]).built_from(raw.chips@[j]),
                forall|j: int|
                    0 <= j < c ==> (#[trigger] shared@[j])@ == raw.chips@[j].num_local_variables@,
            decreases built@.len() - c,
        {
            shared.push(built[c].num_local_variables());
            c = c + 1;
        }
        assert(shared_view(shared@) =~= chip_locals(raw.chips@));
        if let Err(e) = machine_nodes_info.validate_shared_variables(shared.as_slice()) {
            return Err(MachineError::Nodes(e));
        }
        let ghost locals = built@.map_values(|c: ChipMetadata| c.spec_num_local_variables());
        assert(locals =~= chip_locals(raw.chips@));
        let mut k: usize = 0;
        while k < constraints.len()
            invariant
                k <= constraints@.len(),
                raw.constraints@ == constraints@,
                raw.nodes@ == nodes@,
                raw.num_global_variables@ == num_global_variables@,
                machine_nodes_ok(raw.nodes@, raw.num_global_variables@),
                all_chips_ok(raw.chips@, raw.num_global_variables@),
                all_local_vars_ok(raw.nodes@, chip_locals(raw.chips@)),
                forall|j: int|
                    0 <= j < k ==> #[trigger] machine_constraint_ok(constraints@[j], nodes@.len()),
            decreases constraints@.len() - k,
        {
            if constraints[k].node_id >= nodes.len() || constraints[k].zerofier_id.is_some() {
                assert(!machine_constraint_ok(constraints@[k as int], nodes@.len()));
                return Err(MachineError::Constraint(k));
            }
            k = k + 1;
        }
        let m = MachineMetadata { num_global_variables, chips: built, nodes, constraints };
        proof {
            use_type_invariant(&m);
        }
        Ok(m)
    }

    pub fn num_global_variables(&self) -> (r: &Vec<usize>)
        ensures
            r@ == self.spec_num_global_variables(),
    {
        &self.num_global_variables
    }

    pub fn chips(&self) -> (r: &Vec<ChipMetadata>)
        ensures
            r@ == self.spec_chips(),
    {
        &self.chips
    }

    pub fn nodes(&self) -> (r: &Vec<Node>)
        ensures
            r@ == self.spec_nodes(),
    {
        &self.nodes
    }

    pub fn constraints(&self) -> (r: &Vec<Expression>)
        ensures
            r@ == self.spec_constraints(),
    {
        &self.constraints
    }
}

/// Evaluating a built machine's nodes in index order only reads values
/// already computed: each arithmetic node's operands come before it.
pub proof fn lemma_machine_evaluation_reads_earlier(m: MachineMetadata)
    requires
        m.wf(),
    ensures
        forall|i: int|
            0 <= i < m.spec_nodes().len() ==> match #[trigger] m.spec_nodes()[i] {
                Node::Add { lhs_id, rhs_id } => lhs_id < i && rhs_id < i,
                Node::Sub { lhs_id, rhs_id } => lhs_id < i && rhs_id < i,
                Node::Mul { lhs_id, rhs_id } => lhs_id < i && rhs_id < i,
                _ => true,
            },
{
    assert forall|i: int| 0 <= i < m.spec_nodes().len() implies match #[trigger] m.spec_nodes()[i] {
        Node::Add { lhs_id, rhs_id } => lhs_id < i && rhs_id < i,
        Node::Sub { lhs_id, rhs_id } => lhs_id < i && rhs_id < i,
        Node::Mul { lhs_id, rhs_id } => lhs_id < i && rhs_id < i,
        _ => true,
    } by {
        assert(refs_earlier(m.spec_nodes()[i], i));
    }
}

} // verus!
