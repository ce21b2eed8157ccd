//! Witness data of one chip and the quotient identity check.
use crate::chip_metadata::{chip_constraint_ok, quotient_count, widths_of, ChipMetadata};
use crate::field::{
    ext_add, ext_exp_power_of_2, ext_inverse, ext_is_zero, ext_mul, ext_unflatten,
    ext_zero, two_adic_generator, two_adic_generator_of, unflatten_extension, ExtFelt, Felt, D,
    TWO_ADICITY,
};
use crate::node::{
    all_global_vars_fit, global_var_fits, local_var_ok, node_in_range, node_value, periodic_ok,
    refs_earlier, segment_height, trace_ok, Expression, Node,
};
use crate::zerofier::ZerofierExpression;
use p3_matrix::Dimensions;
use vstd::arithmetic::power2::{lemma2_to64, lemma_pow2_strictly_increases, lemma_pow2_unfold, pow2};
use vstd::prelude::*;
use vstd::slice::slice_subrange;

verus! {

#[derive(Clone, Copy, Debug, PartialEq, Eq)]
pub enum DataError {
    /// The trace's log height exceeds the field's two-adicity.
    LogHeight { actual: usize, max: usize },
    NumLocalVariableGroups { actual: usize, expected: usize },
    NumLocalVariables { group: usize, actual: usize, expected: usize },
    NumTraces { actual: usize, expected: usize },
    SegmentHeight { segment_index: usize, actual: usize, expected: usize },
    SegmentRowWidth { segment_index: usize, row_index: usize, actual: usize, expected: usize },
    NumQuotientEvals { actual: usize, expected: usize },
    /// The trace is shorter than a periodic column.
    MinHeight { column_index: usize, col_len: usize, height: usize },
    UndefinedZerofierEval(usize),
    InvalidQuotient,
}

/// Every periodic column fits in a trace of `height` rows.
pub open spec fn periodic_fits(periodic: Seq<Vec<Felt>>, height: nat) -> bool {
    forall|c: int| 0 <= c < periodic.len() ==> (#[trigger] periodic[c])@.len() <= height
}

pub open spec fn local_groups_ok(locals: Seq<Vec<Felt>>, sizes: Seq<usize>) -> bool {
    forall|g: int| 0 <= g < sizes.len() ==> (#[trigger] locals[g])@.len() == sizes[g]
}

/// A segment has the window's height, and every row its width.
pub open spec fn segment_shape_ok(rows: Seq<Vec<ExtFelt>>, dim: Dimensions) -> bool {
    &&& rows.len() == dim.height
    &&& forall|r: int| 0 <= r < rows.len() ==> (#[trigger] rows[r])@.len() == dim.width
}

pub open spec fn segments_ok(traces: Seq<Vec<Vec<ExtFelt>>>, dims: Seq<Dimensions>) -> bool {
    forall|s: int| 0 <= s < dims.len() ==> segment_shape_ok((#[trigger] traces[s])@, dims[s])
}

/// Number of quotient scalars a chip expects: `D` per quotient chunk.
pub open spec fn quotient_len(chip: ChipMetadata) -> nat {
    quotient_count(chip.spec_max_constraint_degree()) * D as nat
}

/// The witness has the shape that `chip` declares, in the order of the checks.
pub open spec fn data_shape_ok(
    chip: ChipMetadata,
    locals: Seq<Vec<Felt>>,
    traces: Seq<Vec<Vec<ExtFelt>>>,
    num_quotient: nat,
    log_height: nat,
) -> bool {
    &&& log_height <= TWO_ADICITY
    &&& periodic_fits(chip.spec_periodic(), pow2(log_height))
    &&& locals.len() == chip.spec_num_local_variables().len()
    &&& local_groups_ok(locals, chip.spec_num_local_variables())
    &&& traces.len() == chip.spec_trace_window_dimensions().len()
    &&& segments_ok(traces, chip.spec_trace_window_dimensions())
    &&& num_quotient == quotient_len(chip)
}

/// `e` is the error of the first shape check that fails, at the first
/// offending index.
pub open spec fn data_error_is(
    chip: ChipMetadata,
    locals: Seq<Vec<Felt>>,
    traces: Seq<Vec<Vec<ExtFelt>>>,
    num_quotient: nat,
    log_height: nat,
    e: DataError,
) -> bool {
    let periodic = chip.spec_periodic();
    let sizes = chip.spec_num_local_variables();
    let dims = chip.spec_trace_window_dimensions();
    let height = pow2(log_height);
    match e {
        DataError::LogHeight { actual, max } => log_height > TWO_ADICITY && actual == log_height
            && max == TWO_ADICITY,
        DataError::MinHeight { column_index, col_len, height: h } => {
            &&& log_height <= TWO_ADICITY
            &&& column_index < periodic.len()
            &&& forall|c: int| 0 <= c < column_index ==> (#[trigger] periodic[c])@.len() <= height
            &&& col_len == periodic[column_index as int]@.len()
            &&& col_len > height
            &&& h == height
        },
        DataError::NumLocalVariableGroups { actual, expected } => {
            &&& log_height <= TWO_ADICITY
            &&& periodic_fits(periodic, height)
            &&& actual == locals.len()
            &&& expected == sizes.len()
            &&& actual != expected
        },
        DataError::NumLocalVariables { group, actual, expected } => {
            &&& log_height <= TWO_ADICITY
            &&& periodic_fits(periodic, height)
            &&& locals.len() == sizes.len()
            &&& group < sizes.len()
            &&& forall|g: int| 0 <= g < group ==> (#[trigger] locals[g])@.len() == sizes[g]
            &&& actual == locals[group as int]@.len()
            &&& expected == sizes[group as int]
            &&& actual != expected
        },
        DataError::NumTraces { actual, expected } => {
            &&& log_height <= TWO_ADICITY
            &&& periodic_fits(periodic, height)
            &&& locals.len() == sizes.len()
            &&& local_groups_ok(locals, sizes)
            &&& actual == traces.len()
            &&& expected == dims.len()
            &&& actual != expected
        },
        DataError::SegmentHeight { segment_index: s, actual, expected } => {
            &&& log_height <= TWO_ADICITY
            &&& periodic_fits(periodic, height)
            &&& locals.len() == sizes.len()
            &&& local_groups_ok(locals, sizes)
            &&& traces.len() == dims.len()
            &&& s < dims.len()
            &&& forall|t: int| 0 <= t < s ==> segment_shape_ok((#[trigger] traces[t])@, dims[t])
            &&& actual == traces[s as int]@.len()
            &&& expected == dims[s as int].height
            &&& actual != expected
        },
        DataError::SegmentRowWidth { segment_index: s, row_index: r, actual, expected } => {
            &&& log_height <= TWO_ADICITY
            &&& periodic_fits(periodic, height)
            &&& locals.len() == sizes.len()
            &&& local_groups_ok(locals, sizes)
            &&& traces.len() == dims.len()
            &&& s < dims.len()
            &&& forall|t: int| 0 <= t < s ==> segment_shape_ok((#[trigger] traces[t])@, dims[t])
            &&& traces[s as int]@.len() == dims[s as int].height
            &&& r < traces[s as int]@.len()
            &&& forall|q: int|
                0 <= q < r ==> (#[trigger] traces[s as int]@[q])@.len() == dims[s as int].width
            &&& actual == traces[s as int]@[r as int]@.len()
            &&& expected == dims[s as int].width
            &&& actual != expected
        },
        DataError::NumQuotientEvals { actual, expected } => {
            &&& log_height <= TWO_ADICITY
            &&& periodic_fits(periodic, height)
            &&& locals.len() == sizes.len()
            &&& local_groups_ok(locals, sizes)
            &&& traces.len() == dims.len()
            &&& segments_ok(traces, dims)
            &&& actual == num_quotient
            &&& num_quotient != quotient_len(chip)
            &&& expected == if quotient_len(chip) > usize::MAX {
                usize::MAX as nat
            } else {
                quotient_len(chip)
            }
        },
        _ => false,
    }
}

/// Values of the first `k` nodes, each evaluated on the values before it.
pub open spec fn node_evals(
    nodes: Seq<Node>,
    k: nat,
    globals: Seq<Vec<Felt>>,
    locals: Seq<Vec<Vec<Felt>>>,
    traces: Seq<Vec<Vec<ExtFelt>>>,
    periodic: Seq<ExtFelt>,
) -> Seq<ExtFelt>
    decreases k,
{
    if k == 0 {
        seq![]
    } else {
        let prev = node_evals(nodes, (k - 1) as nat, globals, locals, traces, periodic);
        prev.push(node_value(nodes[k - 1], prev, globals, locals, traces, periodic))
    }
}

/// The inverse of a zerofier's value, when the value is defined and non-zero.
pub open spec fn inverse_zerofier(z: ZerofierExpression, zeta: ExtFelt, g: Felt, n: nat) -> Option<
    ExtFelt,
> {
    match z.eval_spec(zeta, g, n) {
        Some(v) => if ext_is_zero(v) {
            None
        } else {
            Some(ext_inverse(v))
        },
        None => None,
    }
}

/// The first of `zs[0..k]` that has no inverse value.
pub open spec fn first_undefined_zerofier(
    zs: Seq<ZerofierExpression>,
    zeta: ExtFelt,
    g: Felt,
    n: nat,
    k: int,
) -> Option<nat>
    decreases k,
{
    if k <= 0 {
        None
    } else {
        match first_undefined_zerofier(zs, zeta, g, n, k - 1) {
            Some(i) => Some(i),
            None => if inverse_zerofier(zs[k - 1], zeta, g, n) is None {
                Some((k - 1) as nat)
            } else {
                None
            },
        }
    }
}

/// The zerofier that a chip constraint names.
pub open spec fn zerofier_of(c: Expression) -> int {
    match c.zerofier_id {
        Some(z) => z as int,
        None => 0,
    }
}

/// `sum_{j >= k} alpha^(j - k) * evals[cs[j].node_id] * inv_z[zerofier of cs[j]]`,
/// folded from the last constraint: `acc * alpha + term`.
pub open spec fn combine_constraints(
    cs: Seq<Expression>,
    evals: Seq<ExtFelt>,
    inv_z: Seq<ExtFelt>,
    alpha: ExtFelt,
    k: int,
) -> ExtFelt
    decreases cs.len() - k,
{
    if k < 0 || k >= cs.len() {
        ext_zero()
    } else {
        ext_add(
            ext_mul(combine_constraints(cs, evals, inv_z, alpha, k + 1), alpha),
            ext_mul(evals[cs[k].node_id as int], inv_z[zerofier_of(cs[k])]),
        )
    }
}

/// The `i`-th quotient chunk, rebuilt from its `D` coordinates.
pub open spec fn quotient_chunk(q: Seq<ExtFelt>, i: int) -> ExtFelt {
    ext_unflatten(q.subrange(D * i, D * i + D))
}

/// `sum_{j >= i} chunk_j * z^(j - i)` over chunks `i..m`, by Horner's rule.
pub open spec fn horner(q: Seq<ExtFelt>, z: ExtFelt, i: int, m: int) -> ExtFelt
    decreases m - i,
{
    if i < 0 || i >= m {
        ext_zero()
    } else {
        ext_add(ext_mul(horner(q, z, i + 1, m), z), quotient_chunk(q, i))
    }
}

/// Witness-level evaluations of one chip, checked against its shape.
pub struct ChipData<'a> {
    chip: &'a ChipMetadata,
    // The chip's local variable groups, held as the one-element list of chips
    // that node evaluation indexes by `chip_id`.
    local_variables: Vec<Vec<Vec<Felt>>>,
    // trace_evals[segment][row][column]
    trace_evals: Vec<Vec<Vec<ExtFelt>>>,
    quotient_evals: Vec<ExtFelt>,
    log_height: usize,
}

impl<'a> ChipData<'a> {
    pub closed spec fn spec_chip(self) -> ChipMetadata {
        *self.chip
    }

    pub closed spec fn spec_local_variables(self) -> Seq<Vec<Felt>> {
        self.local_variables@[0]@
    }

    pub closed spec fn spec_trace_evals(self) -> Seq<Vec<Vec<ExtFelt>>> {
        self.trace_evals@
    }

    pub closed spec fn spec_quotient_evals(self) -> Seq<ExtFelt> {
        self.quotient_evals@
    }

    pub closed spec fn spec_log_height(self) -> nat {
        self.log_height as nat
    }

    #[verifier::type_invariant]
    spec fn inv(self) -> bool {
        &&& self.local_variables@.len() == 1
        &&& data_shape_ok(
            *self.chip,
            self.local_variables@[0]@,
            self.trace_evals@,
            self.quotient_evals@.len(),
            self.log_height as nat,
        )
    }

    /// Checks the witness against the shape that `chip` declares.
    pub fn new(
        chip: &'a ChipMetadata,
        local_variables: Vec<Vec<Felt>>,
        trace_evals: Vec<Vec<Vec<ExtFelt>>>,
        quotient_evals: Vec<ExtFelt>,
        log_height: usize,
    ) -> (r: Result<ChipData<'a>, DataError>)
        ensures
            r is Ok <==> data_shape_ok(
                *chip,
                local_variables@,
                trace_evals@,
                quotient_evals@.len(),
                log_height as nat,
            ),
            r matches Err(e) ==> data_error_is(
                *chip,
                local_variables@,
                trace_evals@,
                quotient_evals@.len(),
                log_height as nat,
                e,
            ),
            r matches Ok(data) ==> {
                &&& data.spec_chip() == *chip
                &&& data.spec_local_variables() == local_variables@
                &&& data.spec_trace_evals() == trace_evals@
                &&& data.spec_quotient_evals() == quotient_evals@
                &&& data.spec_log_height() == log_height
            },
    {
        if log_height > TWO_ADICITY {
            return Err(DataError::LogHeight { actual: log_height, max: TWO_ADICITY });
        }
        let height = trace_height(log_height);
        // The trace must be at least as tall as each periodic column.
        let periodic = chip.periodic();
        let mut c: usize = 0;
        while c < periodic.len()
            invariant
                c <= periodic@.len(),
                log_height <= TWO_ADICITY,
                height == pow2(log_height as nat),
                periodic@ == chip.spec_periodic(),
                forall|d: int| 0 <= d < c ==> (#[trigger] periodic@[d])@.len() <= height,
            decreases periodic@.len() - c,
        {
            if periodic[c].len() > height {
                assert(!((periodic@[c as int])@.len() <= height));
                return Err(
                    DataError::MinHeight { column_index: c, col_len: periodic[c].len(), height },
                );
            }
            c = c + 1;
        }
        let sizes = chip.num_local_variables();
        if local_variables.len() != sizes.len() {
            return Err(
                DataError::NumLocalVariableGroups {
                    actual: local_variables.len(),
                    expected: sizes.len(),
                },
            );
        }
        let mut g: usize = 0;
        while g < sizes.len()
            invariant
                g <= sizes@.len(),
                log_height <= TWO_ADICITY,
                height == pow2(log_height as nat),
                periodic@ == chip.spec_periodic(),
                periodic_fits(chip.spec_periodic(), pow2(log_height as nat)),
                sizes@ == chip.spec_num_local_variables(),
                local_variables@.len() == sizes@.len(),
                forall|h: int| 0 <= h < g ==> (#[trigger] local_variables@[h])@.len() == sizes@[h],
            decreases sizes@.len() - g,
        {
            if local_variables[g].len() != sizes[g] {
                assert(local_variables@[g as int]@.len() != sizes@[g as int]);
                return Err(
                    DataError::NumLocalVariables {
                        group: g,
                        actual: local_variables[g].len(),
                        expected: sizes[g],
                    },
                );
            }
            g = g + 1;
        }
        let dims = chip.trace_window_dimensions();
        if trace_evals.len() != dims.len() {
            return Err(DataError::NumTraces { actual: trace_evals.len(), expected: dims.len() });
        }
        let mut s: usize = 0;
        while s < dims.len()
            invariant
                s <= dims@.len(),
                log_height <= TWO_ADICITY,
                height == pow2(log_height as nat),
                periodic@ == chip.spec_periodic(),
                periodic_fits(chip.spec_periodic(), pow2(log_height as nat)),
                sizes@ == chip.spec_num_local_variables(),
                local_groups_ok(local_variables@, sizes@),
                local_variables@.len() == sizes@.len(),
                dims@ == chip.spec_trace_window_dimensions(),
                trace_evals@.len() == dims@.len(),
                forall|t: int|
                    0 <= t < s ==> segment_shape_ok((#[trigger] trace_evals@[t])@, dims@[t]),
            decreases dims@.len() - s,
        {
            let dim = dims[s];
            let rows = &trace_evals[s];
            if rows.len() != dim.height {
                assert(!segment_shape_ok(trace_evals@[s as int]@, dims@[s as int]));
                return Err(
                    DataError::SegmentHeight {
                        segment_index: s,
                        actual: rows.len(),
                        expected: dim.height,
                    },
                );
            }
            let mut r: usize = 0;
            while r < rows.len()
                invariant
                    r <= rows@.len(),
                    s < dims@.len(),
                    rows@ == trace_evals@[s as int]@,
                    dim == dims@[s as int],
                    rows@.len() == dim.height,
                    trace_evals@.len() == dims@.len(),
                    forall|t: int|
                        0 <= t < s ==> segment_shape_ok((#[trigger] trace_evals@[t])@, dims@[t]),
                    log_height <= TWO_ADICITY,
                    height == pow2(log_height as nat),
                    periodic@ == chip.spec_periodic(),
                    periodic_fits(chip.spec_periodic(), pow2(log_height as nat)),
                    sizes@ == chip.spec_num_local_variables(),
                    local_groups_ok(local_variables@, sizes@),
                    local_variables@.len() == sizes@.len(),
                    dims@ == chip.spec_trace_window_dimensions(),
                    forall|q: int| 0 <= q < r ==> (#[trigger] rows@[q])@.len() == dim.width,
                decreases rows@.len() - r,
            {
                if rows[r].len() != dim.width {
                    assert(!segment_shape_ok(trace_evals@[s as int]@, dims@[s as int]));
                    return Err(
                        DataError::SegmentRowWidth {
                            segment_index: s,
                            row_index: r,
                            actual: rows[r].len(),
                            expected: dim.width,
                        },
                    );
                }
                r = r + 1;
            }
            assert(segment_shape_ok(trace_evals@[s as int]@, dims@[s as int]));
            s = s + 1;
        }
        // `D` base scalars per quotient chunk; a count that does not fit in
        // `usize` matches no length.
        let expected = match chip.num_quotient_evals() {
            Some(count) => if count <= usize::MAX / D {
                Some(count * D)
            } else {
                None
            },
            None => None,
        };
        match expected {
            Some(expected) => if quotient_evals.len() != expected {
                return Err(DataError::NumQuotientEvals { actual: quotient_evals.len(), expected });
            },
            None => {
                return Err(
                    DataError::NumQuotientEvals {
                        actual: quotient_evals.len(),
                        expected: usize::MAX,
                    },
                );
            },
        }
        let mut wrapped: Vec<Vec<Vec<Felt>>> = Vec::with_capacity(1);
        wrapped.push(local_variables);
        Ok(
            ChipData {
                chip,
                local_variables: wrapped,
                trace_evals,
                quotient_evals,
                log_height,
            },
        )
    }
}

impl<'a> ChipData<'a> {
    /// The chip's local variables as the list, indexed by chip, that node
    /// evaluation reads: this chip alone, at index 0.
    pub closed spec fn spec_locals_by_chip(self) -> Seq<Vec<Vec<Felt>>> {
        self.local_variables@
    }

    /// The values of the chip's nodes. Periodic columns are not evaluated at
    /// `zeta`: each is taken as zero.
    pub open spec fn spec_node_evals(self, globals: Seq<Vec<Felt>>) -> Seq<ExtFelt> {
        let chip = self.spec_chip();
        node_evals(
            chip.spec_nodes(),
            chip.spec_nodes().len(),
            globals,
            self.spec_locals_by_chip(),
            self.spec_trace_evals(),
            Seq::new(chip.spec_periodic().len(), |c: int| ext_zero()),
        )
    }

    /// The inverses of the zerofiers' values at `zeta` (zero where undefined).
    pub open spec fn spec_inverse_zerofiers(self, zeta: ExtFelt, g: Felt) -> Seq<ExtFelt> {
        let zs = self.spec_chip().spec_zerofiers();
        let n = pow2(self.spec_log_height());
        Seq::new(
            zs.len(),
            |i: int|
                match inverse_zerofier(zs[i], zeta, g, n) {
                    Some(v) => v,
                    None => ext_zero(),
                },
        )
    }

    /// The random linear combination of the constraints, each divided by its
    /// zerofier: `sum_k alpha^k * node_k / zerofier_k`.
    pub open spec fn spec_quotient(
        self,
        globals: Seq<Vec<Felt>>,
        zeta: ExtFelt,
        alpha: ExtFelt,
        g: Felt,
    ) -> ExtFelt {
        combine_constraints(
            self.spec_chip().spec_constraints(),
            self.spec_node_evals(globals),
            self.spec_inverse_zerofiers(zeta, g),
            alpha,
            0,
        )
    }

    /// The claimed quotient at `zeta`: `sum_i q_i * zeta^(n i)` over the
    /// chunks `q_i` of the quotient scalars.
    pub open spec fn spec_expected_quotient(self, zeta: ExtFelt) -> ExtFelt {
        let q = self.spec_quotient_evals();
        horner(
            q,
            ext_exp_power_of_2(zeta, self.spec_log_height()),
            0,
            (q.len() / (D as nat)) as int,
        )
    }

    /// The outcome of the quotient check with subgroup generator `g`.
    pub open spec fn spec_check_quotient(
        self,
        globals: Seq<Vec<Felt>>,
        zeta: ExtFelt,
        alpha: ExtFelt,
        g: Felt,
    ) -> Result<(), DataError> {
        let zs = self.spec_chip().spec_zerofiers();
        let n = pow2(self.spec_log_height());
        match first_undefined_zerofier(zs, zeta, g, n, zs.len() as int) {
            Some(i) => Err(DataError::UndefinedZerofierEval(i as usize)),
            None => if self.spec_quotient(globals, zeta, alpha, g) == self.spec_expected_quotient(
                zeta,
            ) {
                Ok(())
            } else {
                Err(DataError::InvalidQuotient)
            },
        }
    }

    /// Checks the quotient identity at `zeta` for the trace subgroup
    /// generator `g`: every zerofier must have an inverse value, and the
    /// combination of the constraints must equal the claimed quotient.
    pub fn check_quotient_at(
        &self,
        global_variables: &[Vec<Felt>],
        zeta: ExtFelt,
        alpha: ExtFelt,
        g: Felt,
    ) -> (r: Result<(), DataError>)
        requires
            all_global_vars_fit(self.spec_chip().spec_nodes(), global_variables@),
        ensures
            r == self.spec_check_quotient(global_variables@, zeta, alpha, g),
    {
        let evals = self.eval_nodes(global_variables);
        let inv_z = match self.inverse_zerofier_evals(zeta, g) {
            Ok(inv_z) => inv_z,
            Err(e) => return Err(e),
        };
        let quotient = self.combine_constraints(&evals, &inv_z, alpha);
        let expected = self.expected_quotient(zeta);
        if quotient != expected {
            return Err(DataError::InvalidQuotient);
        }
        Ok(())
    }

    /// Evaluates every node of the chip in order.
    fn eval_nodes(&self, global_variables: &[Vec<Felt>]) -> (r: Vec<ExtFelt>)
        requires
            all_global_vars_fit(self.spec_chip().spec_nodes(), global_variables@),
        ensures
            r@ == self.spec_node_evals(global_variables@),
            r@.len() == self.spec_chip().spec_nodes().len(),
    {
        proof {
            use_type_invariant(self);
            use_type_invariant(self.chip);
        }
        let chip = self.chip;
        // Periodic columns are not evaluated at `zeta`: each is taken as zero.
        let num_periodic = chip.periodic().len();
        let mut periodic_evals: Vec<ExtFelt> = Vec::with_capacity(num_periodic);
        let mut c: usize = 0;
        while c < num_periodic
            invariant
                c <= num_periodic,
                periodic_evals@ =~= Seq::new(c as nat, |j: int| ext_zero()),
            decreases num_periodic - c,
        {
            periodic_evals.push(ExtFelt::zero());
            c = c + 1;
        }
        let nodes = chip.nodes();
        let locals = self.local_variables.as_slice();
        let traces = self.trace_evals.as_slice();
        let mut evals: Vec<ExtFelt> = Vec::with_capacity(nodes.len());
        let mut i: usize = 0;
        while i < nodes.len()
            invariant
                i <= nodes@.len(),
                nodes@ == chip.spec_nodes(),
                chip.wf(),
                locals@ == self.local_variables@,
                traces@ == self.trace_evals@,
                locals@.len() == 1,
                data_shape_ok(
                    *chip,
                    locals@[0]@,
                    traces@,
                    self.quotient_evals@.len(),
                    self.log_height as nat,
                ),
                all_global_vars_fit(nodes@, global_variables@),
                periodic_evals@.len() == chip.spec_periodic().len(),
                evals@.len() == i,
                evals@ == node_evals(
                    nodes@,
                    i as nat,
                    global_variables@,
                    locals@,
                    traces@,
                    periodic_evals@,
                ),
            decreases nodes@.len() - i,
        {
            proof {
                lemma_node_in_range(
                    *chip,
                    locals@,
                    traces@,
                    global_variables@,
                    periodic_evals@.len(),
                    i as int,
                );
            }
            let v = nodes[i].eval(
                evals.as_slice(),
                global_variables,
                locals,
                traces,
                periodic_evals.as_slice(),
            );
            evals.push(v);
            i = i + 1;
        }
        assert(periodic_evals@ =~= Seq::new(chip.spec_periodic().len(), |c: int| ext_zero()));
        evals
    }

    /// The inverse of every zerofier's value at `zeta`, or the first zerofier
    /// that has none.
    fn inverse_zerofier_evals(&self, zeta: ExtFelt, g: Felt) -> (r: Result<Vec<ExtFelt>, DataError>)
        ensures
            ({
                let zs = self.spec_chip().spec_zerofiers();
                let n = pow2(self.spec_log_height());
                match first_undefined_zerofier(zs, zeta, g, n, zs.len() as int) {
                    Some(i) => r == Err::<Vec<ExtFelt>, DataError>(
                        DataError::UndefinedZerofierEval(i as usize),
                    ),
                    None => r matches Ok(v) && v@ == self.spec_inverse_zerofiers(zeta, g),
                }
            }),
    {
        proof {
            use_type_invariant(self);
        }
        let n = trace_height(self.log_height);
        let zerofiers = self.chip.zerofiers();
        let ghost inv_spec = self.spec_inverse_zerofiers(zeta, g);
        let mut inv_z: Vec<ExtFelt> = Vec::with_capacity(zerofiers.len());
        let mut idx: usize = 0;
        while idx < zerofiers.len()
            invariant
                idx <= zerofiers@.len(),
                zerofiers@ == self.spec_chip().spec_zerofiers(),
                n == pow2(self.spec_log_height()),
                inv_spec == self.spec_inverse_zerofiers(zeta, g),
                first_undefined_zerofier(zerofiers@, zeta, g, n as nat, idx as int) is None,
                inv_z@ =~= inv_spec.subrange(0, idx as int),
            decreases zerofiers@.len() - idx,
        {
            let inverse = match zerofiers[idx].eval(zeta, g, n) {
                Some(v) => v.try_inverse(),
                None => None,
            };
            match inverse {
                Some(inv) => inv_z.push(inv),
                None => {
                    proof {
                        lemma_first_undefined_stays(zerofiers@, zeta, g, n as nat, idx as int + 1, zerofiers@.len() as int);
                    }
                    return Err(DataError::UndefinedZerofierEval(idx));
                },
            }
            idx = idx + 1;
        }
        assert(inv_z@ =~= inv_spec);
        Ok(inv_z)
    }

    /// The constraints' values divided by their zerofiers, combined with
    /// powers of `alpha` from the last constraint.
    fn combine_constraints(&self, evals: &Vec<ExtFelt>, inv_z: &Vec<ExtFelt>, alpha: ExtFelt) -> (r:
        ExtFelt)
        requires
            evals@.len() == self.spec_chip().spec_nodes().len(),
            inv_z@.len() == self.spec_chip().spec_zerofiers().len(),
        ensures
            r == combine_constraints(self.spec_chip().spec_constraints(), evals@, inv_z@, alpha, 0),
    {
        proof {
            use_type_invariant(self.chip);
        }
        let chip = self.chip;
        let constraints = chip.constraints();
        let mut quotient = ExtFelt::zero();
        let mut k: usize = constraints.len();
        while k > 0
            invariant
                k <= constraints@.len(),
                constraints@ == chip.spec_constraints(),
                chip.wf(),
                evals@.len() == chip.spec_nodes().len(),
                inv_z@.len() == chip.spec_zerofiers().len(),
                quotient == combine_constraints(constraints@, evals@, inv_z@, alpha, k as int),
            decreases k,
        {
            k = k - 1;
            let constraint = constraints[k];
            assert(chip_constraint_ok(
                constraints@[k as int],
                chip.spec_nodes().len(),
                chip.spec_zerofiers().len(),
            ));
            let z = match constraint.zerofier_id {
                Some(z) => z,
                None => 0,
            };
            let eval = evals[constraint.node_id].mul(inv_z[z]);
            quotient = quotient.mul(alpha).add(eval);
        }
        quotient
    }

    /// The claimed quotient at `zeta`: `sum_i q_i * zeta^(n i)` by Horner's
    /// rule over the chunks, last first.
    fn expected_quotient(&self, zeta: ExtFelt) -> (r: ExtFelt)
        ensures
            r == self.spec_expected_quotient(zeta),
    {
        let zeta_pow_n = zeta.exp_power_of_2(self.log_height);
        let q = self.quotient_evals.as_slice();
        let num_chunks = q.len() / D;
        let mut expected = ExtFelt::zero();
        let mut i: usize = num_chunks;
        while i > 0
            invariant
                i <= num_chunks,
                num_chunks == q@.len() / (D as nat),
                q@.len() <= usize::MAX,
                q@ == self.quotient_evals@,
                zeta_pow_n == ext_exp_power_of_2(zeta, self.log_height as nat),
                expected == horner(q@, zeta_pow_n, i as int, num_chunks as int),
            decreases i,
        {
            i = i - 1;
            assert(D * i + D <= q@.len()) by (nonlinear_arith)
                requires
                    i < num_chunks,
                    num_chunks == q@.len() / 4,
                    D == 4,
            ;
            let chunk = unflatten_extension(slice_subrange(q, D * i, D * i + D));
            expected = expected.mul(zeta_pow_n).add(chunk);
        }
        expected
    }

    /// Checks the quotient identity at `zeta`, combining the constraints with
    /// powers of `alpha`, over the subgroup of order `2^log_height`.
    ///
    /// Every global variable reference of the chip must fit
    /// `global_variables`; `NodesInfo::validate_global_variables` on their
    /// lengths decides it.
    pub fn check_quotient(&self, global_variables: &[Vec<Felt>], zeta: ExtFelt, alpha: ExtFelt) -> (r:
        Result<(), DataError>)
        requires
            all_global_vars_fit(self.spec_chip().spec_nodes(), global_variables@),
        ensures
            r == self.spec_check_quotient(
                global_variables@,
                zeta,
                alpha,
                Felt { val: two_adic_generator_of(self.spec_log_height()) },
            ),
    {
        proof {
            use_type_invariant(self);
        }
        let g = two_adic_generator(self.log_height);
        self.check_quotient_at(global_variables, zeta, alpha, g)
    }
}

impl<'a> ChipData<'a> {
    pub fn chip(&self) -> (r: &'a ChipMetadata)
        ensures
            *r == self.spec_chip(),
    {
        self.chip
    }

    pub fn local_variables(&self) -> (r: &Vec<Vec<Felt>>)
        ensures
            r@ == self.spec_local_variables(),
    {
        proof {
            use_type_invariant(self);
        }
        &self.local_variables[0]
    }

    pub fn trace_evals(&self) -> (r: &Vec<Vec<Vec<ExtFelt>>>)
        ensures
            r@ == self.spec_trace_evals(),
    {
        &self.trace_evals
    }

    pub fn quotient_evals(&self) -> (r: &Vec<ExtFelt>)
        ensures
            r@ == self.spec_quotient_evals(),
    {
        &self.quotient_evals
    }

    pub fn log_height(&self) -> (r: usize)
        ensures
            r == self.spec_log_height(),
    {
        self.log_height
    }
}

/// Once a zerofier is undefined, the first undefined one stays found.
proof fn lemma_first_undefined_stays(
    zs: Seq<ZerofierExpression>,
    zeta: ExtFelt,
    g: Felt,
    n: nat,
    k: int,
    m: int,
)
    requires
        1 <= k <= m,
        first_undefined_zerofier(zs, zeta, g, n, k) is Some,
    ensures
        first_undefined_zerofier(zs, zeta, g, n, m) == first_undefined_zerofier(zs, zeta, g, n, k),
    decreases m - k,
{
    if k < m {
        lemma_first_undefined_stays(zs, zeta, g, n, k, m - 1);
    }
}

/// A trace reference of node `i` is covered by the segment's window height.
proof fn lemma_segment_height_covers(nodes: Seq<Node>, seg: int, k: int, i: int)
    requires
        0 <= i < k <= nodes.len(),
        nodes[i] matches Node::Trace { segment, .. } && segment == seg,
    ensures
        nodes[i] matches Node::Trace { row_offset, .. } && row_offset + 1 <= segment_height(
            nodes,
            seg,
            k,
        ),
    decreases k,
{
    if i < k - 1 {
        lemma_segment_height_covers(nodes, seg, k - 1, i);
    }
}

/// In a built chip with witness of the declared shape, evaluating node `i`
/// reads only in-range entries.
proof fn lemma_node_in_range(
    chip: ChipMetadata,
    locals: Seq<Vec<Vec<Felt>>>,
    traces: Seq<Vec<Vec<ExtFelt>>>,
    globals: Seq<Vec<Felt>>,
    num_periodic: nat,
    i: int,
)
    requires
        chip.wf(),
        0 <= i < chip.spec_nodes().len(),
        locals.len() == 1,
        locals[0]@.len() == chip.spec_num_local_variables().len(),
        local_groups_ok(locals[0]@, chip.spec_num_local_variables()),
        traces.len() == chip.spec_trace_window_dimensions().len(),
        segments_ok(traces, chip.spec_trace_window_dimensions()),
        all_global_vars_fit(chip.spec_nodes(), globals),
        num_periodic == chip.spec_periodic().len(),
    ensures
        node_in_range(chip.spec_nodes()[i], i as nat, globals, locals, traces, num_periodic),
{
    let nodes = chip.spec_nodes();
    let dims = chip.spec_trace_window_dimensions();
    let node = nodes[i];
    assert(refs_earlier(node, i));
    assert(local_var_ok(node, seq![chip.spec_num_local_variables()]));
    assert(trace_ok(node, widths_of(dims)));
    assert(periodic_ok(node, num_periodic));
    assert(global_var_fits(node, globals));
    match node {
        Node::Trace { segment, row_offset, .. } => {
            lemma_segment_height_covers(nodes, segment as int, nodes.len() as int, i);
            assert(widths_of(dims)[segment as int] == dims[segment as int].width);
            assert(segment_shape_ok(traces[segment as int]@, dims[segment as int]));
            assert(dims[segment as int].height == segment_height(
                nodes,
                segment as int,
                nodes.len() as int,
            ));
            assert(traces[segment as int]@[row_offset as int]@.len() == dims[segment as int].width);
        },
        Node::Var { group, .. } => {
            if group < locals[0]@.len() {
                assert(locals[0]@[group as int]@.len() == chip.spec_num_local_variables()[group as int]);
            }
        },
        _ => {},
    }
}

/// `2^log_height`.
fn trace_height(log_height: usize) -> (r: usize)
    requires
        log_height <= TWO_ADICITY,
    ensures
        r == pow2(log_height as nat),
{
    proof {
        lemma2_to64();
    }
    let mut h: usize = 1;
    let mut i: usize = 0;
    while i < log_height
        invariant
            i <= log_height <= TWO_ADICITY,
            h == pow2(i as nat),
            pow2(27) == 0x800_0000,
        decreases log_height - i,
    {
        proof {
            lemma_pow2_unfold((i + 1) as nat);
            if i + 1 < 27 {
                lemma_pow2_strictly_increases((i + 1) as nat, 27);
            }
        }
        h = h * 2;
        i = i + 1;
    }
    h
}

} // verus!
