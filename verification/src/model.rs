//! The network orchestrator: it owns the cell arena, the synapse arena, the
//! connectivity graph, the shared parameter sets and the injected random
//! generator, and drives the per-step fire-propagation and learning cycle.

pub mod cell_membrane;
pub mod network;
pub mod synapse;

use vstd::prelude::*;

verus! {

use crate::fixed::clamp;
use crate::fixed::fits;
use crate::fixed::mul_div_wide;
use crate::fixed::tdiv;
use crate::fixed::SCALE;
use crate::model::cell_membrane::CellMembrane;
use crate::model::cell_membrane::CellMembraneParameters;
use crate::model::cell_membrane::CellType;
use crate::model::cell_membrane::MembraneState;
use crate::model::cell_membrane::step_fits;
use crate::model::cell_membrane::stepped;
use crate::model::network::Connection;
use crate::model::network::count_synapse;
use crate::model::network::lemma_count_unique;
use crate::model::network::lemma_with_post_distinct;
use crate::model::network::lemma_with_post_sub;
use crate::model::network::lemma_with_pre_sub;
use crate::model::network::with_post;
use crate::model::network::with_pre;
use crate::model::network::Network;
use crate::model::synapse::post_fire_fits;
use crate::model::synapse::post_fired;
use crate::model::synapse::pre_fire_delta;
use crate::model::synapse::pre_fire_fits;
use crate::model::synapse::pre_fired;
use crate::rng::draw_noise;
use crate::model::synapse::Synapse;
use crate::model::synapse::SynapseParameters;
use crate::model::synapse::LayerSynapseParameters;
use crate::model::synapse::SynapseState;
use crate::model::synapse::update_fits;
use crate::model::synapse::updated;
use crate::rng::rng_from_seed;

/// The mathematical value of a cell arena.
pub open spec fn cells_view(cells: Seq<CellMembrane>) -> Seq<MembraneState> {
    cells.map_values(|m: CellMembrane| m@)
}

/// The mathematical value of a synapse arena.
pub open spec fn syns_view(synapses: Seq<Synapse>) -> Seq<SynapseState> {
    synapses.map_values(|s: Synapse| s@)
}

/// The positions of the excitatory synapses of `synapses`, in ascending
/// order.
pub open spec fn positive_indexes(synapses: Seq<Synapse>) -> Seq<int>
    decreases synapses.len(),
{
    if synapses.len() == 0 {
        Seq::empty()
    } else {
        let rest = positive_indexes(synapses.drop_last());
        if synapses.last().pre_cell_type == CellType::EXCITE {
            rest.push(synapses.len() - 1)
        } else {
            rest
        }
    }
}

/// The positions of the fired membranes of `cells`, in ascending order.
pub open spec fn fired_indexes_of(cells: Seq<CellMembrane>) -> Seq<int>
    decreases cells.len(),
{
    if cells.len() == 0 {
        Seq::empty()
    } else {
        let rest = fired_indexes_of(cells.drop_last());
        if cells.last().fired {
            rest.push(cells.len() - 1)
        } else {
            rest
        }
    }
}

/// The positions listed by `positive_indexes` are exactly the excitatory
/// synapses, each once, in strictly ascending order.
pub proof fn lemma_positive_indexes_props(synapses: Seq<Synapse>)
    ensures
        forall|k: int|
            0 <= k < positive_indexes(synapses).len() ==> 0 <= #[trigger] positive_indexes(
                synapses,
            )[k] < synapses.len() && synapses[positive_indexes(synapses)[k]].pre_cell_type
                == CellType::EXCITE,
        forall|k1: int, k2: int|
            0 <= k1 < k2 < positive_indexes(synapses).len() ==> #[trigger] positive_indexes(
                synapses,
            )[k1] < #[trigger] positive_indexes(synapses)[k2],
        forall|j: int|
            0 <= j < synapses.len() && (#[trigger] synapses[j]).pre_cell_type == CellType::EXCITE
                ==> positive_indexes(synapses).contains(j),
    decreases synapses.len(),
{
    if synapses.len() > 0 {
        let prefix = synapses.drop_last();
        assert(forall|j: int| 0 <= j < prefix.len() ==> #[trigger] prefix[j] == synapses[j]);
        lemma_positive_indexes_props(prefix);
        let whole = positive_indexes(synapses);
        let rest = positive_indexes(prefix);
        assert forall|j: int|
            0 <= j < synapses.len() && (#[trigger] synapses[j]).pre_cell_type
                == CellType::EXCITE implies whole.contains(j) by {
            if j < synapses.len() - 1 {
                assert(prefix[j] == synapses[j]);
                assert(rest.contains(j));
                let k = choose|k: int| 0 <= k < rest.len() && rest[k] == j;
                assert(whole[k] == j);
            } else {
                assert(synapses.last() == synapses[synapses.len() - 1]);
                assert(whole[whole.len() - 1] == j);
            }
        }
    }
}

/// Two arenas whose synapses have the same types at every position list the
/// same excitatory positions.
pub proof fn lemma_positive_indexes_same(s1: Seq<Synapse>, s2: Seq<Synapse>)
    requires
        s1.len() == s2.len(),
        forall|j: int|
            0 <= j < s1.len() ==> (#[trigger] s1[j]).pre_cell_type == (#[trigger] s2[j]).pre_cell_type,
    ensures
        positive_indexes(s1) == positive_indexes(s2),
    decreases s1.len(),
{
    if s1.len() > 0 {
        let p1 = s1.drop_last();
        let p2 = s2.drop_last();
        assert(forall|j: int| 0 <= j < p1.len() ==> #[trigger] p1[j] == s1[j]);
        assert(forall|j: int| 0 <= j < p2.len() ==> #[trigger] p2[j] == s2[j]);
        lemma_positive_indexes_same(p1, p2);
        assert(s1.last() == s1[s1.len() - 1] && s2.last() == s2[s2.len() - 1]);
    }
}

/// The strengths of the excitatory synapses that the edges of `conns` point
/// at, in edge order.
pub open spec fn positive_strengths(conns: Seq<Connection>, synapses: Seq<Synapse>) -> Seq<int>
    decreases conns.len(),
{
    if conns.len() == 0 {
        Seq::empty()
    } else {
        let rest = positive_strengths(conns.drop_last(), synapses);
        let c = conns.last();
        if c.synapse_index < synapses.len() && synapses[c.synapse_index as int].pre_cell_type
            == CellType::EXCITE {
            rest.push(synapses[c.synapse_index as int].strength as int)
        } else {
            rest
        }
    }
}

/// The sum of a sequence of integers.
pub open spec fn isum(values: Seq<int>) -> int
    decreases values.len(),
{
    if values.len() == 0 {
        0
    } else {
        isum(values.drop_last()) + values.last()
    }
}

/// The total excitatory strength that the edges of `conns` point at: the sum
/// a homeostatic normalization redistributes.
pub open spec fn positive_in_total(conns: Seq<Connection>, synapses: Seq<Synapse>) -> int {
    isum(positive_strengths(conns, synapses))
}

/// `strength` rescaled by `target / total`, exactly: the integer product
/// divided by the total, rounded toward zero.
pub open spec fn scaled_strength(strength: int, target: int, total: int) -> int {
    tdiv(strength * target, total)
}

/// One synapse after a homeostatic normalization toward `target`: with a
/// positive pre-normalize total, an excitatory synapse has its strength
/// rescaled by `target / total` and the rescaled strength clamped into the
/// configured range; nothing else ever changes. A zero (or negative) total
/// is the degenerate case, not an error: every synapse is left wholly
/// untouched, and so is every inhibitory synapse in every case.
pub open spec fn norm_synapse(
    s: SynapseState,
    parameters: SynapseParameters,
    target: int,
    total: int,
) -> SynapseState {
    if s.pre_cell_type == CellType::EXCITE && total > 0 {
        SynapseState {
            strength: clamp(
                scaled_strength(s.strength, target, total),
                parameters.min_strength as int,
                parameters.max_strength as int,
            ),
            ..s
        }
    } else {
        s
    }
}

/// Whether some edge of `conns` carries synapse index `j`.
pub open spec fn contains_synapse(conns: Seq<Connection>, j: int) -> bool {
    exists|k: int| 0 <= k < conns.len() && (#[trigger] conns[k]).synapse_index == j
}

/// The total excitatory strength after a normalization of the synapses the
/// edges of `conns` point at, computed from the pre-normalize arena.
pub open spec fn normalized_total(
    conns: Seq<Connection>,
    synapses: Seq<Synapse>,
    parameters: SynapseParameters,
    target: int,
    total: int,
) -> int
    decreases conns.len(),
{
    if conns.len() == 0 {
        0
    } else {
        let rest = normalized_total(conns.drop_last(), synapses, parameters, target, total);
        let c = conns.last();
        if c.synapse_index < synapses.len() && synapses[c.synapse_index as int].pre_cell_type
            == CellType::EXCITE {
            rest + norm_synapse(synapses[c.synapse_index as int]@, parameters, target, total).strength
        } else {
            rest
        }
    }
}

/// The sum of a sequence of strengths, each rescaled by `target / total`.
pub open spec fn scaled_sum(values: Seq<int>, target: int, total: int) -> int
    decreases values.len(),
{
    if values.len() == 0 {
        0
    } else {
        scaled_sum(values.drop_last(), target, total) + scaled_strength(
            values.last(),
            target,
            total,
        )
    }
}

/// Rescaling non-negative strengths by `target / total` loses strictly less
/// than one rounding unit per strength: the rescaled sum, multiplied back by
/// the total, brackets the exact product.
pub proof fn lemma_scaled_sum_bounds(values: Seq<int>, target: int, total: int)
    requires
        total > 0,
        target >= 0,
        forall|i: int| 0 <= i < values.len() ==> #[trigger] values[i] >= 0,
    ensures
        total * scaled_sum(values, target, total) <= isum(values) * target,
        isum(values) * target <= total * (scaled_sum(values, target, total) + values.len()),
        values.len() > 0 ==> isum(values) * target < total * (scaled_sum(values, target, total)
            + values.len()),
    decreases values.len(),
{
    if values.len() == 0 {
        assert(isum(values) * target == 0) by (nonlinear_arith)
            requires
                isum(values) == 0,
        ;
        assert(total * scaled_sum(values, target, total) == 0) by (nonlinear_arith)
            requires
                scaled_sum(values, target, total) == 0,
        ;
    } else {
        let prefix = values.drop_last();
        let s = values.last();
        assert(forall|i: int| 0 <= i < prefix.len() ==> #[trigger] prefix[i] == values[i]);
        assert(s == values[values.len() - 1]);
        lemma_scaled_sum_bounds(prefix, target, total);
        let q = scaled_strength(s, target, total);
        vstd::arithmetic::mul::lemma_mul_nonnegative(s, target);
        vstd::arithmetic::div_mod::lemma_fundamental_div_mod(s * target, total);
        vstd::arithmetic::div_mod::lemma_mod_bound(s * target, total);
        assert(total * q <= s * target < total * q + total);
        let ss_p = scaled_sum(prefix, target, total);
        let ss = scaled_sum(values, target, total);
        assert(ss == ss_p + q);
        assert(isum(values) == isum(prefix) + s);
        assert(total * ss == total * ss_p + total * q) by (nonlinear_arith)
            requires
                ss == ss_p + q,
        ;
        assert(isum(values) * target == isum(prefix) * target + s * target) by (nonlinear_arith)
            requires
                isum(values) == isum(prefix) + s,
        ;
        assert(total * (ss + values.len()) == total * (ss_p + prefix.len()) + total * q + total)
            by (nonlinear_arith)
            requires
                ss == ss_p + q && values.len() == prefix.len() + 1,
        ;
    }
}

/// Every strength that `positive_strengths` collects inherits the
/// non-negativity of the strengths the edges point at.
pub proof fn lemma_positive_strengths_nonneg(conns: Seq<Connection>, synapses: Seq<Synapse>)
    requires
        forall|k: int|
            0 <= k < conns.len() && (#[trigger] conns[k]).synapse_index < synapses.len()
                && synapses[conns[k].synapse_index as int].pre_cell_type == CellType::EXCITE
                ==> synapses[conns[k].synapse_index as int].strength >= 0,
    ensures
        forall|i: int|
            0 <= i < positive_strengths(conns, synapses).len() ==> #[trigger] positive_strengths(
                conns,
                synapses,
            )[i] >= 0,
    decreases conns.len(),
{
    if conns.len() > 0 {
        let prefix = conns.drop_last();
        assert(forall|k: int| 0 <= k < prefix.len() ==> #[trigger] prefix[k] == conns[k]);
        assert(conns.last() == conns[conns.len() - 1]);
        lemma_positive_strengths_nonneg(prefix, synapses);
        let whole = positive_strengths(conns, synapses);
        let rest = positive_strengths(prefix, synapses);
        assert forall|i: int| 0 <= i < whole.len() implies whole[i] >= 0 by {
            if i < rest.len() {
                assert(whole[i] == rest[i]);
            }
        }
    }
}

/// Where no clamp bound cuts a rescaled strength off, the post-normalize
/// total is exactly the sum of the rescaled strengths.
pub proof fn lemma_normalized_total_unclamped(
    conns: Seq<Connection>,
    synapses: Seq<Synapse>,
    parameters: SynapseParameters,
    target: int,
    total: int,
)
    requires
        total > 0,
        forall|k: int|
            0 <= k < conns.len() && (#[trigger] conns[k]).synapse_index < synapses.len()
                && synapses[conns[k].synapse_index as int].pre_cell_type == CellType::EXCITE
                ==> parameters.min_strength <= scaled_strength(
                synapses[conns[k].synapse_index as int].strength as int,
                target,
                total,
            ) <= parameters.max_strength,
    ensures
        normalized_total(conns, synapses, parameters, target, total) == scaled_sum(
            positive_strengths(conns, synapses),
            target,
            total,
        ),
    decreases conns.len(),
{
    if conns.len() > 0 {
        let prefix = conns.drop_last();
        assert(forall|k: int| 0 <= k < prefix.len() ==> #[trigger] prefix[k] == conns[k]);
        assert(conns.last() == conns[conns.len() - 1]);
        lemma_normalized_total_unclamped(prefix, synapses, parameters, target, total);
        let c = conns.last();
        if c.synapse_index < synapses.len() && synapses[c.synapse_index as int].pre_cell_type
            == CellType::EXCITE {
            let pushed = positive_strengths(prefix, synapses).push(
                synapses[c.synapse_index as int].strength as int,
            );
            assert(pushed.drop_last() =~= positive_strengths(prefix, synapses));
            assert(positive_strengths(conns, synapses) == pushed);
        }
    }
}

/// With a zero (or negative) pre-normalize total, normalization leaves
/// every synapse unchanged, whatever its state: the scale factor is one and
/// nothing is re-clamped.
pub proof fn lemma_normalize_zero_total_noop(
    s: SynapseState,
    parameters: SynapseParameters,
    target: int,
    total: int,
)
    requires
        total <= 0,
    ensures
        norm_synapse(s, parameters, target, total) == s,
{
}

/// With a zero (or negative) pre-normalize total, the recomputed sum is the
/// pre-normalize sum itself.
pub proof fn lemma_normalized_total_degenerate(
    conns: Seq<Connection>,
    synapses: Seq<Synapse>,
    parameters: SynapseParameters,
    target: int,
    total: int,
)
    requires
        total <= 0,
    ensures
        normalized_total(conns, synapses, parameters, target, total) == positive_in_total(
            conns,
            synapses,
        ),
    decreases conns.len(),
{
    if conns.len() > 0 {
        let prefix = conns.drop_last();
        lemma_normalized_total_degenerate(prefix, synapses, parameters, target, total);
        let c = conns.last();
        if c.synapse_index < synapses.len() && synapses[c.synapse_index as int].pre_cell_type
            == CellType::EXCITE {
            let pushed = positive_strengths(prefix, synapses).push(
                synapses[c.synapse_index as int].strength as int,
            );
            assert(pushed.drop_last() =~= positive_strengths(prefix, synapses));
            assert(positive_strengths(conns, synapses) == pushed);
        }
    }
}

/// The effect of one outgoing edge when its pre cell fires: the synapse
/// responds to the fire (reading the post cell's calcium as it stands at
/// that moment) and the returned current is pushed into the post cell.
pub open spec fn fire_out_step(
    cells: Seq<MembraneState>,
    synapses: Seq<SynapseState>,
    c: Connection,
    parameters: SynapseParameters,
    noise: int,
) -> (Seq<MembraneState>, Seq<SynapseState>) {
    let syn = synapses[c.synapse_index as int];
    let post = cells[c.post_cell_index as int];
    let new_synapses = synapses.update(
        c.synapse_index as int,
        pre_fired(syn, parameters, post.calcium),
    );
    let new_cells = cells.update(
        c.post_cell_index as int,
        MembraneState {
            input_current: post.input_current + pre_fire_delta(syn, parameters, noise),
            ..post
        },
    );
    (new_cells, new_synapses)
}

/// The indexes and the arithmetic of one outgoing-edge step stay in range.
pub open spec fn fire_out_step_fits(
    cells: Seq<MembraneState>,
    synapses: Seq<SynapseState>,
    c: Connection,
    parameters: SynapseParameters,
    noise: int,
) -> bool {
    &&& c.synapse_index < synapses.len()
    &&& c.post_cell_index < cells.len()
    &&& pre_fire_fits(
        synapses[c.synapse_index as int],
        parameters,
        cells[c.post_cell_index as int].calcium,
        noise,
    )
    &&& fits(
        cells[c.post_cell_index as int].input_current + pre_fire_delta(
            synapses[c.synapse_index as int],
            parameters,
            noise,
        ),
    )
}

/// The outgoing edges of a fired cell applied in order, each with its own
/// noise draw.
pub open spec fn fire_out_applied(
    cells: Seq<MembraneState>,
    synapses: Seq<SynapseState>,
    conns: Seq<Connection>,
    parameters: SynapseParameters,
    noises: Seq<int>,
) -> (Seq<MembraneState>, Seq<SynapseState>)
    decreases conns.len(),
{
    if conns.len() == 0 {
        (cells, synapses)
    } else {
        let first = fire_out_step(cells, synapses, conns[0], parameters, noises[0]);
        fire_out_applied(first.0, first.1, conns.drop_first(), parameters, noises.drop_first())
    }
}

/// Every step of the outgoing phase stays in range.
pub open spec fn fire_out_fits(
    cells: Seq<MembraneState>,
    synapses: Seq<SynapseState>,
    conns: Seq<Connection>,
    parameters: SynapseParameters,
    noises: Seq<int>,
) -> bool
    decreases conns.len(),
{
    conns.len() == 0 || {
        &&& fire_out_step_fits(cells, synapses, conns[0], parameters, noises[0])
        &&& {
            let first = fire_out_step(cells, synapses, conns[0], parameters, noises[0]);
            fire_out_fits(
                first.0,
                first.1,
                conns.drop_first(),
                parameters,
                noises.drop_first(),
            )
        }
    }
}

/// The effect of one incoming edge when its post cell fires: the synapse
/// responds to the fire, reading the pre cell's calcium; no cell changes.
pub open spec fn fire_in_step(
    cells: Seq<MembraneState>,
    synapses: Seq<SynapseState>,
    c: Connection,
    parameters: SynapseParameters,
) -> Seq<SynapseState> {
    synapses.update(
        c.synapse_index as int,
        post_fired(
            synapses[c.synapse_index as int],
            parameters,
            cells[c.pre_cell_index as int].calcium,
        ),
    )
}

/// The indexes and the arithmetic of one incoming-edge step stay in range.
pub open spec fn fire_in_step_fits(
    cells: Seq<MembraneState>,
    synapses: Seq<SynapseState>,
    c: Connection,
    parameters: SynapseParameters,
) -> bool {
    &&& c.synapse_index < synapses.len()
    &&& c.pre_cell_index < cells.len()
    &&& post_fire_fits(
        synapses[c.synapse_index as int],
        parameters,
        cells[c.pre_cell_index as int].calcium,
    )
}

/// The incoming edges of a fired cell applied in order.
pub open spec fn fire_in_applied(
    cells: Seq<MembraneState>,
    synapses: Seq<SynapseState>,
    conns: Seq<Connection>,
    parameters: SynapseParameters,
) -> Seq<SynapseState>
    decreases conns.len(),
{
    if conns.len() == 0 {
        synapses
    } else {
        let first = fire_in_step(cells, synapses, conns[0], parameters);
        fire_in_applied(cells, first, conns.drop_first(), parameters)
    }
}

/// Every step of the incoming phase stays in range.
pub open spec fn fire_in_fits(
    cells: Seq<MembraneState>,
    synapses: Seq<SynapseState>,
    conns: Seq<Connection>,
    parameters: SynapseParameters,
) -> bool
    decreases conns.len(),
{
    conns.len() == 0 || {
        &&& fire_in_step_fits(cells, synapses, conns[0], parameters)
        &&& fire_in_fits(
            cells,
            fire_in_step(cells, synapses, conns[0], parameters),
            conns.drop_first(),
            parameters,
        )
    }
}

/// The full effect of `applyFire` on a cell: its outgoing edges first, with
/// one noise draw each, then its incoming edges.
pub open spec fn apply_fire_spec(
    cells: Seq<MembraneState>,
    synapses: Seq<SynapseState>,
    out_conns: Seq<Connection>,
    in_conns: Seq<Connection>,
    parameters: SynapseParameters,
    noises: Seq<int>,
) -> (Seq<MembraneState>, Seq<SynapseState>) {
    let after_out = fire_out_applied(cells, synapses, out_conns, parameters, noises);
    (after_out.0, fire_in_applied(after_out.0, after_out.1, in_conns, parameters))
}

/// With transmission noise switched off, the outgoing phase ignores the
/// noise values entirely: any two noise sequences of the right length give
/// the same fold.
pub proof fn lemma_fire_out_noise_free(
    cells: Seq<MembraneState>,
    synapses: Seq<SynapseState>,
    conns: Seq<Connection>,
    parameters: SynapseParameters,
    noises1: Seq<int>,
    noises2: Seq<int>,
)
    requires
        parameters.noise_factor <= 0,
    ensures
        fire_out_applied(cells, synapses, conns, parameters, noises1) == fire_out_applied(
            cells,
            synapses,
            conns,
            parameters,
            noises2,
        ),
    decreases conns.len(),
{
    if conns.len() > 0 {
        let first1 = fire_out_step(cells, synapses, conns[0], parameters, noises1[0]);
        let first2 = fire_out_step(cells, synapses, conns[0], parameters, noises2[0]);
        assert(first1 == first2);
        lemma_fire_out_noise_free(
            first1.0,
            first1.1,
            conns.drop_first(),
            parameters,
            noises1.drop_first(),
            noises2.drop_first(),
        );
    }
}

/// Every noise value lies in the unit range of the generator.
pub open spec fn bounded_noise(noises: Seq<int>) -> bool {
    forall|k: int| 0 <= k < noises.len() ==> -(SCALE as int) <= #[trigger] noises[k] <= SCALE as int
}

/// Both phases of `applyFire` stay in range.
pub open spec fn apply_fire_ok(
    cells: Seq<MembraneState>,
    synapses: Seq<SynapseState>,
    out_conns: Seq<Connection>,
    in_conns: Seq<Connection>,
    parameters: SynapseParameters,
    noises: Seq<int>,
) -> bool {
    &&& fire_out_fits(cells, synapses, out_conns, parameters, noises)
    &&& {
        let after_out = fire_out_applied(cells, synapses, out_conns, parameters, noises);
        fire_in_fits(after_out.0, after_out.1, in_conns, parameters)
    }
}

/// The simulation model: one cell arena, one synapse arena, the connectivity
/// graph, the two shared parameter sets, the tracked positions of the
/// excitatory synapses, and the injected random generator.
pub struct Model {
    pub cell_membranes: Vec<CellMembrane>,
    pub synapses: Vec<Synapse>,
    pub cell_membrane_parameters: CellMembraneParameters,
    pub synapse_parameters: SynapseParameters,
    pub network: Network,
    pub positive_synapse_indexes: Vec<usize>,
    pub rng: rand::rngs::StdRng,
}

impl Model {
    /// The orchestrator's invariant: the graph is well formed, its edges and
    /// the synapse arena grow in lockstep (the `j`-th edge carries synapse
    /// `j`), every edge stays inside the cell arena, the tracked positive
    /// list is exactly the ascending list of excitatory synapse positions,
    /// and both parameter sets lie in the specified domain.
    pub open spec fn wf(self) -> bool {
        &&& self.network.wf()
        &&& self.network.connections@.len() == self.synapses@.len()
        &&& forall|j: int|
            0 <= j < self.network.connections@.len() ==> (#[trigger] self.network.connections@[j]).synapse_index
                == j
        &&& forall|j: int|
            0 <= j < self.network.connections@.len() ==> (#[trigger] self.network.connections@[j]).pre_cell_index
                < self.cell_membranes@.len() && self.network.connections@[j].post_cell_index
                < self.cell_membranes@.len()
        &&& self.positive_synapse_indexes@.map_values(|u: usize| u as int) == positive_indexes(
            self.synapses@,
        )
        &&& self.cell_membrane_parameters.wf()
        &&& self.synapse_parameters.wf()
    }

    /// A model for up to `size` connected cells, with empty arenas and a
    /// generator seeded from `seed`.
    pub fn new(
        size: usize,
        cell_membrane_parameters: CellMembraneParameters,
        synapse_parameters: SynapseParameters,
        seed: u64,
    ) -> (model: Self)
        requires
            cell_membrane_parameters.wf(),
            synapse_parameters.wf(),
        ensures
            model.wf(),
            model.cell_membranes@.len() == 0,
            model.synapses@.len() == 0,
            model.network.size() == size,
            model.network.connections@.len() == 0,
            model.cell_membrane_parameters == cell_membrane_parameters,
            model.synapse_parameters == synapse_parameters,
            model.positive_synapse_indexes@.len() == 0,
    {
        let model = Self {
            cell_membranes: Vec::with_capacity(size),
            synapses: Vec::new(),
            cell_membrane_parameters,
            synapse_parameters,
            network: Network::new(size),
            positive_synapse_indexes: Vec::new(),
            rng: rng_from_seed(seed),
        };
        proof {
            assert(model.positive_synapse_indexes@.map_values(|u: usize| u as int)
                =~= positive_indexes(model.synapses@));
        }
        model
    }

    /// Appends a membrane initialized from the starting values of the
    /// membrane parameters and returns its stable arena index.
    pub fn add_cell(&mut self, cell_type: CellType) -> (index: usize)
        requires
            old(self).wf(),
        ensures
            final(self).wf(),
            index == old(self).cell_membranes@.len(),
            final(self).cell_membranes@.len() == old(self).cell_membranes@.len() + 1,
            forall|i: int|
                0 <= i < old(self).cell_membranes@.len() ==> final(self).cell_membranes@[i]
                    == old(self).cell_membranes@[i],
            final(self).cell_membranes@[index as int]@ == (MembraneState {
                cell_type,
                voltage: old(self).cell_membrane_parameters.starting_membrane_voltage as int,
                input_current: old(self).cell_membrane_parameters.starting_input_current as int,
                calcium: old(self).cell_membrane_parameters.starting_calcium as int,
                fired: false,
            }),
            final(self).synapses == old(self).synapses,
            final(self).network == old(self).network,
            final(self).positive_synapse_indexes == old(self).positive_synapse_indexes,
            final(self).cell_membrane_parameters == old(self).cell_membrane_parameters,
            final(self).synapse_parameters == old(self).synapse_parameters,
    {
        let cell_membrane = CellMembrane::new(
            cell_type,
            self.cell_membrane_parameters.starting_membrane_voltage,
            self.cell_membrane_parameters.starting_input_current,
            self.cell_membrane_parameters.starting_calcium,
        );
        self.cell_membranes.push(cell_membrane);
        let index: usize = self.cell_membranes.len() - 1;
        index
    }

    /// The voltage of the cell at `index`.
    pub fn voltage(&self, index: usize) -> (voltage: i64)
        requires
            index < self.cell_membranes@.len(),
        ensures
            voltage == self.cell_membranes@[index as int].voltage,
    {
        let cell_membrane: &CellMembrane = &self.cell_membranes[index];
        cell_membrane.voltage()
    }

    /// The positions of the cells that fired on the step just computed, in
    /// ascending order; read-only.
    pub fn fired_indexes(&self) -> (indexes: Vec<usize>)
        ensures
            indexes@.map_values(|u: usize| u as int) == fired_indexes_of(self.cell_membranes@),
    {
        let mut indexes: Vec<usize> = Vec::new();
        let n = self.cell_membranes.len();
        for index in 0..n
            invariant
                n == self.cell_membranes@.len(),
                indexes@.map_values(|u: usize| u as int) == fired_indexes_of(
                    self.cell_membranes@.take(index as int),
                ),
        {
            let ghost prefix = self.cell_membranes@.take(index as int);
            let ghost next = self.cell_membranes@.take(index as int + 1);
            proof {
                assert(next.drop_last() =~= prefix);
                assert(next.last() == self.cell_membranes@[index as int]);
            }
            if self.cell_membranes[index].fired() {
                indexes.push(index);
                proof {
                    assert(indexes@.map_values(|u: usize| u as int) =~= fired_indexes_of(prefix).push(
                        index as int,
                    ));
                }
            }
        }
        proof {
            assert(self.cell_membranes@.take(n as int) =~= self.cell_membranes@);
        }
        indexes
    }

    /// Delegates an external input to the membrane at `index`.
    pub fn receive_input(&mut self, index: usize, strength: i64)
        requires
            old(self).wf(),
            index < old(self).cell_membranes@.len(),
            fits(old(self).cell_membranes@[index as int].input_current + strength),
        ensures
            final(self).wf(),
            final(self).cell_membranes@.len() == old(self).cell_membranes@.len(),
            final(self).cell_membranes@[index as int]@ == (MembraneState {
                input_current: old(self).cell_membranes@[index as int].input_current + strength,
                ..old(self).cell_membranes@[index as int]@
            }),
            forall|i: int|
                0 <= i < old(self).cell_membranes@.len() && i != index ==> final(self).cell_membranes@[i] == old(self).cell_membranes@[i],
            final(self).synapses == old(self).synapses,
            final(self).network == old(self).network,
            final(self).positive_synapse_indexes == old(self).positive_synapse_indexes,
            final(self).cell_membrane_parameters == old(self).cell_membrane_parameters,
            final(self).synapse_parameters == old(self).synapse_parameters,
    {
        self.cell_membranes[index].receive_input(strength);
    }

    /// Advances every membrane one step; each cell's step depends only on
    /// its own prior state.
    pub fn update_cells(&mut self)
        requires
            old(self).wf(),
            forall|i: int|
                0 <= i < old(self).cell_membranes@.len() ==> step_fits(
                    (#[trigger] old(self).cell_membranes@[i])@,
                    old(self).cell_membrane_parameters,
                ),
        ensures
            final(self).wf(),
            final(self).cell_membranes@.len() == old(self).cell_membranes@.len(),
            forall|i: int|
                0 <= i < old(self).cell_membranes@.len() ==> (#[trigger] final(self).cell_membranes@[i])@ == stepped(
                    old(self).cell_membranes@[i]@,
                    old(self).cell_membrane_parameters,
                ),
            final(self).synapses == old(self).synapses,
            final(self).network == old(self).network,
            final(self).positive_synapse_indexes == old(self).positive_synapse_indexes,
            final(self).cell_membrane_parameters == old(self).cell_membrane_parameters,
            final(self).synapse_parameters == old(self).synapse_parameters,
    {
        let parameters = self.cell_membrane_parameters;
        let n = self.cell_membranes.len();
        for i in 0..n
            invariant
                n == self.cell_membranes@.len(),
                n == old(self).cell_membranes@.len(),
                parameters == old(self).cell_membrane_parameters,
                parameters.wf(),
                forall|i2: int|
                    0 <= i2 < n ==> step_fits(
                        (#[trigger] old(self).cell_membranes@[i2])@,
                        parameters,
                    ),
                forall|i2: int|
                    0 <= i2 < i ==> (#[trigger] self.cell_membranes@[i2])@ == stepped(
                        old(self).cell_membranes@[i2]@,
                        parameters,
                    ),
                forall|i2: int|
                    i <= i2 < n ==> #[trigger] self.cell_membranes@[i2] == old(
                        self,
                    ).cell_membranes@[i2],
                self.synapses == old(self).synapses,
                self.network == old(self).network,
                self.positive_synapse_indexes == old(self).positive_synapse_indexes,
                self.cell_membrane_parameters == old(self).cell_membrane_parameters,
                self.synapse_parameters == old(self).synapse_parameters,
        {
            proof {
                assert(self.cell_membranes@[i as int] == old(self).cell_membranes@[i as int]);
                assert(step_fits(old(self).cell_membranes@[i as int]@, parameters));
            }
            self.cell_membranes[i].update(&parameters);
        }
    }

    /// The excitatory strength of the synapse at `index`.
    pub fn strength(&self, index: usize) -> (strength: i64)
        requires
            index < self.synapses@.len(),
        ensures
            strength == self.synapses@[index as int].strength,
    {
        self.synapses[index].strength
    }

    /// The inhibitory strength of the synapse at `index`.
    pub fn inhibitory_strength(&self, index: usize) -> (inhibitory_strength: i64)
        requires
            index < self.synapses@.len(),
        ensures
            inhibitory_strength == self.synapses@[index as int].inhibitory_strength,
    {
        self.synapses[index].inhibitory_strength
    }

    /// Overwrites the excitatory strength of the synapse at `index`, without
    /// clamping.
    pub fn update_strength(&mut self, index: usize, strength: i64)
        requires
            old(self).wf(),
            index < old(self).synapses@.len(),
        ensures
            final(self).wf(),
            final(self).synapses@.len() == old(self).synapses@.len(),
            final(self).synapses@[index as int]@ == (SynapseState {
                strength: strength as int,
                ..old(self).synapses@[index as int]@
            }),
            forall|j: int|
                0 <= j < old(self).synapses@.len() && j != index ==> final(self).synapses@[j]
                    == old(self).synapses@[j],
            final(self).cell_membranes == old(self).cell_membranes,
            final(self).network == old(self).network,
            final(self).positive_synapse_indexes == old(self).positive_synapse_indexes,
            final(self).cell_membrane_parameters == old(self).cell_membrane_parameters,
            final(self).synapse_parameters == old(self).synapse_parameters,
    {
        self.synapses[index].strength = strength;
        proof {
            lemma_positive_indexes_same(old(self).synapses@, self.synapses@);
        }
    }

    /// Overwrites the inhibitory strength of the synapse at `index`, without
    /// clamping.
    pub fn update_inhibitory_strength(&mut self, index: usize, inhibitory_strength: i64)
        requires
            old(self).wf(),
            index < old(self).synapses@.len(),
        ensures
            final(self).wf(),
            final(self).synapses@.len() == old(self).synapses@.len(),
            final(self).synapses@[index as int]@ == (SynapseState {
                inhibitory_strength: inhibitory_strength as int,
                ..old(self).synapses@[index as int]@
            }),
            forall|j: int|
                0 <= j < old(self).synapses@.len() && j != index ==> final(self).synapses@[j]
                    == old(self).synapses@[j],
            final(self).cell_membranes == old(self).cell_membranes,
            final(self).network == old(self).network,
            final(self).positive_synapse_indexes == old(self).positive_synapse_indexes,
            final(self).cell_membrane_parameters == old(self).cell_membrane_parameters,
            final(self).synapse_parameters == old(self).synapse_parameters,
    {
        self.synapses[index].inhibitory_strength = inhibitory_strength;
        proof {
            lemma_positive_indexes_same(old(self).synapses@, self.synapses@);
        }
    }

    /// Clamps both strengths of the synapse at `index` into the configured
    /// range.
    pub fn cap(&mut self, index: usize)
        requires
            old(self).wf(),
            index < old(self).synapses@.len(),
        ensures
            final(self).wf(),
            final(self).synapses@.len() == old(self).synapses@.len(),
            final(self).synapses@[index as int]@ == crate::model::synapse::capped(
                old(self).synapses@[index as int]@,
                old(self).synapse_parameters,
            ),
            forall|j: int|
                0 <= j < old(self).synapses@.len() && j != index ==> final(self).synapses@[j]
                    == old(self).synapses@[j],
            final(self).cell_membranes == old(self).cell_membranes,
            final(self).network == old(self).network,
            final(self).positive_synapse_indexes == old(self).positive_synapse_indexes,
            final(self).cell_membrane_parameters == old(self).cell_membrane_parameters,
            final(self).synapse_parameters == old(self).synapse_parameters,
    {
        let parameters = self.synapse_parameters;
        self.synapses[index].cap(&parameters);
        proof {
            lemma_positive_indexes_same(old(self).synapses@, self.synapses@);
        }
    }

    /// Appends a synapse wired from `pre_cell_index` to `post_cell_index`,
    /// registers the edge in the graph, tracks it as positive when its pre
    /// cell is excitatory, and returns its stable arena index.
    pub fn add_synapse(
        &mut self,
        layer_parameters: LayerSynapseParameters,
        strength: i64,
        inhibitory_strength: i64,
        pre_cell_index: usize,
        post_cell_index: usize,
    ) -> (index: usize)
        requires
            old(self).wf(),
            pre_cell_index < old(self).cell_membranes@.len(),
            post_cell_index < old(self).cell_membranes@.len(),
            pre_cell_index < old(self).network.size(),
            post_cell_index < old(self).network.size(),
        ensures
            final(self).wf(),
            index == old(self).synapses@.len(),
            final(self).synapses@.len() == old(self).synapses@.len() + 1,
            forall|j: int|
                0 <= j < old(self).synapses@.len() ==> final(self).synapses@[j] == old(
                    self,
                ).synapses@[j],
            final(self).synapses@[index as int]@ == (SynapseState {
                layer_parameters,
                strength: strength as int,
                inhibitory_strength: inhibitory_strength as int,
                s_tag: old(self).synapse_parameters.starting_s_tag as int,
                pre_cell_type: old(self).cell_membranes@[pre_cell_index as int].cell_type,
            }),
            final(self).network.connections@ == old(self).network.connections@.push(
                (Connection { pre_cell_index, post_cell_index, synapse_index: index }),
            ),
            final(self).network.size() == old(self).network.size(),
            final(self).cell_membranes == old(self).cell_membranes,
            final(self).cell_membrane_parameters == old(self).cell_membrane_parameters,
            final(self).synapse_parameters == old(self).synapse_parameters,
    {
        let synapse: Synapse = Synapse::new(
            layer_parameters,
            strength,
            inhibitory_strength,
            self.synapse_parameters.starting_s_tag,
            self.cell_membranes[pre_cell_index].cell_type,
        );
        let positive: bool = synapse.pre_cell_type == CellType::EXCITE;
        self.synapses.push(synapse);
        let index: usize = self.synapses.len() - 1;
        self.network.connect(pre_cell_index, post_cell_index, index);
        if positive {
            self.positive_synapse_indexes.push(index);
        }
        proof {
            assert(self.synapses@.drop_last() =~= old(self).synapses@);
            assert(self.synapses@.last() == self.synapses@[index as int]);
            if positive {
                assert(self.positive_synapse_indexes@.map_values(|u: usize| u as int)
                    =~= positive_indexes(old(self).synapses@).push(index as int));
            }
        }
        index
    }

    /// Resets the eligibility tag of every excitatory synapse, starting a
    /// fresh eligibility window; inhibitory synapses are untouched.
    pub fn clear_positive_s_tags(&mut self)
        requires
            old(self).wf(),
        ensures
            final(self).wf(),
            final(self).synapses@.len() == old(self).synapses@.len(),
            forall|j: int|
                0 <= j < old(self).synapses@.len() ==> (#[trigger] final(self).synapses@[j])@ == (
                if old(self).synapses@[j].pre_cell_type == CellType::EXCITE {
                    SynapseState { s_tag: 0, ..old(self).synapses@[j]@ }
                } else {
                    old(self).synapses@[j]@
                }),
            final(self).cell_membranes == old(self).cell_membranes,
            final(self).network == old(self).network,
            final(self).positive_synapse_indexes == old(self).positive_synapse_indexes,
            final(self).cell_membrane_parameters == old(self).cell_membrane_parameters,
            final(self).synapse_parameters == old(self).synapse_parameters,
    {
        let ghost positive0 = positive_indexes(old(self).synapses@);
        let ghost nsyns = old(self).synapses@.len() as int;
        let n = self.positive_synapse_indexes.len();
        for k in 0..n
            invariant
                self.positive_synapse_indexes == old(self).positive_synapse_indexes,
                n == self.positive_synapse_indexes@.len(),
                positive0 == positive_indexes(old(self).synapses@),
                positive0 == self.positive_synapse_indexes@.map_values(|u: usize| u as int),
                nsyns == old(self).synapses@.len(),
                nsyns == self.synapses@.len(),
                forall|j: int|
                    0 <= j < nsyns ==> (#[trigger] self.synapses@[j])@ == (if exists|k2: int|
                        0 <= k2 < k && positive0[k2] == j {
                        SynapseState { s_tag: 0, ..old(self).synapses@[j]@ }
                    } else {
                        old(self).synapses@[j]@
                    }),
                self.cell_membranes == old(self).cell_membranes,
                self.network == old(self).network,
                self.cell_membrane_parameters == old(self).cell_membrane_parameters,
                self.synapse_parameters == old(self).synapse_parameters,
        {
            let index: usize = self.positive_synapse_indexes[k];
            proof {
                lemma_positive_indexes_props(old(self).synapses@);
                assert(positive0[k as int] == index as int);
                assert forall|k2: int| 0 <= k2 < k implies positive0[k2] != index as int by {
                    assert(positive0[k2] < positive0[k as int]);
                }
                assert(self.synapses@[index as int]@ == old(self).synapses@[index as int]@);
            }
            let synapse = &mut self.synapses[index];
            synapse.s_tag = 0;
            proof {
                assert forall|j: int|
                    0 <= j < nsyns implies (#[trigger] self.synapses@[j])@ == (if exists|k2: int|
                        0 <= k2 < k + 1 && positive0[k2] == j {
                        SynapseState { s_tag: 0, ..old(self).synapses@[j]@ }
                    } else {
                        old(self).synapses@[j]@
                    }) by {
                    if j == index as int {
                        assert(0 <= k < k + 1 && positive0[k as int] == j);
                    } else {
                        assert((exists|k2: int| 0 <= k2 < k + 1 && positive0[k2] == j) <==> (
                        exists|k2: int| 0 <= k2 < k && positive0[k2] == j));
                    }
                }
            }
        }
        proof {
            lemma_positive_indexes_props(old(self).synapses@);
            assert forall|j: int| 0 <= j < nsyns implies (#[trigger] self.synapses@[j])@ == (if old(
                self,
            ).synapses@[j].pre_cell_type == CellType::EXCITE {
                SynapseState { s_tag: 0, ..old(self).synapses@[j]@ }
            } else {
                old(self).synapses@[j]@
            }) by {
                if old(self).synapses@[j].pre_cell_type == CellType::EXCITE {
                    assert(positive0.contains(j));
                } else {
                    assert forall|k2: int| 0 <= k2 < n implies positive0[k2] != j by {
                        assert(old(self).synapses@[positive0[k2]].pre_cell_type
                            == CellType::EXCITE);
                    }
                }
            }
            assert(forall|j: int|
                0 <= j < nsyns ==> (#[trigger] self.synapses@[j]).pre_cell_type == old(
                    self,
                ).synapses@[j].pre_cell_type);
            lemma_positive_indexes_same(old(self).synapses@, self.synapses@);
        }
    }

    /// Applies the eligibility-gated plasticity update, with the global
    /// reward signal `dopamine`, to every excitatory synapse; inhibitory
    /// synapses are untouched.
    pub fn update_synapses(&mut self, dopamine: i64)
        requires
            old(self).wf(),
            forall|j: int|
                0 <= j < old(self).synapses@.len() && (#[trigger] old(
                    self,
                ).synapses@[j]).pre_cell_type == CellType::EXCITE ==> update_fits(
                    old(self).synapses@[j]@,
                    old(self).synapse_parameters,
                    dopamine as int,
                ),
        ensures
            final(self).wf(),
            final(self).synapses@.len() == old(self).synapses@.len(),
            forall|j: int|
                0 <= j < old(self).synapses@.len() ==> (#[trigger] final(self).synapses@[j])@ == (
                if old(self).synapses@[j].pre_cell_type == CellType::EXCITE {
                    updated(old(self).synapses@[j]@, old(self).synapse_parameters, dopamine as int)
                } else {
                    old(self).synapses@[j]@
                }),
            final(self).cell_membranes == old(self).cell_membranes,
            final(self).network == old(self).network,
            final(self).positive_synapse_indexes == old(self).positive_synapse_indexes,
            final(self).cell_membrane_parameters == old(self).cell_membrane_parameters,
            final(self).synapse_parameters == old(self).synapse_parameters,
    {
        let ghost positive0 = positive_indexes(old(self).synapses@);
        let ghost nsyns = old(self).synapses@.len() as int;
        let parameters = self.synapse_parameters;
        let n = self.positive_synapse_indexes.len();
        for k in 0..n
            invariant
                self.positive_synapse_indexes == old(self).positive_synapse_indexes,
                n == self.positive_synapse_indexes@.len(),
                positive0 == positive_indexes(old(self).synapses@),
                positive0 == self.positive_synapse_indexes@.map_values(|u: usize| u as int),
                nsyns == old(self).synapses@.len(),
                nsyns == self.synapses@.len(),
                parameters == old(self).synapse_parameters,
                forall|j: int|
                    0 <= j < nsyns && (#[trigger] old(self).synapses@[j]).pre_cell_type
                        == CellType::EXCITE ==> update_fits(
                        old(self).synapses@[j]@,
                        parameters,
                        dopamine as int,
                    ),
                forall|j: int|
                    0 <= j < nsyns ==> (#[trigger] self.synapses@[j])@ == (if exists|k2: int|
                        0 <= k2 < k && positive0[k2] == j {
                        updated(old(self).synapses@[j]@, parameters, dopamine as int)
                    } else {
                        old(self).synapses@[j]@
                    }),
                self.cell_membranes == old(self).cell_membranes,
                self.network == old(self).network,
                self.cell_membrane_parameters == old(self).cell_membrane_parameters,
                self.synapse_parameters == old(self).synapse_parameters,
        {
            let index: usize = self.positive_synapse_indexes[k];
            proof {
                lemma_positive_indexes_props(old(self).synapses@);
                assert(positive0[k as int] == index as int);
                assert forall|k2: int| 0 <= k2 < k implies positive0[k2] != index as int by {
                    assert(positive0[k2] < positive0[k as int]);
                }
                assert(self.synapses@[index as int]@ == old(self).synapses@[index as int]@);
                assert(old(self).synapses@[index as int].pre_cell_type == CellType::EXCITE);
            }
            self.synapses[index].update(&parameters, dopamine);
            proof {
                assert forall|j: int|
                    0 <= j < nsyns implies (#[trigger] self.synapses@[j])@ == (if exists|k2: int|
                        0 <= k2 < k + 1 && positive0[k2] == j {
                        updated(old(self).synapses@[j]@, parameters, dopamine as int)
                    } else {
                        old(self).synapses@[j]@
                    }) by {
                    if j == index as int {
                        assert(0 <= k < k + 1 && positive0[k as int] == j);
                    } else {
                        assert((exists|k2: int| 0 <= k2 < k + 1 && positive0[k2] == j) <==> (
                        exists|k2: int| 0 <= k2 < k && positive0[k2] == j));
                    }
                }
            }
        }
        proof {
            lemma_positive_indexes_props(old(self).synapses@);
            assert forall|j: int| 0 <= j < nsyns implies (#[trigger] self.synapses@[j])@ == (if old(
                self,
            ).synapses@[j].pre_cell_type == CellType::EXCITE {
                updated(old(self).synapses@[j]@, old(self).synapse_parameters, dopamine as int)
            } else {
                old(self).synapses@[j]@
            }) by {
                if old(self).synapses@[j].pre_cell_type == CellType::EXCITE {
                    assert(positive0.contains(j));
                } else {
                    assert forall|k2: int| 0 <= k2 < n implies positive0[k2] != j by {
                        assert(old(self).synapses@[positive0[k2]].pre_cell_type
                            == CellType::EXCITE);
                    }
                }
            }
            assert(forall|j: int|
                0 <= j < nsyns ==> (#[trigger] self.synapses@[j]).pre_cell_type == old(
                    self,
                ).synapses@[j].pre_cell_type);
            lemma_positive_indexes_same(old(self).synapses@, self.synapses@);
        }
    }

    /// The incoming edges of `cell_index`.
    pub open spec fn spec_in_conns(self, cell_index: int) -> Seq<Connection> {
        with_post(self.network.connections@, cell_index)
    }

    /// The outgoing edges of `cell_index`.
    pub open spec fn spec_out_conns(self, cell_index: int) -> Seq<Connection> {
        with_pre(self.network.connections@, cell_index)
    }

    /// The sum of the strengths of the excitatory synapses incoming to
    /// `cell_index`.
    pub open spec fn spec_positive_total(self, cell_index: int) -> int {
        positive_in_total(self.spec_in_conns(cell_index), self.synapses@)
    }

    /// The sum those strengths reach after a normalization toward `target`.
    pub open spec fn spec_normalized_total(self, cell_index: int, target: int) -> int {
        normalized_total(
            self.spec_in_conns(cell_index),
            self.synapses@,
            self.synapse_parameters,
            target,
            self.spec_positive_total(cell_index),
        )
    }

    /// The total excitatory input strength of `cell_index`, exactly, on a
    /// 128-bit accumulator.
    fn positive_input_total_wide(&self, cell_index: usize) -> (total: i128)
        requires
            self.wf(),
            cell_index < self.network.size(),
        ensures
            total == positive_in_total(
                with_post(self.network.connections@, cell_index as int),
                self.synapses@,
            ),
    {
        let ghost in_conns = with_post(self.network.connections@, cell_index as int);
        proof {
            lemma_with_post_sub(
                self.network.connections@,
                cell_index as int,
                |c: Connection| c.synapse_index < self.synapses@.len(),
            );
        }
        let connections = self.network.incoming_connections(cell_index);
        let m = connections.len();
        let mut total: i128 = 0;
        for k in 0..m
            invariant
                connections@ == in_conns,
                in_conns == with_post(self.network.connections@, cell_index as int),
                m == in_conns.len(),
                forall|k2: int|
                    0 <= k2 < in_conns.len() ==> (#[trigger] in_conns[k2]).synapse_index
                        < self.synapses@.len(),
                total == isum(positive_strengths(in_conns.take(k as int), self.synapses@)),
                -((k as int) * 0x8000000000000000) <= total <= (k as int) * 0x8000000000000000,
        {
            let c: Connection = connections[k];
            let ghost prefix = in_conns.take(k as int);
            let ghost next = in_conns.take(k as int + 1);
            proof {
                assert(next.drop_last() =~= prefix);
                assert(next.last() == in_conns[k as int]);
                assert((k as int + 1) * 0x8000000000000000 == (k as int) * 0x8000000000000000
                    + 0x8000000000000000) by (nonlinear_arith);
                assert((k as int + 1) * 0x8000000000000000 <= 0xFFFFFFFFFFFFFFFF
                    * 0x8000000000000000) by (nonlinear_arith)
                    requires
                        k as int + 1 <= 0xFFFFFFFFFFFFFFFF,
                ;
            }
            if self.synapses[c.synapse_index].pre_cell_type == CellType::EXCITE {
                let strength = self.synapses[c.synapse_index].strength;
                total = total + (strength as i128);
                proof {
                    let pushed = positive_strengths(prefix, self.synapses@).push(strength as int);
                    assert(pushed.drop_last() =~= positive_strengths(prefix, self.synapses@));
                    assert(positive_strengths(next, self.synapses@) == pushed);
                }
            }
        }
        proof {
            assert(in_conns.take(m as int) =~= in_conns);
        }
        total
    }

    /// The sum of the strengths of the excitatory synapses incoming to
    /// `cell_index`.
    pub fn cell_positive_input_strength(&self, cell_index: usize) -> (total: i64)
        requires
            self.wf(),
            cell_index < self.network.size(),
            fits(self.spec_positive_total(cell_index as int)),
        ensures
            total == self.spec_positive_total(cell_index as int),
    {
        let wide = self.positive_input_total_wide(cell_index);
        wide as i64
    }

    /// Homeostatic re-normalization of the excitatory drive of `cell_index`:
    /// when the pre-normalize total is positive, rescales every incoming
    /// excitatory strength by `target / total` and clamps the rescaled
    /// strength into the configured range; a zero total is the degenerate
    /// case, not an error: every synapse is left unchanged and the old
    /// total is returned. Only the strength fields of incoming excitatory
    /// synapses ever change.
    pub fn positive_normalize(&mut self, cell_index: usize, target: i64) -> (new_total: i64)
        requires
            old(self).wf(),
            cell_index < old(self).network.size(),
            fits(old(self).spec_normalized_total(cell_index as int, target as int)),
        ensures
            final(self).wf(),
            new_total == old(self).spec_normalized_total(cell_index as int, target as int),
            final(self).synapses@.len() == old(self).synapses@.len(),
            forall|j: int|
                0 <= j < old(self).synapses@.len() ==> (#[trigger] final(self).synapses@[j])@ == (
                if contains_synapse(old(self).spec_in_conns(cell_index as int), j) {
                    norm_synapse(
                        old(self).synapses@[j]@,
                        old(self).synapse_parameters,
                        target as int,
                        old(self).spec_positive_total(cell_index as int),
                    )
                } else {
                    old(self).synapses@[j]@
                }),
            old(self).spec_positive_total(cell_index as int) <= 0 ==> new_total == old(
                self,
            ).spec_positive_total(cell_index as int),
            final(self).cell_membranes == old(self).cell_membranes,
            final(self).network == old(self).network,
            final(self).positive_synapse_indexes == old(self).positive_synapse_indexes,
            final(self).cell_membrane_parameters == old(self).cell_membrane_parameters,
            final(self).synapse_parameters == old(self).synapse_parameters,
    {
        let ghost in_conns = old(self).spec_in_conns(cell_index as int);
        let ghost total0 = old(self).spec_positive_total(cell_index as int);
        let ghost nsyns = old(self).synapses@.len() as int;
        let total_wide: i128 = self.positive_input_total_wide(cell_index);
        let parameters = self.synapse_parameters;
        let max_wide: i128 = parameters.max_strength as i128;
        let min_wide: i128 = parameters.min_strength as i128;
        proof {
            lemma_with_post_sub(
                self.network.connections@,
                cell_index as int,
                |c: Connection| c.synapse_index < old(self).synapses@.len(),
            );
            lemma_with_post_distinct(self.network.connections@, cell_index as int);
        }
        let m = self.network.incoming_connections(cell_index).len();
        let mut new_total: i128 = 0;
        for k in 0..m
            invariant
                old(self).wf(),
                self.network == old(self).network,
                in_conns == with_post(old(self).network.connections@, cell_index as int),
                cell_index < old(self).network.size(),
                m == in_conns.len(),
                total_wide == total0,
                parameters == old(self).synapse_parameters,
                max_wide == parameters.max_strength as int,
                min_wide == parameters.min_strength as int,
                nsyns == old(self).synapses@.len(),
                nsyns == self.synapses@.len(),
                forall|k2: int|
                    0 <= k2 < in_conns.len() ==> (#[trigger] in_conns[k2]).synapse_index < nsyns,
                forall|k1: int, k2: int|
                    0 <= k1 < k2 < in_conns.len() ==> (#[trigger] in_conns[k1]).synapse_index != (
                    #[trigger] in_conns[k2]).synapse_index,
                new_total == normalized_total(
                    in_conns.take(k as int),
                    old(self).synapses@,
                    parameters,
                    target as int,
                    total0,
                ),
                -((k as int) * 0x8000000000000000) <= new_total <= (k as int)
                    * 0x8000000000000000,
                forall|j: int|
                    0 <= j < nsyns ==> (#[trigger] self.synapses@[j])@ == (if exists|k2: int|
                        0 <= k2 < k && (#[trigger] in_conns[k2]).synapse_index == j {
                        norm_synapse(old(self).synapses@[j]@, parameters, target as int, total0)
                    } else {
                        old(self).synapses@[j]@
                    }),
                self.cell_membranes == old(self).cell_membranes,
                self.positive_synapse_indexes == old(self).positive_synapse_indexes,
                self.cell_membrane_parameters == old(self).cell_membrane_parameters,
                self.synapse_parameters == old(self).synapse_parameters,
        {
            let c: Connection = self.network.incoming_connections(cell_index)[k];
            let ghost prefix = in_conns.take(k as int);
            let ghost next = in_conns.take(k as int + 1);
            proof {
                assert(next.drop_last() =~= prefix);
                assert(next.last() == in_conns[k as int]);
                assert((k as int + 1) * 0x8000000000000000 == (k as int) * 0x8000000000000000
                    + 0x8000000000000000) by (nonlinear_arith);
                assert((k as int + 1) * 0x8000000000000000 <= 0xFFFFFFFFFFFFFFFF
                    * 0x8000000000000000) by (nonlinear_arith)
                    requires
                        k as int + 1 <= 0xFFFFFFFFFFFFFFFF,
                ;
                assert forall|k2: int| 0 <= k2 < k implies (#[trigger] in_conns[k2]).synapse_index
                    != c.synapse_index by {
                    assert(in_conns[k2].synapse_index != in_conns[k as int].synapse_index);
                }
                assert(self.synapses@[c.synapse_index as int]@ == old(
                    self,
                ).synapses@[c.synapse_index as int]@);
            }
            let index: usize = c.synapse_index;
            if self.synapses[index].pre_cell_type == CellType::EXCITE {
                if total_wide > 0 {
                    let strength_before = self.synapses[index].strength;
                    let scaled_wide: i128 = mul_div_wide(strength_before, target, total_wide);
                    let mut scaled: i128 = scaled_wide;
                    if scaled >= max_wide {
                        scaled = max_wide;
                    }
                    if scaled < min_wide {
                        scaled = min_wide;
                    }
                    self.synapses[index].strength = scaled as i64;
                }
                proof {
                    assert(self.synapses@[index as int]@ == norm_synapse(
                        old(self).synapses@[index as int]@,
                        parameters,
                        target as int,
                        total0,
                    ));
                }
                let new_strength = self.synapses[index].strength;
                new_total = new_total + (new_strength as i128);
                proof {
                    assert(normalized_total(next, old(self).synapses@, parameters, target as int, total0)
                        == normalized_total(prefix, old(self).synapses@, parameters, target as int, total0)
                        + norm_synapse(
                        old(self).synapses@[index as int]@,
                        parameters,
                        target as int,
                        total0,
                    ).strength);
                }
            } else {
                proof {
                    assert(normalized_total(next, old(self).synapses@, parameters, target as int, total0)
                        == normalized_total(
                        prefix,
                        old(self).synapses@,
                        parameters,
                        target as int,
                        total0,
                    ));
                }
            }
            proof {
                assert forall|j: int|
                    0 <= j < nsyns implies (#[trigger] self.synapses@[j])@ == (if exists|k2: int|
                        0 <= k2 < k + 1 && (#[trigger] in_conns[k2]).synapse_index == j {
                        norm_synapse(old(self).synapses@[j]@, parameters, target as int, total0)
                    } else {
                        old(self).synapses@[j]@
                    }) by {
                    if j == c.synapse_index as int {
                        assert(0 <= k < k + 1 && in_conns[k as int].synapse_index == j);
                    } else {
                        assert((exists|k2: int|
                            0 <= k2 < k + 1 && (#[trigger] in_conns[k2]).synapse_index == j) <==> (
                        exists|k2: int| 0 <= k2 < k && (#[trigger] in_conns[k2]).synapse_index == j));
                    }
                }
            }
        }
        proof {
            assert(in_conns.take(m as int) =~= in_conns);
            assert forall|j: int| 0 <= j < nsyns implies (#[trigger] self.synapses@[j])@ == (
            if contains_synapse(in_conns, j) {
                norm_synapse(old(self).synapses@[j]@, parameters, target as int, total0)
            } else {
                old(self).synapses@[j]@
            }) by {}
            assert(forall|j: int|
                0 <= j < nsyns ==> (#[trigger] self.synapses@[j]).pre_cell_type == old(
                    self,
                ).synapses@[j].pre_cell_type);
            lemma_positive_indexes_same(old(self).synapses@, self.synapses@);
            if total0 <= 0 {
                lemma_normalized_total_degenerate(
                    in_conns,
                    old(self).synapses@,
                    parameters,
                    target as int,
                    total0,
                );
            }
        }
        new_total as i64
    }

    /// Fire propagation for a cell that just fired: for each outgoing edge,
    /// the synapse responds (with one noise draw from the injected
    /// generator) and the returned current is pushed into the post cell; for
    /// each incoming edge, the synapse records the causal potentiation
    /// signal. The whole effect equals the two ordered folds of
    /// `apply_fire_spec` for some bounded noise sequence; everything but the
    /// noise in the transmitted currents is deterministic.
    pub fn apply_fire(&mut self, index: usize)
        requires
            old(self).wf(),
            index < old(self).network.size(),
            forall|noises: Seq<int>|
                noises.len() == old(self).spec_out_conns(index as int).len() && bounded_noise(
                    noises,
                ) ==> apply_fire_ok(
                    cells_view(old(self).cell_membranes@),
                    syns_view(old(self).synapses@),
                    old(self).spec_out_conns(index as int),
                    old(self).spec_in_conns(index as int),
                    old(self).synapse_parameters,
                    noises,
                ),
        ensures
            final(self).wf(),
            final(self).cell_membranes@.len() == old(self).cell_membranes@.len(),
            final(self).synapses@.len() == old(self).synapses@.len(),
            exists|noises: Seq<int>|
                noises.len() == old(self).spec_out_conns(index as int).len() && bounded_noise(
                    noises,
                ) && (
                cells_view(final(self).cell_membranes@),
                syns_view(final(self).synapses@),
                ) == apply_fire_spec(
                    cells_view(old(self).cell_membranes@),
                    syns_view(old(self).synapses@),
                    old(self).spec_out_conns(index as int),
                    old(self).spec_in_conns(index as int),
                    old(self).synapse_parameters,
                    noises,
                ),
            old(self).synapse_parameters.noise_factor <= 0 ==> (
            cells_view(final(self).cell_membranes@),
            syns_view(final(self).synapses@),
            ) == apply_fire_spec(
                cells_view(old(self).cell_membranes@),
                syns_view(old(self).synapses@),
                old(self).spec_out_conns(index as int),
                old(self).spec_in_conns(index as int),
                old(self).synapse_parameters,
                Seq::new(old(self).spec_out_conns(index as int).len(), |i: int| 0),
            ),
            final(self).network == old(self).network,
            final(self).positive_synapse_indexes == old(self).positive_synapse_indexes,
            final(self).cell_membrane_parameters == old(self).cell_membrane_parameters,
            final(self).synapse_parameters == old(self).synapse_parameters,
    {
        let ghost out_conns = old(self).spec_out_conns(index as int);
        let ghost in_conns = old(self).spec_in_conns(index as int);
        let ghost cells0 = cells_view(old(self).cell_membranes@);
        let ghost syns0 = syns_view(old(self).synapses@);
        let ghost ncells = old(self).cell_membranes@.len() as int;
        let ghost nsyns = old(self).synapses@.len() as int;
        let parameters = self.synapse_parameters;
        proof {
            lemma_with_pre_sub(
                self.network.connections@,
                index as int,
                |c: Connection|
                    c.synapse_index < old(self).synapses@.len() && c.post_cell_index < old(
                        self,
                    ).cell_membranes@.len() && c.pre_cell_index < old(self).cell_membranes@.len(),
            );
            lemma_with_post_sub(
                self.network.connections@,
                index as int,
                |c: Connection|
                    c.synapse_index < old(self).synapses@.len() && c.post_cell_index < old(
                        self,
                    ).cell_membranes@.len() && c.pre_cell_index < old(self).cell_membranes@.len(),
            );
        }
        let n_out = self.network.outgoing_connections(index).len();
        let mut noises: Vec<i64> = Vec::new();
        for k in 0..n_out
            invariant
                old(self).wf(),
                self.network == old(self).network,
                index < old(self).network.size(),
                out_conns == with_pre(old(self).network.connections@, index as int),
                n_out == out_conns.len(),
                parameters == old(self).synapse_parameters,
                forall|k2: int|
                    0 <= k2 < out_conns.len() ==> (#[trigger] out_conns[k2]).synapse_index < nsyns,
                nsyns == old(self).synapses@.len(),
                self.cell_membranes == old(self).cell_membranes,
                self.synapses == old(self).synapses,
                self.positive_synapse_indexes == old(self).positive_synapse_indexes,
                self.cell_membrane_parameters == old(self).cell_membrane_parameters,
                self.synapse_parameters == old(self).synapse_parameters,
                noises@.len() == k,
                forall|k2: int| 0 <= k2 < k ==> -SCALE <= #[trigger] noises@[k2] <= SCALE,
        {
            let c: Connection = self.network.outgoing_connections(index)[k];
            let mut noise: i64 = 0;
            if parameters.noise_factor > 0 && self.synapses[c.synapse_index].pre_cell_type
                == CellType::EXCITE {
                noise = draw_noise(&mut self.rng);
            }
            noises.push(noise);
        }
        let ghost ns = noises@.map_values(|x: i64| x as int);
        proof {
            assert(bounded_noise(ns));
            assert(apply_fire_ok(cells0, syns0, out_conns, in_conns, parameters, ns));
            assert(out_conns.skip(0) =~= out_conns);
            assert(ns.skip(0) =~= ns);
        }
        for k in 0..n_out
            invariant
                old(self).wf(),
                self.network == old(self).network,
                index < old(self).network.size(),
                out_conns == with_pre(old(self).network.connections@, index as int),
                n_out == out_conns.len(),
                parameters == old(self).synapse_parameters,
                nsyns == old(self).synapses@.len(),
                nsyns == self.synapses@.len(),
                ncells == old(self).cell_membranes@.len(),
                ncells == self.cell_membranes@.len(),
                noises@.len() == n_out,
                ns == noises@.map_values(|x: i64| x as int),
                fire_out_applied(cells0, syns0, out_conns, parameters, ns) == fire_out_applied(
                    cells_view(self.cell_membranes@),
                    syns_view(self.synapses@),
                    out_conns.skip(k as int),
                    parameters,
                    ns.skip(k as int),
                ),
                fire_out_fits(
                    cells_view(self.cell_membranes@),
                    syns_view(self.synapses@),
                    out_conns.skip(k as int),
                    parameters,
                    ns.skip(k as int),
                ),
                forall|j: int|
                    0 <= j < nsyns ==> (#[trigger] self.synapses@[j]).pre_cell_type == old(
                        self,
                    ).synapses@[j].pre_cell_type,
                self.positive_synapse_indexes == old(self).positive_synapse_indexes,
                self.cell_membrane_parameters == old(self).cell_membrane_parameters,
                self.synapse_parameters == old(self).synapse_parameters,
        {
            let c: Connection = self.network.outgoing_connections(index)[k];
            let ghost cur_cells = cells_view(self.cell_membranes@);
            let ghost cur_syns = syns_view(self.synapses@);
            let ghost rest = out_conns.skip(k as int);
            let ghost nrest = ns.skip(k as int);
            proof {
                assert(rest[0] == out_conns[k as int]);
                assert(nrest[0] == ns[k as int]);
                assert(rest.drop_first() =~= out_conns.skip(k as int + 1));
                assert(nrest.drop_first() =~= ns.skip(k as int + 1));
                assert(fire_out_step_fits(cur_cells, cur_syns, c, parameters, ns[k as int]));
                assert(cur_syns[c.synapse_index as int] == self.synapses@[c.synapse_index as int]@);
                assert(cur_cells[c.post_cell_index as int]
                    == self.cell_membranes@[c.post_cell_index as int]@);
            }
            let noise: i64 = noises[k];
            let post_calcium = self.cell_membranes[c.post_cell_index].calcium();
            let delta = self.synapses[c.synapse_index].pre_fire(post_calcium, &parameters, noise);
            self.cell_membranes[c.post_cell_index].receive_input(delta);
            proof {
                let first = fire_out_step(cur_cells, cur_syns, c, parameters, ns[k as int]);
                assert(syns_view(self.synapses@) =~= first.1);
                assert(cells_view(self.cell_membranes@) =~= first.0);
            }
        }
        let ghost after_out = fire_out_applied(cells0, syns0, out_conns, parameters, ns);
        proof {
            assert(out_conns.skip(n_out as int).len() == 0);
            assert(after_out.0 == cells_view(self.cell_membranes@));
            assert(after_out.1 == syns_view(self.synapses@));
            assert(in_conns.skip(0) =~= in_conns);
        }
        let n_in = self.network.incoming_connections(index).len();
        for k in 0..n_in
            invariant
                old(self).wf(),
                self.network == old(self).network,
                index < old(self).network.size(),
                in_conns == with_post(old(self).network.connections@, index as int),
                n_in == in_conns.len(),
                parameters == old(self).synapse_parameters,
                nsyns == old(self).synapses@.len(),
                nsyns == self.synapses@.len(),
                ncells == old(self).cell_membranes@.len(),
                ncells == self.cell_membranes@.len(),
                cells_view(self.cell_membranes@) == after_out.0,
                fire_in_applied(after_out.0, after_out.1, in_conns, parameters)
                    == fire_in_applied(
                    after_out.0,
                    syns_view(self.synapses@),
                    in_conns.skip(k as int),
                    parameters,
                ),
                fire_in_fits(
                    after_out.0,
                    syns_view(self.synapses@),
                    in_conns.skip(k as int),
                    parameters,
                ),
                forall|j: int|
                    0 <= j < nsyns ==> (#[trigger] self.synapses@[j]).pre_cell_type == old(
                        self,
                    ).synapses@[j].pre_cell_type,
                self.positive_synapse_indexes == old(self).positive_synapse_indexes,
                self.cell_membrane_parameters == old(self).cell_membrane_parameters,
                self.synapse_parameters == old(self).synapse_parameters,
        {
            let c: Connection = self.network.incoming_connections(index)[k];
            let ghost cur_syns = syns_view(self.synapses@);
            let ghost rest = in_conns.skip(k as int);
            proof {
                assert(rest[0] == in_conns[k as int]);
                assert(rest.drop_first() =~= in_conns.skip(k as int + 1));
                assert(fire_in_step_fits(after_out.0, cur_syns, c, parameters));
                assert(cur_syns[c.synapse_index as int] == self.synapses@[c.synapse_index as int]@);
                assert(after_out.0[c.pre_cell_index as int]
                    == self.cell_membranes@[c.pre_cell_index as int]@);
            }
            let pre_calcium = self.cell_membranes[c.pre_cell_index].calcium();
            self.synapses[c.synapse_index].post_fire(pre_calcium, &parameters);
            proof {
                assert(syns_view(self.synapses@) =~= fire_in_step(
                    after_out.0,
                    cur_syns,
                    c,
                    parameters,
                ));
            }
        }
        proof {
            assert(in_conns.skip(n_in as int).len() == 0);
            let outcome = apply_fire_spec(cells0, syns0, out_conns, in_conns, parameters, ns);
            assert((cells_view(self.cell_membranes@), syns_view(self.synapses@)) == outcome);
            if parameters.noise_factor <= 0 {
                lemma_fire_out_noise_free(
                    cells0,
                    syns0,
                    out_conns,
                    parameters,
                    ns,
                    Seq::new(out_conns.len(), |i: int| 0),
                );
            }
            lemma_positive_indexes_same(old(self).synapses@, self.synapses@);
        }
    }
}

/// Connectivity duality: every edge of a well-formed model appears exactly
/// once in the outgoing list of its pre cell and exactly once in the
/// incoming list of its post cell.
pub proof fn lemma_connectivity_duality(model: Model, j: int)
    requires
        model.wf(),
        0 <= j < model.network.connections@.len(),
    ensures
        count_synapse(
            model.network.outgoing_connections_by_index@[model.network.connections@[j].pre_cell_index as int]@,
            model.network.connections@[j].synapse_index as int,
        ) == 1,
        count_synapse(
            model.network.incoming_connections_by_index@[model.network.connections@[j].post_cell_index as int]@,
            model.network.connections@[j].synapse_index as int,
        ) == 1,
{
    lemma_count_unique(model.network.connections@, j);
}

/// Normalization invariant: with a positive pre-normalize total,
/// non-negative incoming excitatory strengths and a target that no clamp
/// bound cuts off, the post-normalize total lands in `(target - n, target]`,
/// where `n` counts the incoming excitatory synapses: rounding toward zero
/// loses strictly less than one fixed-point unit per synapse, and exact
/// equality with the target is unreachable in general.
pub proof fn lemma_normalization_invariant(model: Model, cell_index: int, target: int)
    requires
        model.wf(),
        0 <= cell_index < model.network.size(),
        target >= 0,
        model.spec_positive_total(cell_index) > 0,
        forall|k: int|
            0 <= k < model.spec_in_conns(cell_index).len() && (#[trigger] model.spec_in_conns(
                cell_index,
            )[k]).synapse_index < model.synapses@.len() && model.synapses@[model.spec_in_conns(
                cell_index,
            )[k].synapse_index as int].pre_cell_type == CellType::EXCITE
                ==> model.synapses@[model.spec_in_conns(cell_index)[k].synapse_index as int].strength
                >= 0,
        forall|k: int|
            0 <= k < model.spec_in_conns(cell_index).len() && (#[trigger] model.spec_in_conns(
                cell_index,
            )[k]).synapse_index < model.synapses@.len() && model.synapses@[model.spec_in_conns(
                cell_index,
            )[k].synapse_index as int].pre_cell_type == CellType::EXCITE
                ==> model.synapse_parameters.min_strength <= scaled_strength(
                model.synapses@[model.spec_in_conns(cell_index)[k].synapse_index as int].strength as int,
                target,
                model.spec_positive_total(cell_index),
            ) <= model.synapse_parameters.max_strength,
    ensures
        target - positive_strengths(model.spec_in_conns(cell_index), model.synapses@).len()
            < model.spec_normalized_total(cell_index, target) <= target,
{
    let conns = model.spec_in_conns(cell_index);
    let synapses = model.synapses@;
    let parameters = model.synapse_parameters;
    let total = model.spec_positive_total(cell_index);
    let values = positive_strengths(conns, synapses);
    lemma_positive_strengths_nonneg(conns, synapses);
    lemma_normalized_total_unclamped(conns, synapses, parameters, target, total);
    lemma_scaled_sum_bounds(values, target, total);
    let ss = scaled_sum(values, target, total);
    assert(isum(values) == total);
    if values.len() == 0 {
        assert(total == 0);
    }
    assert(ss <= target) by (nonlinear_arith)
        requires
            total > 0 && total * ss <= total * target,
    ;
    assert(target - values.len() < ss) by (nonlinear_arith)
        requires
            total > 0 && total * target < total * (ss + values.len()),
    ;
}

} // verus!
