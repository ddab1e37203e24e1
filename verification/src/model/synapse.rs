//! One directed plastic connection: its strengths, its eligibility tag, and
//! the fire-response and learning rules that mutate them.

use vstd::prelude::*;

verus! {

use crate::fixed::clamp;
use crate::fixed::fits;
use crate::fixed::fmul;
use crate::fixed::fmul_exec;
use crate::fixed::SCALE;
use crate::model::cell_membrane::CellType;

/// Scaling constant of the unsupervised branch of the plasticity update: the
/// eligibility-to-strength conversion is attenuated by this fixed-point
/// factor (one tenth) instead of being gated by the reward signal.
pub const UNSUPERVISED_REWARD_FACTOR: i64 = 100_000;

/// Immutable configuration shared by all synapses of a simulation. The
/// clamp range must be a real interval and transmission noise cannot be
/// negative.
#[derive(Copy, Clone, PartialEq, Eq, Structural)]
pub struct SynapseParameters {
    pub stdp_scalar: i64,
    pub max_strength: i64,
    pub min_strength: i64,
    pub starting_s_tag: i64,
    pub noise_factor: i64,
}

impl SynapseParameters {
    /// The domain the simulator is specified over: a well-formed clamp range
    /// and a non-negative noise fraction.
    pub open spec fn wf(self) -> bool {
        &&& self.min_strength <= self.max_strength
        &&& 0 <= self.noise_factor
    }

    pub fn new(
        stdp_scalar: i64,
        max_strength: i64,
        min_strength: i64,
        starting_s_tag: i64,
        noise_factor: i64,
    ) -> (parameters: Self)
        requires
            min_strength <= max_strength,
            0 <= noise_factor,
        ensures
            parameters == (SynapseParameters {
                stdp_scalar,
                max_strength,
                min_strength,
                starting_s_tag,
                noise_factor,
            }),
            parameters.wf(),
    {
        Self { stdp_scalar, max_strength, min_strength, starting_s_tag, noise_factor }
    }
}

/// Learning parameters of one connection group: whether plasticity is
/// unsupervised, the reward scaling, and the per-update decay of the
/// eligibility tag.
#[derive(Copy, Clone, PartialEq, Eq, Structural)]
pub struct LayerSynapseParameters {
    pub unsupervised_stdp: bool,
    pub reward_scalar: i64,
    pub s_tag_decay_rate: i64,
}

impl LayerSynapseParameters {
    pub fn new(unsupervised_stdp: bool, reward_scalar: i64, s_tag_decay_rate: i64) -> (parameters:
        Self)
        ensures
            parameters == (LayerSynapseParameters {
                unsupervised_stdp,
                reward_scalar,
                s_tag_decay_rate,
            }),
    {
        Self { unsupervised_stdp, reward_scalar, s_tag_decay_rate }
    }
}

/// The mathematical value of one synapse: its scalar state over unbounded
/// integers.
pub ghost struct SynapseState {
    pub layer_parameters: LayerSynapseParameters,
    pub strength: int,
    pub inhibitory_strength: int,
    pub s_tag: int,
    pub pre_cell_type: CellType,
}

/// One directed connection's state: excitatory strength, inhibitory
/// strength, the eligibility tag, the learning parameters of its group, and
/// the cached type of its pre-synaptic cell.
pub struct Synapse {
    pub layer_parameters: LayerSynapseParameters,
    pub strength: i64,
    pub inhibitory_strength: i64,
    pub s_tag: i64,
    pub pre_cell_type: CellType,
}

impl View for Synapse {
    type V = SynapseState;

    open spec fn view(&self) -> SynapseState {
        SynapseState {
            layer_parameters: self.layer_parameters,
            strength: self.strength as int,
            inhibitory_strength: self.inhibitory_strength as int,
            s_tag: self.s_tag as int,
            pre_cell_type: self.pre_cell_type,
        }
    }
}

/// Both strengths clamped independently into
/// `[min_strength, max_strength]`; nothing else changes.
pub open spec fn capped(s: SynapseState, parameters: SynapseParameters) -> SynapseState {
    SynapseState {
        strength: clamp(s.strength, parameters.min_strength as int, parameters.max_strength as int),
        inhibitory_strength: clamp(
            s.inhibitory_strength,
            parameters.min_strength as int,
            parameters.max_strength as int,
        ),
        ..s
    }
}

/// The plasticity update: a zero eligibility tag is a no-op; otherwise the
/// tag decays by its group's rate, the strength grows by the decayed tag
/// scaled by the reward path (the global dopamine signal, or the fixed
/// unsupervised attenuation), and both strengths are re-clamped.
pub open spec fn updated(s: SynapseState, parameters: SynapseParameters, dopamine: int) -> SynapseState {
    if s.s_tag == 0 {
        s
    } else {
        let tag = fmul(s.s_tag, SCALE - s.layer_parameters.s_tag_decay_rate);
        let delta = if s.layer_parameters.unsupervised_stdp {
            fmul(
                fmul(tag, s.layer_parameters.reward_scalar as int),
                UNSUPERVISED_REWARD_FACTOR as int,
            )
        } else {
            fmul(fmul(tag, dopamine), s.layer_parameters.reward_scalar as int)
        };
        capped(SynapseState { s_tag: tag, strength: s.strength + delta, ..s }, parameters)
    }
}

/// The arithmetic of `updated` stays in the machine range.
pub open spec fn update_fits(s: SynapseState, parameters: SynapseParameters, dopamine: int) -> bool {
    s.s_tag == 0 || {
        let tag = fmul(s.s_tag, SCALE - s.layer_parameters.s_tag_decay_rate);
        let inner = if s.layer_parameters.unsupervised_stdp {
            fmul(tag, s.layer_parameters.reward_scalar as int)
        } else {
            fmul(tag, dopamine)
        };
        let delta = if s.layer_parameters.unsupervised_stdp {
            fmul(inner, UNSUPERVISED_REWARD_FACTOR as int)
        } else {
            fmul(inner, s.layer_parameters.reward_scalar as int)
        };
        &&& fits(SCALE - s.layer_parameters.s_tag_decay_rate)
        &&& fits(tag)
        &&& fits(inner)
        &&& fits(delta)
        &&& fits(s.strength + delta)
    }
}

/// The synapse after its pre-synaptic cell fired: an inhibitory synapse is
/// unchanged; an excitatory one lowers its eligibility tag by the
/// anti-causal depression term.
pub open spec fn pre_fired(
    s: SynapseState,
    parameters: SynapseParameters,
    post_cell_calcium: int,
) -> SynapseState {
    if s.pre_cell_type == CellType::INHIBIT {
        s
    } else {
        SynapseState {
            s_tag: s.s_tag - fmul(parameters.stdp_scalar as int, post_cell_calcium),
            ..s
        }
    }
}

/// The current a pre-synaptic fire pushes into the post cell: the negated
/// inhibitory strength for an inhibitory synapse, and the strength, with a
/// multiplicative noise term when noise is configured, for an excitatory
/// one. `noise` is the caller's unit noise draw (the orchestrator supplies
/// one from `[-SCALE, SCALE)`).
pub open spec fn pre_fire_delta(s: SynapseState, parameters: SynapseParameters, noise: int) -> int {
    if s.pre_cell_type == CellType::INHIBIT {
        -s.inhibitory_strength
    } else if parameters.noise_factor > 0 {
        s.strength + fmul(fmul(parameters.noise_factor as int, noise), s.strength)
    } else {
        s.strength
    }
}

/// The arithmetic of `pre_fired` and `pre_fire_delta` stays in the machine
/// range.
pub open spec fn pre_fire_fits(
    s: SynapseState,
    parameters: SynapseParameters,
    post_cell_calcium: int,
    noise: int,
) -> bool {
    if s.pre_cell_type == CellType::INHIBIT {
        fits(-s.inhibitory_strength)
    } else {
        &&& fits(fmul(parameters.stdp_scalar as int, post_cell_calcium))
        &&& fits(s.s_tag - fmul(parameters.stdp_scalar as int, post_cell_calcium))
        &&& (parameters.noise_factor > 0 ==> {
            &&& fits(fmul(parameters.noise_factor as int, noise))
            &&& fits(fmul(fmul(parameters.noise_factor as int, noise), s.strength))
            &&& fits(s.strength + fmul(fmul(parameters.noise_factor as int, noise), s.strength))
        })
    }
}

/// The synapse after its post-synaptic cell fired: an inhibitory synapse is
/// unchanged; an excitatory one raises its eligibility tag by the causal
/// potentiation term.
pub open spec fn post_fired(
    s: SynapseState,
    parameters: SynapseParameters,
    pre_cell_calcium: int,
) -> SynapseState {
    if s.pre_cell_type == CellType::INHIBIT {
        s
    } else {
        SynapseState {
            s_tag: s.s_tag + fmul(parameters.stdp_scalar as int, pre_cell_calcium),
            ..s
        }
    }
}

/// The arithmetic of `post_fired` stays in the machine range.
pub open spec fn post_fire_fits(
    s: SynapseState,
    parameters: SynapseParameters,
    pre_cell_calcium: int,
) -> bool {
    s.pre_cell_type == CellType::INHIBIT || {
        &&& fits(fmul(parameters.stdp_scalar as int, pre_cell_calcium))
        &&& fits(s.s_tag + fmul(parameters.stdp_scalar as int, pre_cell_calcium))
    }
}

impl Synapse {
    pub fn new(
        layer_parameters: LayerSynapseParameters,
        strength: i64,
        inhibitory_strength: i64,
        s_tag: i64,
        pre_cell_type: CellType,
    ) -> (synapse: Self)
        ensures
            synapse@ == (SynapseState {
                layer_parameters,
                strength: strength as int,
                inhibitory_strength: inhibitory_strength as int,
                s_tag: s_tag as int,
                pre_cell_type,
            }),
    {
        Self { layer_parameters, strength, inhibitory_strength, s_tag, pre_cell_type }
    }

    /// Applies the eligibility-gated plasticity update with the given global
    /// reward signal. A zero eligibility tag leaves the synapse untouched.
    pub fn update(&mut self, synapse_parameters: &SynapseParameters, dopamine: i64)
        requires
            update_fits(old(self)@, *synapse_parameters, dopamine as int),
        ensures
            final(self)@ == updated(old(self)@, *synapse_parameters, dopamine as int),
            old(self).s_tag == 0 ==> final(self)@ == old(self)@,
    {
        if self.s_tag != 0 {
            self.s_tag = crate::fixed::mul_div(
                self.s_tag,
                SCALE - self.layer_parameters.s_tag_decay_rate,
                SCALE,
            );
            if self.layer_parameters.unsupervised_stdp {
                let inner = fmul_exec(self.s_tag, self.layer_parameters.reward_scalar);
                self.strength = self.strength + fmul_exec(inner, UNSUPERVISED_REWARD_FACTOR);
            } else {
                let inner = fmul_exec(self.s_tag, dopamine);
                self.strength = self.strength + fmul_exec(inner, self.layer_parameters.reward_scalar);
            }
            self.cap(synapse_parameters);
        }
    }

    /// The response to the pre-synaptic cell firing: returns the current to
    /// push into the post cell and, on an excitatory synapse, lowers the
    /// eligibility tag. `noise` is the caller's uniform draw in
    /// `[-SCALE, SCALE)`; it only shapes the returned current, never the
    /// stored state.
    pub fn pre_fire(
        &mut self,
        post_cell_calcium: i64,
        synapse_parameters: &SynapseParameters,
        noise: i64,
    ) -> (delta: i64)
        requires
            pre_fire_fits(old(self)@, *synapse_parameters, post_cell_calcium as int, noise as int),
        ensures
            final(self)@ == pre_fired(old(self)@, *synapse_parameters, post_cell_calcium as int),
            delta == pre_fire_delta(old(self)@, *synapse_parameters, noise as int),
    {
        match self.pre_cell_type {
            CellType::INHIBIT => -self.inhibitory_strength,
            CellType::EXCITE => {
                self.s_tag = self.s_tag - fmul_exec(
                    synapse_parameters.stdp_scalar,
                    post_cell_calcium,
                );
                if synapse_parameters.noise_factor > 0 {
                    let scaled_noise = fmul_exec(synapse_parameters.noise_factor, noise);
                    let noise_term = fmul_exec(scaled_noise, self.strength);
                    self.strength + noise_term
                } else {
                    self.strength
                }
            },
        }
    }

    /// The response to the post-synaptic cell firing: an excitatory synapse
    /// raises its eligibility tag; an inhibitory one does nothing.
    pub fn post_fire(&mut self, pre_cell_calcium: i64, synapse_parameters: &SynapseParameters)
        requires
            post_fire_fits(old(self)@, *synapse_parameters, pre_cell_calcium as int),
        ensures
            final(self)@ == post_fired(old(self)@, *synapse_parameters, pre_cell_calcium as int),
    {
        if self.pre_cell_type == CellType::INHIBIT {
            return ;
        }
        self.s_tag = self.s_tag + fmul_exec(synapse_parameters.stdp_scalar, pre_cell_calcium);
    }

    /// Clamps both strengths independently into
    /// `[min_strength, max_strength]`.
    pub fn cap(&mut self, synapse_parameters: &SynapseParameters)
        ensures
            final(self)@ == capped(old(self)@, *synapse_parameters),
    {
        if self.strength >= synapse_parameters.max_strength {
            self.strength = synapse_parameters.max_strength;
        }
        if self.strength < synapse_parameters.min_strength {
            self.strength = synapse_parameters.min_strength;
        }
        if self.inhibitory_strength >= synapse_parameters.max_strength {
            self.inhibitory_strength = synapse_parameters.max_strength;
        }
        if self.inhibitory_strength < synapse_parameters.min_strength {
            self.inhibitory_strength = synapse_parameters.min_strength;
        }
    }
}

/// Clamping is idempotent: capping a synapse twice in succession yields the
/// same state as capping it once, for every synapse and every parameter set.
pub proof fn lemma_cap_idempotent(s: SynapseState, parameters: SynapseParameters)
    ensures
        capped(capped(s, parameters), parameters) == capped(s, parameters),
{
}

/// After a cap, both strengths lie in `[min_strength, max_strength]`.
pub proof fn lemma_cap_bounds(s: SynapseState, parameters: SynapseParameters)
    requires
        parameters.wf(),
    ensures
        parameters.min_strength <= capped(s, parameters).strength <= parameters.max_strength,
        parameters.min_strength <= capped(s, parameters).inhibitory_strength
            <= parameters.max_strength,
{
}

/// Strengths that lie in `[min_strength, max_strength]` still do after any
/// plasticity update and after any cap: every mutating rule of the synapse
/// is clamp-preserving.
pub proof fn lemma_strengths_stay_bounded(
    s: SynapseState,
    parameters: SynapseParameters,
    dopamine: int,
)
    requires
        parameters.wf(),
        parameters.min_strength <= s.strength <= parameters.max_strength,
        parameters.min_strength <= s.inhibitory_strength <= parameters.max_strength,
    ensures
        parameters.min_strength <= updated(s, parameters, dopamine).strength
            <= parameters.max_strength,
        parameters.min_strength <= updated(s, parameters, dopamine).inhibitory_strength
            <= parameters.max_strength,
        parameters.min_strength <= capped(s, parameters).strength <= parameters.max_strength,
        parameters.min_strength <= capped(s, parameters).inhibitory_strength
            <= parameters.max_strength,
{
}

/// A zero eligibility tag makes the plasticity update a no-op, whatever the
/// reward signal: strength, inhibitory strength and tag are all unchanged.
pub proof fn lemma_eligibility_zero_noop(
    s: SynapseState,
    parameters: SynapseParameters,
    dopamine: int,
)
    requires
        s.s_tag == 0,
    ensures
        updated(s, parameters, dopamine) == s,
{
}

} // verus!
