//! One neuron's leaky-integrate-and-fire state and its step-update rule.

use vstd::prelude::*;

verus! {

use crate::fixed::decay_value;
use crate::fixed::decayed;
use crate::fixed::fits;
use crate::fixed::lemma_decay_shrinks;
use crate::fixed::SCALE;
use vstd::math::abs;

/// Whether a cell excites or inhibits its post-synaptic cells. Fixed at cell
/// creation.
#[derive(Copy, Clone, PartialEq, Eq, Structural, Debug)]
pub enum CellType {
    EXCITE,
    INHIBIT,
}

/// Immutable configuration shared by all membranes of a simulation. Decay
/// rates are fractions of `SCALE` and must lie strictly between `0` and `1`;
/// calcium starts non-negative and only ever has a non-negative increment
/// added, so it stays non-negative.
#[derive(Copy, Clone, PartialEq, Eq, Structural)]
pub struct CellMembraneParameters {
    pub voltage_decay: i64,
    pub current_decay: i64,
    pub calcium_decay: i64,
    pub starting_membrane_voltage: i64,
    pub max_voltage: i64,
    pub voltage_reset: i64,
    pub calcium_increment: i64,
    pub input_current_reset: i64,
    pub starting_calcium: i64,
    pub starting_input_current: i64,
    pub reset_input_current: bool,
}

impl CellMembraneParameters {
    /// The domain the simulator is specified over: fractional decay rates in
    /// `(0, 1)` and a non-negative calcium trace.
    pub open spec fn wf(self) -> bool {
        &&& 0 < self.voltage_decay < SCALE
        &&& 0 < self.current_decay < SCALE
        &&& 0 < self.calcium_decay < SCALE
        &&& 0 <= self.calcium_increment
        &&& 0 <= self.starting_calcium
    }

    pub fn new(
        voltage_decay: i64,
        current_decay: i64,
        calcium_decay: i64,
        starting_membrane_voltage: i64,
        max_voltage: i64,
        voltage_reset: i64,
        calcium_increment: i64,
        input_current_reset: i64,
        starting_calcium: i64,
        starting_input_current: i64,
        reset_input_current: bool,
    ) -> (parameters: Self)
        requires
            0 < voltage_decay < SCALE,
            0 < current_decay < SCALE,
            0 < calcium_decay < SCALE,
            0 <= calcium_increment,
            0 <= starting_calcium,
        ensures
            parameters == (CellMembraneParameters {
                voltage_decay,
                current_decay,
                calcium_decay,
                starting_membrane_voltage,
                max_voltage,
                voltage_reset,
                calcium_increment,
                input_current_reset,
                starting_calcium,
                starting_input_current,
                reset_input_current,
            }),
            parameters.wf(),
    {
        Self {
            voltage_decay,
            current_decay,
            calcium_decay,
            starting_membrane_voltage,
            max_voltage,
            voltage_reset,
            calcium_increment,
            input_current_reset,
            starting_calcium,
            starting_input_current,
            reset_input_current,
        }
    }
}

/// The mathematical value of one membrane: its scalar state over unbounded
/// integers.
pub ghost struct MembraneState {
    pub cell_type: CellType,
    pub voltage: int,
    pub input_current: int,
    pub calcium: int,
    pub fired: bool,
}

/// One neuron's state: voltage, input current, a calcium trace of recent
/// firing, and the fired flag of the step just computed.
pub struct CellMembrane {
    pub cell_type: CellType,
    pub voltage: i64,
    pub input_current: i64,
    pub calcium: i64,
    pub fired: bool,
}

impl View for CellMembrane {
    type V = MembraneState;

    open spec fn view(&self) -> MembraneState {
        MembraneState {
            cell_type: self.cell_type,
            voltage: self.voltage as int,
            input_current: self.input_current as int,
            calcium: self.calcium as int,
            fired: self.fired,
        }
    }
}

/// Whether a membrane in state `s` fires this step.
pub open spec fn fires(s: MembraneState, parameters: CellMembraneParameters) -> bool {
    s.voltage > parameters.max_voltage
}

/// The fire-and-reset phase of one step, before any decay is applied: a
/// membrane above the threshold resets its voltage, raises its calcium trace
/// by the configured increment, optionally resets its input current, and
/// records that it fired.
pub open spec fn fire_phase(s: MembraneState, parameters: CellMembraneParameters) -> MembraneState {
    if fires(s, parameters) {
        MembraneState {
            voltage: parameters.voltage_reset as int,
            fired: true,
            calcium: s.calcium + parameters.calcium_increment,
            input_current: if parameters.reset_input_current {
                parameters.input_current_reset as int
            } else {
                s.input_current
            },
            ..s
        }
    } else {
        MembraneState { fired: false, ..s }
    }
}

/// The decay phase of one step: voltage decays and integrates the input
/// current, and input current and calcium decay independently.
pub open spec fn decay_phase(s: MembraneState, parameters: CellMembraneParameters) -> MembraneState {
    MembraneState {
        voltage: decayed(s.voltage, parameters.voltage_decay as int) + s.input_current,
        input_current: decayed(s.input_current, parameters.current_decay as int),
        calcium: decayed(s.calcium, parameters.calcium_decay as int),
        ..s
    }
}

/// One full membrane step: fire check and reset, then decay and integration.
pub open spec fn stepped(s: MembraneState, parameters: CellMembraneParameters) -> MembraneState {
    decay_phase(fire_phase(s, parameters), parameters)
}

/// The two sums a step performs stay in the machine range (decayed values
/// never grow, so only the additions need a bound).
pub open spec fn step_fits(s: MembraneState, parameters: CellMembraneParameters) -> bool {
    let after_fire = fire_phase(s, parameters);
    &&& fits(after_fire.calcium)
    &&& fits(decayed(after_fire.voltage, parameters.voltage_decay as int) + after_fire.input_current)
}

impl CellMembrane {
    pub fn new(cell_type: CellType, voltage: i64, input_current: i64, calcium: i64) -> (membrane:
        Self)
        ensures
            membrane@ == (MembraneState {
                cell_type,
                voltage: voltage as int,
                input_current: input_current as int,
                calcium: calcium as int,
                fired: false,
            }),
    {
        Self { cell_type, voltage, input_current, calcium, fired: false }
    }

    /// One simulation step: clear the fired flag, fire and reset if the
    /// voltage exceeded the threshold, then decay voltage, input current and
    /// calcium, with the voltage integrating the input current. A calcium
    /// trace that was non-negative stays non-negative.
    pub fn update(&mut self, parameters: &CellMembraneParameters)
        requires
            parameters.wf(),
            step_fits(old(self)@, *parameters),
        ensures
            final(self)@ == stepped(old(self)@, *parameters),
            old(self).calcium >= 0 ==> final(self).calcium >= 0,
    {
        proof {
            lemma_decay_shrinks(fire_phase(self@, *parameters).voltage, parameters.voltage_decay as int);
            lemma_decay_shrinks(
                fire_phase(self@, *parameters).input_current,
                parameters.current_decay as int,
            );
            lemma_decay_shrinks(fire_phase(self@, *parameters).calcium, parameters.calcium_decay as int);
        }
        self.fired = false;
        if self.voltage > parameters.max_voltage {
            self.voltage = parameters.voltage_reset;
            self.fired = true;
            self.calcium = self.calcium + parameters.calcium_increment;
            if parameters.reset_input_current {
                self.input_current = parameters.input_current_reset;
            }
        }
        self.voltage = decay_value(self.voltage, parameters.voltage_decay);
        self.voltage = self.voltage + self.input_current;
        self.input_current = decay_value(self.input_current, parameters.current_decay);
        self.calcium = decay_value(self.calcium, parameters.calcium_decay);
    }

    pub fn voltage(&self) -> (voltage: i64)
        ensures
            voltage == self.voltage,
    {
        self.voltage
    }

    pub fn fired(&self) -> (fired: bool)
        ensures
            fired == self.fired,
    {
        self.fired
    }

    pub fn calcium(&self) -> (calcium: i64)
        ensures
            calcium == self.calcium,
    {
        self.calcium
    }

    /// Adds `strength` to the input current; no other field changes.
    pub fn receive_input(&mut self, strength: i64)
        requires
            fits(old(self).input_current + strength),
        ensures
            final(self)@ == (MembraneState {
                input_current: old(self).input_current + strength,
                ..old(self)@
            }),
    {
        self.input_current = self.input_current + strength;
    }
}

/// With no fire this step, one step shrinks the input current and the
/// calcium trace toward zero: their magnitudes never grow, and shrink
/// strictly while nonzero. With no input current at all, the voltage does
/// the same; as long as no step fires and no input arrives, each component
/// is therefore driven monotonically toward zero.
pub proof fn lemma_membrane_decay_convergence(s: MembraneState, parameters: CellMembraneParameters)
    requires
        parameters.wf(),
        !fires(s, parameters),
    ensures
        abs(stepped(s, parameters).input_current) <= abs(s.input_current),
        s.input_current != 0 ==> abs(stepped(s, parameters).input_current) < abs(
            s.input_current,
        ),
        abs(stepped(s, parameters).calcium) <= abs(s.calcium),
        s.calcium != 0 ==> abs(stepped(s, parameters).calcium) < abs(s.calcium),
        s.calcium >= 0 ==> stepped(s, parameters).calcium >= 0,
        s.input_current == 0 ==> stepped(s, parameters).input_current == 0,
        s.input_current == 0 ==> abs(stepped(s, parameters).voltage) <= abs(s.voltage),
        s.input_current == 0 && s.voltage != 0 ==> abs(stepped(s, parameters).voltage) < abs(
            s.voltage,
        ),
{
    lemma_decay_shrinks(s.voltage, parameters.voltage_decay as int);
    lemma_decay_shrinks(s.input_current, parameters.current_decay as int);
    lemma_decay_shrinks(s.calcium, parameters.calcium_decay as int);
}

/// The fire-threshold rule: a membrane whose voltage exceeds the threshold
/// fires, its voltage is reset and its calcium trace grows by exactly the
/// configured increment, all before decay is applied.
pub proof fn lemma_fire_threshold(s: MembraneState, parameters: CellMembraneParameters)
    requires
        s.voltage > parameters.max_voltage,
    ensures
        fire_phase(s, parameters).fired,
        fire_phase(s, parameters).voltage == parameters.voltage_reset,
        fire_phase(s, parameters).calcium == s.calcium + parameters.calcium_increment,
        stepped(s, parameters).fired,
{
}

} // verus!
