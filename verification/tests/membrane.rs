use iron_brains::model::cell_membrane::CellMembrane;
use iron_brains::model::cell_membrane::CellMembraneParameters;
use iron_brains::model::cell_membrane::CellType;

fn parameters(reset_input_current: bool) -> CellMembraneParameters {
    CellMembraneParameters::new(
        100_000,   // voltage_decay: 0.1
        100_000,   // current_decay: 0.1
        100_000,   // calcium_decay: 0.1
        0,         // starting_membrane_voltage
        1_000_000, // max_voltage: 1.0
        0,         // voltage_reset
        500_000,   // calcium_increment: 0.5
        0,         // input_current_reset
        0,         // starting_calcium
        0,         // starting_input_current
        reset_input_current,
    )
}

#[test]
fn receive_input_accumulates() {
    let mut membrane = CellMembrane::new(CellType::EXCITE, 0, 0, 0);
    membrane.receive_input(2_000_000);
    membrane.receive_input(-500_000);
    let p = parameters(false);
    membrane.update(&p);
    // voltage integrates the input current: 0 * 0.9 + 1.5
    assert_eq!(membrane.voltage(), 1_500_000);
}

#[test]
fn fire_threshold_resets_fires_and_bumps_calcium() {
    let p = parameters(false);
    // voltage 2.0 exceeds the 1.0 threshold
    let mut membrane = CellMembrane::new(CellType::EXCITE, 2_000_000, 0, 0);
    membrane.update(&p);
    assert!(membrane.fired());
    // reset to 0, decayed, no input current
    assert_eq!(membrane.voltage(), 0);
    // calcium rose by exactly 0.5 before decay, then decayed by 10%
    assert_eq!(membrane.calcium(), 450_000);
}

#[test]
fn voltage_at_threshold_does_not_fire() {
    let p = parameters(false);
    let mut membrane = CellMembrane::new(CellType::EXCITE, 1_000_000, 0, 0);
    membrane.update(&p);
    assert!(!membrane.fired());
    assert_eq!(membrane.voltage(), 900_000);
    assert_eq!(membrane.calcium(), 0);
}

#[test]
fn fire_can_reset_input_current() {
    let p = parameters(true);
    let mut membrane = CellMembrane::new(CellType::EXCITE, 2_000_000, 700_000, 0);
    membrane.update(&p);
    assert!(membrane.fired());
    // input current was reset to 0 before integration and decay
    assert_eq!(membrane.voltage(), 0);

    let p_keep = parameters(false);
    let mut membrane_keep = CellMembrane::new(CellType::EXCITE, 2_000_000, 700_000, 0);
    membrane_keep.update(&p_keep);
    // without the reset, the current is integrated into the voltage
    assert_eq!(membrane_keep.voltage(), 700_000);
}

#[test]
fn decay_converges_to_zero_without_input() {
    let p = parameters(false);
    let mut membrane = CellMembrane::new(CellType::EXCITE, 1_000_000, 0, 900_000);
    let mut last_voltage = membrane.voltage();
    let mut last_calcium = membrane.calcium();
    for _ in 0..200 {
        membrane.update(&p);
        assert!(!membrane.fired());
        assert!(membrane.voltage() <= last_voltage);
        assert!(membrane.calcium() <= last_calcium);
        assert!(membrane.voltage() >= 0);
        assert!(membrane.calcium() >= 0);
        last_voltage = membrane.voltage();
        last_calcium = membrane.calcium();
    }
    assert_eq!(membrane.voltage(), 0);
    assert_eq!(membrane.calcium(), 0);
}
