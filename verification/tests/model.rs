use iron_brains::model::cell_membrane::CellMembraneParameters;
use iron_brains::model::cell_membrane::CellType;
use iron_brains::model::synapse::LayerSynapseParameters;
use iron_brains::model::synapse::SynapseParameters;
use iron_brains::model::Model;

fn cell_parameters() -> CellMembraneParameters {
    CellMembraneParameters::new(
        100_000,   // voltage_decay: 0.1
        100_000,   // current_decay: 0.1
        100_000,   // calcium_decay: 0.1
        0,         // starting_membrane_voltage
        1_000_000, // max_voltage: 1.0
        0,         // voltage_reset
        500_000,   // calcium_increment: 0.5
        0,         // input_current_reset
        0,         // starting_calcium
        0,         // starting_input_current
        false,
    )
}

fn synapse_parameters(starting_s_tag: i64, noise_factor: i64) -> SynapseParameters {
    SynapseParameters::new(
        100_000,   // stdp_scalar: 0.1
        1_000_000, // max_strength: 1.0
        0,         // min_strength: 0.0
        starting_s_tag,
        noise_factor,
    )
}

fn layer(unsupervised_stdp: bool) -> LayerSynapseParameters {
    LayerSynapseParameters::new(unsupervised_stdp, 500_000, 200_000)
}

#[test]
fn end_to_end_fire_and_propagate() {
    let mut model = Model::new(2, cell_parameters(), synapse_parameters(0, 0), 42);
    assert_eq!(model.add_cell(CellType::EXCITE), 0);
    assert_eq!(model.add_cell(CellType::EXCITE), 1);
    // wire 0 -> 1 with strength 0.5
    assert_eq!(model.add_synapse(layer(false), 500_000, 0, 0, 1), 0);

    // inject 2.0 into cell 0 and integrate it
    model.receive_input(0, 2_000_000);
    model.update_cells();
    assert_eq!(model.voltage(0), 2_000_000);
    assert!(model.fired_indexes().is_empty());

    // the next step crosses the threshold
    model.update_cells();
    assert_eq!(model.fired_indexes(), vec![0]);

    // propagation pushes the strength into cell 1's input current
    model.apply_fire(0);
    assert_eq!(model.strength(0), 500_000);
    model.update_cells();
    assert_eq!(model.voltage(1), 500_000);
}

#[test]
fn fired_indexes_come_in_ascending_order() {
    let mut model = Model::new(3, cell_parameters(), synapse_parameters(0, 0), 1);
    model.add_cell(CellType::EXCITE);
    model.add_cell(CellType::EXCITE);
    model.add_cell(CellType::EXCITE);
    model.receive_input(0, 2_000_000);
    model.receive_input(2, 3_000_000);
    model.update_cells();
    model.update_cells();
    assert_eq!(model.fired_indexes(), vec![0, 2]);
}

#[test]
fn inhibitory_fire_subtracts_current() {
    let mut model = Model::new(2, cell_parameters(), synapse_parameters(0, 0), 7);
    model.add_cell(CellType::INHIBIT);
    model.add_cell(CellType::EXCITE);
    model.add_synapse(layer(false), 0, 250_000, 0, 1);

    model.receive_input(0, 2_000_000);
    model.update_cells();
    model.update_cells();
    assert_eq!(model.fired_indexes(), vec![0]);

    model.apply_fire(0);
    model.update_cells();
    assert_eq!(model.voltage(1), -250_000);
}

#[test]
fn noisy_transmission_stays_in_band() {
    // noise_factor 0.1 on strength 0.5: the injected current lies in
    // [0.45, 0.55]; a generator handing zeros back would land exactly on
    // 0.5 every time, so a moving draw shows up in the voltage
    let mut model = Model::new(2, cell_parameters(), synapse_parameters(0, 100_000), 2024);
    model.add_cell(CellType::EXCITE);
    model.add_cell(CellType::EXCITE);
    model.add_synapse(layer(false), 500_000, 0, 0, 1);
    model.receive_input(0, 2_000_000);
    model.update_cells();
    model.update_cells();
    model.apply_fire(0);
    model.update_cells();
    let voltage = model.voltage(1);
    assert!(voltage >= 450_000, "voltage {voltage} below the noise band");
    assert!(voltage <= 550_000, "voltage {voltage} above the noise band");
}

#[test]
fn update_synapses_applies_plasticity_to_excitatory_only() {
    // every new synapse starts with eligibility tag 0.5
    let mut model = Model::new(3, cell_parameters(), synapse_parameters(500_000, 0), 3);
    model.add_cell(CellType::EXCITE);
    model.add_cell(CellType::INHIBIT);
    model.add_cell(CellType::EXCITE);
    let excitatory = model.add_synapse(layer(false), 500_000, 0, 0, 2);
    let inhibitory = model.add_synapse(layer(false), 500_000, 300_000, 1, 2);

    // tag 0.5 decays to 0.4; strength += 0.4 * 1.0 * 0.5 = 0.2
    model.update_synapses(1_000_000);
    assert_eq!(model.strength(excitatory), 700_000);
    // the inhibitory synapse is not part of the positive set
    assert_eq!(model.strength(inhibitory), 500_000);
    assert_eq!(model.inhibitory_strength(inhibitory), 300_000);
}

#[test]
fn cleared_tags_make_updates_noops() {
    let mut model = Model::new(2, cell_parameters(), synapse_parameters(500_000, 0), 4);
    model.add_cell(CellType::EXCITE);
    model.add_cell(CellType::EXCITE);
    let synapse = model.add_synapse(layer(false), 500_000, 0, 0, 1);
    model.clear_positive_s_tags();
    model.update_synapses(1_000_000);
    assert_eq!(model.strength(synapse), 500_000);
}

#[test]
fn positive_input_strength_counts_excitatory_only() {
    let mut model = Model::new(4, cell_parameters(), synapse_parameters(0, 0), 5);
    model.add_cell(CellType::EXCITE);
    model.add_cell(CellType::EXCITE);
    model.add_cell(CellType::EXCITE);
    model.add_cell(CellType::INHIBIT);
    model.add_synapse(layer(false), 300_000, 0, 0, 2);
    model.add_synapse(layer(false), 100_000, 0, 1, 2);
    // an inhibitory source does not count toward the positive input
    model.add_synapse(layer(false), 999_999, 400_000, 3, 2);
    assert_eq!(model.cell_positive_input_strength(2), 400_000);
    assert_eq!(model.cell_positive_input_strength(0), 0);
}

#[test]
fn positive_normalize_reaches_a_divisible_target() {
    let mut model = Model::new(3, cell_parameters(), synapse_parameters(0, 0), 6);
    model.add_cell(CellType::EXCITE);
    model.add_cell(CellType::EXCITE);
    model.add_cell(CellType::EXCITE);
    let first = model.add_synapse(layer(false), 300_000, 0, 0, 2);
    let second = model.add_synapse(layer(false), 100_000, 0, 1, 2);

    // total 0.4 rescaled to 0.8: each strength exactly doubles
    let new_total = model.positive_normalize(2, 800_000);
    assert_eq!(new_total, 800_000);
    assert_eq!(model.strength(first), 600_000);
    assert_eq!(model.strength(second), 200_000);
    assert_eq!(model.cell_positive_input_strength(2), 800_000);
}

#[test]
fn positive_normalize_is_capped() {
    let mut model = Model::new(3, cell_parameters(), synapse_parameters(0, 0), 8);
    model.add_cell(CellType::EXCITE);
    model.add_cell(CellType::EXCITE);
    model.add_cell(CellType::EXCITE);
    let first = model.add_synapse(layer(false), 300_000, 0, 0, 2);
    let second = model.add_synapse(layer(false), 100_000, 0, 1, 2);

    // target 2.0 would scale 0.3 up to 1.5, but the clamp holds it at 1.0
    let new_total = model.positive_normalize(2, 2_000_000);
    assert_eq!(model.strength(first), 1_000_000);
    assert_eq!(model.strength(second), 500_000);
    assert_eq!(new_total, 1_500_000);
}

#[test]
fn positive_normalize_truncates_toward_zero() {
    let mut model = Model::new(3, cell_parameters(), synapse_parameters(0, 0), 9);
    model.add_cell(CellType::EXCITE);
    model.add_cell(CellType::EXCITE);
    model.add_cell(CellType::EXCITE);
    let first = model.add_synapse(layer(false), 1, 0, 0, 2);
    let second = model.add_synapse(layer(false), 1, 0, 1, 2);

    // each strength scales by 1/2 a unit, which truncation drops entirely
    let new_total = model.positive_normalize(2, 1);
    assert_eq!(new_total, 0);
    assert_eq!(model.strength(first), 0);
    assert_eq!(model.strength(second), 0);
}

#[test]
fn positive_normalize_with_zero_total_changes_nothing() {
    let mut model = Model::new(2, cell_parameters(), synapse_parameters(0, 0), 10);
    model.add_cell(CellType::EXCITE);
    model.add_cell(CellType::EXCITE);
    let synapse = model.add_synapse(layer(false), 0, 0, 0, 1);

    let new_total = model.positive_normalize(1, 700_000);
    assert_eq!(new_total, 0);
    assert_eq!(model.strength(synapse), 0);
    // a cell with no incoming synapses normalizes to an empty total too
    assert_eq!(model.positive_normalize(0, 700_000), 0);
}

#[test]
fn zero_total_normalize_skips_the_clamp_too() {
    // clamp range [-3, 3], incoming strengths 5 and -5: the total is zero,
    // so even out-of-range strengths stay exactly as they were
    let wide = SynapseParameters::new(100_000, 3_000_000, -3_000_000, 0, 0);
    let mut model = Model::new(3, cell_parameters(), wide, 14);
    model.add_cell(CellType::EXCITE);
    model.add_cell(CellType::EXCITE);
    model.add_cell(CellType::EXCITE);
    let first = model.add_synapse(layer(false), 5_000_000, 0, 0, 2);
    let second = model.add_synapse(layer(false), -5_000_000, 0, 1, 2);

    let new_total = model.positive_normalize(2, 700_000);
    assert_eq!(new_total, 0);
    assert_eq!(model.strength(first), 5_000_000);
    assert_eq!(model.strength(second), -5_000_000);
}

#[test]
fn positive_normalize_leaves_inhibitory_strength_alone() {
    // an incoming excitatory synapse keeps its inhibitory strength, even
    // one outside the clamp range, through a rescaling normalization
    let wide = SynapseParameters::new(100_000, 3_000_000, -3_000_000, 0, 0);
    let mut model = Model::new(3, cell_parameters(), wide, 15);
    model.add_cell(CellType::EXCITE);
    model.add_cell(CellType::EXCITE);
    model.add_cell(CellType::EXCITE);
    let first = model.add_synapse(layer(false), 1_000_000, 5_000_000, 0, 2);
    let second = model.add_synapse(layer(false), 1_000_000, 0, 1, 2);

    // total 2.0 rescaled to 4.0: each strength doubles to 2.0
    let new_total = model.positive_normalize(2, 4_000_000);
    assert_eq!(new_total, 4_000_000);
    assert_eq!(model.strength(first), 2_000_000);
    assert_eq!(model.strength(second), 2_000_000);
    assert_eq!(model.inhibitory_strength(first), 5_000_000);
}

#[test]
fn strength_setters_write_through_and_cap_clamps() {
    let mut model = Model::new(2, cell_parameters(), synapse_parameters(0, 0), 11);
    model.add_cell(CellType::EXCITE);
    model.add_cell(CellType::EXCITE);
    let synapse = model.add_synapse(layer(false), 500_000, 0, 0, 1);

    model.update_strength(synapse, 2_000_000);
    assert_eq!(model.strength(synapse), 2_000_000);
    model.update_inhibitory_strength(synapse, -300_000);
    assert_eq!(model.inhibitory_strength(synapse), -300_000);

    model.cap(synapse);
    assert_eq!(model.strength(synapse), 1_000_000);
    assert_eq!(model.inhibitory_strength(synapse), 0);
}

#[test]
fn added_synapses_appear_once_per_side() {
    let mut model = Model::new(3, cell_parameters(), synapse_parameters(0, 0), 13);
    model.add_cell(CellType::EXCITE);
    model.add_cell(CellType::EXCITE);
    model.add_cell(CellType::INHIBIT);
    let edges = [(0usize, 1usize), (1, 2), (2, 2), (0, 1)];
    for (pre, post) in edges.iter() {
        model.add_synapse(layer(false), 100_000, 0, *pre, *post);
    }
    for (synapse_index, (pre, post)) in edges.iter().enumerate() {
        let outgoing = model
            .network
            .outgoing_connections(*pre)
            .iter()
            .filter(|c| c.synapse_index == synapse_index)
            .count();
        assert_eq!(outgoing, 1);
        let incoming = model
            .network
            .incoming_connections(*post)
            .iter()
            .filter(|c| c.synapse_index == synapse_index)
            .count();
        assert_eq!(incoming, 1);
    }
}

#[test]
fn eligibility_tags_build_up_through_firing() {
    // fire the post-synaptic cell: the incoming synapse potentiates by
    // stdp_scalar * pre-cell calcium
    let mut model = Model::new(2, cell_parameters(), synapse_parameters(0, 0), 12);
    model.add_cell(CellType::EXCITE);
    model.add_cell(CellType::EXCITE);
    let synapse = model.add_synapse(layer(false), 500_000, 0, 0, 1);

    // make cell 0 fire so its calcium trace rises to 0.45 after decay
    model.receive_input(0, 2_000_000);
    model.update_cells();
    model.update_cells();
    assert_eq!(model.fired_indexes(), vec![0]);
    // now treat cell 1 as fired: its incoming synapse reads cell 0's calcium
    model.apply_fire(1);
    // tag == 0.1 * 0.45 = 0.045; one plasticity update turns it into
    // strength += 0.045 * 0.8 * 1.0 * 0.5 = 0.018
    model.update_synapses(1_000_000);
    assert_eq!(model.strength(synapse), 518_000);
}
