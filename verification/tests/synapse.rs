use iron_brains::model::cell_membrane::CellType;
use iron_brains::model::synapse::LayerSynapseParameters;
use iron_brains::model::synapse::Synapse;
use iron_brains::model::synapse::SynapseParameters;

fn parameters(noise_factor: i64) -> SynapseParameters {
    SynapseParameters::new(
        100_000,   // stdp_scalar: 0.1
        1_000_000, // max_strength: 1.0
        0,         // min_strength: 0.0
        0,         // starting_s_tag
        noise_factor,
    )
}

fn layer(unsupervised_stdp: bool) -> LayerSynapseParameters {
    LayerSynapseParameters::new(
        unsupervised_stdp,
        500_000, // reward_scalar: 0.5
        200_000, // s_tag_decay_rate: 0.2
    )
}

#[test]
fn cap_clamps_both_strengths() {
    let p = parameters(0);
    let mut synapse = Synapse::new(layer(false), 2_000_000, -300_000, 0, CellType::EXCITE);
    synapse.cap(&p);
    assert_eq!(synapse.strength, 1_000_000);
    assert_eq!(synapse.inhibitory_strength, 0);
}

#[test]
fn cap_twice_is_cap_once() {
    let p = parameters(0);
    let mut once = Synapse::new(layer(false), 1_700_000, -42, 123, CellType::EXCITE);
    once.cap(&p);
    let mut twice = Synapse::new(layer(false), 1_700_000, -42, 123, CellType::EXCITE);
    twice.cap(&p);
    twice.cap(&p);
    assert_eq!(once.strength, twice.strength);
    assert_eq!(once.inhibitory_strength, twice.inhibitory_strength);
    assert_eq!(once.s_tag, twice.s_tag);
}

#[test]
fn update_with_zero_tag_is_a_noop() {
    let p = parameters(0);
    // strength deliberately outside the clamp range: a zero tag must skip
    // even the cap
    let mut synapse = Synapse::new(layer(false), 5_000_000, 0, 0, CellType::EXCITE);
    synapse.update(&p, 3_000_000);
    assert_eq!(synapse.strength, 5_000_000);
    assert_eq!(synapse.s_tag, 0);
}

#[test]
fn supervised_update_scales_by_dopamine() {
    let p = parameters(0);
    // tag 0.5 decays by 20% to 0.4; strength += 0.4 * 1.0 * 0.5 = 0.2
    let mut synapse = Synapse::new(layer(false), 500_000, 0, 500_000, CellType::EXCITE);
    synapse.update(&p, 1_000_000);
    assert_eq!(synapse.s_tag, 400_000);
    assert_eq!(synapse.strength, 700_000);
}

#[test]
fn unsupervised_update_uses_fixed_attenuation() {
    let p = parameters(0);
    // tag 0.5 decays to 0.4; strength += 0.4 * 0.5 * 0.1 = 0.02, whatever
    // the dopamine signal says
    let mut synapse = Synapse::new(layer(true), 500_000, 0, 500_000, CellType::EXCITE);
    synapse.update(&p, -9_000_000);
    assert_eq!(synapse.s_tag, 400_000);
    assert_eq!(synapse.strength, 520_000);
}

#[test]
fn update_caps_the_result() {
    let p = parameters(0);
    // tag decays to 0.8; strength += 0.8 * 1.0 * 0.5 = 0.4, clamped at 1.0
    let mut synapse = Synapse::new(
        LayerSynapseParameters::new(false, 500_000, 0),
        900_000,
        0,
        800_000,
        CellType::EXCITE,
    );
    synapse.update(&p, 1_000_000);
    assert_eq!(synapse.strength, 1_000_000);
}

#[test]
fn pre_fire_inhibitory_negates_strength() {
    let p = parameters(0);
    let mut synapse = Synapse::new(layer(false), 500_000, 250_000, 77, CellType::INHIBIT);
    let delta = synapse.pre_fire(400_000, &p, 0);
    assert_eq!(delta, -250_000);
    // no eligibility change on an inhibitory synapse
    assert_eq!(synapse.s_tag, 77);
}

#[test]
fn pre_fire_excitatory_depresses_tag() {
    let p = parameters(0);
    // tag -= 0.1 * 0.4 = 0.04
    let mut synapse = Synapse::new(layer(false), 500_000, 0, 0, CellType::EXCITE);
    let delta = synapse.pre_fire(400_000, &p, 0);
    assert_eq!(delta, 500_000);
    assert_eq!(synapse.s_tag, -40_000);
}

#[test]
fn pre_fire_noise_term_is_bounded() {
    // noise_factor 0.1 on strength 0.5: the delta stays within +-0.05
    let p = parameters(100_000);
    for noise in [-1_000_000i64, -357_000, 0, 357_000, 1_000_000] {
        let mut synapse = Synapse::new(layer(false), 500_000, 0, 0, CellType::EXCITE);
        let delta = synapse.pre_fire(0, &p, noise);
        assert!(delta >= 450_000);
        assert!(delta <= 550_000);
    }
    // the extreme noise arguments reach the edges of the band exactly
    let mut synapse = Synapse::new(layer(false), 500_000, 0, 0, CellType::EXCITE);
    assert_eq!(synapse.pre_fire(0, &p, 1_000_000), 550_000);
    let mut synapse = Synapse::new(layer(false), 500_000, 0, 0, CellType::EXCITE);
    assert_eq!(synapse.pre_fire(0, &p, -1_000_000), 450_000);
}

#[test]
fn post_fire_potentiates_excitatory_only() {
    let p = parameters(0);
    // tag += 0.1 * 0.6 = 0.06
    let mut excitatory = Synapse::new(layer(false), 500_000, 0, 10_000, CellType::EXCITE);
    excitatory.post_fire(600_000, &p);
    assert_eq!(excitatory.s_tag, 70_000);

    let mut inhibitory = Synapse::new(layer(false), 500_000, 250_000, 10_000, CellType::INHIBIT);
    inhibitory.post_fire(600_000, &p);
    assert_eq!(inhibitory.s_tag, 10_000);
}
