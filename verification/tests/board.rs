use rtlsdr_next::tuner::{
    correct_xtal, is_correctable, nearest_step, BoardConfig, BoardOrchestrator, Decibels,
    GenericOrchestrator, InputPath, TunerType, V4Orchestrator,
};

#[test]
fn test_v4_orchestrator_hf() {
    let orch = V4Orchestrator;
    // 7 MHz HF
    let plan = orch.plan_tuning(7_000_000);
    assert_eq!(plan.tuner_hz, 35_800_000);
    assert!(plan.spectral_inv);
    assert_eq!(plan.input_path, Some(InputPath::Hf));
    assert!(plan.in_notch);
}

#[test]
fn test_v4_orchestrator_vhf() {
    let orch = V4Orchestrator;
    // 100 MHz FM
    let plan = orch.plan_tuning(100_000_000);
    assert_eq!(plan.tuner_hz, 100_000_000);
    assert!(!plan.spectral_inv);
    assert_eq!(plan.input_path, Some(InputPath::Vhf));
    assert!(plan.in_notch); // 100 MHz is in FM notch band
}

#[test]
fn test_v4_orchestrator_uhf() {
    let orch = V4Orchestrator;
    // 900 MHz UHF
    let plan = orch.plan_tuning(900_000_000);
    assert_eq!(plan.tuner_hz, 900_000_000);
    assert!(!plan.spectral_inv);
    assert_eq!(plan.input_path, Some(InputPath::Uhf));
    assert!(!plan.in_notch);
}

#[test]
fn test_generic_orchestrator() {
    let orch = GenericOrchestrator;
    let plan = orch.plan_tuning(100_000_000);
    assert_eq!(plan.tuner_hz, 100_000_000);
    assert!(!plan.spectral_inv);
    assert_eq!(plan.input_path, None);
    assert!(!plan.in_notch);
}

#[test]
fn v4_input_switches_exactly_at_the_band_edges() {
    let orch = BoardConfig::BlogV4.orchestrator();
    assert_eq!(orch.plan_tuning(28_799_999).input_path, Some(InputPath::Hf));
    assert_eq!(orch.plan_tuning(28_799_999).tuner_hz, 57_599_999);
    assert_eq!(orch.plan_tuning(28_800_000).input_path, Some(InputPath::Vhf));
    assert_eq!(orch.plan_tuning(28_800_000).tuner_hz, 28_800_000);
    assert!(!orch.plan_tuning(28_800_000).in_notch);
    assert_eq!(orch.plan_tuning(249_999_999).input_path, Some(InputPath::Vhf));
    assert_eq!(orch.plan_tuning(250_000_000).input_path, Some(InputPath::Uhf));
}

#[test]
fn v4_notch_bands_include_their_ends() {
    let orch = V4Orchestrator;
    assert!(!orch.plan_tuning(84_999_999).in_notch);
    assert!(orch.plan_tuning(85_000_000).in_notch);
    assert!(orch.plan_tuning(112_000_000).in_notch);
    assert!(!orch.plan_tuning(112_000_001).in_notch);
    assert!(orch.plan_tuning(172_000_000).in_notch);
    assert!(orch.plan_tuning(242_000_000).in_notch);
    assert!(!orch.plan_tuning(242_000_001).in_notch);
}

#[test]
fn generic_board_leaves_the_request_alone() {
    let orch = BoardConfig::Generic.orchestrator();
    assert_eq!(orch.plan_tuning(7_000_000).tuner_hz, 7_000_000);
    assert_eq!(orch.plan_tuning(7_000_000).input_path, None);
}

#[test]
fn tuner_numbers() {
    assert_eq!(TunerType::Unknown(7).id(), 0);
    assert_eq!(TunerType::E4000.id(), 1);
    assert_eq!(TunerType::FC0012.id(), 2);
    assert_eq!(TunerType::FC0013.id(), 3);
    assert_eq!(TunerType::R820T.id(), 5);
    assert_eq!(TunerType::R828D.id(), 6);
}

#[test]
fn nearest_step_prefers_the_first_of_equals() {
    let steps = [0, 10, 20];
    assert_eq!(nearest_step(&steps, -100), 0);
    assert_eq!(nearest_step(&steps, 5), 0);
    assert_eq!(nearest_step(&steps, 6), 1);
    assert_eq!(nearest_step(&steps, 15), 1);
    assert_eq!(nearest_step(&steps, 1000), 2);
}

#[test]
fn levels_are_ordered_like_the_numbers_they_stand_for() {
    let of = |db: f32| Decibels { bits: db.to_bits() };
    assert!(of(0.0).at_most_zero());
    assert!(of(-0.0).at_most_zero());
    assert!(of(-3.5).at_most_zero());
    assert!(of(f32::NEG_INFINITY).at_most_zero());
    assert!(!of(0.1).at_most_zero());
    assert!(!of(f32::NAN).at_most_zero());
    assert!(of(0.999).below_one());
    assert!(of(-30.0).below_one());
    assert!(!of(1.0).below_one());
    assert!(!of(f32::INFINITY).below_one());
    assert!(!of(f32::NAN).below_one());
}

#[test]
fn crystal_correction_is_cut_off_towards_zero() {
    assert_eq!(correct_xtal(28_800_000, 0), 28_800_000);
    assert_eq!(correct_xtal(28_800_000, 50), 28_801_440);
    assert_eq!(correct_xtal(28_800_000, -50), 28_798_560);
    // 16_000_001 * 1 / 1_000_000 = 16.000001
    assert_eq!(correct_xtal(16_000_001, 1), 16_000_017);
    assert_eq!(correct_xtal(16_000_001, -1), 15_999_985);
    assert!(is_correctable(28_800_000, i32::MAX));
    assert!(!is_correctable(u64::MAX, 1));
}
