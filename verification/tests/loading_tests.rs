use navaltoolbox::fill::{clamp_unit, ONE_BITS, ZERO_BITS};
use navaltoolbox::loading::{LoadingCondition, MassCategory, MassItem};

fn bits(x: f64) -> u64 {
    x.to_bits()
}

fn cog(x: f64, y: f64, z: f64) -> [u64; 3] {
    [bits(x), bits(y), bits(z)]
}

fn names(v: &[&str]) -> Vec<String> {
    v.iter().map(|s| s.to_string()).collect()
}

fn fill_of(lc: &LoadingCondition, tank: &str) -> Option<f64> {
    lc.tank_fills()
        .iter()
        .find(|e| e.tank_name == tank)
        .map(|e| f64::from_bits(e.fill_level))
}

#[test]
fn mass_category_default_is_other() {
    assert_eq!(MassCategory::default(), MassCategory::Other);
}

#[test]
fn mass_category_labels() {
    assert_eq!(MassCategory::Lightship.label(), "Lightship");
    assert_eq!(MassCategory::Deadweight.label(), "Deadweight");
    assert_eq!(MassCategory::Other.label(), "Other");
}

#[test]
fn mass_item_new_and_with_category() {
    let item = MassItem::new("Lightship", bits(5_000_000.0), cog(45.0, 0.0, 4.5));
    assert_eq!(item.name, "Lightship");
    assert_eq!(f64::from_bits(item.mass), 5_000_000.0);
    assert_eq!(item.cog, cog(45.0, 0.0, 4.5));
    assert_eq!(item.category, MassCategory::Other);
    let item = item.with_category(MassCategory::Lightship);
    assert_eq!(item.category, MassCategory::Lightship);
    assert_eq!(item.name, "Lightship");
}

#[test]
fn new_loading_condition_is_empty() {
    let lc = LoadingCondition::new("Departure");
    assert_eq!(lc.name(), "Departure");
    assert_eq!(lc.num_masses(), 0);
    assert_eq!(lc.num_tank_overrides(), 0);
    assert!(lc.masses().is_empty());
    assert!(lc.tank_fills().is_empty());
}

#[test]
fn add_mass_appends_in_order() {
    let mut lc = LoadingCondition::new("Departure");
    lc.add_mass(MassItem::new("Lightship", bits(5_000_000.0), cog(45.0, 0.0, 4.5)).with_category(MassCategory::Lightship));
    lc.add_mass_simple("Crew", bits(3_000.0), cog(35.0, 0.0, 8.0));
    assert_eq!(lc.num_masses(), 2);
    assert_eq!(lc.masses()[0].name, "Lightship");
    assert_eq!(lc.masses()[0].category, MassCategory::Lightship);
    assert_eq!(lc.masses()[1].name, "Crew");
    assert_eq!(lc.masses()[1].category, MassCategory::Other);
    assert_eq!(f64::from_bits(lc.masses()[1].mass), 3_000.0);
}

#[test]
fn remove_mass_removes_first_of_name() {
    let mut lc = LoadingCondition::new("LC");
    lc.add_mass_simple("A", bits(1.0), cog(0.0, 0.0, 0.0));
    lc.add_mass_simple("B", bits(2.0), cog(0.0, 0.0, 0.0));
    lc.add_mass_simple("A", bits(3.0), cog(0.0, 0.0, 0.0));
    assert!(lc.remove_mass("A"));
    assert_eq!(lc.num_masses(), 2);
    assert_eq!(lc.masses()[0].name, "B");
    assert_eq!(f64::from_bits(lc.masses()[1].mass), 3.0);
    assert!(lc.remove_mass("A"));
    assert!(!lc.remove_mass("A"));
    assert_eq!(lc.num_masses(), 1);
}

#[test]
fn remove_mass_missing_name_changes_nothing() {
    let mut lc = LoadingCondition::new("LC");
    lc.add_mass_simple("A", bits(1.0), cog(0.0, 0.0, 0.0));
    assert!(!lc.remove_mass("Z"));
    assert!(!lc.remove_mass("a"));
    assert_eq!(lc.num_masses(), 1);
}

#[test]
fn set_tank_fill_clamps_to_unit_interval() {
    let mut lc = LoadingCondition::new("LC");
    lc.set_tank_fill("FO_1P", bits(0.95));
    lc.set_tank_fill("FO_2P", bits(1.5));
    lc.set_tank_fill("FO_3P", bits(-0.2));
    assert_eq!(fill_of(&lc, "FO_1P"), Some(0.95));
    assert_eq!(fill_of(&lc, "FO_2P"), Some(1.0));
    assert_eq!(fill_of(&lc, "FO_3P"), Some(0.0));
    assert_eq!(lc.num_tank_overrides(), 3);
}

#[test]
fn set_tank_fill_replaces_existing_override() {
    let mut lc = LoadingCondition::new("LC");
    lc.set_tank_fill("FO_1", bits(0.5));
    lc.set_tank_fill("FO_1", bits(0.25));
    assert_eq!(lc.num_tank_overrides(), 1);
    assert_eq!(fill_of(&lc, "FO_1"), Some(0.25));
}

#[test]
fn remove_tank_fill_reports_existence() {
    let mut lc = LoadingCondition::new("LC");
    lc.set_tank_fill("FO_1", bits(0.5));
    lc.set_tank_fill("FW_1", bits(0.7));
    assert!(lc.remove_tank_fill("FO_1"));
    assert!(!lc.remove_tank_fill("FO_1"));
    assert_eq!(lc.num_tank_overrides(), 1);
    assert_eq!(fill_of(&lc, "FO_1"), None);
    assert_eq!(fill_of(&lc, "FW_1"), Some(0.7));
}

#[test]
fn set_then_remove_override_restores_absence() {
    let mut lc = LoadingCondition::new("LC");
    lc.set_tank_fill("A", bits(0.3));
    lc.set_tank_fill("B", bits(0.4));
    assert!(lc.remove_tank_fill("B"));
    assert_eq!(lc.num_tank_overrides(), 1);
    assert_eq!(fill_of(&lc, "A"), Some(0.3));
    assert_eq!(fill_of(&lc, "B"), None);
}

#[test]
fn apply_touches_only_named_tanks() {
    let mut lc = LoadingCondition::new("LC");
    lc.set_tank_fill("FO_1", bits(0.5));
    lc.set_tank_fill("Missing", bits(0.9));
    let tanks = names(&["FW_1", "FO_1", "BW_1"]);
    let updates = lc.apply(&tanks);
    assert_eq!(updates.len(), 1);
    assert_eq!(updates[0].tank_index, 1);
    assert_eq!(f64::from_bits(updates[0].fill_level), 0.5);
}

#[test]
fn apply_updates_first_tank_of_a_name() {
    let mut lc = LoadingCondition::new("LC");
    lc.set_tank_fill("T", bits(0.25));
    lc.set_tank_fill("U", bits(0.75));
    let tanks = names(&["U", "T", "T"]);
    let mut updates = lc.apply(&tanks);
    updates.sort_by_key(|u| u.tank_index);
    assert_eq!(updates.len(), 2);
    assert_eq!(updates[0].tank_index, 0);
    assert_eq!(f64::from_bits(updates[0].fill_level), 0.75);
    assert_eq!(updates[1].tank_index, 1);
    assert_eq!(f64::from_bits(updates[1].fill_level), 0.25);
}

#[test]
fn apply_with_no_overrides_changes_nothing() {
    let lc = LoadingCondition::new("LC");
    let tanks = names(&["A", "B"]);
    assert!(lc.apply(&tanks).is_empty());
}

#[test]
fn clamp_unit_matches_float_clamp() {
    let samples = [
        0.0,
        -0.0,
        0.5,
        1.0,
        1.0000000000000002,
        0.9999999999999999,
        2.0,
        -1.0,
        -1e-300,
        1e-300,
        f64::INFINITY,
        f64::NEG_INFINITY,
        f64::MAX,
        f64::MIN,
        f64::MIN_POSITIVE,
        5e-324,
        -5e-324,
        95.0 / 100.0,
    ];
    for x in samples {
        assert_eq!(clamp_unit(x.to_bits()), x.clamp(0.0, 1.0).to_bits(), "clamp of {}", x);
    }
    let nan = f64::NAN;
    assert_eq!(clamp_unit(nan.to_bits()), nan.to_bits());
    let neg_nan = -f64::NAN;
    assert_eq!(clamp_unit(neg_nan.to_bits()), neg_nan.to_bits());
}

#[test]
fn clamp_unit_is_idempotent() {
    for x in [-3.0, -0.0, 0.0, 0.4, 1.0, 7.0, f64::INFINITY] {
        let once = clamp_unit(bits(x));
        assert_eq!(clamp_unit(once), once);
    }
    assert_eq!(clamp_unit(bits(12.0)), ONE_BITS);
    assert_eq!(clamp_unit(bits(-12.0)), ZERO_BITS);
}

#[test]
fn loading_condition_rename() {
    let mut lc = LoadingCondition::new("Departure");
    lc.add_mass_simple("Crew", bits(1.0), cog(0.0, 0.0, 0.0));
    lc.set_name("Arrival");
    assert_eq!(lc.name(), "Arrival");
    assert_eq!(lc.num_masses(), 1);
}

#[test]
fn restore_tank_fill_keeps_level_as_given() {
    let mut lc = LoadingCondition::new("LC");
    lc.restore_tank_fill("FO_1", bits(1.5));
    assert_eq!(fill_of(&lc, "FO_1"), Some(1.5));
    lc.restore_tank_fill("FO_1", bits(0.5));
    assert_eq!(lc.num_tank_overrides(), 1);
    assert_eq!(fill_of(&lc, "FO_1"), Some(0.5));
}

#[test]
fn cloned_loading_condition_keeps_its_content() {
    let mut lc = LoadingCondition::new("LC");
    lc.add_mass(MassItem::new("Lightship", bits(1000.0), cog(50.0, 0.0, 5.0)).with_category(MassCategory::Lightship));
    lc.set_tank_fill("FO_1", bits(0.4));
    let copy = lc.clone();
    assert_eq!(copy.name(), "LC");
    assert_eq!(copy.num_masses(), 1);
    assert_eq!(copy.masses()[0].name, "Lightship");
    assert_eq!(copy.masses()[0].category, MassCategory::Lightship);
    assert_eq!(fill_of(&copy, "FO_1"), Some(0.4));
    assert_eq!(copy.num_tank_overrides(), 1);
}

#[test]
fn loading_condition_debug_shows_its_name() {
    let mut lc = LoadingCondition::new("Departure");
    lc.set_tank_fill("FO_1", bits(0.5));
    let text = format!("{:?}", lc);
    assert!(text.contains("Departure"));
    assert!(text.contains("FO_1"));
}
