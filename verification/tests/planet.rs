use rusty_crab::planet::{planet_rules, PlanetModel, RustyCrabPlanetAI, SunrayPlan};
use rusty_crab::resources::{BasicResourceType, ComplexResourceType};

fn planet(cells: Vec<bool>, has_rocket: bool) -> PlanetModel {
    PlanetModel { cells, has_rocket, can_have_rocket: true }
}

#[test]
fn test_planet() {
    let mut ai = RustyCrabPlanetAI::new();
    let mut state = planet(vec![false], false);

    let plan = ai.handle_sunray(&mut state);
    assert_eq!(plan, SunrayPlan { charge: Some(0), build_rocket_with: Some(0) });
    assert!(state.has_rocket);

    let (launched, built) = ai.handle_asteroid(&mut state);
    assert!(launched, "Planet failed to build rocket!");
    assert_eq!(built, None);
    assert!(!state.has_rocket);
    assert_eq!(planet_rules().0, 96);
}

#[test]
fn sunray_charges_the_first_empty_cell() {
    let mut ai = RustyCrabPlanetAI::new();
    let mut state = planet(vec![true, false, false], true);
    let plan = ai.handle_sunray(&mut state);
    assert_eq!(plan, SunrayPlan { charge: Some(1), build_rocket_with: None });
    assert_eq!(state.cells, vec![true, true, false]);
}

#[test]
fn sunray_on_full_planet_is_wasted() {
    let mut ai = RustyCrabPlanetAI::new();
    let mut state = planet(vec![true, true], true);
    let plan = ai.handle_sunray(&mut state);
    assert_eq!(plan, SunrayPlan { charge: None, build_rocket_with: None });
    assert_eq!(state.cells, vec![true, true]);
}

#[test]
fn planet_without_rockets_does_not_build() {
    let mut ai = RustyCrabPlanetAI::new();
    let mut state = PlanetModel { cells: vec![true], has_rocket: false, can_have_rocket: false };
    let (launched, built) = ai.handle_asteroid(&mut state);
    assert!(!launched);
    assert_eq!(built, Some(0));
    assert_eq!(state.cells, vec![true]);
}

#[test]
fn asteroid_without_charge_destroys() {
    let mut ai = RustyCrabPlanetAI::new();
    let mut state = planet(vec![false, false], false);
    let (launched, built) = ai.handle_asteroid(&mut state);
    assert!(!launched);
    assert_eq!(built, None);
}

#[test]
fn generation_spends_the_first_charged_cell() {
    let mut ai = RustyCrabPlanetAI::new();
    let mut state = planet(vec![false, true, true], false);
    assert_eq!(ai.cell_to_spend(&mut state, false), None);
    assert_eq!(ai.cell_to_spend(&mut state, true), Some(1));
    assert_eq!(state.cells, vec![false, false, true]);
    assert_eq!(ai.available_cells_reply(), 1);
}

#[test]
fn planet_rules_list() {
    let (id, gen, comb) = planet_rules();
    assert_eq!(id, 96);
    assert_eq!(gen, vec![BasicResourceType::Carbon]);
    assert_eq!(comb.len(), 6);
    assert_eq!(comb[5], ComplexResourceType::AIPartner);
}

