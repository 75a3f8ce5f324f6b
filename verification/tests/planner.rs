use rusty_crab::planner::bag::Bag;
use rusty_crab::planner::explorer::{ExplorerState, PlannerPending, PlannerReaction, SamuFazExplorer};
use rusty_crab::planner::galaxy::GalaxyKnowledge;
use rusty_crab::planner::planning::{GlobalPlanner, GlobalTask, LocalPlanner, LocalTask};
use rusty_crab::planner::round::{get_best_nearest_unexplored_planet, get_path_to_planet, nearest_combiner, nearest_generator};
use rusty_crab::protocol::{ExplorerToOrchestrator, ExplorerToPlanet, OrchestratorToExplorer, PlanetToExplorer};
use rusty_crab::resources::{BasicResourceType, ComplexResourceType, ResourceType};

type Item = u64;

fn get_dummy_knowledge() -> GalaxyKnowledge {
    let mut gk = GalaxyKnowledge::new();
    gk.add_planet(1);
    gk.add_planet(2);
    gk.add_planets_connection(1, 2);
    gk.set_n_charged_cells(1, 2);
    gk.set_n_charged_cells(2, 1);
    gk
}

#[test]
fn test_estimate_sunrays_received() {
    let old_gk = get_dummy_knowledge();
    let mut new_gk = get_dummy_knowledge();
    new_gk.set_n_charged_cells(2, 2);
    let sunrays = old_gk.estimate_sunrays_received(&new_gk);
    assert_eq!(sunrays, 1);
}

#[test]
fn test_estimate_asteroids_received() {
    let old_gk = get_dummy_knowledge();
    let mut new_gk = get_dummy_knowledge();
    new_gk.set_n_charged_cells(1, 1);
    let asteroids = old_gk.estimate_asteroids_received(&new_gk);
    assert_eq!(asteroids, 1);
}

#[test]
fn unchanged_galaxy_estimates_nothing() {
    let gk = get_dummy_knowledge();
    let same = get_dummy_knowledge();
    assert_eq!(gk.estimate_sunrays_received(&same), 0);
    assert_eq!(gk.estimate_asteroids_received(&same), 0);
}

/// Planets 1-2-3 in a line, and 4 joined to 1.
fn line_galaxy() -> GalaxyKnowledge {
    let mut gk = GalaxyKnowledge::new();
    for id in 1..=4 {
        gk.add_planet(id);
    }
    gk.add_planets_connection(1, 2);
    gk.add_planets_connection(2, 3);
    gk.add_planets_connection(1, 4);
    gk
}

#[test]
fn galaxy_records_connections_both_ways() {
    let gk = line_galaxy();
    assert_eq!(gk.get_n_planets(), 4);
    let mut n1 = gk.get_planet_neighbours(1).unwrap().clone();
    n1.sort();
    assert_eq!(n1, vec![2, 4]);
    assert_eq!(gk.get_planet_neighbours(3).unwrap(), &vec![2]);
    assert!(gk.get_planet_neighbours(9).is_none());
    assert!(gk.has_planet(4));
    assert!(!gk.has_planet(5));
}

#[test]
fn galaxy_answers_about_planets() {
    let mut gk = line_galaxy();
    gk.set_planet_basic_resources(3, vec![BasicResourceType::Carbon]);
    gk.set_planet_combination_rules(3, vec![ComplexResourceType::Water]);
    gk.set_n_charged_cells(3, 4);
    assert!(gk.produces_basic_resource(3, BasicResourceType::Carbon));
    assert!(!gk.produces_basic_resource(3, BasicResourceType::Oxygen));
    assert!(gk.supports_combination_rule(3, ComplexResourceType::Water));
    assert!(!gk.supports_combination_rule(2, ComplexResourceType::Water));
    assert_eq!(gk.get_n_charged_cells(3), 4);
    assert_eq!(gk.get_n_charged_cells(8), 0);
    assert!(gk.can_have_rocket(3));
    assert!(!gk.can_have_rocket(2));
    assert!(gk.has_planet_cell_unbounded(2));
    assert!(!gk.has_planet_cell_unbounded(3));
}

#[test]
fn best_nearest_unexplored_prefers_explored_neighbours() {
    let gk = line_galaxy();
    let explored = vec![1, 3];
    assert_eq!(get_best_nearest_unexplored_planet(&gk, 1, &explored), Some(2));
}

#[test]
fn nearest_unexplored_is_the_current_planet_first() {
    let gk = line_galaxy();
    let explored: Vec<u32> = vec![];
    assert_eq!(get_best_nearest_unexplored_planet(&gk, 1, &explored), Some(1));
}

#[test]
fn nothing_unexplored_gives_none() {
    let gk = line_galaxy();
    let explored = vec![1, 2, 3, 4];
    assert_eq!(get_best_nearest_unexplored_planet(&gk, 1, &explored), None);
}

#[test]
fn nearest_generator_needs_a_charged_cell() {
    let mut gk = line_galaxy();
    gk.set_planet_basic_resources(3, vec![BasicResourceType::Carbon]);
    gk.set_n_charged_cells(3, 2);
    gk.set_planet_basic_resources(4, vec![BasicResourceType::Carbon]);
    gk.set_n_charged_cells(4, 0);
    assert_eq!(nearest_generator(&gk, 1, BasicResourceType::Carbon), Some(3));
    assert_eq!(nearest_generator(&gk, 1, BasicResourceType::Oxygen), None);
}

#[test]
fn nearest_combiner_prefers_more_cells() {
    let mut gk = line_galaxy();
    gk.set_planet_combination_rules(2, vec![ComplexResourceType::Water]);
    gk.set_n_charged_cells(2, 1);
    gk.set_planet_combination_rules(4, vec![ComplexResourceType::Water]);
    gk.set_n_charged_cells(4, 3);
    assert_eq!(nearest_combiner(&gk, 1, ComplexResourceType::Water), Some(4));
    assert_eq!(nearest_combiner(&gk, 1, ComplexResourceType::Robot), None);
}

#[test]
fn path_to_planet_skips_the_start() {
    let gk = line_galaxy();
    assert_eq!(get_path_to_planet(&gk, 1, 3).unwrap(), vec![2, 3]);
    assert_eq!(get_path_to_planet(&gk, 4, 3).unwrap(), vec![1, 2, 3]);
    assert_eq!(get_path_to_planet(&gk, 2, 2).unwrap(), Vec::<u32>::new());
}

#[test]
fn path_to_unknown_planet_is_an_error() {
    let gk = line_galaxy();
    assert_eq!(get_path_to_planet(&gk, 1, 5).unwrap_err(), "No path found to planet 5");
}

#[test]
fn global_planner_balances_final_resources() {
    let mut state: ExplorerState<Item> = ExplorerState::new(1);
    assert_eq!(GlobalPlanner::plan_next_task(&state).resource, ComplexResourceType::AIPartner);
    state.bag.insert_complex(ComplexResourceType::AIPartner, 1);
    assert_eq!(GlobalPlanner::plan_next_task(&state).resource, ComplexResourceType::Dolphin);
    state.bag.insert_complex(ComplexResourceType::Dolphin, 2);
    assert_eq!(GlobalPlanner::plan_next_task(&state).resource, ComplexResourceType::AIPartner);
}

#[test]
fn execution_plan_for_water_from_nothing() {
    let bag: Bag<Item> = Bag::new();
    let plan = LocalPlanner::get_execution_plan(&GlobalTask::new(ComplexResourceType::Water), &bag);
    assert_eq!(plan, vec![
        LocalTask::Generate(BasicResourceType::Oxygen),
        LocalTask::Generate(BasicResourceType::Hydrogen),
        LocalTask::Produce(ComplexResourceType::Water),
    ]);
}

#[test]
fn execution_plan_for_dolphin_from_nothing() {
    let bag: Bag<Item> = Bag::new();
    let plan = LocalPlanner::get_execution_plan(&GlobalTask::new(ComplexResourceType::Dolphin), &bag);
    assert_eq!(plan, vec![
        LocalTask::Generate(BasicResourceType::Oxygen),
        LocalTask::Generate(BasicResourceType::Hydrogen),
        LocalTask::Generate(BasicResourceType::Oxygen),
        LocalTask::Generate(BasicResourceType::Hydrogen),
        LocalTask::Produce(ComplexResourceType::Water),
        LocalTask::Generate(BasicResourceType::Carbon),
        LocalTask::Produce(ComplexResourceType::Water),
        LocalTask::Produce(ComplexResourceType::Life),
        LocalTask::Produce(ComplexResourceType::Dolphin),
    ]);
}

#[test]
fn execution_plan_uses_what_the_bag_holds() {
    let mut bag: Bag<Item> = Bag::new();
    bag.insert_complex(ComplexResourceType::Water, 1);
    let plan = LocalPlanner::get_execution_plan(&GlobalTask::new(ComplexResourceType::Dolphin), &bag);
    assert_eq!(plan, vec![
        LocalTask::Generate(BasicResourceType::Oxygen),
        LocalTask::Generate(BasicResourceType::Hydrogen),
        LocalTask::Produce(ComplexResourceType::Water),
        LocalTask::Generate(BasicResourceType::Carbon),
        LocalTask::Produce(ComplexResourceType::Life),
        LocalTask::Produce(ComplexResourceType::Dolphin),
    ]);
}

#[test]
fn execution_plan_never_drops_the_goal() {
    let mut bag: Bag<Item> = Bag::new();
    bag.insert_complex(ComplexResourceType::Water, 1);
    let plan = LocalPlanner::get_execution_plan(&GlobalTask::new(ComplexResourceType::Water), &bag);
    assert_eq!(plan.last(), Some(&LocalTask::Produce(ComplexResourceType::Water)));
    assert_eq!(plan.len(), 3);
}

#[test]
fn recipe_ingredients_come_out_in_recipe_order() {
    let mut bag: Bag<Item> = Bag::new();
    bag.insert_basic(BasicResourceType::Oxygen, 10);
    assert!(bag.get_recipe_ingredients(ComplexResourceType::Water).is_none());
    bag.insert_basic(BasicResourceType::Hydrogen, 20);
    assert_eq!(bag.get_recipe_ingredients(ComplexResourceType::Water), Some((20, 10)));
    let content = bag.to_bag_content();
    assert_eq!(content.content.get(ResourceType::Basic(BasicResourceType::Oxygen)), None);
}

#[test]
fn samufaz_stops_and_reports_without_playing() {
    let mut e: SamuFazExplorer<Item> = SamuFazExplorer::new(7, 1);
    match e.handle_orchestrator_message(OrchestratorToExplorer::StopExplorerAI) {
        PlannerReaction::Reply { reply: ExplorerToOrchestrator::StopExplorerAIResult { explorer_id }, keep_running } => {
            assert_eq!(explorer_id, 7);
            assert!(keep_running);
        },
        _ => panic!("Expected StopExplorerAIResult"),
    }
    assert!(matches!(e.handle_orchestrator_message(OrchestratorToExplorer::BagContentRequest), PlannerReaction::Report));
    let _ = e.handle_orchestrator_message(OrchestratorToExplorer::StartExplorerAI);
    assert!(matches!(e.handle_orchestrator_message(OrchestratorToExplorer::BagContentRequest), PlannerReaction::PlayRoundThenReport));
}

#[test]
fn samufaz_kill_ends_the_run() {
    let mut e: SamuFazExplorer<Item> = SamuFazExplorer::new(7, 1);
    match e.handle_orchestrator_message(OrchestratorToExplorer::KillExplorer) {
        PlannerReaction::Reply { reply: ExplorerToOrchestrator::KillExplorerResult { explorer_id }, keep_running } => {
            assert_eq!(explorer_id, 7);
            assert!(!keep_running);
        },
        _ => panic!("Expected KillExplorerResult"),
    }
}

#[test]
fn samufaz_combine_without_ingredients_fails() {
    let mut e: SamuFazExplorer<Item> = SamuFazExplorer::new(7, 1);
    match e.handle_orchestrator_message(OrchestratorToExplorer::CombineResourceRequest { to_generate: ComplexResourceType::Water }) {
        PlannerReaction::Reply { reply: ExplorerToOrchestrator::CombineResourceResponse { explorer_id, generated }, keep_running } => {
            assert_eq!(explorer_id, 7);
            assert!(keep_running);
            assert_eq!(generated.unwrap_err(), "Not enough resources to combine");
        },
        _ => panic!("Expected CombineResourceResponse"),
    }
}

#[test]
fn planner_generation_failure_is_reported() {
    let mut e: SamuFazExplorer<Item> = SamuFazExplorer::new(7, 1);
    let pending = match e.handle_orchestrator_message(OrchestratorToExplorer::GenerateResourceRequest { to_generate: BasicResourceType::Carbon }) {
        PlannerReaction::AskPlanet { request: ExplorerToPlanet::GenerateResourceRequest { explorer_id, resource }, pending } => {
            assert_eq!(explorer_id, 7);
            assert_eq!(resource, BasicResourceType::Carbon);
            pending
        },
        _ => panic!("Expected GenerateResourceRequest"),
    };
    assert_eq!(pending, PlannerPending::GenerateResource);
    match e.state.complete_planet_request(7, pending, PlanetToExplorer::GenerateResourceResponse { resource: None }) {
        ExplorerToOrchestrator::GenerateResourceResponse { generated, .. } => {
            assert_eq!(generated.unwrap_err(), "Cannot create resource");
        },
        _ => panic!("Expected GenerateResourceResponse"),
    }
    match e.state.complete_planet_request(7, pending, PlanetToExplorer::GenerateResourceResponse { resource: Some((BasicResourceType::Carbon, 5)) }) {
        ExplorerToOrchestrator::GenerateResourceResponse { generated, .. } => assert!(generated.is_ok()),
        _ => panic!("Expected GenerateResourceResponse"),
    }
    let content = e.state.bag.to_bag_content();
    assert_eq!(content.content.get(ResourceType::Basic(BasicResourceType::Carbon)), Some(1));
}

use rusty_crab::planner::round::{combination_target, generation_target, next_exploration, record_inspection, record_neighbors};

#[test]
fn next_exploration_gives_planet_and_path() {
    let gk = line_galaxy();
    let explored = vec![1, 2];
    assert_eq!(next_exploration(&gk, 1, &explored), Some((4, vec![4])));
    let explored = vec![1, 2, 4];
    assert_eq!(next_exploration(&gk, 1, &explored), Some((3, vec![2, 3])));
    let explored = vec![1, 2, 3, 4];
    assert_eq!(next_exploration(&gk, 1, &explored), None);
}

#[test]
fn targets_come_with_paths() {
    let mut gk = line_galaxy();
    record_inspection(&mut gk, 3, vec![BasicResourceType::Carbon, BasicResourceType::Carbon], vec![ComplexResourceType::Water], 2);
    assert_eq!(generation_target(&gk, 1, BasicResourceType::Carbon), Some((3, vec![2, 3])));
    assert_eq!(combination_target(&gk, 4, ComplexResourceType::Water), Some((3, vec![1, 2, 3])));
    assert_eq!(combination_target(&gk, 4, ComplexResourceType::Life), None);
}

#[test]
fn recorded_neighbors_connect_both_ways() {
    let mut gk = GalaxyKnowledge::new();
    gk.add_planet(1);
    gk.add_planet(2);
    record_neighbors(&mut gk, 1, &vec![2, 7]);
    let mut n1 = gk.get_planet_neighbours(1).unwrap().clone();
    n1.sort();
    assert_eq!(n1, vec![2, 7]);
    assert_eq!(gk.get_planet_neighbours(2).unwrap(), &vec![1]);
    assert!(gk.get_planet_neighbours(7).is_none());
}
