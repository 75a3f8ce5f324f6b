use std::collections::HashSet;

use rusty_crab::allegory::bag::Bag;
use rusty_crab::allegory::communication::{PendingRequest, Reaction};
use rusty_crab::allegory::explorer::{AllegoryExplorer, ExplorerMode};
use rusty_crab::allegory::knowledge::{ExplorerKnowledge, PlanetKnowledge, StrategyState};
use rusty_crab::protocol::{BagContent, ExplorerToOrchestrator, ExplorerToPlanet, OrchestratorToExplorer, PlanetToExplorer};
use rusty_crab::resources::{BasicResourceType, ComplexResourceType, PlanetType, ResourceType};
use rusty_crab::table::ResourceTable;

/// Items in these tests are plain numbers standing for resources.
type Item = u64;

fn create_test_explorer() -> AllegoryExplorer<Item> {
    AllegoryExplorer::new_complete(1, 1, ResourceTable::new())
}

fn create_task_explorer() -> AllegoryExplorer<Item> {
    AllegoryExplorer::new(1, 1)
}

fn set(v: &[u32]) -> HashSet<u32> {
    v.iter().copied().collect()
}

fn planet(id: u32, planet_type: PlanetType, neighbors: Vec<u32>, resources: Vec<BasicResourceType>, combinations: Vec<ComplexResourceType>, cells: u32) -> PlanetKnowledge {
    PlanetKnowledge::new(id, planet_type, neighbors, resources, combinations, cells)
}

fn reply_of(r: Reaction<Item>) -> (Option<ExplorerToOrchestrator>, Result<(), String>) {
    match r {
        Reaction::Reply { reply, result } => (reply, result),
        Reaction::AskPlanet { .. } => panic!("Unexpected planet request"),
    }
}

#[test]
fn test_next_step_exploring_no_knowledge() {
    let mut explorer = create_test_explorer();

    let (orch_msg, planet_msg) = explorer.next_step(StrategyState::Exploring);

    assert!(orch_msg.is_some());
    assert!(planet_msg.is_none());

    match orch_msg {
        Some(ExplorerToOrchestrator::NeighborsRequest { explorer_id, current_planet_id }) => {
            assert_eq!(explorer_id, 1);
            assert_eq!(current_planet_id, 1);
        },
        _ => panic!("Expected NeighborsRequest"),
    }
}

#[test]
fn test_next_step_exploring_missing_resources() {
    let mut explorer = create_test_explorer();

    let pk = planet(1, PlanetType::A, vec![2, 3], vec![], vec![], 0);
    explorer.knowledge.planets.push(pk);

    let (orch_msg, planet_msg) = explorer.next_step(StrategyState::Exploring);

    assert!(orch_msg.is_none());
    assert!(planet_msg.is_some());

    match planet_msg {
        Some(ExplorerToPlanet::SupportedResourceRequest { explorer_id }) => {
            assert_eq!(explorer_id, 1);
        },
        _ => panic!("Expected SupportedResourceRequest"),
    }
}

#[test]
fn test_next_step_exploring_missing_combinations() {
    let mut explorer = create_test_explorer();

    let pk = planet(1, PlanetType::A, vec![2, 3], vec![BasicResourceType::Oxygen, BasicResourceType::Silicon], vec![], 0);
    explorer.knowledge.planets.push(pk);

    let (orch_msg, planet_msg) = explorer.next_step(StrategyState::Exploring);

    assert!(orch_msg.is_none());
    assert!(planet_msg.is_some());

    match planet_msg {
        Some(ExplorerToPlanet::SupportedCombinationRequest { explorer_id }) => {
            assert_eq!(explorer_id, 1);
        },
        _ => panic!("Expected SupportedCombinationRequest"),
    }
}

#[test]
fn test_next_step_exploring_complete_knowledge_all_explored() {
    let mut explorer = create_test_explorer();

    let pk1 = planet(1, PlanetType::A, vec![2, 3], vec![BasicResourceType::Oxygen, BasicResourceType::Silicon], vec![ComplexResourceType::Water], 10);
    let pk2 = planet(2, PlanetType::B, vec![], vec![], vec![], 0);
    let pk3 = planet(3, PlanetType::C, vec![], vec![], vec![], 0);

    explorer.knowledge.planets.push(pk1);
    explorer.knowledge.planets.push(pk2);
    explorer.knowledge.planets.push(pk3);

    let (orchestrator_message, planet_msg) = explorer.next_step(StrategyState::Exploring);

    assert!(orchestrator_message.is_none());
    assert!(planet_msg.is_none());
}

#[test]
fn test_next_step_collecting() {
    let mut explorer = create_test_explorer();

    let (orchestrator_message, planet_msg) = explorer.next_step(StrategyState::Collecting);

    assert!(orchestrator_message.is_none());
    assert!(planet_msg.is_none());
}

#[test]
fn test_next_step_finished() {
    let mut explorer = create_test_explorer();

    let (orchestrator_message, planet_msg) = explorer.next_step(StrategyState::Finished);

    assert!(orchestrator_message.is_none());
    assert!(planet_msg.is_none());
}

#[test]
fn test_next_step_failed() {
    let mut explorer = create_test_explorer();

    let (orchestrator_message, planet_msg) = explorer.next_step(StrategyState::Failed);

    assert!(orchestrator_message.is_none());
    assert!(planet_msg.is_none());
}

#[test]
fn test_handle_orchestrator_message_start_ai() {
    let mut explorer = create_task_explorer();

    let (reply, result) = reply_of(explorer.handle_orchestrator_message(OrchestratorToExplorer::StartExplorerAI));
    result.unwrap();

    match explorer.mode {
        ExplorerMode::Auto => {},
        _ => panic!("Mode should be Auto"),
    }

    let msg = reply.expect("Should receive message");
    match msg {
        ExplorerToOrchestrator::StartExplorerAIResult { explorer_id } => {
            assert_eq!(explorer_id, 1);
        },
        _ => panic!("Unexpected message"),
    }
}

#[test]
fn test_handle_orchestrator_message_kill() {
    let mut explorer = create_task_explorer();

    let (reply, result) = reply_of(explorer.handle_orchestrator_message(OrchestratorToExplorer::KillExplorer));
    result.unwrap();

    match explorer.mode {
        ExplorerMode::Killed => {},
        _ => panic!("Mode should be Killed"),
    }

    let msg = reply.expect("Should receive message");
    match msg {
        ExplorerToOrchestrator::KillExplorerResult { explorer_id } => {
            assert_eq!(explorer_id, 1);
        },
        _ => panic!("Unexpected message"),
    }
}

#[test]
fn test_handle_orchestrator_message_stop() {
    let mut explorer = create_task_explorer();

    let (first, result) = reply_of(explorer.handle_orchestrator_message(OrchestratorToExplorer::StartExplorerAI));
    result.unwrap();
    first.unwrap();

    let (reply, result) = reply_of(explorer.handle_orchestrator_message(OrchestratorToExplorer::StopExplorerAI));
    result.unwrap();

    match explorer.mode {
        ExplorerMode::Stopped => {},
        _ => panic!("Mode should be Stopped"),
    }

    let msg = reply.expect("Should receive message");
    match msg {
        ExplorerToOrchestrator::StopExplorerAIResult { explorer_id } => {
            assert_eq!(explorer_id, 1);
        },
        _ => panic!("Unexpected message"),
    }
}

#[test]
fn test_handle_orchestrator_message_current_planet() {
    let mut explorer = create_task_explorer();

    let (reply, result) = reply_of(explorer.handle_orchestrator_message(OrchestratorToExplorer::CurrentPlanetRequest));
    result.unwrap();

    let msg = reply.expect("Should receive message");
    match msg {
        ExplorerToOrchestrator::CurrentPlanetResult { explorer_id, planet_id } => {
            assert_eq!(explorer_id, 1);
            assert_eq!(planet_id, 1);
        },
        _ => panic!("Unexpected message"),
    }
}

#[test]
fn test_handle_planet_message_generate_resource() {
    let mut explorer = create_task_explorer();

    let msg = PlanetToExplorer::GenerateResourceResponse { resource: Some((BasicResourceType::Oxygen, 7)) };

    explorer.handle_planet_message(msg).unwrap();

    let bag_content = BagContent::from_bag(&explorer.bag);
    assert_eq!(bag_content.content.get(ResourceType::Basic(BasicResourceType::Oxygen)), Some(1));
}

#[test]
fn test_handle_orchestrator_message_supported_combination() {
    let mut explorer = create_task_explorer();

    let reaction = explorer.handle_orchestrator_message(OrchestratorToExplorer::SupportedCombinationRequest);
    let pending = match reaction {
        Reaction::AskPlanet { request, pending } => {
            match request {
                ExplorerToPlanet::SupportedCombinationRequest { explorer_id } => {
                    assert_eq!(explorer_id, 1);
                },
                _ => panic!("Expected SupportedCombinationRequest"),
            }
            pending
        },
        Reaction::Reply { .. } => panic!("Should receive planet message"),
    };

    let combinations = vec![ComplexResourceType::Water, ComplexResourceType::Diamond];
    let answer = PlanetToExplorer::SupportedCombinationResponse { combination_list: combinations.clone() };
    let (reply, result) = explorer.complete_planet_request(pending, Ok(answer));
    result.unwrap();

    let orch_msg = reply.expect("Should receive orchestrator message");
    match orch_msg {
        ExplorerToOrchestrator::SupportedCombinationResult { explorer_id, combination_list } => {
            assert_eq!(explorer_id, 1);
            let got: HashSet<ComplexResourceType> = combination_list.into_iter().collect();
            let want: HashSet<ComplexResourceType> = combinations.into_iter().collect();
            assert_eq!(got, want);
        },
        _ => panic!("Expected SupportedCombinationResult"),
    }
}

#[test]
fn test_handle_orchestrator_message_generate_resource_success() {
    let mut explorer = create_task_explorer();

    let reaction = explorer.handle_orchestrator_message(OrchestratorToExplorer::GenerateResourceRequest {
        to_generate: BasicResourceType::Hydrogen,
    });
    let pending = match reaction {
        Reaction::AskPlanet { request, pending } => {
            match request {
                ExplorerToPlanet::GenerateResourceRequest { explorer_id, resource } => {
                    assert_eq!(explorer_id, 1);
                    assert_eq!(resource, BasicResourceType::Hydrogen);
                },
                _ => panic!("Expected GenerateResourceRequest"),
            }
            pending
        },
        Reaction::Reply { .. } => panic!("Should receive planet message"),
    };

    let answer = PlanetToExplorer::GenerateResourceResponse { resource: Some((BasicResourceType::Hydrogen, 3)) };
    let (reply, result) = explorer.complete_planet_request(pending, Ok(answer));
    assert!(result.is_ok());

    let orch_msg = reply.expect("Should receive orchestrator message");
    match orch_msg {
        ExplorerToOrchestrator::GenerateResourceResponse { explorer_id, generated } => {
            assert_eq!(explorer_id, 1);
            assert!(generated.is_ok());
        },
        _ => panic!("Expected GenerateResourceResponse"),
    }
}

#[test]
fn test_handle_orchestrator_message_generate_resource_failure() {
    let mut explorer = create_task_explorer();

    let reaction = explorer.handle_orchestrator_message(OrchestratorToExplorer::GenerateResourceRequest {
        to_generate: BasicResourceType::Oxygen,
    });
    let pending = match reaction {
        Reaction::AskPlanet { pending, .. } => pending,
        Reaction::Reply { .. } => panic!("Should receive planet message"),
    };

    let answer = PlanetToExplorer::GenerateResourceResponse { resource: None };
    let (reply, result) = explorer.complete_planet_request(pending, Ok(answer));
    assert!(result.is_ok());

    let orch_msg = reply.expect("Should receive orchestrator message");
    match orch_msg {
        ExplorerToOrchestrator::GenerateResourceResponse { explorer_id, generated } => {
            assert_eq!(explorer_id, 1);
            assert!(generated.is_ok());
        },
        _ => panic!("Expected GenerateResourceResponse"),
    }
}

#[test]
fn test_handle_orchestrator_message_combine_resource() {
    let mut explorer = create_task_explorer();

    let (reply, result) = reply_of(explorer.handle_orchestrator_message(OrchestratorToExplorer::CombineResourceRequest {
        to_generate: ComplexResourceType::Water,
    }));

    assert!(result.is_ok());

    let orch_msg = reply.expect("Should receive orchestrator message");
    match orch_msg {
        ExplorerToOrchestrator::CombineResourceResponse { explorer_id, generated } => {
            assert_eq!(explorer_id, 1);
            assert!(generated.is_err());
            assert_eq!(generated.unwrap_err(), "CombineResourceRequest not implemented");
        },
        _ => panic!("Expected CombineResourceResponse"),
    }
}

#[test]
fn test_new() {
    let explorer = create_test_explorer();
    assert_eq!(explorer.id, 1);
    assert_eq!(explorer.current_planet_id, 1);
    match explorer.mode {
        ExplorerMode::Stopped => {},
        _ => panic!("New explorer should be stopped"),
    }
}

#[test]
fn test_bag_content_conversion() {
    let mut bag: Bag<Item> = Bag::default();

    for i in 0..2 {
        bag.items.push(ResourceType::Basic(BasicResourceType::Oxygen), i);
    }

    let content = BagContent::from_bag(&bag);
    assert_eq!(content.content.get(ResourceType::Basic(BasicResourceType::Oxygen)), Some(2));
    assert_eq!(content.content.get(ResourceType::Basic(BasicResourceType::Hydrogen)), None);
}

#[test]
fn test_supported_resource_flow_fails_due_to_missing_planet_knowledge() {
    let mut explorer = create_test_explorer();

    let msg_planet = PlanetToExplorer::SupportedResourceResponse { resource_list: vec![BasicResourceType::Oxygen] };
    explorer.handle_planet_message(msg_planet).unwrap();

    let (_, res) = reply_of(explorer.handle_orchestrator_message(OrchestratorToExplorer::SupportedResourceRequest));

    assert!(res.is_err());
    assert_eq!(res.err().unwrap(), "Failed to send to orchestrator SupportedResourceResult: value unknown".to_string());
}

#[test]
fn test_add_basic_to_bag_single_resource() {
    let mut explorer = create_test_explorer();

    explorer.add_basic_to_bag(BasicResourceType::Oxygen, 1);

    let bag_content = BagContent::from_bag(&explorer.bag);
    assert_eq!(bag_content.content.get(ResourceType::Basic(BasicResourceType::Oxygen)), Some(1));
}

#[test]
fn test_add_basic_to_bag_multiple_same_type() {
    let mut explorer = create_test_explorer();

    for i in 0..3 {
        explorer.add_basic_to_bag(BasicResourceType::Oxygen, i);
    }

    let bag_content = BagContent::from_bag(&explorer.bag);
    assert_eq!(bag_content.content.get(ResourceType::Basic(BasicResourceType::Oxygen)), Some(3));
}

#[test]
fn test_add_basic_to_bag_multiple_different_types() {
    let mut explorer = create_test_explorer();

    explorer.add_basic_to_bag(BasicResourceType::Oxygen, 1);
    explorer.add_basic_to_bag(BasicResourceType::Hydrogen, 2);

    let bag_content = BagContent::from_bag(&explorer.bag);
    assert_eq!(bag_content.content.get(ResourceType::Basic(BasicResourceType::Oxygen)), Some(1));
    assert_eq!(bag_content.content.get(ResourceType::Basic(BasicResourceType::Hydrogen)), Some(1));
    assert_eq!(bag_content.content.len(), 2);
}

#[test]
fn test_add_complex_to_bag_single_resource() {
    let mut explorer = create_test_explorer();

    explorer.add_complex_to_bag(ComplexResourceType::Water, 1);

    let bag_content = BagContent::from_bag(&explorer.bag);
    assert_eq!(bag_content.content.get(ResourceType::Complex(ComplexResourceType::Water)), Some(1));
}

#[test]
fn test_add_complex_to_bag_multiple_same_type() {
    let mut explorer = create_test_explorer();

    for i in 0..2 {
        explorer.add_complex_to_bag(ComplexResourceType::Diamond, i);
    }

    let bag_content = BagContent::from_bag(&explorer.bag);
    assert_eq!(bag_content.content.get(ResourceType::Complex(ComplexResourceType::Diamond)), Some(2));
}

#[test]
fn test_add_complex_to_bag_multiple_different_types() {
    let mut explorer = create_test_explorer();

    explorer.add_complex_to_bag(ComplexResourceType::Water, 1);
    explorer.add_complex_to_bag(ComplexResourceType::Life, 2);

    let bag_content = BagContent::from_bag(&explorer.bag);
    assert_eq!(bag_content.content.get(ResourceType::Complex(ComplexResourceType::Water)), Some(1));
    assert_eq!(bag_content.content.get(ResourceType::Complex(ComplexResourceType::Life)), Some(1));
    assert_eq!(bag_content.content.len(), 2);
}

#[test]
fn test_add_basic_and_complex_to_bag() {
    let mut explorer = create_test_explorer();

    explorer.add_basic_to_bag(BasicResourceType::Oxygen, 1);
    explorer.add_complex_to_bag(ComplexResourceType::Water, 2);

    let bag_content = BagContent::from_bag(&explorer.bag);
    assert_eq!(bag_content.content.get(ResourceType::Basic(BasicResourceType::Oxygen)), Some(1));
    assert_eq!(bag_content.content.get(ResourceType::Complex(ComplexResourceType::Water)), Some(1));
}

#[test]
fn test_find_first_unexplored_direct_neighbor() {
    let mut explorer = create_test_explorer();

    let pk1 = planet(1, PlanetType::A, vec![2], vec![], vec![], 0);
    explorer.knowledge.planets.push(pk1);

    let targets = vec![2];
    let result = explorer.find_first_unexplored(&targets);

    assert_eq!(result, Some(2), "Expected to find direct neighbor 2");
}

#[test]
fn test_find_first_unexplored_multi_hop() {
    let mut explorer = create_test_explorer();

    let pk1 = planet(1, PlanetType::A, vec![2], vec![], vec![], 0);
    let pk2 = planet(2, PlanetType::B, vec![1, 3], vec![], vec![], 0);

    explorer.knowledge.planets.push(pk1);
    explorer.knowledge.planets.push(pk2);

    let targets = vec![3];
    let result = explorer.find_first_unexplored(&targets);

    assert_eq!(result, Some(2), "Expected first step to be planet 2 on path to 3");
}

#[test]
fn test_find_first_unexplored_no_targets() {
    let explorer = create_test_explorer();

    let targets: Vec<u32> = vec![];
    let result = explorer.find_first_unexplored(&targets);

    assert_eq!(result, None, "Should return None when no targets provided");
}

#[test]
fn test_find_first_unexplored_unreachable_target() {
    let explorer = create_test_explorer();

    let targets = vec![5, 6, 7];
    let result = explorer.find_first_unexplored(&targets);

    assert_eq!(result, None, "Should return None when targets are unreachable");
}

#[test]
fn test_find_first_unexplored_multiple_targets_returns_closest() {
    let mut explorer = create_test_explorer();

    let pk1 = planet(1, PlanetType::A, vec![2, 3], vec![], vec![], 0);
    let pk2 = planet(2, PlanetType::B, vec![1, 4], vec![], vec![], 0);

    explorer.knowledge.planets.push(pk1);
    explorer.knowledge.planets.push(pk2);

    let targets = vec![3, 4];
    let result = explorer.find_first_unexplored(&targets);

    assert_eq!(result, Some(3), "Expected to find closest target 3 before 4");
}

#[test]
fn test_find_first_unexplored_with_single_neighbor() {
    let mut explorer = create_test_explorer();

    let pk1 = planet(1, PlanetType::A, vec![10], vec![], vec![], 0);
    explorer.knowledge.planets.push(pk1);

    let targets = vec![10];
    let result = explorer.find_first_unexplored(&targets);

    assert_eq!(result, Some(10), "Expected to find single neighbor as target");
}

#[test]
fn test_planet_knowledge_creation() {
    let id: u32 = 3;
    let planet_type = PlanetType::C;
    let neighbors: Vec<u32> = vec![];
    let resource_type: Vec<BasicResourceType> = vec![];
    let combinations: Vec<ComplexResourceType> = vec![];
    let latest_cells_number = 0;

    let planet_knowledge = PlanetKnowledge::new(
        id,
        planet_type,
        neighbors.clone(),
        resource_type.clone(),
        combinations.clone(),
        latest_cells_number,
    );

    assert_eq!(planet_knowledge.id, id);
    assert!(!planet_knowledge.is_destroyed);
    assert_eq!(planet_knowledge.neighbors, neighbors);
    assert_eq!(planet_knowledge.resource_type, resource_type);
    assert_eq!(planet_knowledge.combinations, combinations);
    assert_eq!(planet_knowledge.latest_cells_number, latest_cells_number);
}

#[test]
fn test_explorer_knowledge_default() {
    let explorer_knowledge = ExplorerKnowledge::default();

    assert_eq!(explorer_knowledge.current_state, StrategyState::Exploring);
    assert!(explorer_knowledge.planets.is_empty());
}

#[test]
fn test_explorer_knowledge_add_planet() {
    let mut explorer_knowledge = ExplorerKnowledge::default();
    let id: u32 = 4;

    let planet_knowledge = planet(id, PlanetType::A, vec![], vec![], vec![], 0);
    explorer_knowledge.planets.push(planet_knowledge);

    assert_eq!(explorer_knowledge.planets.len(), 1);
    assert_eq!(explorer_knowledge.planets[0].id, id);
}

#[test]
fn test_get_resource_by_id() {
    let mut explorer_knowledge = ExplorerKnowledge::default();
    let id: u32 = 5;
    let resource_type = vec![BasicResourceType::Carbon];

    let planet_knowledge = planet(id, PlanetType::B, vec![], resource_type.clone(), vec![], 0);
    explorer_knowledge.planets.push(planet_knowledge);

    let resources = explorer_knowledge.get_resource_by_id(id).unwrap();
    assert_eq!(resources, resource_type);
}

#[test]
fn test_update_neighbors() {
    let mut explorer_knowledge = ExplorerKnowledge::default();
    let id: u32 = 6;

    let planet_knowledge = planet(id, PlanetType::D, vec![], vec![], vec![], 0);
    explorer_knowledge.planets.push(planet_knowledge);

    let new_neighbors = vec![3];
    explorer_knowledge.update_neighbors(id, new_neighbors.clone());

    assert_eq!(set(&explorer_knowledge.planets[0].neighbors), set(&new_neighbors));
}

#[test]
fn test_update_killed_planet() {
    let mut explorer_knowledge = ExplorerKnowledge::default();
    let id: u32 = 7;

    let planet_knowledge = planet(id, PlanetType::A, vec![], vec![], vec![], 0);
    explorer_knowledge.planets.push(planet_knowledge);

    explorer_knowledge.update_killed_planet(id);
    assert!(explorer_knowledge.planets[0].is_destroyed);
}

#[test]
fn test_get_unexplored_from_hash() {
    let mut explorer_knowledge = ExplorerKnowledge::default();
    let pk1 = planet(1, PlanetType::A, vec![2, 3], vec![], vec![], 0);
    let pk2 = planet(2, PlanetType::B, vec![1], vec![], vec![], 0);
    let pk3 = planet(3, PlanetType::C, vec![1], vec![], vec![], 0);

    explorer_knowledge.planets.push(pk1);
    explorer_knowledge.planets.push(pk2);
    explorer_knowledge.planets.push(pk3);

    let explored = vec![1];
    let unexplored = explorer_knowledge.get_unexplored_from_hash(&explored);
    assert_eq!(set(&unexplored), set(&[2, 3]));

    let explored = vec![1, 2];
    let unexplored = explorer_knowledge.get_unexplored_from_hash(&explored);
    assert_eq!(set(&unexplored), set(&[3]));

    let explored = vec![1, 2, 3];
    let unexplored = explorer_knowledge.get_unexplored_from_hash(&explored);
    assert!(unexplored.is_empty());
}

#[test]
fn reset_keeps_the_bag_and_forgets_the_galaxy() {
    let mut explorer = create_task_explorer();
    explorer.add_basic_to_bag(BasicResourceType::Carbon, 9);
    explorer.knowledge.planets.push(planet(1, PlanetType::A, vec![2], vec![], vec![], 0));

    let (reply, result) = reply_of(explorer.handle_orchestrator_message(OrchestratorToExplorer::ResetExplorerAI));
    result.unwrap();
    match reply {
        Some(ExplorerToOrchestrator::ResetExplorerAIResult { explorer_id }) => assert_eq!(explorer_id, 1),
        _ => panic!("Expected ResetExplorerAIResult"),
    }
    assert!(explorer.knowledge.planets.is_empty());
    let content = BagContent::from_bag(&explorer.bag);
    assert_eq!(content.content.get(ResourceType::Basic(BasicResourceType::Carbon)), Some(1));
}

#[test]
fn killed_explorer_does_not_report_its_bag() {
    let mut explorer = create_task_explorer();
    let (_, result) = reply_of(explorer.handle_orchestrator_message(OrchestratorToExplorer::KillExplorer));
    result.unwrap();
    let (reply, result) = reply_of(explorer.handle_orchestrator_message(OrchestratorToExplorer::BagContentRequest));
    assert!(result.is_ok());
    assert!(reply.is_none());
}

#[test]
fn combine_with_ingredients_asks_the_planet_and_failure_gives_them_back() {
    let mut explorer = create_task_explorer();
    explorer.add_basic_to_bag(BasicResourceType::Hydrogen, 1);
    explorer.add_basic_to_bag(BasicResourceType::Oxygen, 2);

    let reaction = explorer.handle_orchestrator_message(OrchestratorToExplorer::CombineResourceRequest {
        to_generate: ComplexResourceType::Water,
    });
    let pending = match reaction {
        Reaction::AskPlanet { request: ExplorerToPlanet::CombineResourceRequest { explorer_id, msg }, pending } => {
            assert_eq!(explorer_id, 1);
            assert_eq!(msg.target, ComplexResourceType::Water);
            assert_eq!(msg.first, 1);
            assert_eq!(msg.second, 2);
            pending
        },
        _ => panic!("Expected CombineResourceRequest"),
    };
    assert_eq!(pending, PendingRequest::CombineResource);
    let content = BagContent::from_bag(&explorer.bag);
    assert_eq!(content.content.get(ResourceType::Basic(BasicResourceType::Hydrogen)), Some(0));

    let answer = PlanetToExplorer::CombineResourceResponse {
        complex_response: Err((
            "no cell".to_string(),
            (ResourceType::Basic(BasicResourceType::Hydrogen), 1),
            (ResourceType::Basic(BasicResourceType::Oxygen), 2),
        )),
    };
    let (reply, result) = explorer.complete_planet_request(pending, Ok(answer));
    assert!(result.is_ok());
    match reply {
        Some(ExplorerToOrchestrator::CombineResourceResponse { explorer_id, generated }) => {
            assert_eq!(explorer_id, 1);
            assert_eq!(generated.unwrap_err(), "Planet 1 failed to generate a resource: no cell ");
        },
        _ => panic!("Expected CombineResourceResponse"),
    }
    let content = BagContent::from_bag(&explorer.bag);
    assert_eq!(content.content.get(ResourceType::Basic(BasicResourceType::Hydrogen)), Some(1));
    assert_eq!(content.content.get(ResourceType::Basic(BasicResourceType::Oxygen)), Some(1));
}

#[test]
fn unexpected_planet_answer_fails_the_request() {
    let mut explorer = create_task_explorer();
    let (reply, result) = explorer.complete_planet_request(PendingRequest::GenerateResource, Ok(PlanetToExplorer::Stopped));
    assert!(reply.is_none());
    assert_eq!(result.unwrap_err(), "Unexpected planet response");
    let (reply, result) = explorer.complete_planet_request(PendingRequest::GenerateResource, Err("channel closed".to_string()));
    assert!(reply.is_none());
    assert_eq!(result.unwrap_err(), "channel closed");
}

#[test]
fn met_task_is_a_win() {
    let mut explorer = create_task_explorer();
    assert!(!explorer.verify_win());
    explorer.add_complex_to_bag(ComplexResourceType::Dolphin, 1);
    explorer.add_complex_to_bag(ComplexResourceType::Water, 2);
    explorer.add_basic_to_bag(BasicResourceType::Hydrogen, 3);
    explorer.add_basic_to_bag(BasicResourceType::Hydrogen, 4);
    explorer.add_basic_to_bag(BasicResourceType::Oxygen, 5);
    explorer.bag_content = BagContent::from_bag(&explorer.bag);
    assert!(explorer.verify_win());
    assert!(explorer.anything_left_on_the_crafting_list().is_none());
}

#[test]
fn arriving_elsewhere_is_reported() {
    let mut explorer = create_task_explorer();
    let (reply, result) = explorer.arrive(4, 5);
    assert!(matches!(reply, ExplorerToOrchestrator::MovedToPlanetResult { explorer_id: 1, planet_id: 5 }));
    assert_eq!(result.unwrap_err(), "Unexpectedly moved to planet 5 instead of 4");
    assert_eq!(explorer.current_planet_id, 5);
    let (_, result) = explorer.arrive(6, 6);
    assert!(result.is_ok());
}

#[test]
fn exploration_heads_for_the_frontier() {
    let mut explorer = create_test_explorer();
    explorer.knowledge.planets.push(planet(1, PlanetType::A, vec![2], vec![], vec![], 0));
    explorer.knowledge.planets.push(planet(2, PlanetType::B, vec![1, 3], vec![], vec![], 0));
    let explored = vec![1, 2];
    match explorer.plan_exploration_move(&explored) {
        Some(ExplorerToOrchestrator::TravelToPlanetRequest { explorer_id, current_planet_id, dst_planet_id }) => {
            assert_eq!((explorer_id, current_planet_id, dst_planet_id), (1, 1, 2));
        },
        _ => panic!("Expected TravelToPlanetRequest"),
    }
    assert_eq!(explorer.knowledge.current_target_planet, Some(2));
}

#[test]
fn query_asks_neighbours_then_the_planet() {
    let explorer = create_test_explorer();
    let (to_orchestrator, to_planet) = explorer.query_planet();
    assert!(matches!(to_orchestrator, ExplorerToOrchestrator::NeighborsRequest { explorer_id: 1, current_planet_id: 1 }));
    assert_eq!(to_planet.len(), 3);
    assert!(matches!(to_planet[0], ExplorerToPlanet::AvailableEnergyCellRequest { explorer_id: 1 }));
    assert!(matches!(to_planet[1], ExplorerToPlanet::SupportedResourceRequest { explorer_id: 1 }));
    assert!(matches!(to_planet[2], ExplorerToPlanet::SupportedCombinationRequest { explorer_id: 1 }));
}

#[test]
fn task_expands_to_basic_resources() {
    let explorer = create_task_explorer();
    let simple = &explorer.simple_resources_task;
    assert_eq!(simple.get(ResourceType::Basic(BasicResourceType::Hydrogen)), Some(2 + 1 + 2));
    assert_eq!(simple.get(ResourceType::Basic(BasicResourceType::Oxygen)), Some(1 + 1 + 2));
    assert_eq!(simple.get(ResourceType::Basic(BasicResourceType::Carbon)), Some(1));
    assert_eq!(simple.get(ResourceType::Basic(BasicResourceType::Silicon)), None);
    let list = explorer.anything_left_on_the_shopping_list().unwrap();
    assert_eq!(list, vec![
        (BasicResourceType::Oxygen, 4),
        (BasicResourceType::Hydrogen, 5),
        (BasicResourceType::Carbon, 1),
    ]);
}
