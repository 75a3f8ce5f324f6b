use rusty_crab::cetto::communication::{ActorMarker, ActorType, MessageEvent, OrchestratorMarker, PlanetMarker};
use rusty_crab::cetto::explorer::{CettoExplorer, CettoPending, CettoReaction, ExplorerMode};
use rusty_crab::cetto::knowledge::{ExplorerKnowledge, PlanetInfo};
use rusty_crab::protocol::{ExplorerToOrchestrator, ExplorerToPlanet, OrchestratorToExplorer, PlanetToExplorer};
use rusty_crab::resources::{BasicResourceType, ComplexResourceType, ResourceType};

type Item = u64;

fn reply_of(r: CettoReaction<Item>) -> (Option<ExplorerToOrchestrator>, Result<(), String>) {
    match r {
        CettoReaction::Reply { reply, result } => (reply, result),
        _ => panic!("Expected a reply"),
    }
}

#[test]
fn markers_name_their_actor_and_events() {
    assert_eq!(OrchestratorMarker::actor_type(), ActorType::Orchestrator);
    assert_eq!(OrchestratorMarker::event_type_send(), MessageEvent::MessageExplorerToOrchestrator);
    assert_eq!(OrchestratorMarker::event_type_recv(), MessageEvent::MessageOrchestratorToExplorer);
    assert_eq!(PlanetMarker::actor_type(), ActorType::Planet);
    assert_eq!(PlanetMarker::event_type_send(), MessageEvent::MessageExplorerToPlanet);
    assert_eq!(PlanetMarker::event_type_recv(), MessageEvent::MessagePlanetToExplorer);
}

#[test]
fn new_cetto_explorer_plays() {
    let e: CettoExplorer<Item> = CettoExplorer::new(3, 1);
    assert_eq!(e.id, 3);
    assert_eq!(e.current_planet_id, 1);
    assert_eq!(e.mode, ExplorerMode::Auto);
    assert!(e.should_play());
}

#[test]
fn initial_goal_counts() {
    let k = ExplorerKnowledge::default();
    assert_eq!(k.goal.get(ResourceType::Basic(BasicResourceType::Carbon)), 4);
    assert_eq!(k.goal.get(ResourceType::Complex(ComplexResourceType::Water)), 3);
    assert_eq!(k.goal.get(ResourceType::Complex(ComplexResourceType::AIPartner)), 1);
    assert!(!k.goal_completed());
}

#[test]
fn goal_completes_when_final_resources_are_made() {
    let mut k = ExplorerKnowledge::default();
    k.decrease_from_goal(ResourceType::Complex(ComplexResourceType::AIPartner));
    assert!(k.complex_goal_completed(ComplexResourceType::AIPartner));
    assert!(!k.goal_completed());
    k.decrease_from_goal(ResourceType::Complex(ComplexResourceType::Dolphin));
    assert!(k.goal_completed());
    assert!(!k.basic_goal_completed(BasicResourceType::Silicon));
    k.decrease_from_goal(ResourceType::Basic(BasicResourceType::Silicon));
    assert!(k.basic_goal_completed(BasicResourceType::Silicon));
    k.decrease_from_goal(ResourceType::Basic(BasicResourceType::Silicon));
    assert_eq!(k.goal.get(ResourceType::Basic(BasicResourceType::Silicon)), -1);
    assert!(!k.basic_goal_completed(BasicResourceType::Silicon));
}

#[test]
fn update_planet_replaces_what_was_known() {
    let mut k = ExplorerKnowledge::default();
    k.update_planet(5, PlanetInfo::new(vec![BasicResourceType::Oxygen], None, 2));
    k.update_planet(6, PlanetInfo::new(vec![], Some(ComplexResourceType::Water), 1));
    k.update_planet(5, PlanetInfo::new(vec![BasicResourceType::Carbon], None, 0));
    assert_eq!(k.planets.len(), 2);
    assert_eq!(k.planets[0].0, 5);
    assert_eq!(k.planets[0].1.basic_type, vec![BasicResourceType::Carbon]);
    assert_eq!(k.planets[1].0, 6);
}

#[test]
fn killed_cetto_explorer_refuses_all_but_reset() {
    let mut e: CettoExplorer<Item> = CettoExplorer::new(3, 1);
    let (reply, result) = reply_of(e.handle_orchestrator_message(OrchestratorToExplorer::KillExplorer));
    result.unwrap();
    assert!(matches!(reply, Some(ExplorerToOrchestrator::KillExplorerResult { explorer_id: 3 })));
    assert_eq!(e.mode, ExplorerMode::Killed);

    let (reply, result) = reply_of(e.handle_orchestrator_message(OrchestratorToExplorer::CurrentPlanetRequest));
    assert!(reply.is_none());
    assert_eq!(result.unwrap_err(), "Explorer is dead and is requested to do something");

    let (reply, result) = reply_of(e.handle_orchestrator_message(OrchestratorToExplorer::ResetExplorerAI));
    result.unwrap();
    assert!(matches!(reply, Some(ExplorerToOrchestrator::ResetExplorerAIResult { explorer_id: 3 })));
    assert_eq!(e.mode, ExplorerMode::Manual);
}

#[test]
fn cetto_stop_switches_to_manual() {
    let mut e: CettoExplorer<Item> = CettoExplorer::new(3, 1);
    let (_, result) = reply_of(e.handle_orchestrator_message(OrchestratorToExplorer::StopExplorerAI));
    result.unwrap();
    assert_eq!(e.mode, ExplorerMode::Manual);
    assert!(!e.should_play());
}

#[test]
fn cetto_move_without_channel_stays() {
    let mut e: CettoExplorer<Item> = CettoExplorer::new(3, 1);
    let (reply, _) = reply_of(e.handle_orchestrator_message(OrchestratorToExplorer::MoveToPlanet { has_sender: false, planet_id: 9 }));
    assert!(matches!(reply, Some(ExplorerToOrchestrator::MovedToPlanetResult { explorer_id: 3, planet_id: 1 })));
    let (reply, _) = reply_of(e.handle_orchestrator_message(OrchestratorToExplorer::MoveToPlanet { has_sender: true, planet_id: 9 }));
    assert!(matches!(reply, Some(ExplorerToOrchestrator::MovedToPlanetResult { explorer_id: 3, planet_id: 9 })));
    assert_eq!(e.current_planet_id, 9);
}

#[test]
fn cetto_combination_needs_both_ingredients() {
    let mut e: CettoExplorer<Item> = CettoExplorer::new(3, 1);
    e.bag.push_generic(ResourceType::Basic(BasicResourceType::Hydrogen), 11);
    let (reply, result) = reply_of(e.handle_orchestrator_message(OrchestratorToExplorer::CombineResourceRequest {
        to_generate: ComplexResourceType::Water,
    }));
    assert!(reply.is_none());
    assert_eq!(result.unwrap_err(), "Combination not possible, missing ingredient");
    assert!(e.bag.has_basic(BasicResourceType::Hydrogen, 1));

    e.bag.push_generic(ResourceType::Basic(BasicResourceType::Oxygen), 12);
    assert!(e.has_ingredients(ComplexResourceType::Water));
    match e.handle_orchestrator_message(OrchestratorToExplorer::CombineResourceRequest { to_generate: ComplexResourceType::Water }) {
        CettoReaction::AskPlanet { request: ExplorerToPlanet::CombineResourceRequest { explorer_id, msg }, pending } => {
            assert_eq!(explorer_id, 3);
            assert_eq!(pending, CettoPending::CombineResource);
            assert_eq!(msg.target, ComplexResourceType::Water);
            assert_eq!((msg.first, msg.second), (11, 12));
        },
        _ => panic!("Expected CombineResourceRequest"),
    }
    assert!(!e.has_ingredients(ComplexResourceType::Water));
}

#[test]
fn cetto_bag_report_counts_items() {
    let mut e: CettoExplorer<Item> = CettoExplorer::new(3, 1);
    e.bag.push_generic(ResourceType::Basic(BasicResourceType::Carbon), 1);
    e.bag.push_generic(ResourceType::Basic(BasicResourceType::Carbon), 2);
    e.bag.push_generic(ResourceType::Complex(ComplexResourceType::Diamond), 3);
    match e.bag_report() {
        ExplorerToOrchestrator::BagContentResponse { explorer_id, bag_content } => {
            assert_eq!(explorer_id, 3);
            assert_eq!(bag_content.content.get(ResourceType::Basic(BasicResourceType::Carbon)), Some(2));
            assert_eq!(bag_content.content.get(ResourceType::Complex(ComplexResourceType::Diamond)), Some(1));
            assert_eq!(bag_content.content.get(ResourceType::Basic(BasicResourceType::Oxygen)), None);
        },
        _ => panic!("Expected BagContentResponse"),
    }
}

#[test]
fn cetto_generated_resource_goes_to_the_bag() {
    let mut e: CettoExplorer<Item> = CettoExplorer::new(3, 1);
    let pending = match e.handle_orchestrator_message(OrchestratorToExplorer::GenerateResourceRequest { to_generate: BasicResourceType::Silicon }) {
        CettoReaction::AskPlanet { pending, .. } => pending,
        _ => panic!("Expected a planet request"),
    };
    let (_, result) = e.complete_planet_request(pending, PlanetToExplorer::GenerateResourceResponse { resource: Some((BasicResourceType::Silicon, 4)) });
    assert!(result.is_ok());
    assert!(e.bag.has_basic(BasicResourceType::Silicon, 1));
}

use rusty_crab::cetto::turn::{ExploitCursor, ExploitStep};

#[test]
fn exploiting_a_planet_without_cells_does_nothing() {
    let e: CettoExplorer<Item> = CettoExplorer::new(3, 1);
    let mut cursor = ExploitCursor::new(0);
    assert_eq!(e.next_exploit_step(&mut cursor), ExploitStep::Done);
}

#[test]
fn exploiting_combines_then_generates() {
    let mut e: CettoExplorer<Item> = CettoExplorer::new(3, 1);
    e.bag.push_generic(ResourceType::Basic(BasicResourceType::Hydrogen), 1);
    e.bag.push_generic(ResourceType::Basic(BasicResourceType::Oxygen), 2);
    let mut cursor = ExploitCursor::new(2);
    assert_eq!(e.next_exploit_step(&mut cursor), ExploitStep::AskComplexTypes);
    cursor.complex = Some(vec![ComplexResourceType::Diamond, ComplexResourceType::Water]);
    assert_eq!(e.next_exploit_step(&mut cursor), ExploitStep::Combine(ComplexResourceType::Water));
    assert_eq!(cursor.cells, 1);
    assert_eq!(e.next_exploit_step(&mut cursor), ExploitStep::AskBasicTypes);
    cursor.basic = Some(vec![BasicResourceType::Carbon, BasicResourceType::Oxygen]);
    assert_eq!(e.next_exploit_step(&mut cursor), ExploitStep::Generate(BasicResourceType::Carbon));
    assert_eq!(cursor.cells, 0);
    assert_eq!(e.next_exploit_step(&mut cursor), ExploitStep::Done);
}

#[test]
fn exploiting_skips_completed_basic_goals() {
    let mut e: CettoExplorer<Item> = CettoExplorer::new(3, 1);
    e.knowledge.decrease_from_goal(ResourceType::Basic(BasicResourceType::Silicon));
    let mut cursor = ExploitCursor::new(1);
    cursor.complex = Some(vec![]);
    cursor.basic = Some(vec![BasicResourceType::Silicon, BasicResourceType::Oxygen]);
    assert_eq!(e.next_exploit_step(&mut cursor), ExploitStep::Generate(BasicResourceType::Oxygen));
}

#[test]
fn cetto_failed_generation_and_combination_are_errors() {
    let mut e: CettoExplorer<Item> = CettoExplorer::new(3, 1);
    let (reply, result) = e.complete_planet_request(CettoPending::GenerateResource, PlanetToExplorer::GenerateResourceResponse { resource: None });
    assert!(reply.is_none());
    assert_eq!(result.unwrap_err(), "The resource could not be generated");
    let answer = PlanetToExplorer::CombineResourceResponse {
        complex_response: Err((
            "no energy".to_string(),
            (ResourceType::Basic(BasicResourceType::Hydrogen), 1),
            (ResourceType::Basic(BasicResourceType::Oxygen), 2),
        )),
    };
    let (reply, result) = e.complete_planet_request(CettoPending::CombineResource, answer);
    assert!(reply.is_none());
    assert_eq!(result.unwrap_err(), "The combination has failed: no energy");
    assert!(e.has_ingredients(ComplexResourceType::Water));
}
