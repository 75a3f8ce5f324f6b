//! How the allegory explorer answers the orchestrator and its planet. The
//! explorer decides; the caller does the sending and the waiting. Where a
//! request needs the planet's answer, the decision comes in two halves: what
//! to ask the planet, then what to do with its answer.

use vstd::prelude::*;
use crate::allegory::ai::first_entry;
use crate::allegory::bag::Bag;
use crate::allegory::explorer::{AllegoryExplorer, ExplorerMode};
use crate::allegory::knowledge::{copy_complex, is_first_planet, knows, ExplorerKnowledge, PlanetKnowledge, StrategyState};
use crate::bag::{after_take_one, can_take_two, held, pushed};
use crate::protocol::{BagContent, ExplorerToOrchestrator, ExplorerToPlanet, PlanetToExplorer};
use crate::resources::{recipe, ResourceType};
use crate::text::{concat, concat3, concat4, decimal, number_text};

verus! {

/// `t` reports, for each kind the bag has held, how many items it holds.
pub open spec fn reports_bag<T>(t: Map<ResourceType, usize>, m: Map<ResourceType, Seq<T>>) -> bool {
    &&& forall|r: ResourceType| #[trigger] t.contains_key(r) <==> m.contains_key(r)
    &&& forall|r: ResourceType| #[trigger] t.contains_key(r) ==> t[r] == m[r].len()
}

/// `k1` is `k0` with the first entry of planet `id`, if any, changed by `f`.
pub open spec fn updates_planet(k0: ExplorerKnowledge, k1: ExplorerKnowledge, id: u32, f: spec_fn(PlanetKnowledge) -> PlanetKnowledge) -> bool {
    &&& k1.current_state == k0.current_state
    &&& k1.current_target_planet == k0.current_target_planet
    &&& !knows(k0.planets@, id) ==> k1.planets@ == k0.planets@
    &&& forall|i: int| #[trigger] is_first_planet(k0.planets@, id, i) ==> k1.planets@ == k0.planets@.update(i, f(k0.planets@[i]))
}

/// Handling a message keeps the explorer's identity, position, mode and
/// tables.
pub open spec fn message_frame<T>(e0: AllegoryExplorer<T>, e1: AllegoryExplorer<T>) -> bool {
    &&& e1.id == e0.id
    &&& e1.current_planet_id == e0.current_planet_id
    &&& e1.mode == e0.mode
    &&& e1.bag_content == e0.bag_content
    &&& e1.task == e0.task
    &&& e1.simple_resources_task == e0.simple_resources_task
}

/// The text of a failed combination reported by planet `planet`.
pub open spec fn combine_failure_text(planet: u32, reason: Seq<char>) -> Seq<char> {
    "Planet "@ + decimal(planet as nat) + " failed to combine resources: "@ + reason
}

/// The text of a failed generation reported to the orchestrator.
pub open spec fn generate_failure_text(planet: u32, reason: Seq<char>) -> Seq<char> {
    "Planet "@ + decimal(planet as nat) + " failed to generate a resource: "@ + reason + " "@
}

/// What handling message `msg` from the planet does.
pub open spec fn planet_message_post<T>(e0: AllegoryExplorer<T>, e1: AllegoryExplorer<T>, msg: PlanetToExplorer<T>, r: Result<(), String>) -> bool {
    let cur = e0.current_planet_id;
    let k0 = e0.knowledge;
    let k1 = e1.knowledge;
    let b0 = e0.bag.items@;
    let b1 = e1.bag.items@;
    match msg {
        PlanetToExplorer::SupportedResourceResponse { resource_list } => {
            &&& r is Ok
            &&& b1 == b0
            &&& updates_planet(k0, k1, cur, |p: PlanetKnowledge| PlanetKnowledge { resource_type: resource_list, ..p })
        },
        PlanetToExplorer::SupportedCombinationResponse { combination_list } => {
            &&& r is Ok
            &&& b1 == b0
            &&& updates_planet(k0, k1, cur, |p: PlanetKnowledge| PlanetKnowledge { combinations: combination_list, ..p })
        },
        PlanetToExplorer::GenerateResourceResponse { resource } => {
            &&& r is Ok
            &&& k1 == k0
            &&& match resource {
                Some((kind, item)) => b1 == pushed(b0, ResourceType::Basic(kind), item),
                None => b1 == b0,
            }
        },
        PlanetToExplorer::CombineResourceResponse { complex_response } => {
            &&& k1 == k0
            &&& match complex_response {
                Ok((kind, item)) => r is Ok && b1 == pushed(b0, ResourceType::Complex(kind), item),
                Err((reason, (kind1, item1), (kind2, item2))) => {
                    &&& b1 == pushed(pushed(b0, kind1, item1), kind2, item2)
                    &&& r matches Err(m) && m@ == combine_failure_text(cur, reason@)
                },
            }
        },
        PlanetToExplorer::AvailableEnergyCellResponse { available_cells } => {
            &&& r is Ok
            &&& b1 == b0
            &&& updates_planet(k0, k1, cur, |p: PlanetKnowledge| PlanetKnowledge { latest_cells_number: available_cells, ..p })
        },
        PlanetToExplorer::Stopped => {
            &&& r is Ok
            &&& b1 == b0
            &&& updates_planet(k0, k1, cur, |p: PlanetKnowledge| PlanetKnowledge { is_destroyed: true, ..p })
        },
    }
}

impl<T> AllegoryExplorer<T> {
    /// Stores an item under a kind of either family.
    fn add_to_bag(&mut self, kind: ResourceType, item: T)
        requires
            old(self).wf(),
        ensures
            final(self).wf(),
            final(self).same_but_bag(old(self)),
            final(self).bag.items@ == pushed(old(self).bag.items@, kind, item),
    {
        self.bag.items.push(kind, item);
    }

    /// Takes in a message from the current planet: what it supports, a
    /// generated or combined resource (or the ingredients of a failed
    /// combination, which go back into the bag), its charged cells, or the
    /// news that it was stopped.
    pub fn handle_planet_message(&mut self, msg: PlanetToExplorer<T>) -> (r: Result<(), String>)
        requires
            old(self).wf(),
        ensures
            final(self).wf(),
            message_frame(*old(self), *final(self)),
            planet_message_post(*old(self), *final(self), msg, r),
    {
        let cur = self.current_planet_id;
        match msg {
            PlanetToExplorer::SupportedResourceResponse { resource_list } => {
                self.knowledge.update_planet_resource(cur, resource_list);
                Ok(())
            },
            PlanetToExplorer::SupportedCombinationResponse { combination_list } => {
                self.knowledge.update_planet_combinations(cur, combination_list);
                Ok(())
            },
            PlanetToExplorer::GenerateResourceResponse { resource } => {
                match resource {
                    Some((kind, item)) => self.add_basic_to_bag(kind, item),
                    None => {},
                }
                Ok(())
            },
            PlanetToExplorer::CombineResourceResponse { complex_response } => {
                match complex_response {
                    Ok((kind, item)) => {
                        self.add_complex_to_bag(kind, item);
                        Ok(())
                    },
                    Err((reason, (kind1, item1), (kind2, item2))) => {
                        self.add_to_bag(kind1, item1);
                        self.add_to_bag(kind2, item2);
                        let number = number_text(cur);
                        Err(concat4("Planet ", number.as_str(), " failed to combine resources: ", reason.as_str()))
                    },
                }
            },
            PlanetToExplorer::AvailableEnergyCellResponse { available_cells } => {
                self.knowledge.add_cell(cur, available_cells);
                Ok(())
            },
            PlanetToExplorer::Stopped => {
                self.knowledge.update_killed_planet(cur);
                Ok(())
            },
        }
    }
}


/// The request to the planet an orchestrator request waits on.
#[derive(Clone, Copy, Debug, PartialEq, Eq, Structural)]
pub enum PendingRequest {
    SupportedCombination,
    GenerateResource,
    CombineResource,
}

/// The explorer's reaction to a message from the orchestrator.
pub enum Reaction<T> {
    /// Answer the orchestrator (when there is a reply) and end with `result`.
    Reply { reply: Option<ExplorerToOrchestrator>, result: Result<(), String> },
    /// Send `request` to the current planet and hand its answer to
    /// `complete_planet_request` with `pending`.
    AskPlanet { request: ExplorerToPlanet<T>, pending: PendingRequest },
}

/// `r` replies `reply` and ends well.
pub open spec fn replies<T>(r: Reaction<T>, reply: ExplorerToOrchestrator) -> bool {
    r matches Reaction::Reply { reply: Some(m), result: Ok(()) } && m == reply
}

/// What handling message `msg` from the orchestrator does.
pub open spec fn orchestrator_message_post<T>(e0: AllegoryExplorer<T>, e1: AllegoryExplorer<T>, msg: crate::protocol::OrchestratorToExplorer, r: Reaction<T>) -> bool {
    let id = e0.id;
    let cur = e0.current_planet_id;
    let ps = e0.knowledge.planets@;
    let same_state = e1.knowledge == e0.knowledge && e1.bag.items@ == e0.bag.items@;
    match msg {
        crate::protocol::OrchestratorToExplorer::StartExplorerAI => {
            &&& same_state && e1.current_planet_id == cur
            &&& e1.mode == ExplorerMode::Auto
            &&& replies(r, ExplorerToOrchestrator::StartExplorerAIResult { explorer_id: id })
        },
        crate::protocol::OrchestratorToExplorer::ResetExplorerAI => {
            &&& e1.bag.items@ == e0.bag.items@ && e1.current_planet_id == cur
            &&& e1.mode == (if e0.mode == ExplorerMode::Manual { ExplorerMode::Auto } else { e0.mode })
            &&& e1.knowledge.current_state == StrategyState::Exploring
            &&& e1.knowledge.current_target_planet is None
            &&& e1.knowledge.planets@.len() == 0
            &&& replies(r, ExplorerToOrchestrator::ResetExplorerAIResult { explorer_id: id })
        },
        crate::protocol::OrchestratorToExplorer::KillExplorer => {
            &&& same_state && e1.current_planet_id == cur
            &&& e1.mode == ExplorerMode::Killed
            &&& replies(r, ExplorerToOrchestrator::KillExplorerResult { explorer_id: id })
        },
        crate::protocol::OrchestratorToExplorer::StopExplorerAI => {
            &&& same_state && e1.current_planet_id == cur
            &&& e1.mode == ExplorerMode::Stopped
            &&& replies(r, ExplorerToOrchestrator::StopExplorerAIResult { explorer_id: id })
        },
        crate::protocol::OrchestratorToExplorer::BagContentRequest => {
            &&& same_state && e1.current_planet_id == cur && e1.mode == e0.mode
            &&& if e0.mode == ExplorerMode::Killed {
                r matches Reaction::Reply { reply: None, result: Ok(()) }
            } else {
                r matches Reaction::Reply { reply: Some(ExplorerToOrchestrator::BagContentResponse { explorer_id, bag_content }), result: Ok(()) }
                    && explorer_id == id && reports_bag(bag_content.content@, e0.bag.items@)
            }
        },
        crate::protocol::OrchestratorToExplorer::MoveToPlanet { has_sender, planet_id } => {
            &&& same_state && e1.mode == e0.mode
            &&& e1.current_planet_id == planet_id
            &&& replies(r, ExplorerToOrchestrator::MovedToPlanetResult { explorer_id: id, planet_id })
        },
        crate::protocol::OrchestratorToExplorer::CurrentPlanetRequest => {
            &&& same_state && e1.current_planet_id == cur && e1.mode == e0.mode
            &&& replies(r, ExplorerToOrchestrator::CurrentPlanetResult { explorer_id: id, planet_id: cur })
        },
        crate::protocol::OrchestratorToExplorer::SupportedResourceRequest => {
            &&& same_state && e1.current_planet_id == cur && e1.mode == e0.mode
            &&& if knows(ps, cur) {
                r matches Reaction::Reply { reply: Some(ExplorerToOrchestrator::SupportedResourceResult { explorer_id, supported_resources }), result: Ok(()) }
                    && explorer_id == id && supported_resources@ == first_entry(ps, cur).resource_type@
            } else {
                r matches Reaction::Reply { reply: None, result: Err(m) }
                    && m@ == "Failed to send to orchestrator SupportedResourceResult: value unknown"@
            }
        },
        crate::protocol::OrchestratorToExplorer::SupportedCombinationRequest => {
            &&& same_state && e1.current_planet_id == cur && e1.mode == e0.mode
            &&& r == Reaction::<T>::AskPlanet {
                request: ExplorerToPlanet::SupportedCombinationRequest { explorer_id: id },
                pending: PendingRequest::SupportedCombination,
            }
        },
        crate::protocol::OrchestratorToExplorer::GenerateResourceRequest { to_generate } => {
            &&& same_state && e1.current_planet_id == cur && e1.mode == e0.mode
            &&& r == Reaction::<T>::AskPlanet {
                request: ExplorerToPlanet::GenerateResourceRequest { explorer_id: id, resource: to_generate },
                pending: PendingRequest::GenerateResource,
            }
        },
        crate::protocol::OrchestratorToExplorer::CombineResourceRequest { to_generate } => {
            let (a, b) = recipe(to_generate);
            &&& e1.knowledge == e0.knowledge && e1.current_planet_id == cur && e1.mode == e0.mode
            &&& if can_take_two(e0.bag.items@, a, b) {
                &&& e1.bag.items@ == after_take_one(after_take_one(e0.bag.items@, a), b)
                &&& r matches Reaction::AskPlanet { request: ExplorerToPlanet::CombineResourceRequest { explorer_id, msg }, pending: PendingRequest::CombineResource }
                &&& explorer_id == id
                &&& msg.target == to_generate
                &&& msg.first == held(e0.bag.items@, a).last()
                &&& msg.second == held(after_take_one(e0.bag.items@, a), b).last()
            } else {
                &&& e1.bag.items@ == e0.bag.items@
                &&& r matches Reaction::Reply { reply: Some(ExplorerToOrchestrator::CombineResourceResponse { explorer_id, generated: Err(m) }), result: Ok(()) }
                &&& explorer_id == id
                &&& m@ == "CombineResourceRequest not implemented"@
            }
        },
        crate::protocol::OrchestratorToExplorer::NeighborsResponse { neighbors } => {
            &&& e1.bag.items@ == e0.bag.items@ && e1.current_planet_id == cur && e1.mode == e0.mode
            &&& updates_planet(e0.knowledge, e1.knowledge, cur, |p: PlanetKnowledge| PlanetKnowledge { neighbors: neighbors, ..p })
            &&& r matches Reaction::Reply { reply: None, result: Ok(()) }
        },
    }
}

impl<T> AllegoryExplorer<T> {
    /// Reacts to a message from the orchestrator. Mode changes and the
    /// current planet are taken in; replies come from what the explorer
    /// knows and carries, except for the requests that need the current
    /// planet, which are passed on to it.
    pub fn handle_orchestrator_message(&mut self, msg: crate::protocol::OrchestratorToExplorer) -> (r: Reaction<T>)
        requires
            old(self).wf(),
        ensures
            final(self).wf(),
            final(self).id == old(self).id,
            final(self).bag_content == old(self).bag_content,
            final(self).task == old(self).task,
            final(self).simple_resources_task == old(self).simple_resources_task,
            orchestrator_message_post(*old(self), *final(self), msg, r),
    {
        let id = self.id;
        match msg {
            crate::protocol::OrchestratorToExplorer::StartExplorerAI => {
                self.mode = ExplorerMode::Auto;
                Reaction::Reply { reply: Some(ExplorerToOrchestrator::StartExplorerAIResult { explorer_id: id }), result: Ok(()) }
            },
            crate::protocol::OrchestratorToExplorer::ResetExplorerAI => {
                if self.mode == ExplorerMode::Manual {
                    self.mode = ExplorerMode::Auto;
                }
                self.knowledge = ExplorerKnowledge::default();
                Reaction::Reply { reply: Some(ExplorerToOrchestrator::ResetExplorerAIResult { explorer_id: id }), result: Ok(()) }
            },
            crate::protocol::OrchestratorToExplorer::KillExplorer => {
                self.mode = ExplorerMode::Killed;
                Reaction::Reply { reply: Some(ExplorerToOrchestrator::KillExplorerResult { explorer_id: id }), result: Ok(()) }
            },
            crate::protocol::OrchestratorToExplorer::BagContentRequest => {
                if self.mode == ExplorerMode::Killed {
                    return Reaction::Reply { reply: None, result: Ok(()) };
                }
                let content = BagContent::from_bag(&self.bag);
                Reaction::Reply {
                    reply: Some(ExplorerToOrchestrator::BagContentResponse { explorer_id: id, bag_content: content }),
                    result: Ok(()),
                }
            },
            crate::protocol::OrchestratorToExplorer::StopExplorerAI => {
                self.mode = ExplorerMode::Stopped;
                Reaction::Reply { reply: Some(ExplorerToOrchestrator::StopExplorerAIResult { explorer_id: id }), result: Ok(()) }
            },
            crate::protocol::OrchestratorToExplorer::MoveToPlanet { has_sender, planet_id } => {
                self.current_planet_id = planet_id;
                Reaction::Reply {
                    reply: Some(ExplorerToOrchestrator::MovedToPlanetResult { explorer_id: id, planet_id }),
                    result: Ok(()),
                }
            },
            crate::protocol::OrchestratorToExplorer::CurrentPlanetRequest => {
                Reaction::Reply {
                    reply: Some(ExplorerToOrchestrator::CurrentPlanetResult { explorer_id: id, planet_id: self.current_planet_id }),
                    result: Ok(()),
                }
            },
            crate::protocol::OrchestratorToExplorer::SupportedResourceRequest => {
                let ghost ps = self.knowledge.planets@;
                let cur = self.current_planet_id;
                match self.knowledge.get_resource_by_id(cur) {
                    Some(list) => {
                        proof {
                            let i = choose|i: int| is_first_planet(ps, cur, i) && list@ == ps[i].resource_type@;
                            crate::allegory::ai::lemma_first_entry(ps, cur, i);
                        }
                        Reaction::Reply {
                            reply: Some(ExplorerToOrchestrator::SupportedResourceResult { explorer_id: id, supported_resources: list }),
                            result: Ok(()),
                        }
                    },
                    None => Reaction::Reply {
                        reply: None,
                        result: Err("Failed to send to orchestrator SupportedResourceResult: value unknown".to_owned()),
                    },
                }
            },
            crate::protocol::OrchestratorToExplorer::SupportedCombinationRequest => {
                Reaction::AskPlanet {
                    request: ExplorerToPlanet::SupportedCombinationRequest { explorer_id: id },
                    pending: PendingRequest::SupportedCombination,
                }
            },
            crate::protocol::OrchestratorToExplorer::GenerateResourceRequest { to_generate } => {
                Reaction::AskPlanet {
                    request: ExplorerToPlanet::GenerateResourceRequest { explorer_id: id, resource: to_generate },
                    pending: PendingRequest::GenerateResource,
                }
            },
            crate::protocol::OrchestratorToExplorer::CombineResourceRequest { to_generate } => {
                match self.create_complex_request(to_generate) {
                    None => Reaction::Reply {
                        reply: Some(ExplorerToOrchestrator::CombineResourceResponse {
                            explorer_id: id,
                            generated: Err("CombineResourceRequest not implemented".to_owned()),
                        }),
                        result: Ok(()),
                    },
                    Some(req) => Reaction::AskPlanet {
                        request: ExplorerToPlanet::CombineResourceRequest { explorer_id: id, msg: req },
                        pending: PendingRequest::CombineResource,
                    },
                }
            },
            crate::protocol::OrchestratorToExplorer::NeighborsResponse { neighbors } => {
                let cur = self.current_planet_id;
                self.knowledge.update_neighbors(cur, neighbors);
                Reaction::Reply { reply: None, result: Ok(()) }
            },
        }
    }
}


/// What taking in the planet's `answer` to request `pending` does. An
/// answer of another kind is handled as a planet message and the request
/// fails; a failed receive fails the request with the receive's error text.
pub open spec fn planet_answer_post<T>(e0: AllegoryExplorer<T>, e1: AllegoryExplorer<T>, pending: PendingRequest, answer: Result<PlanetToExplorer<T>, String>, reply: Option<ExplorerToOrchestrator>, result: Result<(), String>) -> bool {
    let id = e0.id;
    let cur = e0.current_planet_id;
    let b0 = e0.bag.items@;
    let b1 = e1.bag.items@;
    match answer {
        Err(e) => e1.knowledge == e0.knowledge && b1 == b0 && reply is None && result == Err::<(), String>(e),
        Ok(msg) => match (pending, msg) {
            (PendingRequest::SupportedCombination, PlanetToExplorer::SupportedCombinationResponse { combination_list }) => {
                &&& b1 == b0
                &&& updates_planet(e0.knowledge, e1.knowledge, cur, |p: PlanetKnowledge| PlanetKnowledge { combinations: combination_list, ..p })
                &&& reply matches Some(ExplorerToOrchestrator::SupportedCombinationResult { explorer_id, combination_list: l })
                &&& explorer_id == id && l@ == combination_list@
                &&& result is Ok
            },
            (PendingRequest::GenerateResource, PlanetToExplorer::GenerateResourceResponse { resource }) => {
                &&& e1.knowledge == e0.knowledge
                &&& match resource {
                    Some((kind, item)) => b1 == pushed(b0, crate::resources::ResourceType::Basic(kind), item),
                    None => b1 == b0,
                }
                &&& reply == Some(ExplorerToOrchestrator::GenerateResourceResponse { explorer_id: id, generated: Ok(()) })
                &&& result is Ok
            },
            (PendingRequest::CombineResource, PlanetToExplorer::CombineResourceResponse { complex_response }) => {
                &&& e1.knowledge == e0.knowledge
                &&& result is Ok
                &&& match complex_response {
                    Ok((kind, item)) => {
                        &&& b1 == pushed(b0, crate::resources::ResourceType::Complex(kind), item)
                        &&& reply == Some(ExplorerToOrchestrator::CombineResourceResponse { explorer_id: id, generated: Ok(()) })
                    },
                    Err((reason, (kind1, item1), (kind2, item2))) => {
                        &&& b1 == pushed(pushed(b0, kind1, item1), kind2, item2)
                        &&& reply matches Some(ExplorerToOrchestrator::CombineResourceResponse { explorer_id, generated: Err(m) })
                        &&& explorer_id == id
                        &&& m@ == generate_failure_text(cur, reason@)
                    },
                }
            },
            (_, other) => {
                &&& exists|res: Result<(), String>| planet_message_post(e0, e1, other, res)
                &&& reply is None
                &&& result matches Err(m) && m@ == "Unexpected planet response"@
            },
        },
    }
}

impl<T> AllegoryExplorer<T> {
    /// Takes in the planet's answer to a request passed on by
    /// `handle_orchestrator_message`, and says what to reply to the
    /// orchestrator and how the request ends.
    pub fn complete_planet_request(&mut self, pending: PendingRequest, answer: Result<PlanetToExplorer<T>, String>) -> (r: (Option<ExplorerToOrchestrator>, Result<(), String>))
        requires
            old(self).wf(),
        ensures
            final(self).wf(),
            message_frame(*old(self), *final(self)),
            planet_answer_post(*old(self), *final(self), pending, answer, r.0, r.1),
    {
        let id = self.id;
        let cur = self.current_planet_id;
        let msg = match answer {
            Err(e) => return (None, Err(e)),
            Ok(msg) => msg,
        };
        match (pending, msg) {
            (PendingRequest::SupportedCombination, PlanetToExplorer::SupportedCombinationResponse { combination_list }) => {
                let copy = copy_complex(&combination_list);
                self.knowledge.update_planet_combinations(cur, combination_list);
                (Some(ExplorerToOrchestrator::SupportedCombinationResult { explorer_id: id, combination_list: copy }), Ok(()))
            },
            (PendingRequest::GenerateResource, PlanetToExplorer::GenerateResourceResponse { resource }) => {
                match resource {
                    Some((kind, item)) => self.add_basic_to_bag(kind, item),
                    None => {},
                }
                (Some(ExplorerToOrchestrator::GenerateResourceResponse { explorer_id: id, generated: Ok(()) }), Ok(()))
            },
            (PendingRequest::CombineResource, PlanetToExplorer::CombineResourceResponse { complex_response }) => {
                match complex_response {
                    Ok((kind, item)) => {
                        self.add_complex_to_bag(kind, item);
                        (Some(ExplorerToOrchestrator::CombineResourceResponse { explorer_id: id, generated: Ok(()) }), Ok(()))
                    },
                    Err((reason, (kind1, item1), (kind2, item2))) => {
                        self.add_to_bag(kind1, item1);
                        self.add_to_bag(kind2, item2);
                        let number = number_text(cur);
                        let text = concat4("Planet ", number.as_str(), " failed to generate a resource: ", reason.as_str());
                        let text = concat(text.as_str(), " ");
                        (Some(ExplorerToOrchestrator::CombineResourceResponse { explorer_id: id, generated: Err(text) }), Ok(()))
                    },
                }
            },
            (_, other) => {
                let res = self.handle_planet_message(other);
                proof {
                    assert(planet_message_post(*old(self), *self, other, res));
                }
                (None, Err("Unexpected planet response".to_owned()))
            },
        }
    }
}

} // verus!
