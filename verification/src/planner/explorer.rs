//! The two planning explorers, `HardwareAcceleratedExplorer` and
//! `SamuFazExplorer`, and how they answer the orchestrator. They decide;
//! the caller sends, waits, and plays the round when asked to.

use vstd::prelude::*;
use crate::bag::{after_take_one, can_take_two, held, pushed};
use crate::planner::bag::Bag;
use crate::planner::galaxy::GalaxyKnowledge;
use crate::protocol::{ComplexResourceRequest, ExplorerToOrchestrator, ExplorerToPlanet, OrchestratorToExplorer, PlanetToExplorer};
use crate::resources::{recipe, ResourceType};

verus! {

/// What a planning explorer carries and knows, and where it is.
pub struct ExplorerState<T> {
    pub bag: Bag<T>,
    pub knowledge: Option<GalaxyKnowledge>,
    pub current_planet: u32,
}

impl<T> ExplorerState<T> {
    pub open spec fn wf(&self) -> bool {
        &&& self.bag.res.wf()
        &&& self.knowledge matches Some(g) ==> g.wf()
    }

    /// An empty bag, no knowledge, at `current_planet`.
    pub fn new(current_planet: u32) -> (s: Self)
        ensures
            s.wf(),
            s.bag.res@ == Map::<ResourceType, Seq<T>>::empty(),
            s.knowledge is None,
            s.current_planet == current_planet,
    {
        ExplorerState { bag: Bag::new(), knowledge: None, current_planet }
    }
}

/// The request to the planet an orchestrator request waits on.
#[derive(Clone, Copy, Debug, PartialEq, Eq, Structural)]
pub enum PlannerPending {
    SupportedResource,
    SupportedCombination,
    GenerateResource,
    CombineResource,
}

/// A planning explorer's reaction to a message from the orchestrator.
pub enum PlannerReaction<T> {
    /// Send `reply` to the orchestrator; keep running when `keep_running`.
    Reply { reply: ExplorerToOrchestrator, keep_running: bool },
    /// Send `request` to the current planet and hand its answer to
    /// `complete_planet_request` with `pending`.
    AskPlanet { request: ExplorerToPlanet<T>, pending: PlannerPending },
    /// Play a round, then report the bag.
    PlayRoundThenReport,
    /// Report the bag without playing.
    Report,
    /// The message is not one this explorer takes: fail with it.
    Unexpected,
}

/// The reaction to a combination request, given the bag before and after.
pub open spec fn combine_reaction<T>(bag0: Map<ResourceType, Seq<T>>, bag1: Map<ResourceType, Seq<T>>, id: u32, target: crate::resources::ComplexResourceType, r: PlannerReaction<T>) -> bool {
    let (a, b) = recipe(target);
    if can_take_two(bag0, a, b) {
        &&& bag1 == after_take_one(after_take_one(bag0, a), b)
        &&& r == PlannerReaction::AskPlanet {
            request: ExplorerToPlanet::CombineResourceRequest {
                explorer_id: id,
                msg: ComplexResourceRequest { target, first: held(bag0, a).last(), second: held(after_take_one(bag0, a), b).last() },
            },
            pending: PlannerPending::CombineResource,
        }
    } else {
        &&& bag1 == bag0
        &&& r matches PlannerReaction::Reply { reply: ExplorerToOrchestrator::CombineResourceResponse { explorer_id, generated: Err(m) }, keep_running: true }
        &&& explorer_id == id
        &&& m@ == "Not enough resources to combine"@
    }
}

/// What both planning explorers do with the messages they handle alike.
pub open spec fn common_post<T>(s0: ExplorerState<T>, s1: ExplorerState<T>, id: u32, msg: OrchestratorToExplorer, r: PlannerReaction<T>) -> bool {
    let same = s1.bag.res@ == s0.bag.res@ && s1.knowledge == s0.knowledge && s1.current_planet == s0.current_planet;
    match msg {
        OrchestratorToExplorer::KillExplorer => same && r == PlannerReaction::<T>::Reply {
            reply: ExplorerToOrchestrator::KillExplorerResult { explorer_id: id },
            keep_running: false,
        },
        OrchestratorToExplorer::CurrentPlanetRequest => same && r == PlannerReaction::<T>::Reply {
            reply: ExplorerToOrchestrator::CurrentPlanetResult { explorer_id: id, planet_id: s0.current_planet },
            keep_running: true,
        },
        OrchestratorToExplorer::SupportedResourceRequest => same && r == PlannerReaction::<T>::AskPlanet {
            request: ExplorerToPlanet::SupportedResourceRequest { explorer_id: id },
            pending: PlannerPending::SupportedResource,
        },
        OrchestratorToExplorer::SupportedCombinationRequest => same && r == PlannerReaction::<T>::AskPlanet {
            request: ExplorerToPlanet::SupportedCombinationRequest { explorer_id: id },
            pending: PlannerPending::SupportedCombination,
        },
        OrchestratorToExplorer::GenerateResourceRequest { to_generate } => same && r == PlannerReaction::<T>::AskPlanet {
            request: ExplorerToPlanet::GenerateResourceRequest { explorer_id: id, resource: to_generate },
            pending: PlannerPending::GenerateResource,
        },
        OrchestratorToExplorer::CombineResourceRequest { to_generate } => {
            &&& s1.knowledge == s0.knowledge && s1.current_planet == s0.current_planet
            &&& combine_reaction(s0.bag.res@, s1.bag.res@, id, to_generate, r)
        },
        OrchestratorToExplorer::MoveToPlanet { has_sender, planet_id } => if has_sender {
            &&& s1.bag.res@ == s0.bag.res@ && s1.knowledge == s0.knowledge
            &&& s1.current_planet == planet_id
            &&& r == PlannerReaction::<T>::Reply {
                reply: ExplorerToOrchestrator::MovedToPlanetResult { explorer_id: id, planet_id },
                keep_running: true,
            }
        } else {
            same && r is Unexpected
        },
        OrchestratorToExplorer::NeighborsResponse { .. } => same && r is Unexpected,
        _ => true,
    }
}

/// What taking in the planet's answer to request `pending` does, and what
/// the orchestrator is told.
pub open spec fn planner_answer_post<T>(s0: ExplorerState<T>, s1: ExplorerState<T>, id: u32, answer: PlanetToExplorer<T>, reply: ExplorerToOrchestrator) -> bool {
    &&& s1.knowledge == s0.knowledge
    &&& s1.current_planet == s0.current_planet
    &&& match answer {
        PlanetToExplorer::SupportedResourceResponse { resource_list } => s1.bag.res@ == s0.bag.res@
            && reply == ExplorerToOrchestrator::SupportedResourceResult { explorer_id: id, supported_resources: resource_list },
        PlanetToExplorer::SupportedCombinationResponse { combination_list } => s1.bag.res@ == s0.bag.res@
            && reply == ExplorerToOrchestrator::SupportedCombinationResult { explorer_id: id, combination_list },
        PlanetToExplorer::GenerateResourceResponse { resource } => match resource {
            Some((k, x)) => s1.bag.res@ == pushed(s0.bag.res@, ResourceType::Basic(k), x)
                && reply == ExplorerToOrchestrator::GenerateResourceResponse { explorer_id: id, generated: Ok(()) },
            None => s1.bag.res@ == s0.bag.res@
                && (reply matches ExplorerToOrchestrator::GenerateResourceResponse { explorer_id, generated: Err(m) }
                && explorer_id == id && m@ == "Cannot create resource"@),
        },
        PlanetToExplorer::CombineResourceResponse { complex_response } => match complex_response {
            Ok((k, x)) => s1.bag.res@ == pushed(s0.bag.res@, ResourceType::Complex(k), x)
                && reply == ExplorerToOrchestrator::CombineResourceResponse { explorer_id: id, generated: Ok(()) },
            Err((e, (k1, x1), (k2, x2))) => s1.bag.res@ == pushed(pushed(s0.bag.res@, k1, x1), k2, x2)
                && reply == ExplorerToOrchestrator::CombineResourceResponse { explorer_id: id, generated: Err(e) },
        },
        _ => false,
    }
}

/// The planet's answer is the kind of answer `pending` waits for.
pub open spec fn planner_answers<T>(pending: PlannerPending, answer: PlanetToExplorer<T>) -> bool {
    match pending {
        PlannerPending::SupportedResource => answer is SupportedResourceResponse,
        PlannerPending::SupportedCombination => answer is SupportedCombinationResponse,
        PlannerPending::GenerateResource => answer is GenerateResourceResponse,
        PlannerPending::CombineResource => answer is CombineResourceResponse,
    }
}

impl<T> ExplorerState<T> {
    /// The reactions both planning explorers share.
    fn handle_common(&mut self, id: u32, msg: OrchestratorToExplorer) -> (r: PlannerReaction<T>)
        requires
            old(self).wf(),
        ensures
            final(self).wf(),
            common_post(*old(self), *final(self), id, msg, r),
    {
        match msg {
            OrchestratorToExplorer::KillExplorer => PlannerReaction::Reply {
                reply: ExplorerToOrchestrator::KillExplorerResult { explorer_id: id },
                keep_running: false,
            },
            OrchestratorToExplorer::CurrentPlanetRequest => PlannerReaction::Reply {
                reply: ExplorerToOrchestrator::CurrentPlanetResult { explorer_id: id, planet_id: self.current_planet },
                keep_running: true,
            },
            OrchestratorToExplorer::SupportedResourceRequest => PlannerReaction::AskPlanet {
                request: ExplorerToPlanet::SupportedResourceRequest { explorer_id: id },
                pending: PlannerPending::SupportedResource,
            },
            OrchestratorToExplorer::SupportedCombinationRequest => PlannerReaction::AskPlanet {
                request: ExplorerToPlanet::SupportedCombinationRequest { explorer_id: id },
                pending: PlannerPending::SupportedCombination,
            },
            OrchestratorToExplorer::GenerateResourceRequest { to_generate } => PlannerReaction::AskPlanet {
                request: ExplorerToPlanet::GenerateResourceRequest { explorer_id: id, resource: to_generate },
                pending: PlannerPending::GenerateResource,
            },
            OrchestratorToExplorer::CombineResourceRequest { to_generate } => {
                match self.bag.get_recipe_ingredients(to_generate) {
                    None => PlannerReaction::Reply {
                        reply: ExplorerToOrchestrator::CombineResourceResponse {
                            explorer_id: id,
                            generated: Err("Not enough resources to combine".to_owned()),
                        },
                        keep_running: true,
                    },
                    Some((first, second)) => PlannerReaction::AskPlanet {
                        request: ExplorerToPlanet::CombineResourceRequest {
                            explorer_id: id,
                            msg: ComplexResourceRequest { target: to_generate, first, second },
                        },
                        pending: PlannerPending::CombineResource,
                    },
                }
            },
            OrchestratorToExplorer::MoveToPlanet { has_sender, planet_id } => {
                if has_sender {
                    self.current_planet = planet_id;
                    PlannerReaction::Reply {
                        reply: ExplorerToOrchestrator::MovedToPlanetResult { explorer_id: id, planet_id },
                        keep_running: true,
                    }
                } else {
                    PlannerReaction::Unexpected
                }
            },
            _ => PlannerReaction::Unexpected,
        }
    }

    /// Takes in the planet's answer to a request passed on to it, and says
    /// what to tell the orchestrator: the generated or combined item goes
    /// into the bag; the ingredients of a failed combination go back.
    pub fn complete_planet_request(&mut self, id: u32, pending: PlannerPending, answer: PlanetToExplorer<T>) -> (reply: ExplorerToOrchestrator)
        requires
            old(self).wf(),
            planner_answers(pending, answer),
        ensures
            final(self).wf(),
            planner_answer_post(*old(self), *final(self), id, answer, reply),
    {
        match answer {
            PlanetToExplorer::SupportedResourceResponse { resource_list } => {
                ExplorerToOrchestrator::SupportedResourceResult { explorer_id: id, supported_resources: resource_list }
            },
            PlanetToExplorer::SupportedCombinationResponse { combination_list } => {
                ExplorerToOrchestrator::SupportedCombinationResult { explorer_id: id, combination_list }
            },
            PlanetToExplorer::GenerateResourceResponse { resource } => match resource {
                Some((k, x)) => {
                    self.bag.insert_basic(k, x);
                    ExplorerToOrchestrator::GenerateResourceResponse { explorer_id: id, generated: Ok(()) }
                },
                None => ExplorerToOrchestrator::GenerateResourceResponse {
                    explorer_id: id,
                    generated: Err("Cannot create resource".to_owned()),
                },
            },
            PlanetToExplorer::CombineResourceResponse { complex_response } => match complex_response {
                Ok((k, x)) => {
                    self.bag.insert_complex(k, x);
                    ExplorerToOrchestrator::CombineResourceResponse { explorer_id: id, generated: Ok(()) }
                },
                Err((e, (k1, x1), (k2, x2))) => {
                    self.bag.res.push(k1, x1);
                    self.bag.res.push(k2, x2);
                    ExplorerToOrchestrator::CombineResourceResponse { explorer_id: id, generated: Err(e) }
                },
            },
            PlanetToExplorer::AvailableEnergyCellResponse { .. } => {
                proof {
                    assert(false);
                }
                ExplorerToOrchestrator::CombineResourceResponse { explorer_id: id, generated: Ok(()) }
            },
            PlanetToExplorer::Stopped => {
                proof {
                    assert(false);
                }
                ExplorerToOrchestrator::CombineResourceResponse { explorer_id: id, generated: Ok(()) }
            },
        }
    }
}

/// The hardware-accelerated explorer. Its items are opaque values of type
/// `T`.
pub struct HardwareAcceleratedExplorer<T> {
    pub id: u32,
    pub state: ExplorerState<T>,
}

/// The samufaz explorer, which can be stopped and started again.
pub struct SamuFazExplorer<T> {
    pub id: u32,
    pub stopped: bool,
    pub state: ExplorerState<T>,
}

impl<T> HardwareAcceleratedExplorer<T> {
    /// An explorer with an empty bag and no knowledge.
    pub fn new(id: u32, current_planet: u32) -> (e: Self)
        ensures
            e.id == id,
            e.state.wf(),
            e.state.bag.res@ == Map::<ResourceType, Seq<T>>::empty(),
            e.state.knowledge is None,
            e.state.current_planet == current_planet,
    {
        HardwareAcceleratedExplorer { id, state: ExplorerState::new(current_planet) }
    }

    /// Reacts to a message from the orchestrator. A reset or a stop is only
    /// acknowledged; a bag request plays a round first; a start, a
    /// neighbour list or a move without a channel is unexpected.
    pub fn handle_orchestrator_message(&mut self, msg: OrchestratorToExplorer) -> (r: PlannerReaction<T>)
        requires
            old(self).state.wf(),
        ensures
            final(self).state.wf(),
            final(self).id == old(self).id,
            common_post(old(self).state, final(self).state, old(self).id, msg, r),
            match msg {
                OrchestratorToExplorer::ResetExplorerAI => final(self).state == old(self).state && r == PlannerReaction::<T>::Reply {
                    reply: ExplorerToOrchestrator::ResetExplorerAIResult { explorer_id: old(self).id },
                    keep_running: true,
                },
                OrchestratorToExplorer::StopExplorerAI => final(self).state == old(self).state && r == PlannerReaction::<T>::Reply {
                    reply: ExplorerToOrchestrator::StopExplorerAIResult { explorer_id: old(self).id },
                    keep_running: true,
                },
                OrchestratorToExplorer::BagContentRequest => final(self).state == old(self).state && r is PlayRoundThenReport,
                OrchestratorToExplorer::StartExplorerAI => final(self).state == old(self).state && r is Unexpected,
                _ => true,
            },
    {
        let id = self.id;
        match msg {
            OrchestratorToExplorer::ResetExplorerAI => PlannerReaction::Reply {
                reply: ExplorerToOrchestrator::ResetExplorerAIResult { explorer_id: id },
                keep_running: true,
            },
            OrchestratorToExplorer::StopExplorerAI => PlannerReaction::Reply {
                reply: ExplorerToOrchestrator::StopExplorerAIResult { explorer_id: id },
                keep_running: true,
            },
            OrchestratorToExplorer::BagContentRequest => PlannerReaction::PlayRoundThenReport,
            OrchestratorToExplorer::StartExplorerAI => PlannerReaction::Unexpected,
            other => self.state.handle_common(id, other),
        }
    }
}

impl<T> SamuFazExplorer<T> {
    /// A running explorer with an empty bag and no knowledge.
    pub fn new(id: u32, current_planet: u32) -> (e: Self)
        ensures
            e.id == id,
            !e.stopped,
            e.state.wf(),
            e.state.bag.res@ == Map::<ResourceType, Seq<T>>::empty(),
            e.state.knowledge is None,
            e.state.current_planet == current_planet,
    {
        SamuFazExplorer { id, stopped: false, state: ExplorerState::new(current_planet) }
    }

    /// Reacts to a message from the orchestrator. A reset empties the bag
    /// and forgets the galaxy; a stop or a start switches the autonomous
    /// play off or on; a bag request plays a round first unless stopped; a
    /// neighbour list or a move without a channel is unexpected.
    pub fn handle_orchestrator_message(&mut self, msg: OrchestratorToExplorer) -> (r: PlannerReaction<T>)
        requires
            old(self).state.wf(),
        ensures
            final(self).state.wf(),
            final(self).id == old(self).id,
            common_post(old(self).state, final(self).state, old(self).id, msg, r),
            match msg {
                OrchestratorToExplorer::ResetExplorerAI => {
                    &&& final(self).stopped == old(self).stopped
                    &&& final(self).state.bag.res@ == Map::<ResourceType, Seq<T>>::empty()
                    &&& final(self).state.knowledge is None
                    &&& final(self).state.current_planet == old(self).state.current_planet
                    &&& r == PlannerReaction::<T>::Reply {
                        reply: ExplorerToOrchestrator::ResetExplorerAIResult { explorer_id: old(self).id },
                        keep_running: true,
                    }
                },
                OrchestratorToExplorer::StopExplorerAI => final(self).stopped && final(self).state == old(self).state
                    && r == PlannerReaction::<T>::Reply {
                    reply: ExplorerToOrchestrator::StopExplorerAIResult { explorer_id: old(self).id },
                    keep_running: true,
                },
                OrchestratorToExplorer::StartExplorerAI => !final(self).stopped && final(self).state == old(self).state
                    && r == PlannerReaction::<T>::Reply {
                    reply: ExplorerToOrchestrator::StartExplorerAIResult { explorer_id: old(self).id },
                    keep_running: true,
                },
                OrchestratorToExplorer::BagContentRequest => final(self).stopped == old(self).stopped
                    && final(self).state == old(self).state
                    && if old(self).stopped { r is Report } else { r is PlayRoundThenReport },
                _ => final(self).stopped == old(self).stopped,
            },
    {
        let id = self.id;
        match msg {
            OrchestratorToExplorer::ResetExplorerAI => {
                self.state = ExplorerState::new(self.state.current_planet);
                PlannerReaction::Reply { reply: ExplorerToOrchestrator::ResetExplorerAIResult { explorer_id: id }, keep_running: true }
            },
            OrchestratorToExplorer::StopExplorerAI => {
                self.stopped = true;
                PlannerReaction::Reply { reply: ExplorerToOrchestrator::StopExplorerAIResult { explorer_id: id }, keep_running: true }
            },
            OrchestratorToExplorer::StartExplorerAI => {
                self.stopped = false;
                PlannerReaction::Reply { reply: ExplorerToOrchestrator::StartExplorerAIResult { explorer_id: id }, keep_running: true }
            },
            OrchestratorToExplorer::BagContentRequest => {
                if self.stopped {
                    PlannerReaction::Report
                } else {
                    PlannerReaction::PlayRoundThenReport
                }
            },
            other => self.state.handle_common(id, other),
        }
    }
}

} // verus!
