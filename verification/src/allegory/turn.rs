//! The decisions around a turn of the allegory explorer: what to ask a
//! planet when exploring it, where to go next while exploring, what to do on
//! arrival, when to retire, which message of a batch to serve first, and the
//! report that ends a turn. The caller does the sending and the waiting.

use vstd::prelude::*;
use crate::allegory::ai::{first_craftable, has_cells, is_travel, remaining_target, some_craftable, step_defined};
use crate::allegory::communication::reports_bag;
use crate::allegory::explorer::{crafting_list, shopping_list, task_met, AllegoryExplorer, ExplorerMode};
use crate::allegory::knowledge::{first_lists, is_first_planet, is_first_step, knows};
use crate::bag::can_take_two;
use crate::protocol::{BagContent, ExplorerToOrchestrator, ExplorerToPlanet, OrchestratorToExplorer};
use crate::resources::{get_resource_recipe, recipe, ResourceType};
use crate::text::{concat4, decimal, number_text};

verus! {

/// The text of an arrival somewhere else than requested.
pub open spec fn unexpected_move_text(new_id: u32, requested: u32) -> Seq<char> {
    "Unexpectedly moved to planet "@ + decimal(new_id as nat) + " instead of "@ + decimal(requested as nat)
}

/// `u` lists the planets the first entries of the `explored` planets name
/// as neighbours, without the explored planets themselves.
pub open spec fn is_frontier(ps: Seq<crate::allegory::knowledge::PlanetKnowledge>, explored: Seq<u32>, u: Seq<u32>) -> bool {
    forall|v: u32| #[trigger] u.contains(v) <==> (exists|e: u32| explored.contains(e) && #[trigger] first_lists(ps, e, v)) && !explored.contains(v)
}

impl<T> AllegoryExplorer<T> {
    /// What to ask when exploring the current planet: its neighbours from
    /// the orchestrator, and its charged cells, basic resources and
    /// combinations from the planet, in that order.
    pub fn query_planet(&self) -> (r: (ExplorerToOrchestrator, Vec<ExplorerToPlanet<T>>))
        ensures
            r.0 == (ExplorerToOrchestrator::NeighborsRequest { explorer_id: self.id, current_planet_id: self.current_planet_id }),
            r.1@ == seq![
                ExplorerToPlanet::<T>::AvailableEnergyCellRequest { explorer_id: self.id },
                ExplorerToPlanet::<T>::SupportedResourceRequest { explorer_id: self.id },
                ExplorerToPlanet::<T>::SupportedCombinationRequest { explorer_id: self.id },
            ],
    {
        let mut to_planet: Vec<ExplorerToPlanet<T>> = Vec::new();
        to_planet.push(ExplorerToPlanet::AvailableEnergyCellRequest { explorer_id: self.id });
        to_planet.push(ExplorerToPlanet::SupportedResourceRequest { explorer_id: self.id });
        to_planet.push(ExplorerToPlanet::SupportedCombinationRequest { explorer_id: self.id });
        proof {
            assert(to_planet@ =~= seq![
                ExplorerToPlanet::<T>::AvailableEnergyCellRequest { explorer_id: self.id },
                ExplorerToPlanet::<T>::SupportedResourceRequest { explorer_id: self.id },
                ExplorerToPlanet::<T>::SupportedCombinationRequest { explorer_id: self.id },
            ]);
        }
        (ExplorerToOrchestrator::NeighborsRequest { explorer_id: self.id, current_planet_id: self.current_planet_id }, to_planet)
    }

    /// While exploring: heads for the nearest planet that the planets
    /// explored this round name as a neighbour and that was not explored
    /// this round, and asks to travel there; `None` when no known path leads
    /// to such a planet.
    pub fn plan_exploration_move(&mut self, explored_this_round: &Vec<u32>) -> (r: Option<ExplorerToOrchestrator>)
        ensures
            final(self).id == old(self).id,
            final(self).current_planet_id == old(self).current_planet_id,
            final(self).mode == old(self).mode,
            final(self).bag == old(self).bag,
            final(self).bag_content == old(self).bag_content,
            final(self).task == old(self).task,
            final(self).simple_resources_task == old(self).simple_resources_task,
            final(self).knowledge.planets == old(self).knowledge.planets,
            final(self).knowledge.current_state == old(self).knowledge.current_state,
            exists|u: Seq<u32>, s: Option<u32>|
                #[trigger] is_frontier(old(self).knowledge.planets@, explored_this_round@, u)
                    && #[trigger] is_first_step(old(self).knowledge.planets@, old(self).current_planet_id, u, s)
                    && match s {
                    None => r is None && final(self).knowledge.current_target_planet == old(self).knowledge.current_target_planet,
                    Some(h) => final(self).knowledge.current_target_planet == Some(h)
                        && is_travel(r, old(self).id, old(self).current_planet_id, old(self).knowledge.planets@, Some(h)),
                },
    {
        let cur = self.current_planet_id;
        let unexplored = self.knowledge.get_unexplored_from_hash(explored_this_round);
        let step = self.find_first_unexplored(&unexplored);
        proof {
            assert(is_frontier(old(self).knowledge.planets@, explored_this_round@, unexplored@));
            assert(is_first_step(old(self).knowledge.planets@, cur, unexplored@, step));
        }
        match step {
            None => None,
            Some(h) => {
                self.knowledge.set_destination(Some(h));
                let hop = self.knowledge.get_next_hop(cur);
                Some(ExplorerToOrchestrator::TravelToPlanetRequest { explorer_id: self.id, current_planet_id: cur, dst_planet_id: hop })
            },
        }
    }

    /// Takes in an arrival at `new_id` after asking to travel to
    /// `requested`: the explorer is now there, confirms the move, and the
    /// travel fails when it landed somewhere else.
    pub fn arrive(&mut self, requested: u32, new_id: u32) -> (r: (ExplorerToOrchestrator, Result<(), String>))
        ensures
            final(self).current_planet_id == new_id,
            final(self).id == old(self).id,
            final(self).mode == old(self).mode,
            final(self).bag == old(self).bag,
            final(self).bag_content == old(self).bag_content,
            final(self).knowledge == old(self).knowledge,
            final(self).task == old(self).task,
            final(self).simple_resources_task == old(self).simple_resources_task,
            r.0 == (ExplorerToOrchestrator::MovedToPlanetResult { explorer_id: old(self).id, planet_id: new_id }),
            new_id == requested ==> r.1 is Ok,
            new_id != requested ==> (r.1 matches Err(m) && m@ == unexpected_move_text(new_id, requested)),
    {
        self.current_planet_id = new_id;
        let reply = ExplorerToOrchestrator::MovedToPlanetResult { explorer_id: self.id, planet_id: new_id };
        if new_id == requested {
            (reply, Ok(()))
        } else {
            let a = number_text(new_id);
            let b = number_text(requested);
            (reply, Err(concat4("Unexpectedly moved to planet ", a.as_str(), " instead of ", b.as_str())))
        }
    }

    /// Whether `next_step` is defined for this explorer in state `state`.
    pub fn step_is_defined(&self, state: crate::allegory::knowledge::StrategyState) -> (r: bool)
        requires
            self.wf(),
        ensures
            r == step_defined(*self, state),
    {
        let ghost ps = self.knowledge.planets@;
        let cur = self.current_planet_id;
        let travelling = match self.knowledge.get_target_planet() {
            Some(t) => t != cur,
            None => false,
        };
        if travelling {
            return true;
        }
        let known = self.knowledge.find_planet(cur);
        match state {
            crate::allegory::knowledge::StrategyState::Collecting => {
                match self.anything_left_on_the_shopping_list() {
                    None => true,
                    Some(_) => known.is_some(),
                }
            },
            crate::allegory::knowledge::StrategyState::Crafting => {
                if self.verify_win() {
                    return true;
                }
                let list = match self.anything_left_on_the_crafting_list() {
                    None => return true,
                    Some(list) => list,
                };
                let i = match known {
                    None => return false,
                    Some(i) => i,
                };
                proof {
                    crate::allegory::ai::lemma_first_entry(ps, cur, i as int);
                }
                if self.knowledge.planets[i].latest_cells_number == 0 {
                    return true;
                }
                match crate::allegory::ai::first_craftable_index(&self.knowledge, cur, &list) {
                    None => true,
                    Some(j) => {
                        let c = list[j].0;
                        proof {
                            let k = choose|k: int| crate::allegory::ai::is_first_craftable(ps, cur, list@, k);
                            assert(crate::allegory::ai::is_first_craftable(ps, cur, list@, j as int));
                            if k < j {
                                assert(!crate::allegory::knowledge::produces(ps, cur, ResourceType::Complex(list@[k].0)));
                            }
                            if j < k {
                                assert(!crate::allegory::knowledge::produces(ps, cur, ResourceType::Complex(list@[j as int].0)));
                            }
                            assert(first_craftable(ps, cur, list@) == c);
                        }
                        let (a, b) = get_resource_recipe(&c);
                        if a == b {
                            self.bag.items.count(a) >= 2
                        } else {
                            self.bag.items.count(a) >= 1 && self.bag.items.count(b) >= 1
                        }
                    },
                }
            },
            _ => true,
        }
    }

    /// When the bag content meets the task, the explorer retires; says
    /// whether it did.
    pub fn retire_if_won(&mut self) -> (r: bool)
        requires
            old(self).wf(),
        ensures
            r == task_met(old(self).task@, old(self).bag_content.content@),
            final(self).mode == (if r { ExplorerMode::Retired } else { old(self).mode }),
            final(self).id == old(self).id,
            final(self).current_planet_id == old(self).current_planet_id,
            final(self).bag == old(self).bag,
            final(self).bag_content == old(self).bag_content,
            final(self).knowledge == old(self).knowledge,
            final(self).task == old(self).task,
            final(self).simple_resources_task == old(self).simple_resources_task,
    {
        let won = self.verify_win();
        if won {
            self.mode = ExplorerMode::Retired;
        }
        won
    }

    /// Whether the explorer is out of the game.
    pub fn is_out(&self) -> (r: bool)
        ensures
            r == (self.mode == ExplorerMode::Killed || self.mode == ExplorerMode::Retired),
    {
        self.mode == ExplorerMode::Killed || self.mode == ExplorerMode::Retired
    }

    /// The report that ends a turn: the content of the bag.
    pub fn turn_report(&self) -> (r: ExplorerToOrchestrator)
        requires
            self.wf(),
        ensures
            r matches ExplorerToOrchestrator::BagContentResponse { explorer_id, bag_content }
                && explorer_id == self.id && reports_bag(bag_content.content@, self.bag.items@),
    {
        ExplorerToOrchestrator::BagContentResponse { explorer_id: self.id, bag_content: BagContent::from_bag(&self.bag) }
    }
}

/// The index of the first kill request of a batch of messages, which is
/// served before, and instead of, the others.
pub fn first_kill(batch: &Vec<OrchestratorToExplorer>) -> (r: Option<usize>)
    ensures
        match r {
            None => forall|i: int| 0 <= i < batch@.len() ==> !(#[trigger] batch@[i] is KillExplorer),
            Some(i) => i < batch@.len() && batch@[i as int] is KillExplorer
                && forall|j: int| 0 <= j < i ==> !(#[trigger] batch@[j] is KillExplorer),
        },
{
    let mut i: usize = 0;
    while i < batch.len()
        invariant
            i <= batch@.len(),
            forall|j: int| 0 <= j < i ==> !(#[trigger] batch@[j] is KillExplorer),
        decreases batch@.len() - i,
    {
        match &batch[i] {
            OrchestratorToExplorer::KillExplorer => return Some(i),
            _ => {},
        }
        i = i + 1;
    }
    None
}

} // verus!
