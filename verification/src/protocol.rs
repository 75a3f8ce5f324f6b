//! The messages exchanged between an explorer, the orchestrator and the
//! planet the explorer is on. Resource items are opaque values of type `T`;
//! where a message hands one over, it names its kind too.

use vstd::prelude::*;
use crate::resources::{BasicResourceType, ComplexResourceType, ResourceType};
use crate::table::ResourceTable;

verus! {

/// How many items of each kind an explorer holds.
pub struct BagContent {
    pub content: ResourceTable,
}

/// Messages from the orchestrator to an explorer.
pub enum OrchestratorToExplorer {
    StartExplorerAI,
    ResetExplorerAI,
    KillExplorer,
    StopExplorerAI,
    /// The explorer was moved; `has_sender` tells whether a channel to the
    /// new planet came with the message.
    MoveToPlanet { has_sender: bool, planet_id: u32 },
    CurrentPlanetRequest,
    SupportedResourceRequest,
    SupportedCombinationRequest,
    GenerateResourceRequest { to_generate: BasicResourceType },
    CombineResourceRequest { to_generate: ComplexResourceType },
    BagContentRequest,
    NeighborsResponse { neighbors: Vec<u32> },
}

/// Messages from an explorer to the orchestrator.
pub enum ExplorerToOrchestrator {
    StartExplorerAIResult { explorer_id: u32 },
    KillExplorerResult { explorer_id: u32 },
    ResetExplorerAIResult { explorer_id: u32 },
    StopExplorerAIResult { explorer_id: u32 },
    MovedToPlanetResult { explorer_id: u32, planet_id: u32 },
    CurrentPlanetResult { explorer_id: u32, planet_id: u32 },
    SupportedResourceResult { explorer_id: u32, supported_resources: Vec<BasicResourceType> },
    SupportedCombinationResult { explorer_id: u32, combination_list: Vec<ComplexResourceType> },
    GenerateResourceResponse { explorer_id: u32, generated: Result<(), String> },
    CombineResourceResponse { explorer_id: u32, generated: Result<(), String> },
    BagContentResponse { explorer_id: u32, bag_content: BagContent },
    NeighborsRequest { explorer_id: u32, current_planet_id: u32 },
    TravelToPlanetRequest { explorer_id: u32, current_planet_id: u32, dst_planet_id: u32 },
}

/// A request to combine two ingredients into `target`; `first` and
/// `second` are the ingredients in the order of the recipe of `target`.
pub struct ComplexResourceRequest<T> {
    pub target: ComplexResourceType,
    pub first: T,
    pub second: T,
}

/// Messages from an explorer to a planet.
pub enum ExplorerToPlanet<T> {
    SupportedResourceRequest { explorer_id: u32 },
    SupportedCombinationRequest { explorer_id: u32 },
    GenerateResourceRequest { explorer_id: u32, resource: BasicResourceType },
    CombineResourceRequest { explorer_id: u32, msg: ComplexResourceRequest<T> },
    AvailableEnergyCellRequest { explorer_id: u32 },
}

/// Messages from a planet to an explorer.
pub enum PlanetToExplorer<T> {
    SupportedResourceResponse { resource_list: Vec<BasicResourceType> },
    SupportedCombinationResponse { combination_list: Vec<ComplexResourceType> },
    GenerateResourceResponse { resource: Option<(BasicResourceType, T)> },
    /// The combined item, or an error with the two ingredients given back.
    CombineResourceResponse { complex_response: Result<(ComplexResourceType, T), (String, (ResourceType, T), (ResourceType, T))> },
    AvailableEnergyCellResponse { available_cells: u32 },
    Stopped,
}

} // verus!
