//! The two kinds of actor the cetto explorer talks to, and the events its
//! message log records for each.

use vstd::prelude::*;

verus! {

/// The kinds of actor of the game.
#[derive(Clone, Copy, Debug, PartialEq, Eq, Structural)]
pub enum ActorType {
    Explorer,
    Orchestrator,
    Planet,
}

/// The kinds of message event a log records.
#[derive(Clone, Copy, Debug, PartialEq, Eq, Structural)]
pub enum MessageEvent {
    MessageExplorerToOrchestrator,
    MessageOrchestratorToExplorer,
    MessageExplorerToPlanet,
    MessagePlanetToExplorer,
}

/// An actor the explorer exchanges messages with.
pub trait ActorMarker {
    /// The event of a message the explorer sends to this actor.
    fn event_type_send() -> MessageEvent;

    /// The event of a message the explorer receives from this actor.
    fn event_type_recv() -> MessageEvent;

    /// The kind of this actor.
    fn actor_type() -> ActorType;
}

/// The orchestrator, as a party to the explorer's messages.
pub struct OrchestratorMarker;

/// A planet, as a party to the explorer's messages.
pub struct PlanetMarker;

impl ActorMarker for OrchestratorMarker {
    fn event_type_send() -> (e: MessageEvent)
        ensures
            e == MessageEvent::MessageExplorerToOrchestrator,
    {
        MessageEvent::MessageExplorerToOrchestrator
    }

    fn event_type_recv() -> (e: MessageEvent)
        ensures
            e == MessageEvent::MessageOrchestratorToExplorer,
    {
        MessageEvent::MessageOrchestratorToExplorer
    }

    fn actor_type() -> (a: ActorType)
        ensures
            a == ActorType::Orchestrator,
    {
        ActorType::Orchestrator
    }
}

impl ActorMarker for PlanetMarker {
    fn event_type_send() -> (e: MessageEvent)
        ensures
            e == MessageEvent::MessageExplorerToPlanet,
    {
        MessageEvent::MessageExplorerToPlanet
    }

    fn event_type_recv() -> (e: MessageEvent)
        ensures
            e == MessageEvent::MessagePlanetToExplorer,
    {
        MessageEvent::MessagePlanetToExplorer
    }

    fn actor_type() -> (a: ActorType)
        ensures
            a == ActorType::Planet,
    {
        ActorType::Planet
    }
}

} // verus!
