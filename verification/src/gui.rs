//! What the game tells its display: the events of each step, kept in order
//! until the display takes them.

use vstd::prelude::*;

verus! {

/// The state of a planet or an explorer as the display shows it.
#[derive(Clone, Copy, Debug, PartialEq, Eq, Structural)]
pub enum Status {
    Running,
    Paused,
    Dead,
}

/// Something that happened in the galaxy that the display shows.
#[derive(Clone, Copy, Debug, PartialEq, Eq, Structural)]
pub enum OrchestratorEvent {
    PlanetDestroyed { planet_id: u32 },
    SunraySent { planet_id: u32 },
    SunrayReceived { planet_id: u32 },
    AsteroidSent { planet_id: u32 },
    ExplorerMoved { origin: u32, destination: u32 },
}

/// The events not yet taken by the display, oldest first.
pub struct GuiEventBuffer {
    buffer: Vec<OrchestratorEvent>,
}

impl View for GuiEventBuffer {
    type V = Seq<OrchestratorEvent>;

    closed spec fn view(&self) -> Seq<OrchestratorEvent> {
        self.buffer@
    }
}

impl GuiEventBuffer {
    /// No event yet.
    pub fn new() -> (b: Self)
        ensures
            b@ == Seq::<OrchestratorEvent>::empty(),
    {
        GuiEventBuffer { buffer: Vec::new() }
    }

    /// Records that a sunray was sent to a planet.
    pub fn sunray_sent(&mut self, planet_id: u32)
        ensures
            final(self)@ == old(self)@.push(OrchestratorEvent::SunraySent { planet_id }),
    {
        self.buffer.push(OrchestratorEvent::SunraySent { planet_id });
    }

    /// Records that a planet took a sunray.
    pub fn sunray_received(&mut self, planet_id: u32)
        ensures
            final(self)@ == old(self)@.push(OrchestratorEvent::SunrayReceived { planet_id }),
    {
        self.buffer.push(OrchestratorEvent::SunrayReceived { planet_id });
    }

    /// Records that a planet was destroyed.
    pub fn planet_destroyed(&mut self, planet_id: u32)
        ensures
            final(self)@ == old(self)@.push(OrchestratorEvent::PlanetDestroyed { planet_id }),
    {
        self.buffer.push(OrchestratorEvent::PlanetDestroyed { planet_id });
    }

    /// Records that an asteroid was sent to a planet.
    pub fn asteroid_sent(&mut self, planet_id: u32)
        ensures
            final(self)@ == old(self)@.push(OrchestratorEvent::AsteroidSent { planet_id }),
    {
        self.buffer.push(OrchestratorEvent::AsteroidSent { planet_id });
    }

    /// Records that an explorer moved between two planets.
    pub fn explorer_moved(&mut self, origin: u32, destination: u32)
        ensures
            final(self)@ == old(self)@.push(OrchestratorEvent::ExplorerMoved { origin, destination }),
    {
        self.buffer.push(OrchestratorEvent::ExplorerMoved { origin, destination });
    }

    /// Takes every event recorded, oldest first, and leaves none.
    pub fn drain_events(&mut self) -> (events: Vec<OrchestratorEvent>)
        ensures
            events@ == old(self)@,
            final(self)@ == Seq::<OrchestratorEvent>::empty(),
    {
        let mut events: Vec<OrchestratorEvent> = Vec::new();
        std::mem::swap(&mut events, &mut self.buffer);
        events
    }
}

} // verus!
