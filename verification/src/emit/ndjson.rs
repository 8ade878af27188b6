//! Which flow events the newline-delimited JSON log carries.

use vstd::prelude::*;

use crate::event::FlowEvent;

verus! {

/// Options of the NDJSON writer. Ended flows are always written; each
/// flag adds one more kind of event.
#[derive(Debug, Clone, Copy, Default)]
pub struct NdjsonOptions {
    /// Pretty-print each object (over several lines).
    pub pretty: bool,
    /// Write per-packet events.
    pub include_packets: bool,
    /// Write flow starts.
    pub include_started: bool,
    /// Write flow and tracker anomalies.
    pub include_anomalies: bool,
    /// Write TCP handshake completions.
    pub include_established: bool,
    /// Write periodic ticks.
    pub include_ticks: bool,
}

/// Whether an event is written under the given options.
pub open spec fn emits<K>(o: NdjsonOptions, ev: FlowEvent<K>) -> bool {
    match ev {
        FlowEvent::Ended { .. } => true,
        FlowEvent::Started { .. } => o.include_started,
        FlowEvent::Packet { .. } => o.include_packets,
        FlowEvent::Established { .. } => o.include_established,
        FlowEvent::Tick { .. } => o.include_ticks,
        FlowEvent::FlowAnomaly { .. } => o.include_anomalies,
        FlowEvent::TrackerAnomaly { .. } => o.include_anomalies,
        FlowEvent::StateChange { .. } => false,
    }
}

impl NdjsonOptions {
    /// The writer's default: ended flows and anomalies, compact.
    pub fn default_anomalies_on() -> (o: Self)
        ensures
            o == anomalies_on(),
            o.include_anomalies,
            !o.pretty,
            !o.include_packets,
            !o.include_started,
            !o.include_established,
            !o.include_ticks,
    {
        NdjsonOptions {
            pretty: false,
            include_packets: false,
            include_started: false,
            include_anomalies: true,
            include_established: false,
            include_ticks: false,
        }
    }

    /// Whether the writer writes `ev`, as [`emits`] says: ended flows
    /// always, state changes never, the rest by their flag.
    pub fn should_emit<K>(&self, ev: &FlowEvent<K>) -> (r: bool)
        ensures
            r == emits(*self, *ev),
    {
        match ev {
            FlowEvent::Ended { .. } => true,
            FlowEvent::Started { .. } => self.include_started,
            FlowEvent::Packet { .. } => self.include_packets,
            FlowEvent::Established { .. } => self.include_established,
            FlowEvent::Tick { .. } => self.include_ticks,
            FlowEvent::FlowAnomaly { .. } => self.include_anomalies,
            FlowEvent::TrackerAnomaly { .. } => self.include_anomalies,
            FlowEvent::StateChange { .. } => false,
        }
    }
}

/// The writer's default options: ended flows and anomalies, compact.
pub open spec fn anomalies_on() -> NdjsonOptions {
    NdjsonOptions {
        pretty: false,
        include_packets: false,
        include_started: false,
        include_anomalies: true,
        include_established: false,
        include_ticks: false,
    }
}

/// Under the default options exactly the ended flows and the flow and
/// tracker anomalies are written.
pub proof fn lemma_default_selection<K>(ev: FlowEvent<K>)
    ensures
        emits(anomalies_on(), ev) <==> (ev is Ended || ev is FlowAnomaly || ev is TrackerAnomaly),
{
}

} // verus!
