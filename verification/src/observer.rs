//! Observation routing and emission: lifecycle events carry an entity id, an
//! event kind and a stage; observers map them to health-check pings.
//!
//! The router is a linear filter over configured observations; the emitter
//! builds the ping URL for a check and a stage. Sending the ping is the
//! caller's outward HTTP edge.

use vstd::prelude::*;

use crate::ids::{uuid_chars, Uuid};

verus! {

/// The observable event kinds.
#[derive(Clone, Copy, PartialEq, Eq, Structural, Debug)]
pub enum ObservableEvent {
    DatasetSnapshot,
    DatasetPrune,
    ContainerPrune,
    DatasetSync,
}

/// Where in its lifecycle an observed piece of work stands.
#[derive(Clone, PartialEq, Eq, Debug)]
pub enum ObservableEventStage {
    Starting,
    Succeeded,
    Failed(String),
}

/// What one observation watches: an entity and an event kind.
#[derive(Clone, Copy, PartialEq, Eq, Structural, Debug)]
pub struct Observation {
    pub entity_id: Uuid,
    pub event: ObservableEvent,
}

/// An observation wired to a health check.
#[derive(Clone, Copy, PartialEq, Eq, Structural, Debug)]
pub struct HealthchecksObservation {
    pub observation: Observation,
    pub healthcheck_id: Uuid,
}

/// A periodic liveness ping.
#[derive(Clone, Copy, PartialEq, Eq, Structural, Debug)]
pub struct HealthchecksHeartbeat {
    pub healthcheck_id: Uuid,
    pub frequency_secs: u64,
}

/// A configured observer: its routes, an optional heartbeat, and an
/// optional custom ping base URL.
pub struct HealthchecksObserverEntity {
    pub id: Uuid,
    pub name: String,
    pub custom_url: Option<String>,
    pub observations: Vec<HealthchecksObservation>,
    pub heartbeat: Option<HealthchecksHeartbeat>,
}

/// One lifecycle event as published on the broker.
#[derive(Clone, PartialEq, Eq, Debug)]
pub struct ObservableEventMessage {
    pub source: Uuid,
    pub event: ObservableEvent,
    pub stage: ObservableEventStage,
}

/// The message published before observed work runs.
pub fn observation_starting(source: Uuid, event: ObservableEvent) -> (r: ObservableEventMessage)
    ensures
        r.source == source,
        r.event == event,
        r.stage == ObservableEventStage::Starting,
{
    ObservableEventMessage { source, event, stage: ObservableEventStage::Starting }
}

/// The message published after observed work finished: succeeded, or failed
/// with the work's own error text.
pub fn observation_completed(source: Uuid, event: ObservableEvent, ok: bool, error: String) -> (r:
    ObservableEventMessage)
    ensures
        r.source == source,
        r.event == event,
        r.stage == if ok {
            ObservableEventStage::Succeeded
        } else {
            ObservableEventStage::Failed(error)
        },
{
    ObservableEventMessage {
        source,
        event,
        stage: if ok {
            ObservableEventStage::Succeeded
        } else {
            ObservableEventStage::Failed(error)
        },
    }
}

/// The configured observations matching a source and event, in order.
pub open spec fn spec_route(
    obs: Seq<HealthchecksObservation>,
    source: Uuid,
    event: ObservableEvent,
    n: int,
) -> Seq<HealthchecksObservation>
    decreases n,
{
    if n <= 0 {
        Seq::empty()
    } else {
        let pre = spec_route(obs, source, event, n - 1);
        if obs[n - 1].observation.entity_id == source && obs[n - 1].observation.event == event {
            pre.push(obs[n - 1])
        } else {
            pre
        }
    }
}

/// Routes events to health checks by a linear filter over the configured
/// observations.
pub struct ObservationRouter {
    pub observations: Vec<HealthchecksObservation>,
}

impl ObservationRouter {
    /// A router over the given observations.
    pub fn new(model: Vec<HealthchecksObservation>) -> (r: ObservationRouter)
        ensures
            r.observations@ == model@,
    {
        ObservationRouter { observations: model }
    }

    /// Exactly the observations watching this source and event, in order.
    pub fn route(&self, source: Uuid, event: ObservableEvent) -> (r: Vec<HealthchecksObservation>)
        ensures
            r@ == spec_route(self.observations@, source, event, self.observations@.len() as int),
            forall|k: int|
                0 <= k < r@.len() ==> (#[trigger] r@[k]).observation.entity_id == source
                    && r@[k].observation.event == event,
    {
        let n = self.observations.len();
        let mut r: Vec<HealthchecksObservation> = Vec::new();
        let mut i: usize = 0;
        while i < n
            invariant
                n == self.observations@.len(),
                i <= n,
                r@ == spec_route(self.observations@, source, event, i as int),
                forall|k: int|
                    0 <= k < r@.len() ==> (#[trigger] r@[k]).observation.entity_id == source
                        && r@[k].observation.event == event,
            decreases n - i,
        {
            let o = self.observations[i];
            if o.observation.entity_id.value == source.value && o.observation.event == event {
                r.push(o);
            }
            i = i + 1;
        }
        r
    }
}

/// The URL suffix of a lifecycle stage: `/start` before work, nothing on
/// success, `/fail` on failure.
pub open spec fn stage_suffix(stage: ObservableEventStage) -> Seq<char> {
    match stage {
        ObservableEventStage::Starting => "/start"@,
        ObservableEventStage::Succeeded => Seq::empty(),
        ObservableEventStage::Failed(_) => "/fail"@,
    }
}

/// Builds ping URLs under a base URL.
pub struct ObservationEmitter {
    pub url: String,
}

impl ObservationEmitter {
    /// An emitter under a custom base URL.
    pub fn new(custom_url: String) -> (r: ObservationEmitter)
        ensures
            r.url == custom_url,
    {
        ObservationEmitter { url: custom_url }
    }

    /// The URL pinged for a health check at a stage: base, then the check's
    /// id, then the stage suffix.
    pub fn emit_request(&self, healthcheck_id: Uuid, stage: &ObservableEventStage) -> (r: String)
        ensures
            r@ == self.url@ + uuid_chars(healthcheck_id.value) + stage_suffix(*stage),
    {
        let mut s = self.url.clone();
        let id_text = healthcheck_id.to_text();
        s.append(id_text.as_str());
        match stage {
            ObservableEventStage::Starting => {
                s.append("/start");
            },
            ObservableEventStage::Succeeded => {},
            ObservableEventStage::Failed(_) => {
                s.append("/fail");
            },
        }
        proof {
            assert(s@ =~= self.url@ + uuid_chars(healthcheck_id.value) + stage_suffix(*stage));
        }
        s
    }
}

impl Default for ObservationEmitter {
    /// The emitter under the public healthchecks endpoint.
    fn default() -> (r: ObservationEmitter)
        ensures
            r.url@ == "https://hc-ping.com/"@,
    {
        ObservationEmitter { url: "https://hc-ping.com/".to_owned() }
    }
}

/// One observer: routes broker events to pings and beats its own heart.
pub struct HealthchecksActor {
    pub router: ObservationRouter,
    pub emitter: ObservationEmitter,
    pub heartbeat_config: Option<HealthchecksHeartbeat>,
}

impl HealthchecksActor {
    /// Builds the observer from its configuration: its routes, its base URL
    /// or the default one, and its heartbeat.
    pub fn new(model: HealthchecksObserverEntity) -> (r: HealthchecksActor)
        ensures
            r.router.observations@ == model.observations@,
            r.emitter.url@ == match model.custom_url {
                Some(u) => u@,
                None => "https://hc-ping.com/"@,
            },
            r.heartbeat_config == model.heartbeat,
    {
        let emitter = match model.custom_url {
            Some(u) => ObservationEmitter::new(u),
            None => ObservationEmitter::default(),
        };
        HealthchecksActor {
            router: ObservationRouter::new(model.observations),
            emitter,
            heartbeat_config: model.heartbeat,
        }
    }

    /// The heartbeat period to schedule on start, when one is configured.
    pub fn heartbeat_plan(&self) -> (r: Option<u64>)
        ensures
            r == match self.heartbeat_config {
                Some(h) => Some(h.frequency_secs),
                None => None::<u64>,
            },
    {
        match &self.heartbeat_config {
            Some(h) => Some(h.frequency_secs),
            None => None,
        }
    }

    /// The pings one broker event causes: one URL per observation routed to
    /// this source and event, each under the routed check's id and the
    /// event's stage.
    pub fn handle_event(&self, msg: &ObservableEventMessage) -> (r: Vec<String>)
        ensures
            ({
                let routed = spec_route(
                    self.router.observations@,
                    msg.source,
                    msg.event,
                    self.router.observations@.len() as int,
                );
                &&& r@.len() == routed.len()
                &&& forall|k: int|
                    0 <= k < r@.len() ==> (#[trigger] r@[k])@ == self.emitter.url@ + uuid_chars(
                        routed[k].healthcheck_id.value,
                    ) + stage_suffix(msg.stage)
            }),
    {
        let routed = self.router.route(msg.source, msg.event);
        let n = routed.len();
        let mut r: Vec<String> = Vec::new();
        let mut i: usize = 0;
        while i < n
            invariant
                n == routed@.len(),
                i <= n,
                r@.len() == i,
                forall|k: int|
                    0 <= k < i ==> (#[trigger] r@[k])@ == self.emitter.url@ + uuid_chars(
                        routed@[k].healthcheck_id.value,
                    ) + stage_suffix(msg.stage),
            decreases n - i,
        {
            let url = self.emitter.emit_request(routed[i].healthcheck_id, &msg.stage);
            r.push(url);
            i = i + 1;
        }
        r
    }

    /// The ping one heartbeat tick causes, when a heartbeat is configured:
    /// a plain success ping on the heartbeat check.
    pub fn handle_heartbeat(&self) -> (r: Option<String>)
        ensures
            match self.heartbeat_config {
                Some(h) => r matches Some(u) && u@ == self.emitter.url@ + uuid_chars(
                    h.healthcheck_id.value,
                ),
                None => r is None,
            },
    {
        match &self.heartbeat_config {
            Some(h) => {
                let url = self.emitter.emit_request(
                    h.healthcheck_id,
                    &ObservableEventStage::Succeeded,
                );
                proof {
                    assert(self.emitter.url@ + uuid_chars(h.healthcheck_id.value) + stage_suffix(
                        ObservableEventStage::Succeeded,
                    ) =~= self.emitter.url@ + uuid_chars(h.healthcheck_id.value));
                }
                Some(url)
            },
            None => None,
        }
    }
}

} // verus!
