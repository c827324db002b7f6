//! Observation routing and ping URLs.

use blkcapt::ids::Uuid;
use blkcapt::observer::{
    observation_completed, observation_starting, HealthchecksActor, HealthchecksHeartbeat,
    HealthchecksObservation, HealthchecksObserverEntity, ObservableEvent, ObservableEventStage,
    Observation, ObservationEmitter, ObservationRouter,
};

fn one_route_observer() -> HealthchecksActor {
    // One observer routing snapshot events of dataset 7 to one check.
    HealthchecksActor::new(HealthchecksObserverEntity {
        id: Uuid::from_value(1),
        name: String::from("obs"),
        custom_url: None,
        observations: vec![HealthchecksObservation {
            observation: Observation {
                entity_id: Uuid::from_value(7),
                event: ObservableEvent::DatasetSnapshot,
            },
            healthcheck_id: Uuid::from_value(0xabc),
        }],
        heartbeat: None,
    })
}

#[test]
fn routing_matches_entity_and_event_only() {
    let router = ObservationRouter::new(vec![HealthchecksObservation {
        observation: Observation {
            entity_id: Uuid::from_value(7),
            event: ObservableEvent::DatasetSnapshot,
        },
        healthcheck_id: Uuid::from_value(0xabc),
    }]);
    assert_eq!(router.route(Uuid::from_value(7), ObservableEvent::DatasetSnapshot).len(), 1);
    assert_eq!(router.route(Uuid::from_value(7), ObservableEvent::DatasetPrune).len(), 0);
    assert_eq!(router.route(Uuid::from_value(8), ObservableEvent::DatasetSnapshot).len(), 0);
}

#[test]
fn snapshot_event_pings_start_then_plain() {
    let actor = one_route_observer();
    let check = Uuid::from_value(0xabc).to_text();
    let starting = observation_starting(Uuid::from_value(7), ObservableEvent::DatasetSnapshot);
    let urls = actor.handle_event(&starting);
    assert_eq!(urls, vec![format!("https://hc-ping.com/{}/start", check)]);
    let done = observation_completed(
        Uuid::from_value(7),
        ObservableEvent::DatasetSnapshot,
        true,
        String::new(),
    );
    let urls = actor.handle_event(&done);
    assert_eq!(urls, vec![format!("https://hc-ping.com/{}", check)]);
}

#[test]
fn failure_pings_the_fail_suffix() {
    let actor = one_route_observer();
    let check = Uuid::from_value(0xabc).to_text();
    let failed = observation_completed(
        Uuid::from_value(7),
        ObservableEvent::DatasetSnapshot,
        false,
        String::from("pipe broke"),
    );
    assert_eq!(failed.stage, ObservableEventStage::Failed(String::from("pipe broke")));
    let urls = actor.handle_event(&failed);
    assert_eq!(urls, vec![format!("https://hc-ping.com/{}/fail", check)]);
}

#[test]
fn prune_event_for_the_same_dataset_produces_no_ping() {
    let actor = one_route_observer();
    let msg = observation_starting(Uuid::from_value(7), ObservableEvent::DatasetPrune);
    assert_eq!(actor.handle_event(&msg).len(), 0);
}

#[test]
fn custom_base_url_prefixes_the_ping() {
    let emitter = ObservationEmitter::new(String::from("https://pings.example/"));
    let url = emitter.emit_request(Uuid::from_value(5), &ObservableEventStage::Starting);
    assert_eq!(
        url,
        format!("https://pings.example/{}/start", Uuid::from_value(5).to_text())
    );
}

#[test]
fn heartbeat_pings_its_own_check_plainly() {
    let actor = HealthchecksActor::new(HealthchecksObserverEntity {
        id: Uuid::from_value(1),
        name: String::from("obs"),
        custom_url: None,
        observations: Vec::new(),
        heartbeat: Some(HealthchecksHeartbeat {
            healthcheck_id: Uuid::from_value(0xbeef),
            frequency_secs: 60,
        }),
    });
    assert_eq!(actor.heartbeat_plan(), Some(60));
    assert_eq!(
        actor.handle_heartbeat(),
        Some(format!("https://hc-ping.com/{}", Uuid::from_value(0xbeef).to_text()))
    );
}

#[test]
fn default_emitter_points_at_the_public_endpoint() {
    let emitter: ObservationEmitter = Default::default();
    assert_eq!(emitter.url, "https://hc-ping.com/");
}
