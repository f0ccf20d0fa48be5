use transit_live::feed::{EntityOutcome, FeedEntity, FeedMessage, StopTimeEvent, StopTimeUpdate, TripDescriptor, TripUpdate};
use transit_live::model::{Departure, ScheduledStop, Update};
use transit_live::poller::{
    CycleReport, FetchOutcome, PollerState, ResponseBody, FEED_URL, FETCH_TIMEOUT_SECS, POLL_INTERVAL_SECS, USER_AGENT,
};
use transit_live::store::UpdateStore;
use transit_live::time::GTFSTime;

fn filled_store() -> UpdateStore {
    let mut store = UpdateStore::new();
    let stop = ScheduledStop {
        stop_sequence: 1,
        arrival: GTFSTime { delay: 0, timestamp: 0 },
        departure: GTFSTime { delay: 0, timestamp: 50 },
        canceled: false,
    };
    store.upsert_trip(Update::from_stops(1, String::from("20240115"), vec![stop]));
    store.upsert_departure(
        10,
        Departure {
            trip_id: 1,
            start_date: String::from("20240115"),
            arrival: GTFSTime { delay: 0, timestamp: 0 },
            departure: GTFSTime { delay: 0, timestamp: 50 },
            cancelled: false,
        },
    );
    store
}

fn feed_with(trip_id: &str, stop_id: &str, departure: i64) -> FeedMessage {
    FeedMessage {
        entity: vec![FeedEntity {
            trip_update: Some(TripUpdate {
                trip: TripDescriptor {
                    trip_id: Some(String::from(trip_id)),
                    start_date: Some(String::from("20240115")),
                },
                stop_time_update: vec![StopTimeUpdate {
                    stop_sequence: Some(1),
                    stop_id: Some(String::from(stop_id)),
                    arrival: None,
                    departure: Some(StopTimeEvent { delay: Some(0), time: Some(departure) }),
                    schedule_relationship: Some(0),
                }],
            }),
        }],
    }
}

fn assert_untouched(store: &UpdateStore) {
    let trip = store.get_trip(1).unwrap();
    assert_eq!(trip.stops.len(), 1);
    assert_eq!(trip.stops[0].departure.timestamp, 50);
    let listing = store.get_departures(10).unwrap();
    assert_eq!(listing.len(), 1);
    assert_eq!(listing[0].departure.timestamp, 50);
}

#[test]
fn the_poller_constants() {
    assert_eq!(FEED_URL, "https://realtime.gtfs.de/realtime-free.pb");
    assert_eq!(
        USER_AGENT,
        "Mozilla/5.0 (Windows NT 10.0; Win64; x64) AppleWebKit/537.36 (KHTML, like Gecko) Chrome/58.0.3029.110 Safari/537.3"
    );
    assert_eq!(FETCH_TIMEOUT_SECS, 300);
    assert_eq!(POLL_INTERVAL_SECS, 1);
}

#[test]
fn the_first_request_is_unconditional() {
    let request = PollerState::new().next_request();
    assert_eq!(request.url, FEED_URL);
    assert_eq!(request.user_agent, USER_AGENT);
    assert_eq!(request.timeout_secs, 300);
    assert_eq!(request.if_modified_since, None);
    assert_eq!(request.if_none_match, None);
}

#[test]
fn a_request_after_a_response_carries_its_time_and_tag() {
    let mut state = PollerState::new();
    state.record_response(Some(String::from("\"abc\"")), 784_887_151);
    let request = state.next_request();
    assert_eq!(request.if_modified_since.as_deref(), Some("Tue, 15 Nov 1994 08:12:31 GMT"));
    assert_eq!(request.if_none_match.as_deref(), Some("\"abc\""));
}

#[test]
fn a_response_without_tag_clears_the_tag() {
    let mut state = PollerState::new();
    state.record_response(Some(String::from("v1")), 1_720_000_000);
    state.record_response(None, 1_720_000_001);
    assert_eq!(state.etag, None);
    assert_eq!(state.last_modified, Some(1_720_000_001));
    let request = state.next_request();
    assert_eq!(request.if_modified_since.as_deref(), Some("Wed, 03 Jul 2024 09:46:41 GMT"));
    assert_eq!(request.if_none_match, None);
}

#[test]
fn a_time_beyond_the_calendar_gives_no_header() {
    let mut state = PollerState::new();
    state.record_response(None, i64::MAX);
    assert_eq!(state.next_request().if_modified_since, None);
}

#[test]
fn a_transport_failure_changes_nothing() {
    let mut state = PollerState::new();
    state.record_response(Some(String::from("v1")), 100);
    let mut store = filled_store();
    let report = state.complete_cycle(&mut store, FetchOutcome::TransportFailure, 1_000);
    assert!(matches!(report, CycleReport::TransportFailure));
    assert_eq!(state.last_modified, Some(100));
    assert_eq!(state.etag.as_deref(), Some("v1"));
    assert_untouched(&store);
}

#[test]
fn an_undecodable_body_leaves_the_store_as_it_was() {
    let mut state = PollerState::new();
    let mut store = filled_store();
    let outcome = FetchOutcome::Response { etag: Some(String::from("v2")), body: ResponseBody::Undecodable };
    let report = state.complete_cycle(&mut store, outcome, 1_000);
    assert!(matches!(report, CycleReport::FeedUndecodable));
    assert_eq!(state.last_modified, Some(1_000));
    assert_eq!(state.etag.as_deref(), Some("v2"));
    assert_untouched(&store);
}

#[test]
fn an_unreadable_body_leaves_the_store_as_it_was() {
    let mut state = PollerState::new();
    let mut store = filled_store();
    let outcome = FetchOutcome::Response { etag: None, body: ResponseBody::Unreadable };
    let report = state.complete_cycle(&mut store, outcome, 1_000);
    assert!(matches!(report, CycleReport::BodyUnreadable));
    assert_eq!(state.last_modified, Some(1_000));
    assert_eq!(state.etag, None);
    assert_untouched(&store);
}

#[test]
fn a_feed_is_folded_in_and_the_past_swept_out() {
    let mut state = PollerState::new();
    let mut store = filled_store();
    let outcome = FetchOutcome::Response {
        etag: Some(String::from("v3")),
        body: ResponseBody::Feed(feed_with("2", "11", 5_000)),
    };
    let report = state.complete_cycle(&mut store, outcome, 1_000);
    match report {
        CycleReport::Applied { outcomes } => assert_eq!(outcomes, vec![EntityOutcome::Applied]),
        other => panic!("unexpected report {:?}", other),
    }
    assert_eq!(state.last_modified, Some(1_000));
    assert_eq!(state.etag.as_deref(), Some("v3"));
    assert!(store.get_trip(1).is_none());
    assert!(!store.has_stop(10));
    assert_eq!(store.get_trip(2).unwrap().stops[0].departure.timestamp, 5_000);
    assert_eq!(store.get_departure(11, 2).unwrap().departure.timestamp, 5_000);
}

#[test]
fn what_a_feed_brings_in_the_past_is_swept_out_at_once() {
    let mut state = PollerState::new();
    let mut store = UpdateStore::new();
    let outcome = FetchOutcome::Response { etag: None, body: ResponseBody::Feed(feed_with("2", "11", 999)) };
    let report = state.complete_cycle(&mut store, outcome, 1_000);
    assert!(matches!(report, CycleReport::Applied { .. }));
    assert!(store.get_trip(2).is_none());
    assert!(!store.has_stop(11));
}

#[test]
fn an_empty_feed_still_sweeps() {
    let mut state = PollerState::new();
    let mut store = filled_store();
    let outcome = FetchOutcome::Response { etag: None, body: ResponseBody::Feed(FeedMessage { entity: vec![] }) };
    state.complete_cycle(&mut store, outcome, 51);
    assert!(store.get_trip(1).is_none());
    assert!(!store.has_stop(10));
}
