use transit_live::feed::{
    apply_entity, apply_feed, apply_trip_update, read_event, read_stop_visit, read_trip_key, EntityOutcome, FeedEntity,
    FeedMessage, FieldError, StopTimeEvent, StopTimeUpdate, TripDescriptor, TripUpdate, SKIPPED,
};
use transit_live::model::ScheduledStop;
use transit_live::store::UpdateStore;
use transit_live::time::GTFSTime;

fn event(time: i64, delay: i32) -> Option<StopTimeEvent> {
    Some(StopTimeEvent { delay: Some(delay), time: Some(time) })
}

fn stop_visit(sequence: u32, stop_id: &str, departure: i64) -> StopTimeUpdate {
    StopTimeUpdate {
        stop_sequence: Some(sequence),
        stop_id: Some(String::from(stop_id)),
        arrival: event(departure - 60, 0),
        departure: event(departure, 30),
        schedule_relationship: Some(0),
    }
}

fn trip(trip_id: &str, visits: Vec<StopTimeUpdate>) -> TripUpdate {
    TripUpdate {
        trip: TripDescriptor { trip_id: Some(String::from(trip_id)), start_date: Some(String::from("20240115")) },
        stop_time_update: visits,
    }
}

fn entity(trip_id: &str, visits: Vec<StopTimeUpdate>) -> FeedEntity {
    FeedEntity { trip_update: Some(trip(trip_id, visits)) }
}

#[test]
fn skipped_is_the_feeds_value_for_a_skipped_stop() {
    assert_eq!(SKIPPED, 1);
}

#[test]
fn a_missing_section_reads_as_the_zero_time() {
    assert_eq!(read_event(&None), Some(GTFSTime { delay: 0, timestamp: 0 }));
}

#[test]
fn a_section_reads_as_its_time_and_delay() {
    assert_eq!(read_event(&event(1_000, -45)), Some(GTFSTime { delay: -45, timestamp: 1_000 }));
}

#[test]
fn a_section_without_delay_reads_with_delay_zero() {
    let section = Some(StopTimeEvent { delay: None, time: Some(1_000) });
    assert_eq!(read_event(&section), Some(GTFSTime { delay: 0, timestamp: 1_000 }));
}

#[test]
fn a_section_without_time_cannot_be_read() {
    assert_eq!(read_event(&Some(StopTimeEvent { delay: Some(5), time: None })), None);
    assert_eq!(read_event(&Some(StopTimeEvent { delay: None, time: None })), None);
}

#[test]
fn a_stop_visit_reads_as_stop_id_and_scheduled_stop() {
    let visit = stop_visit(3, "4711", 1_000);
    let expected = ScheduledStop {
        stop_sequence: 3,
        arrival: GTFSTime { delay: 0, timestamp: 940 },
        departure: GTFSTime { delay: 30, timestamp: 1_000 },
        canceled: false,
    };
    assert_eq!(read_stop_visit(&visit), Ok((4711, expected)));
}

#[test]
fn a_stop_visit_is_canceled_when_skipped_or_without_relationship() {
    let mut visit = stop_visit(1, "1", 1_000);
    visit.schedule_relationship = Some(SKIPPED);
    assert!(read_stop_visit(&visit).unwrap().1.canceled);
    visit.schedule_relationship = None;
    assert!(read_stop_visit(&visit).unwrap().1.canceled);
    visit.schedule_relationship = Some(0);
    assert!(!read_stop_visit(&visit).unwrap().1.canceled);
    visit.schedule_relationship = Some(2);
    assert!(!read_stop_visit(&visit).unwrap().1.canceled);
    visit.schedule_relationship = Some(-1);
    assert!(!read_stop_visit(&visit).unwrap().1.canceled);
}

#[test]
fn a_stop_visit_without_sections_has_zero_times() {
    let mut visit = stop_visit(1, "1", 1_000);
    visit.arrival = None;
    visit.departure = None;
    let stop = read_stop_visit(&visit).unwrap().1;
    assert_eq!(stop.arrival, GTFSTime { delay: 0, timestamp: 0 });
    assert_eq!(stop.departure, GTFSTime { delay: 0, timestamp: 0 });
}

#[test]
fn each_missing_field_of_a_stop_visit_has_its_error() {
    let mut visit = stop_visit(1, "1", 1_000);
    visit.stop_sequence = None;
    assert_eq!(read_stop_visit(&visit), Err(FieldError::MissingStopSequence));

    let mut visit = stop_visit(1, "1", 1_000);
    visit.arrival = Some(StopTimeEvent { delay: Some(0), time: None });
    assert_eq!(read_stop_visit(&visit), Err(FieldError::MissingArrivalTime));

    let mut visit = stop_visit(1, "1", 1_000);
    visit.departure = Some(StopTimeEvent { delay: Some(0), time: None });
    assert_eq!(read_stop_visit(&visit), Err(FieldError::MissingDepartureTime));

    let mut visit = stop_visit(1, "1", 1_000);
    visit.stop_id = None;
    assert_eq!(read_stop_visit(&visit), Err(FieldError::MissingStopId));

    let visit = stop_visit(1, "de:4711", 1_000);
    assert_eq!(read_stop_visit(&visit), Err(FieldError::InvalidStopId));
}

#[test]
fn the_first_missing_field_of_a_stop_visit_decides_the_error() {
    let mut visit = stop_visit(1, "x", 1_000);
    visit.departure = Some(StopTimeEvent { delay: None, time: None });
    assert_eq!(read_stop_visit(&visit), Err(FieldError::MissingDepartureTime));
    visit.arrival = Some(StopTimeEvent { delay: None, time: None });
    assert_eq!(read_stop_visit(&visit), Err(FieldError::MissingArrivalTime));
    visit.stop_sequence = None;
    assert_eq!(read_stop_visit(&visit), Err(FieldError::MissingStopSequence));
}

#[test]
fn a_trip_key_is_the_trip_id_as_a_number() {
    let descriptor = TripDescriptor { trip_id: Some(String::from("2401")), start_date: None };
    assert_eq!(read_trip_key(&descriptor), Some(2401));
    let descriptor = TripDescriptor { trip_id: Some(String::from("-7")), start_date: None };
    assert_eq!(read_trip_key(&descriptor), Some(-7));
}

#[test]
fn a_trip_id_that_is_missing_or_no_number_gives_no_key() {
    assert_eq!(read_trip_key(&TripDescriptor { trip_id: None, start_date: None }), None);
    assert_eq!(read_trip_key(&TripDescriptor { trip_id: Some(String::from("T-12")), start_date: None }), None);
    assert_eq!(read_trip_key(&TripDescriptor { trip_id: Some(String::new()), start_date: None }), None);
    assert_eq!(read_trip_key(&TripDescriptor { trip_id: Some(String::from("1 ")), start_date: None }), None);
}

#[test]
fn minus_one_is_a_trip_id_like_any_other() {
    let descriptor = TripDescriptor { trip_id: Some(String::from("-1")), start_date: None };
    assert_eq!(read_trip_key(&descriptor), Some(-1));
}

#[test]
fn a_trip_update_with_id_minus_one_is_applied() {
    let mut store = UpdateStore::new();
    let mut skipped = stop_visit(2, "11", 2_000);
    skipped.schedule_relationship = Some(SKIPPED);
    let update = trip("-1", vec![stop_visit(1, "10", 1_000), skipped]);
    assert_eq!(apply_trip_update(&mut store, &update), EntityOutcome::Applied);
    let stored = store.get_trip(-1).unwrap();
    assert_eq!(stored.trip_id, -1);
    assert_eq!(stored.stops.len(), 2);
    assert!(!stored.stops[0].canceled);
    assert!(stored.stops[1].canceled);
    assert!(!stored.canceled);
    assert_eq!(store.get_departure(10, -1).unwrap().departure.timestamp, 1_000);
    assert_eq!(store.get_departure(11, -1).unwrap().departure.timestamp, 2_000);
}

#[test]
fn a_trip_update_stores_its_departures_and_its_update() {
    let mut store = UpdateStore::new();
    let update = trip("2401", vec![stop_visit(1, "10", 1_000), stop_visit(2, "11", 2_000)]);
    assert_eq!(apply_trip_update(&mut store, &update), EntityOutcome::Applied);

    let stored = store.get_trip(2401).unwrap();
    assert_eq!(stored.trip_id, 2401);
    assert_eq!(stored.start_date, "20240115");
    assert_eq!(stored.next_stop_index, 0);
    assert_eq!(stored.stops.len(), 2);
    assert_eq!(stored.stops[0].stop_sequence, 1);
    assert_eq!(stored.stops[1].departure, GTFSTime { delay: 30, timestamp: 2_000 });
    assert!(!stored.canceled);

    let first = store.get_departure(10, 2401).unwrap();
    assert_eq!(first.trip_id, 2401);
    assert_eq!(first.start_date, "20240115");
    assert_eq!(first.arrival, GTFSTime { delay: 0, timestamp: 940 });
    assert_eq!(first.departure, GTFSTime { delay: 30, timestamp: 1_000 });
    assert!(!first.cancelled);
    assert_eq!(store.get_departure(11, 2401).unwrap().departure.timestamp, 2_000);
    assert!(store.get_departure(10, 2402).is_none());
}

#[test]
fn a_trip_is_canceled_when_all_its_stop_visits_are_skipped() {
    let mut store = UpdateStore::new();
    let mut first = stop_visit(1, "10", 1_000);
    first.schedule_relationship = Some(SKIPPED);
    let mut second = stop_visit(2, "11", 2_000);
    second.schedule_relationship = None;
    apply_trip_update(&mut store, &trip("5", vec![first, second]));
    assert!(store.get_trip(5).unwrap().canceled);
    assert!(store.get_departure(10, 5).unwrap().cancelled);
    assert!(store.get_departure(11, 5).unwrap().cancelled);
}

#[test]
fn a_trip_with_one_stop_visit_not_skipped_is_not_canceled() {
    let mut store = UpdateStore::new();
    let mut first = stop_visit(1, "10", 1_000);
    first.schedule_relationship = Some(SKIPPED);
    let second = stop_visit(2, "11", 2_000);
    let mut third = stop_visit(3, "12", 3_000);
    third.schedule_relationship = Some(SKIPPED);
    apply_trip_update(&mut store, &trip("5", vec![first, second, third]));
    assert!(!store.get_trip(5).unwrap().canceled);
    assert!(store.get_departure(10, 5).unwrap().cancelled);
    assert!(!store.get_departure(11, 5).unwrap().cancelled);
}

#[test]
fn a_trip_update_without_stop_visits_is_stored_as_canceled() {
    let mut store = UpdateStore::new();
    assert_eq!(apply_trip_update(&mut store, &trip("5", vec![])), EntityOutcome::Applied);
    let stored = store.get_trip(5).unwrap();
    assert!(stored.stops.is_empty());
    assert!(stored.canceled);
}

#[test]
fn a_trip_update_with_an_unusable_trip_id_changes_nothing() {
    let mut store = UpdateStore::new();
    for id in ["T-12", "", "-", "12x"] {
        let update = trip(id, vec![stop_visit(1, "10", 1_000)]);
        assert_eq!(apply_trip_update(&mut store, &update), EntityOutcome::UnusableTripId);
    }
    let mut update = trip("1", vec![stop_visit(1, "10", 1_000)]);
    update.trip.trip_id = None;
    assert_eq!(apply_trip_update(&mut store, &update), EntityOutcome::UnusableTripId);
    assert!(!store.has_stop(10));
    assert!(store.get_trip(1).is_none());
    assert!(store.get_trip(12).is_none());
}

#[test]
fn a_trip_update_without_start_date_changes_nothing() {
    let mut store = UpdateStore::new();
    let mut update = trip("5", vec![stop_visit(1, "10", 1_000)]);
    update.trip.start_date = None;
    assert_eq!(apply_trip_update(&mut store, &update), EntityOutcome::MissingStartDate);
    assert!(!store.has_stop(10));
    assert!(store.get_trip(5).is_none());
}

#[test]
fn an_unusable_trip_id_is_found_before_a_missing_start_date() {
    let mut store = UpdateStore::new();
    let mut update = trip("x", vec![]);
    update.trip.start_date = None;
    assert_eq!(apply_trip_update(&mut store, &update), EntityOutcome::UnusableTripId);
}

#[test]
fn a_stop_visit_without_stop_id_ends_the_trip_and_keeps_what_came_before() {
    let mut store = UpdateStore::new();
    let mut broken = stop_visit(2, "11", 2_000);
    broken.stop_id = None;
    let update = trip("5", vec![stop_visit(1, "10", 1_000), broken, stop_visit(3, "12", 3_000)]);
    assert_eq!(
        apply_trip_update(&mut store, &update),
        EntityOutcome::Aborted { at: 1, error: FieldError::MissingStopId }
    );
    assert_eq!(store.get_departure(10, 5).unwrap().departure.timestamp, 1_000);
    assert!(!store.has_stop(11));
    assert!(!store.has_stop(12));
    assert!(store.get_trip(5).is_none());
}

#[test]
fn an_aborted_trip_leaves_its_earlier_update_in_place() {
    let mut store = UpdateStore::new();
    apply_trip_update(&mut store, &trip("5", vec![stop_visit(1, "10", 1_000)]));
    let update = trip("5", vec![stop_visit(1, "10", 1_500), stop_visit(2, "bad", 2_000)]);
    assert_eq!(
        apply_trip_update(&mut store, &update),
        EntityOutcome::Aborted { at: 1, error: FieldError::InvalidStopId }
    );
    assert_eq!(store.get_trip(5).unwrap().stops[0].departure.timestamp, 1_000);
    assert_eq!(store.get_departure(10, 5).unwrap().departure.timestamp, 1_500);
}

#[test]
fn a_failure_at_the_first_stop_visit_changes_nothing() {
    let mut store = UpdateStore::new();
    let mut broken = stop_visit(1, "10", 1_000);
    broken.stop_sequence = None;
    let update = trip("5", vec![broken, stop_visit(2, "11", 2_000)]);
    assert_eq!(
        apply_trip_update(&mut store, &update),
        EntityOutcome::Aborted { at: 0, error: FieldError::MissingStopSequence }
    );
    assert!(!store.has_stop(10));
    assert!(!store.has_stop(11));
    assert!(store.get_trip(5).is_none());
}

#[test]
fn the_last_stop_visit_of_a_trip_at_a_stop_wins() {
    let mut store = UpdateStore::new();
    let update = trip("5", vec![stop_visit(1, "10", 1_000), stop_visit(9, "10", 5_000)]);
    apply_trip_update(&mut store, &update);
    assert_eq!(store.get_departures(10).unwrap().len(), 1);
    assert_eq!(store.get_departure(10, 5).unwrap().departure.timestamp, 5_000);
    assert_eq!(store.get_trip(5).unwrap().stops.len(), 2);
}

#[test]
fn an_entity_without_trip_update_changes_nothing() {
    let mut store = UpdateStore::new();
    assert_eq!(apply_entity(&mut store, &FeedEntity { trip_update: None }), EntityOutcome::NoTripUpdate);
}

#[test]
fn a_feed_is_folded_entity_by_entity() {
    let mut store = UpdateStore::new();
    let mut broken = stop_visit(1, "12", 3_000);
    broken.arrival = Some(StopTimeEvent { delay: None, time: None });
    let feed = FeedMessage {
        entity: vec![
            entity("1", vec![stop_visit(1, "10", 1_000)]),
            FeedEntity { trip_update: None },
            entity("oops", vec![stop_visit(1, "10", 1_100)]),
            entity("2", vec![stop_visit(1, "10", 2_000), stop_visit(2, "11", 2_500)]),
            entity("3", vec![broken]),
        ],
    };
    let outcomes = apply_feed(&mut store, &feed);
    assert_eq!(
        outcomes,
        vec![
            EntityOutcome::Applied,
            EntityOutcome::NoTripUpdate,
            EntityOutcome::UnusableTripId,
            EntityOutcome::Applied,
            EntityOutcome::Aborted { at: 0, error: FieldError::MissingArrivalTime },
        ]
    );
    assert!(store.get_trip(1).is_some());
    assert!(store.get_trip(2).is_some());
    assert!(store.get_trip(3).is_none());
    let mut trips: Vec<i64> = store.get_departures(10).unwrap().iter().map(|d| d.trip_id).collect();
    trips.sort();
    assert_eq!(trips, vec![1, 2]);
    assert_eq!(store.get_departures(11).unwrap().len(), 1);
    assert!(!store.has_stop(12));
}

#[test]
fn a_later_entity_of_the_same_trip_replaces_the_earlier_one() {
    let mut store = UpdateStore::new();
    let feed = FeedMessage {
        entity: vec![
            entity("1", vec![stop_visit(1, "10", 1_000), stop_visit(2, "11", 1_500)]),
            entity("1", vec![stop_visit(1, "10", 2_000)]),
        ],
    };
    apply_feed(&mut store, &feed);
    let stored = store.get_trip(1).unwrap();
    assert_eq!(stored.stops.len(), 1);
    assert_eq!(stored.stops[0].departure.timestamp, 2_000);
    assert_eq!(store.get_departure(10, 1).unwrap().departure.timestamp, 2_000);
    assert_eq!(store.get_departure(11, 1).unwrap().departure.timestamp, 1_500);
}

#[test]
fn an_empty_feed_changes_nothing() {
    let mut store = UpdateStore::new();
    store.upsert_departure(
        10,
        transit_live::model::Departure {
            trip_id: 1,
            start_date: String::from("d"),
            arrival: GTFSTime { delay: 0, timestamp: 0 },
            departure: GTFSTime { delay: 0, timestamp: 5 },
            cancelled: false,
        },
    );
    let outcomes = apply_feed(&mut store, &FeedMessage { entity: vec![] });
    assert!(outcomes.is_empty());
    assert_eq!(store.get_departure(10, 1).unwrap().departure.timestamp, 5);
}
