use transit_live::model::{Departure, ScheduledStop, Update};
use transit_live::store::UpdateStore;
use transit_live::time::GTFSTime;

fn departure(trip_id: i64, timestamp: i64, delay: i32) -> Departure {
    Departure {
        trip_id,
        start_date: String::from("20240115"),
        arrival: GTFSTime { delay: 0, timestamp: 0 },
        departure: GTFSTime { delay, timestamp },
        cancelled: false,
    }
}

fn stop(sequence: u32, timestamp: i64, canceled: bool) -> ScheduledStop {
    ScheduledStop {
        stop_sequence: sequence,
        arrival: GTFSTime { delay: 0, timestamp: 0 },
        departure: GTFSTime { delay: 0, timestamp },
        canceled,
    }
}

#[test]
fn new_store_is_empty() {
    let store = UpdateStore::new();
    assert!(store.get_trip(1).is_none());
    assert!(!store.has_stop(1));
    assert!(store.get_departures(1).is_none());
    assert!(store.get_departure(1, 1).is_none());
}

#[test]
fn upsert_departure_twice_keeps_one_entry_with_latest_value() {
    let mut store = UpdateStore::new();
    store.upsert_departure(10, departure(7, 1_000, 0));
    store.upsert_departure(10, departure(7, 2_000, 60));
    let listing = store.get_departures(10).unwrap();
    assert_eq!(listing.len(), 1);
    assert_eq!(listing[0].trip_id, 7);
    assert_eq!(listing[0].departure, GTFSTime { delay: 60, timestamp: 2_000 });
    let found = store.get_departure(10, 7).unwrap();
    assert_eq!(found.departure.timestamp, 2_000);
}

#[test]
fn upsert_trip_replaces_the_earlier_update() {
    let mut store = UpdateStore::new();
    store.upsert_trip(Update::from_stops(5, String::from("20240115"), vec![stop(1, 100, false)]));
    store.upsert_trip(Update::from_stops(5, String::from("20240116"), vec![stop(1, 200, true)]));
    let found = store.get_trip(5).unwrap();
    assert_eq!(found.start_date, "20240116");
    assert_eq!(found.stops, vec![stop(1, 200, true)]);
    assert!(found.canceled);
    assert_eq!(found.next_stop_index, 0);
}

#[test]
fn evict_removes_past_trips_and_keeps_future_ones() {
    let mut store = UpdateStore::new();
    store.upsert_trip(Update::from_stops(1, String::from("d"), vec![stop(1, 50, false), stop(2, 99, false)]));
    store.upsert_trip(Update::from_stops(2, String::from("d"), vec![stop(1, 50, false), stop(2, 100, false)]));
    store.upsert_trip(Update::from_stops(3, String::from("d"), vec![stop(1, 500, false), stop(2, 10, false)]));
    store.upsert_trip(Update::from_stops(4, String::from("d"), vec![]));
    store.evict_at(100);
    assert!(store.get_trip(1).is_none());
    assert!(store.get_trip(2).is_some());
    assert!(store.get_trip(3).is_none());
    assert!(store.get_trip(4).is_none());
}

#[test]
fn evict_removes_a_stop_once_all_its_departures_expired() {
    let mut store = UpdateStore::new();
    store.upsert_departure(10, departure(1, 50, 0));
    store.upsert_departure(10, departure(2, 60, 0));
    store.upsert_departure(11, departure(1, 50, 0));
    store.upsert_departure(11, departure(2, 150, 0));
    store.evict_at(100);
    assert!(!store.has_stop(10));
    assert!(store.get_departures(10).is_none());
    assert!(store.has_stop(11));
    let left = store.get_departures(11).unwrap();
    assert_eq!(left.len(), 1);
    assert_eq!(left[0].trip_id, 2);
}

#[test]
fn evict_now_uses_the_current_time() {
    let mut store = UpdateStore::new();
    store.upsert_departure(10, departure(1, 1_000, 0));
    store.upsert_departure(10, departure(2, i64::MAX, 0));
    store.upsert_trip(Update::from_stops(1, String::from("d"), vec![stop(1, 1_000, false)]));
    store.upsert_trip(Update::from_stops(2, String::from("d"), vec![stop(1, i64::MAX, false)]));
    store.evict_now();
    assert!(store.get_departure(10, 1).is_none());
    assert!(store.get_departure(10, 2).is_some());
    assert!(store.get_trip(1).is_none());
    assert!(store.get_trip(2).is_some());
}

#[test]
fn departures_of_different_trips_share_a_stop() {
    let mut store = UpdateStore::new();
    store.upsert_departure(10, departure(1, 1_000, 0));
    store.upsert_departure(10, departure(2, 2_000, 0));
    store.upsert_departure(10, departure(1, 3_000, 0));
    let mut listing: Vec<(i64, i64)> =
        store.get_departures(10).unwrap().iter().map(|d| (d.trip_id, d.departure.timestamp)).collect();
    listing.sort();
    assert_eq!(listing, vec![(1, 3_000), (2, 2_000)]);
}

#[test]
fn a_departure_is_stored_for_its_stop_only() {
    let mut store = UpdateStore::new();
    store.upsert_departure(10, departure(1, 1_000, 0));
    assert!(store.has_stop(10));
    assert!(!store.has_stop(1));
    assert!(store.get_departure(10, 1).is_some());
    assert!(store.get_departure(1, 10).is_none());
    assert!(store.get_departure(10, 2).is_none());
    assert!(store.get_trip(1).is_none());
}

#[test]
fn a_stored_departure_comes_back_with_every_field() {
    let mut store = UpdateStore::new();
    store.upsert_departure(
        10,
        Departure {
            trip_id: 3,
            start_date: String::from("20240229"),
            arrival: GTFSTime { delay: -5, timestamp: 900 },
            departure: GTFSTime { delay: 15, timestamp: 1_000 },
            cancelled: true,
        },
    );
    let found = store.get_departure(10, 3).unwrap();
    assert_eq!(found.trip_id, 3);
    assert_eq!(found.start_date, "20240229");
    assert_eq!(found.arrival, GTFSTime { delay: -5, timestamp: 900 });
    assert_eq!(found.departure, GTFSTime { delay: 15, timestamp: 1_000 });
    assert!(found.cancelled);
}

#[test]
fn a_departure_at_the_time_of_eviction_stays() {
    let mut store = UpdateStore::new();
    store.upsert_departure(10, departure(1, 100, 0));
    store.upsert_trip(Update::from_stops(1, String::from("d"), vec![stop(1, 100, false)]));
    store.evict_at(100);
    assert!(store.has_stop(10));
    assert!(store.get_trip(1).is_some());
    store.evict_at(101);
    assert!(!store.has_stop(10));
    assert!(store.get_trip(1).is_none());
}

#[test]
fn eviction_of_an_empty_store_leaves_it_empty() {
    let mut store = UpdateStore::new();
    store.evict_at(0);
    store.evict_now();
    assert!(!store.has_stop(0));
    assert!(store.get_trip(0).is_none());
}

#[test]
fn a_stop_can_be_filled_again_after_eviction() {
    let mut store = UpdateStore::new();
    store.upsert_departure(10, departure(1, 50, 0));
    store.evict_at(100);
    assert!(!store.has_stop(10));
    store.upsert_departure(10, departure(2, 500, 0));
    let listing = store.get_departures(10).unwrap();
    assert_eq!(listing.len(), 1);
    assert_eq!(listing[0].trip_id, 2);
}
