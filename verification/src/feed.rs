//! The decoded real-time feed and how one feed cycle folds into the store.
//!
//! The feed is a list of entities. An entity may carry a trip update, which
//! names a trip and lists the trip's stop visits in order. Each field of the
//! feed is optional on the wire; the types here keep that.

use vstd::prelude::*;
use crate::model::{DepartureView, Departure, ScheduledStop, Update, UpdateView};
use crate::index::departure_at;
use crate::store::{StoreView, UpdateStore};
use crate::text::{i64_of, parse_i64};
use crate::time::GTFSTime;

verus! {

/// The schedule relationship that marks a stop visit as skipped.
pub const SKIPPED: i32 = 1;

/// The predicted arrival or departure at one stop.
#[derive(Debug, Clone, Copy, PartialEq, Eq, Structural)]
pub struct StopTimeEvent {
    pub delay: Option<i32>,
    pub time: Option<i64>,
}

/// The real-time data of one stop visit of a trip.
#[derive(Debug)]
pub struct StopTimeUpdate {
    pub stop_sequence: Option<u32>,
    pub stop_id: Option<String>,
    pub arrival: Option<StopTimeEvent>,
    pub departure: Option<StopTimeEvent>,
    pub schedule_relationship: Option<i32>,
}

/// What identifies the trip of a trip update.
#[derive(Debug)]
pub struct TripDescriptor {
    pub trip_id: Option<String>,
    pub start_date: Option<String>,
}

/// The real-time status of one trip: its stop visits in feed order.
#[derive(Debug)]
pub struct TripUpdate {
    pub trip: TripDescriptor,
    pub stop_time_update: Vec<StopTimeUpdate>,
}

/// One entity of the feed.
#[derive(Debug)]
pub struct FeedEntity {
    pub trip_update: Option<TripUpdate>,
}

/// One decoded feed.
#[derive(Debug)]
pub struct FeedMessage {
    pub entity: Vec<FeedEntity>,
}

/// Why a stop visit could not be read.
#[derive(Debug, Clone, Copy, PartialEq, Eq, Structural)]
pub enum FieldError {
    /// The stop visit has no stop sequence.
    MissingStopSequence,
    /// The arrival section is there but has no time.
    MissingArrivalTime,
    /// The departure section is there but has no time.
    MissingDepartureTime,
    /// The stop visit names no stop.
    MissingStopId,
    /// The stop id is not a 64-bit integer in decimal notation.
    InvalidStopId,
}

/// What became of one entity of the feed.
#[derive(Debug, Clone, Copy, PartialEq, Eq, Structural)]
pub enum EntityOutcome {
    /// The entity carries no trip update; nothing was changed.
    NoTripUpdate,
    /// The trip id is missing or is not a 64-bit integer in decimal
    /// notation; nothing was changed.
    UnusableTripId,
    /// The trip has no start date; nothing was changed.
    MissingStartDate,
    /// Every stop visit was read, its departure stored, and the trip's
    /// update stored.
    Applied,
    /// The stop visit at position `at` could not be read. The departures of
    /// the stop visits before it were stored; the rest of the trip, its
    /// update included, was left out.
    Aborted { at: usize, error: FieldError },
}

/// The time that an arrival or departure section gives: the zero time where
/// the section is missing, its time with its delay (0 where it has none)
/// where it has a time, and nothing where the section lacks its time.
pub open spec fn event_time(event: Option<StopTimeEvent>) -> Option<GTFSTime> {
    match event {
        None => Some(GTFSTime::absent()),
        Some(section) => match section.time {
            Some(timestamp) => Some(
                GTFSTime { delay: if section.delay is Some { section.delay->0 } else { 0 }, timestamp },
            ),
            None => None,
        },
    }
}

/// Whether a stop visit counts as canceled: its schedule relationship is
/// "skipped", or it has none.
pub open spec fn visit_canceled(relationship: Option<i32>) -> bool {
    match relationship {
        Some(value) => value == SKIPPED,
        None => true,
    }
}

/// The stop id and the scheduled stop that a stop visit gives, or the first
/// reason why it gives none. The fields are looked at in this order: stop
/// sequence, arrival, departure, stop id.
pub open spec fn stop_visit(update: StopTimeUpdate) -> Result<(i64, ScheduledStop), FieldError> {
    if update.stop_sequence is None {
        Err(FieldError::MissingStopSequence)
    } else if event_time(update.arrival) is None {
        Err(FieldError::MissingArrivalTime)
    } else if event_time(update.departure) is None {
        Err(FieldError::MissingDepartureTime)
    } else if update.stop_id is None {
        Err(FieldError::MissingStopId)
    } else if i64_of(update.stop_id->0@) is None {
        Err(FieldError::InvalidStopId)
    } else {
        Ok(
            (
                i64_of(update.stop_id->0@)->0,
                ScheduledStop {
                    stop_sequence: update.stop_sequence->0,
                    arrival: event_time(update.arrival)->0,
                    departure: event_time(update.departure)->0,
                    canceled: visit_canceled(update.schedule_relationship),
                },
            ),
        )
    }
}

/// The departure that a scheduled stop of a trip gives rise to.
pub open spec fn departure_of(trip_id: i64, start_date: Seq<char>, stop: ScheduledStop) -> DepartureView {
    DepartureView { trip_id, start_date, arrival: stop.arrival, departure: stop.departure, cancelled: stop.canceled }
}

/// The trip id under which a trip update is stored: its trip id read as a
/// 64-bit integer in decimal notation; nothing where the trip id is missing
/// or is no such number.
pub open spec fn trip_key(trip: TripDescriptor) -> Option<i64> {
    match trip.trip_id {
        Some(text) => i64_of(text@),
        None => None,
    }
}

/// Where a trip's stop list stands after some of its stop visits.
pub struct TripFold {
    /// The store, with the departures stored so far.
    pub store: StoreView,
    /// The scheduled stops read so far.
    pub stops: Seq<ScheduledStop>,
    /// The position and the error of the stop visit that ended the trip's
    /// processing, if one did.
    pub failure: Option<(usize, FieldError)>,
}

/// Folds the stop visits of one trip into the store, in order, up to the
/// first one that cannot be read.
pub open spec fn fold_stops(store: StoreView, trip_id: i64, start_date: Seq<char>, visits: Seq<StopTimeUpdate>) -> TripFold
    decreases visits.len(),
{
    if visits.len() == 0 {
        TripFold { store, stops: Seq::empty(), failure: None }
    } else {
        let before = fold_stops(store, trip_id, start_date, visits.drop_last());
        if before.failure is Some {
            before
        } else {
            match stop_visit(visits.last()) {
                Ok((stop_id, stop)) => TripFold {
                    store: before.store.upsert_departure(stop_id, departure_of(trip_id, start_date, stop)),
                    stops: before.stops.push(stop),
                    failure: None,
                },
                Err(error) => TripFold {
                    store: before.store,
                    stops: before.stops,
                    failure: Some(((visits.len() - 1) as usize, error)),
                },
            }
        }
    }
}

/// The store after one entity, and what became of the entity.
pub struct EntityResult {
    pub store: StoreView,
    pub outcome: EntityOutcome,
}

/// Folds one trip update into the store.
pub open spec fn trip_result(store: StoreView, update: TripUpdate) -> EntityResult {
    if trip_key(update.trip) is None {
        EntityResult { store, outcome: EntityOutcome::UnusableTripId }
    } else if update.trip.start_date is None {
        EntityResult { store, outcome: EntityOutcome::MissingStartDate }
    } else {
        let trip_id = trip_key(update.trip)->0;
        let start_date = update.trip.start_date->0@;
        let fold = fold_stops(store, trip_id, start_date, update.stop_time_update@);
        match fold.failure {
            Some((at, error)) => EntityResult { store: fold.store, outcome: EntityOutcome::Aborted { at, error } },
            None => EntityResult {
                store: fold.store.upsert_trip(UpdateView::from_stops(trip_id, start_date, fold.stops)),
                outcome: EntityOutcome::Applied,
            },
        }
    }
}

/// Folds one entity into the store.
pub open spec fn entity_result(store: StoreView, entity: FeedEntity) -> EntityResult {
    match entity.trip_update {
        Some(update) => trip_result(store, update),
        None => EntityResult { store, outcome: EntityOutcome::NoTripUpdate },
    }
}

/// The store after a feed, and what became of each of its entities.
pub struct FeedResult {
    pub store: StoreView,
    pub outcomes: Seq<EntityOutcome>,
}

/// Folds the entities of a feed into the store, in order.
pub open spec fn feed_result(store: StoreView, entities: Seq<FeedEntity>) -> FeedResult
    decreases entities.len(),
{
    if entities.len() == 0 {
        FeedResult { store, outcomes: Seq::empty() }
    } else {
        let before = feed_result(store, entities.drop_last());
        let last = entity_result(before.store, entities.last());
        FeedResult { store: last.store, outcomes: before.outcomes.push(last.outcome) }
    }
}

/// Reads an arrival or departure section.
pub fn read_event(event: &Option<StopTimeEvent>) -> (time: Option<GTFSTime>)
    ensures
        time == event_time(*event),
{
    match event {
        None => Some(GTFSTime::zero()),
        Some(section) => match section.time {
            Some(timestamp) => {
                let delay = match section.delay {
                    Some(delay) => delay,
                    None => 0,
                };
                Some(GTFSTime { delay, timestamp })
            },
            None => None,
        },
    }
}

/// Reads one stop visit.
pub fn read_stop_visit(update: &StopTimeUpdate) -> (visit: Result<(i64, ScheduledStop), FieldError>)
    ensures
        visit == stop_visit(*update),
{
    let stop_sequence = match update.stop_sequence {
        Some(sequence) => sequence,
        None => {
            return Err(FieldError::MissingStopSequence);
        },
    };
    let arrival = match read_event(&update.arrival) {
        Some(time) => time,
        None => {
            return Err(FieldError::MissingArrivalTime);
        },
    };
    let departure = match read_event(&update.departure) {
        Some(time) => time,
        None => {
            return Err(FieldError::MissingDepartureTime);
        },
    };
    let canceled = match update.schedule_relationship {
        Some(value) => value == SKIPPED,
        None => true,
    };
    let stop_id = match &update.stop_id {
        Some(text) => match parse_i64(text.as_str()) {
            Some(id) => id,
            None => {
                return Err(FieldError::InvalidStopId);
            },
        },
        None => {
            return Err(FieldError::MissingStopId);
        },
    };
    Ok((stop_id, ScheduledStop { stop_sequence, arrival, departure, canceled }))
}

/// Reads the trip id of a trip update.
pub fn read_trip_key(trip: &TripDescriptor) -> (key: Option<i64>)
    ensures
        key == trip_key(*trip),
{
    match &trip.trip_id {
        Some(text) => parse_i64(text.as_str()),
        None => None,
    }
}

/// Folds one trip update into the store: stores a departure for each stop
/// visit, in feed order, and then the trip's update. The first stop visit
/// that cannot be read ends the trip's processing: what was stored before
/// it stays, the trip's update is not stored.
pub fn apply_trip_update(store: &mut UpdateStore, update: &TripUpdate) -> (outcome: EntityOutcome)
    ensures
        final(store)@ == trip_result(old(store)@, *update).store,
        outcome == trip_result(old(store)@, *update).outcome,
        old(store)@.well_formed() ==> final(store)@.well_formed(),
{
    let trip_id = match read_trip_key(&update.trip) {
        Some(id) => id,
        None => {
            return EntityOutcome::UnusableTripId;
        },
    };
    let start_date = match &update.trip.start_date {
        Some(text) => text.clone(),
        None => {
            return EntityOutcome::MissingStartDate;
        },
    };
    let ghost begin = store@;
    let ghost visits = update.stop_time_update@;
    let mut stops: Vec<ScheduledStop> = Vec::new();
    let mut i: usize = 0;
    while i < update.stop_time_update.len()
        invariant
            i <= update.stop_time_update.len(),
            visits == update.stop_time_update@,
            begin == old(store)@,
            trip_key(update.trip) == Some(trip_id),
            update.trip.start_date is Some,
            start_date@ == update.trip.start_date->0@,
            fold_stops(begin, trip_id, start_date@, visits.take(i as int)) == (TripFold {
                store: store@,
                stops: stops@,
                failure: None,
            }),
            begin.well_formed() ==> store@.well_formed(),
        decreases update.stop_time_update.len() - i,
    {
        proof {
            assert(visits.take(i + 1).drop_last() =~= visits.take(i as int));
            assert(visits.take(i + 1).last() == visits[i as int]);
        }
        match read_stop_visit(&update.stop_time_update[i]) {
            Ok((stop_id, stop)) => {
                let departure = Departure {
                    trip_id,
                    start_date: start_date.clone(),
                    arrival: stop.arrival.clone(),
                    departure: stop.departure.clone(),
                    cancelled: stop.canceled,
                };
                store.upsert_departure(stop_id, departure);
                stops.push(stop);
            },
            Err(error) => {
                proof {
                    let step = fold_stops(begin, trip_id, start_date@, visits.take(i + 1));
                    assert(visits.take(i + 1).len() == i + 1);
                    assert(step.failure == Some((i, error)));
                    assert(step.store == store@);
                    lemma_fold_stops_stays_failed(begin, trip_id, start_date@, visits, i + 1);
                }
                return EntityOutcome::Aborted { at: i, error };
            },
        }
        i = i + 1;
    }
    proof {
        assert(visits.take(visits.len() as int) =~= visits);
    }
    store.upsert_trip(Update::from_stops(trip_id, start_date, stops));
    EntityOutcome::Applied
}

/// Once a stop visit has failed, the stop visits after it change nothing.
pub proof fn lemma_fold_stops_stays_failed(store: StoreView, trip_id: i64, start_date: Seq<char>, visits: Seq<StopTimeUpdate>, prefix: int)
    requires
        0 <= prefix <= visits.len(),
        fold_stops(store, trip_id, start_date, visits.take(prefix)).failure is Some,
    ensures
        fold_stops(store, trip_id, start_date, visits) == fold_stops(store, trip_id, start_date, visits.take(prefix)),
    decreases visits.len(),
{
    if prefix == visits.len() {
        assert(visits.take(prefix) =~= visits);
    } else {
        assert(visits.drop_last().take(prefix) =~= visits.take(prefix));
        lemma_fold_stops_stays_failed(store, trip_id, start_date, visits.drop_last(), prefix);
    }
}

/// An entity that was applied leaves its trip's update in the store, built
/// of the stops that its stop visits gave: canceled exactly when all of
/// them are.
pub proof fn lemma_applied_update(store: StoreView, update: TripUpdate)
    requires
        trip_result(store, update).outcome == EntityOutcome::Applied,
    ensures
        trip_key(update.trip) is Some,
        trip_result(store, update).store.trips.contains_key(trip_key(update.trip)->0),
        trip_result(store, update).store.trips[trip_key(update.trip)->0].well_formed(),
        trip_result(store, update).store.trips[trip_key(update.trip)->0].trip_id == trip_key(update.trip)->0,
        trip_result(store, update).store.trips[trip_key(update.trip)->0].stops.len() == update.stop_time_update@.len(),
{
    let trip_id = trip_key(update.trip)->0;
    let start_date = update.trip.start_date->0@;
    lemma_fold_stops_reads_all(store, trip_id, start_date, update.stop_time_update@);
}

/// A stop list that was read without failure gave one stop for each stop
/// visit, in order.
pub proof fn lemma_fold_stops_reads_all(store: StoreView, trip_id: i64, start_date: Seq<char>, visits: Seq<StopTimeUpdate>)
    requires
        fold_stops(store, trip_id, start_date, visits).failure is None,
    ensures
        fold_stops(store, trip_id, start_date, visits).stops.len() == visits.len(),
        forall|i: int| 0 <= i < visits.len() ==> stop_visit(#[trigger] visits[i]) is Ok
            && fold_stops(store, trip_id, start_date, visits).stops[i] == stop_visit(visits[i])->Ok_0.1,
    decreases visits.len(),
{
    if visits.len() > 0 {
        lemma_fold_stops_reads_all(store, trip_id, start_date, visits.drop_last());
        assert forall|i: int| 0 <= i < visits.len() implies stop_visit(#[trigger] visits[i]) is Ok
            && fold_stops(store, trip_id, start_date, visits).stops[i] == stop_visit(visits[i])->Ok_0.1 by {
            if i < visits.len() - 1 {
                assert(visits.drop_last()[i] == visits[i]);
            }
        }
    }
}

/// The stop visits of a trip touch nothing but that trip's departures: the
/// updates of all trips and the departures of every other trip stay as
/// they were.
pub proof fn lemma_fold_stops_keeps_other_trips(
    store: StoreView,
    trip_id: i64,
    start_date: Seq<char>,
    visits: Seq<StopTimeUpdate>,
    stop_id: i64,
    other_trip: i64,
)
    requires
        other_trip != trip_id,
    ensures
        fold_stops(store, trip_id, start_date, visits).store.trips == store.trips,
        departure_at(fold_stops(store, trip_id, start_date, visits).store.departures, stop_id, other_trip) == departure_at(
            store.departures,
            stop_id,
            other_trip,
        ),
    decreases visits.len(),
{
    if visits.len() > 0 {
        lemma_fold_stops_keeps_other_trips(store, trip_id, start_date, visits.drop_last(), stop_id, other_trip);
    }
}

/// Within one trip the last stop visit at a stop wins: where the stop list
/// was read without failure, the store holds for each stop the departure of
/// the last stop visit that names it.
pub proof fn lemma_fold_stops_last_visit_wins(
    store: StoreView,
    trip_id: i64,
    start_date: Seq<char>,
    visits: Seq<StopTimeUpdate>,
    at: int,
)
    requires
        fold_stops(store, trip_id, start_date, visits).failure is None,
        0 <= at < visits.len(),
        forall|later: int| at < later < visits.len() ==> stop_visit(#[trigger] visits[later])->Ok_0.0 != stop_visit(visits[at])->Ok_0.0,
    ensures
        stop_visit(visits[at]) is Ok,
        departure_at(fold_stops(store, trip_id, start_date, visits).store.departures, stop_visit(visits[at])->Ok_0.0, trip_id)
            == Some(departure_of(trip_id, start_date, stop_visit(visits[at])->Ok_0.1)),
    decreases visits.len(),
{
    let before = fold_stops(store, trip_id, start_date, visits.drop_last());
    if at < visits.len() - 1 {
        assert forall|later: int| at < later < visits.drop_last().len() implies stop_visit(#[trigger] visits.drop_last()[later])->Ok_0.0
            != stop_visit(visits.drop_last()[at])->Ok_0.0 by {
            assert(visits.drop_last()[later] == visits[later]);
        }
        lemma_fold_stops_last_visit_wins(store, trip_id, start_date, visits.drop_last(), at);
        assert(visits.drop_last()[at] == visits[at]);
        assert(stop_visit(visits[visits.len() - 1])->Ok_0.0 != stop_visit(visits[at])->Ok_0.0);
    }
}

/// A feed leaves one outcome for each of its entities.
pub proof fn lemma_feed_result_outcomes(store: StoreView, entities: Seq<FeedEntity>)
    ensures
        feed_result(store, entities).outcomes.len() == entities.len(),
    decreases entities.len(),
{
    if entities.len() > 0 {
        lemma_feed_result_outcomes(store, entities.drop_last());
    }
}

/// Folds one entity of the feed into the store.
pub fn apply_entity(store: &mut UpdateStore, entity: &FeedEntity) -> (outcome: EntityOutcome)
    ensures
        final(store)@ == entity_result(old(store)@, *entity).store,
        outcome == entity_result(old(store)@, *entity).outcome,
        old(store)@.well_formed() ==> final(store)@.well_formed(),
{
    match &entity.trip_update {
        Some(update) => apply_trip_update(store, update),
        None => EntityOutcome::NoTripUpdate,
    }
}

/// Folds a decoded feed into the store, entity by entity in feed order, and
/// reports what became of each entity.
pub fn apply_feed(store: &mut UpdateStore, feed: &FeedMessage) -> (outcomes: Vec<EntityOutcome>)
    ensures
        final(store)@ == feed_result(old(store)@, feed.entity@).store,
        outcomes@ == feed_result(old(store)@, feed.entity@).outcomes,
        outcomes@.len() == feed.entity@.len(),
        old(store)@.well_formed() ==> final(store)@.well_formed(),
{
    let ghost begin = store@;
    let ghost entities = feed.entity@;
    proof {
        lemma_feed_result_outcomes(begin, entities);
    }
    let mut outcomes: Vec<EntityOutcome> = Vec::new();
    let mut i: usize = 0;
    while i < feed.entity.len()
        invariant
            i <= feed.entity.len(),
            entities == feed.entity@,
            feed_result(begin, entities.take(i as int)) == (FeedResult { store: store@, outcomes: outcomes@ }),
            begin.well_formed() ==> store@.well_formed(),
        decreases feed.entity.len() - i,
    {
        proof {
            assert(entities.take(i + 1).drop_last() =~= entities.take(i as int));
            assert(entities.take(i + 1).last() == entities[i as int]);
        }
        let outcome = apply_entity(store, &feed.entity[i]);
        outcomes.push(outcome);
        i = i + 1;
    }
    proof {
        assert(entities.take(entities.len() as int) =~= entities);
    }
    outcomes
}

} // verus!
