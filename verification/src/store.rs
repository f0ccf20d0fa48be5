//! The in-memory index of live state: the latest update per trip, and per
//! stop the live departures keyed by trip.
//!
//! Every operation that changes the store takes it by `&mut`, so a contract
//! can speak of the entries before and after; readers take it by `&`.

use vstd::prelude::*;
use dashmap::DashMap;
use crate::index::{
    board_entries, board_insert, board_new, departure_at, is_vacant, lemma_listing_names_trips, lists_board, lists_trips, live_departures,
    live_stops, live_trips, no_departures, no_stops, no_trips, stop_entries, stop_index_contains, stop_index_find,
    stop_index_list, stop_index_new, stop_index_put, stop_index_retain, stop_index_take, trip_entries, trip_index_get,
    trip_index_insert, trip_index_new, trip_index_retain, Board,
};
use crate::model::{Departure, DepartureView, Update, UpdateView};
use crate::time::unix_now;

verus! {

/// The live state of the whole network.
pub struct UpdateStore {
    pub trip_updates: DashMap<i64, Update>,
    pub scheduled_departures: DashMap<i64, DashMap<i64, Departure>>,
}

/// What an [`UpdateStore`] holds: the update of each trip, and for each stop
/// its departures by trip.
pub struct StoreView {
    pub trips: Map<i64, UpdateView>,
    pub departures: Map<i64, Board>,
}

impl StoreView {
    /// The store without any entry.
    pub open spec fn empty() -> StoreView {
        StoreView { trips: no_trips(), departures: no_stops() }
    }

    /// The store after `update` has replaced whatever was known of its trip.
    pub open spec fn upsert_trip(self, update: UpdateView) -> StoreView {
        StoreView { trips: self.trips.insert(update.trip_id, update), departures: self.departures }
    }

    /// The board of `stop_id`; the vacant board where the stop has no entry.
    pub open spec fn board(self, stop_id: i64) -> Board {
        if self.departures.contains_key(stop_id) {
            self.departures[stop_id]
        } else {
            no_departures()
        }
    }

    /// The store after `departure` has replaced whatever was known of its
    /// trip at `stop_id`.
    pub open spec fn upsert_departure(self, stop_id: i64, departure: DepartureView) -> StoreView {
        StoreView {
            trips: self.trips,
            departures: self.departures.insert(stop_id, self.board(stop_id).insert(departure.trip_id, departure)),
        }
    }

    /// The store after everything that is in the past at `now` has gone: the
    /// trips whose last stop has departed or that have no stop, the
    /// departures that have departed, and the stops left without departure.
    pub open spec fn evict(self, now: i64) -> StoreView {
        StoreView { trips: live_trips(self.trips, now), departures: live_stops(self.departures, now) }
    }

    /// Every entry stands under its own trip id, and no stop has a vacant
    /// board.
    pub open spec fn well_formed(self) -> bool {
        &&& forall|trip_id: i64| self.trips.contains_key(trip_id) ==> (#[trigger] self.trips[trip_id]).trip_id == trip_id
        &&& forall|stop_id: i64| self.departures.contains_key(stop_id) ==> !is_vacant(#[trigger] self.departures[stop_id])
        &&& forall|stop_id: i64, trip_id: i64| self.departures.contains_key(stop_id) && self.departures[stop_id].contains_key(trip_id)
                ==> (#[trigger] self.departures[stop_id][trip_id]).trip_id == trip_id
    }
}

/// Replacing a trip's update keeps a well-formed store well-formed.
pub proof fn lemma_upsert_trip_keeps_well_formed(store: StoreView, update: UpdateView)
    requires
        store.well_formed(),
    ensures
        store.upsert_trip(update).well_formed(),
{
    let after = store.upsert_trip(update);
    assert forall|trip_id: i64| after.trips.contains_key(trip_id) implies (#[trigger] after.trips[trip_id]).trip_id == trip_id by {
        if trip_id != update.trip_id {
            assert(store.trips.contains_key(trip_id));
            assert(after.trips[trip_id] == store.trips[trip_id]);
        }
    }
}

/// Replacing a departure keeps a well-formed store well-formed.
pub proof fn lemma_upsert_departure_keeps_well_formed(store: StoreView, stop_id: i64, departure: DepartureView)
    requires
        store.well_formed(),
    ensures
        store.upsert_departure(stop_id, departure).well_formed(),
{
    let after = store.upsert_departure(stop_id, departure);
    let board = store.board(stop_id).insert(departure.trip_id, departure);
    assert(board.contains_key(departure.trip_id));
    assert forall|s: i64| after.departures.contains_key(s) implies !is_vacant(#[trigger] after.departures[s]) by {
        if s != stop_id {
            assert(store.departures.contains_key(s));
            assert(after.departures[s] == store.departures[s]);
        }
    }
    assert forall|s: i64, t: i64| after.departures.contains_key(s) && after.departures[s].contains_key(t)
        implies (#[trigger] after.departures[s][t]).trip_id == t by {
        if s != stop_id {
            assert(store.departures.contains_key(s));
            assert(after.departures[s] == store.departures[s]);
        } else if t != departure.trip_id {
            assert(store.departures.contains_key(s));
            assert(store.departures[s].contains_key(t));
            assert(after.departures[s][t] == store.departures[s][t]);
        }
    }
}

/// Eviction leaves every entry under its own trip id and no stop with a
/// vacant board, whatever the store held before as long as its entries
/// stood under their own trip ids.
pub proof fn lemma_evict_keeps_well_formed(store: StoreView, now: i64)
    requires
        store.well_formed(),
    ensures
        store.evict(now).well_formed(),
{
    let after = store.evict(now);
    assert forall|trip_id: i64| after.trips.contains_key(trip_id) implies (#[trigger] after.trips[trip_id]).trip_id == trip_id by {
        assert(store.trips.contains_key(trip_id));
        assert(after.trips[trip_id] == store.trips[trip_id]);
    }
    assert forall|s: i64, t: i64| after.departures.contains_key(s) && after.departures[s].contains_key(t)
        implies (#[trigger] after.departures[s][t]).trip_id == t by {
        assert(store.departures.contains_key(s));
        assert(store.departures[s].contains_key(t));
        assert(after.departures[s][t] == store.departures[s][t]);
    }
}

/// Storing two departures of one trip at one stop, one after the other,
/// comes to the same as storing the second alone: the stop has as many
/// departures as after the first, and holds the second.
pub proof fn lemma_upsert_departure_twice(store: StoreView, stop_id: i64, first: DepartureView, second: DepartureView)
    requires
        first.trip_id == second.trip_id,
    ensures
        store.upsert_departure(stop_id, first).upsert_departure(stop_id, second) == store.upsert_departure(stop_id, second),
        store.upsert_departure(stop_id, first).upsert_departure(stop_id, second).board(stop_id).dom()
            == store.upsert_departure(stop_id, first).board(stop_id).dom(),
        store.upsert_departure(stop_id, first).upsert_departure(stop_id, second).board(stop_id)[second.trip_id] == second,
{
    let once = store.upsert_departure(stop_id, first);
    let twice = once.upsert_departure(stop_id, second);
    let direct = store.upsert_departure(stop_id, second);
    assert(twice.board(stop_id) =~= direct.board(stop_id));
    assert(twice.departures =~= direct.departures);
    assert(twice.board(stop_id).dom() =~= once.board(stop_id).dom());
}

/// Storing a departure that is already stored changes nothing.
pub proof fn lemma_upsert_departure_again(store: StoreView, stop_id: i64, departure: DepartureView)
    ensures
        store.upsert_departure(stop_id, departure).upsert_departure(stop_id, departure) == store.upsert_departure(
            stop_id,
            departure,
        ),
{
    lemma_upsert_departure_twice(store, stop_id, departure, departure);
}

/// What eviction does to one trip: a trip whose last stop's departure is in
/// the past at `now` goes, and so does a trip without stops; a trip whose
/// last stop's departure is not in the past stays as it is. Eviction adds
/// no trip.
pub proof fn lemma_evict_trip(store: StoreView, now: i64, trip_id: i64)
    ensures
        store.evict(now).trips.contains_key(trip_id) <==> store.trips.contains_key(trip_id) && store.trips[trip_id].stops.len() > 0
            && store.trips[trip_id].stops.last().departure.timestamp >= now,
        store.evict(now).trips.contains_key(trip_id) ==> store.evict(now).trips[trip_id] == store.trips[trip_id],
{
}

/// What eviction does to one departure: it stays, as it is, exactly if its
/// departure time is not in the past at `now`.
pub proof fn lemma_evict_departure(store: StoreView, now: i64, stop_id: i64, trip_id: i64)
    ensures
        departure_at(store.evict(now).departures, stop_id, trip_id) == match departure_at(store.departures, stop_id, trip_id) {
            Some(departure) => if departure.departure.timestamp >= now {
                Some(departure)
            } else {
                None
            },
            None => None,
        },
{
    if store.departures.contains_key(stop_id) && store.departures[stop_id].contains_key(trip_id) {
        let departure = store.departures[stop_id][trip_id];
        if departure.departure.timestamp >= now {
            assert(live_departures(store.departures[stop_id], now).contains_key(trip_id));
        }
    }
}

/// A stop all of whose departures are in the past at `now` is gone after
/// eviction, key and all; and no stop is left with a vacant board.
pub proof fn lemma_evict_drops_expired_stops(store: StoreView, now: i64, stop_id: i64)
    ensures
        (forall|trip_id: i64| store.board(stop_id).contains_key(trip_id) ==> (#[trigger] store.board(stop_id)[trip_id]).departure.in_past_at(now))
            ==> !store.evict(now).departures.contains_key(stop_id),
        store.evict(now).departures.contains_key(stop_id) ==> !is_vacant(store.evict(now).departures[stop_id]),
{
    if forall|trip_id: i64| store.board(stop_id).contains_key(trip_id) ==> (#[trigger] store.board(stop_id)[trip_id]).departure.in_past_at(now) {
        if store.departures.contains_key(stop_id) {
            let left = live_departures(store.departures[stop_id], now);
            assert forall|trip_id: i64| !left.contains_key(trip_id) by {
                if store.departures[stop_id].contains_key(trip_id) {
                    assert(store.board(stop_id)[trip_id].departure.in_past_at(now));
                }
            }
        }
    }
}

/// Eviction at a later time removes at least what eviction at an earlier
/// time removes: evicting at both comes to evicting at the later one.
pub proof fn lemma_evict_later_evicts_more(store: StoreView, earlier: i64, later: i64)
    requires
        earlier <= later,
    ensures
        store.evict(earlier).evict(later) == store.evict(later),
{
    let first = store.evict(earlier);
    assert(first.evict(later).trips =~= store.evict(later).trips);
    assert forall|stop_id: i64| store.departures.contains_key(stop_id) implies live_departures(
        live_departures(store.departures[stop_id], earlier),
        later,
    ) =~= live_departures(store.departures[stop_id], later) by {}
    assert forall|stop_id: i64| first.evict(later).departures.contains_key(stop_id) == store.evict(later).departures.contains_key(stop_id) by {
        if store.departures.contains_key(stop_id) {
            let through = live_departures(live_departures(store.departures[stop_id], earlier), later);
            let direct = live_departures(store.departures[stop_id], later);
            assert(through =~= direct);
            if !is_vacant(direct) {
                let trip_id = choose|trip_id: i64| direct.contains_key(trip_id);
                assert(live_departures(store.departures[stop_id], earlier).contains_key(trip_id));
            }
        }
    }
    assert(first.evict(later).departures =~~= store.evict(later).departures);
}

impl View for UpdateStore {
    type V = StoreView;

    open spec fn view(&self) -> StoreView {
        StoreView { trips: trip_entries(self.trip_updates), departures: stop_entries(self.scheduled_departures) }
    }
}

impl UpdateStore {
    /// A store with both indices empty.
    pub fn new() -> (store: UpdateStore)
        ensures
            store@ == StoreView::empty(),
            store@.well_formed(),
    {
        UpdateStore { trip_updates: trip_index_new(), scheduled_departures: stop_index_new() }
    }

    /// Stores `update` under its trip id, in place of any earlier update of
    /// that trip.
    pub fn upsert_trip(&mut self, update: Update)
        ensures
            final(self)@ == old(self)@.upsert_trip(update@),
            old(self)@.well_formed() ==> final(self)@.well_formed(),
    {
        let key = update.trip_id;
        proof {
            if self@.well_formed() {
                lemma_upsert_trip_keeps_well_formed(self@, update@);
            }
        }
        trip_index_insert(&mut self.trip_updates, key, update);
    }

    /// Stores `departure` for `stop_id` under its trip id, in place of any
    /// earlier departure of that trip at that stop. A stop without entry
    /// gets a board that holds this departure alone.
    pub fn upsert_departure(&mut self, stop_id: i64, departure: Departure)
        ensures
            final(self)@ == old(self)@.upsert_departure(stop_id, departure@),
            old(self)@.well_formed() ==> final(self)@.well_formed(),
    {
        let key = departure.trip_id;
        let ghost before = self@;
        let ghost added = departure@;
        proof {
            if before.well_formed() {
                lemma_upsert_departure_keeps_well_formed(before, stop_id, added);
            }
        }
        let taken = stop_index_take(&mut self.scheduled_departures, stop_id);
        let mut board = match taken {
            Some(board) => board,
            None => board_new(),
        };
        board_insert(&mut board, key, departure);
        proof {
            assert(board_entries(board).contains_key(key));
            assert(board_entries(board) == before.board(stop_id).insert(key, added));
        }
        stop_index_put(&mut self.scheduled_departures, stop_id, board);
        proof {
            assert(self@.departures =~= before.upsert_departure(stop_id, added).departures);
        }
    }

    /// The latest update of `trip_id`, if the store has one.
    pub fn get_trip(&self, trip_id: i64) -> (found: Option<Update>)
        ensures
            found is Some == self@.trips.contains_key(trip_id),
            found matches Some(update) ==> update@ == self@.trips[trip_id],
    {
        trip_index_get(&self.trip_updates, trip_id)
    }

    /// Whether the store has live data for `stop_id`.
    pub fn has_stop(&self, stop_id: i64) -> (present: bool)
        ensures
            present == self@.departures.contains_key(stop_id),
    {
        stop_index_contains(&self.scheduled_departures, stop_id)
    }

    /// The live departure of `trip_id` at `stop_id`, if the store has one.
    pub fn get_departure(&self, stop_id: i64, trip_id: i64) -> (found: Option<Departure>)
        ensures
            found is Some == departure_at(self@.departures, stop_id, trip_id) is Some,
            found matches Some(departure) ==> departure_at(self@.departures, stop_id, trip_id) == Some(departure@),
    {
        match stop_index_find(&self.scheduled_departures, stop_id, trip_id) {
            Some(found) => found,
            None => None,
        }
    }

    /// The live departures at `stop_id`, each once and in no fixed order;
    /// nothing where the stop has no live data. In a well-formed store each
    /// trip has at most one of them.
    pub fn get_departures(&self, stop_id: i64) -> (found: Option<Vec<Departure>>)
        ensures
            found is Some == self@.departures.contains_key(stop_id),
            found matches Some(listing) ==> lists_board(listing@, self@.departures[stop_id]),
            found matches Some(listing) ==> (self@.well_formed() ==> lists_trips(listing@, self@.departures[stop_id])),
    {
        let found = stop_index_list(&self.scheduled_departures, stop_id);
        proof {
            if found is Some && self@.well_formed() {
                let board = self@.departures[stop_id];
                assert forall|trip_id: i64| board.contains_key(trip_id) implies (#[trigger] board[trip_id]).trip_id == trip_id by {
                    assert(self@.departures[stop_id][trip_id].trip_id == trip_id);
                }
                lemma_listing_names_trips(found->0@, board);
            }
        }
        found
    }

    /// Removes what is in the past at the clock reading `now`: every trip
    /// whose last stop has departed or that has no stop, every departure
    /// that has departed, and every stop left without departure.
    pub fn evict_at(&mut self, now: i64)
        ensures
            final(self)@ == old(self)@.evict(now),
            old(self)@.well_formed() ==> final(self)@.well_formed(),
    {
        proof {
            if self@.well_formed() {
                lemma_evict_keeps_well_formed(self@, now);
            }
        }
        trip_index_retain(&mut self.trip_updates, now);
        stop_index_retain(&mut self.scheduled_departures, now);
    }

    /// Reads the clock once and removes what is in the past at that reading.
    pub fn evict_now(&mut self)
        ensures
            exists|now: i64| final(self)@ == old(self)@.evict(now),
            old(self)@.well_formed() ==> final(self)@.well_formed(),
    {
        let now = unix_now();
        self.evict_at(now);
    }
}

} // verus!
