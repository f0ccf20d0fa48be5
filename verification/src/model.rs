//! The records kept per trip and per stop, and their mathematical views.

use vstd::prelude::*;
use vstd::std_specs::cmp::PartialEqSpecImpl;
use crate::time::GTFSTime;

verus! {

/// One stop visit within a trip update.
#[derive(Debug, Clone, Copy, PartialEq, Eq, Structural)]
pub struct ScheduledStop {
    pub stop_sequence: u32,
    pub arrival: GTFSTime,
    pub departure: GTFSTime,
    pub canceled: bool,
}

/// The latest known state of one trip.
#[derive(Debug)]
pub struct Update {
    pub trip_id: i64,
    pub start_date: String,
    pub next_stop_index: i64,
    pub stops: Vec<ScheduledStop>,
    pub canceled: bool,
}

/// What an [`Update`] holds, as mathematical values.
pub struct UpdateView {
    pub trip_id: i64,
    pub start_date: Seq<char>,
    pub next_stop_index: i64,
    pub stops: Seq<ScheduledStop>,
    pub canceled: bool,
}

/// Whether every stop of `stops` is canceled; true of the empty sequence.
pub open spec fn all_canceled(stops: Seq<ScheduledStop>) -> bool {
    forall|i: int| 0 <= i < stops.len() ==> (#[trigger] stops[i]).canceled
}

impl UpdateView {
    /// The update that a trip's stop list gives rise to.
    pub open spec fn from_stops(trip_id: i64, start_date: Seq<char>, stops: Seq<ScheduledStop>) -> UpdateView {
        UpdateView { trip_id, start_date, next_stop_index: 0, stops, canceled: all_canceled(stops) }
    }

    /// The trip-level flag agrees with the stops: canceled exactly when every
    /// stop is.
    pub open spec fn well_formed(self) -> bool {
        self.canceled == all_canceled(self.stops)
    }

    /// Whether the trip is still of interest at `now`: it has a last stop
    /// and that stop's departure is not in the past.
    pub open spec fn live_at(self, now: i64) -> bool {
        self.stops.len() > 0 && !self.stops.last().departure.in_past_at(now)
    }
}

/// A trip is canceled exactly when each of its stops is: one stop that is
/// not canceled keeps the trip from being canceled, whatever the others
/// are, and a trip without stops is canceled.
pub proof fn lemma_cancellation_is_conjunction(trip_id: i64, start_date: Seq<char>, stops: Seq<ScheduledStop>)
    ensures
        UpdateView::from_stops(trip_id, start_date, stops).well_formed(),
        UpdateView::from_stops(trip_id, start_date, stops).canceled <==> (forall|i: int| 0 <= i < stops.len() ==> (#[trigger] stops[i]).canceled),
        (exists|i: int| 0 <= i < stops.len() && !(#[trigger] stops[i]).canceled) ==> !UpdateView::from_stops(trip_id, start_date, stops).canceled,
        stops.len() == 0 ==> UpdateView::from_stops(trip_id, start_date, stops).canceled,
{
}

impl View for Update {
    type V = UpdateView;

    open spec fn view(&self) -> UpdateView {
        UpdateView {
            trip_id: self.trip_id,
            start_date: self.start_date@,
            next_stop_index: self.next_stop_index,
            stops: self.stops@,
            canceled: self.canceled,
        }
    }
}

/// Computes the conjunction of the stops' cancellation flags.
pub fn every_stop_canceled(stops: &Vec<ScheduledStop>) -> (all: bool)
    ensures
        all == all_canceled(stops@),
{
    let mut i: usize = 0;
    while i < stops.len()
        invariant
            i <= stops.len(),
            forall|j: int| 0 <= j < i ==> (#[trigger] stops@[j]).canceled,
        decreases stops.len() - i,
    {
        if !stops[i].canceled {
            return false;
        }
        i = i + 1;
    }
    true
}

impl Update {
    /// Builds the update of a trip from its stop list. The trip counts as
    /// canceled exactly when all of its stops are; the next-stop index is
    /// not computed and stays 0.
    pub fn from_stops(trip_id: i64, start_date: String, stops: Vec<ScheduledStop>) -> (update: Update)
        ensures
            update@ == UpdateView::from_stops(trip_id, start_date@, stops@),
            update@.well_formed(),
    {
        let canceled = every_stop_canceled(&stops);
        Update { trip_id, start_date, next_stop_index: 0, stops, canceled }
    }

    /// Whether the trip is still of interest at the clock reading `now`.
    pub fn is_live_at(&self, now: i64) -> (live: bool)
        ensures
            live == self@.live_at(now),
    {
        let n = self.stops.len();
        if n == 0 {
            false
        } else {
            self.stops[n - 1].departure.is_in_future_at(now)
        }
    }
}

impl Clone for Update {
    fn clone(&self) -> (copy: Update)
        ensures
            copy@ == self@,
    {
        let mut stops: Vec<ScheduledStop> = Vec::new();
        let mut i: usize = 0;
        while i < self.stops.len()
            invariant
                i <= self.stops.len(),
                stops@ == self.stops@.take(i as int),
            decreases self.stops.len() - i,
        {
            stops.push(self.stops[i]);
            i = i + 1;
        }
        assert(self.stops@.take(self.stops.len() as int) == self.stops@);
        Update {
            trip_id: self.trip_id,
            start_date: self.start_date.clone(),
            next_stop_index: self.next_stop_index,
            stops,
            canceled: self.canceled,
        }
    }
}

/// The live scheduling fact of one trip at one stop.
///
/// Two departures are the same entry when their trip ids agree, whatever
/// their times: `==` compares the trip id alone.
#[derive(Debug)]
pub struct Departure {
    pub trip_id: i64,
    pub start_date: String,
    pub arrival: GTFSTime,
    pub departure: GTFSTime,
    pub cancelled: bool,
}

/// What a [`Departure`] holds, as mathematical values.
pub struct DepartureView {
    pub trip_id: i64,
    pub start_date: Seq<char>,
    pub arrival: GTFSTime,
    pub departure: GTFSTime,
    pub cancelled: bool,
}

impl DepartureView {
    /// Whether the departure is still of interest at `now`: its departure
    /// time is not in the past.
    pub open spec fn live_at(self, now: i64) -> bool {
        !self.departure.in_past_at(now)
    }
}

impl View for Departure {
    type V = DepartureView;

    open spec fn view(&self) -> DepartureView {
        DepartureView {
            trip_id: self.trip_id,
            start_date: self.start_date@,
            arrival: self.arrival,
            departure: self.departure,
            cancelled: self.cancelled,
        }
    }
}

impl Departure {
    /// Whether the departure is still of interest at the clock reading `now`.
    pub fn is_live_at(&self, now: i64) -> (live: bool)
        ensures
            live == self@.live_at(now),
    {
        self.departure.is_in_future_at(now)
    }
}

impl Clone for Departure {
    fn clone(&self) -> (copy: Departure)
        ensures
            copy@ == self@,
    {
        Departure {
            trip_id: self.trip_id,
            start_date: self.start_date.clone(),
            arrival: self.arrival,
            departure: self.departure,
            cancelled: self.cancelled,
        }
    }
}

impl PartialEq for Departure {
    fn eq(&self, other: &Departure) -> (same: bool) {
        self.trip_id == other.trip_id
    }
}

impl PartialEqSpecImpl for Departure {
    open spec fn obeys_eq_spec() -> bool {
        true
    }

    open spec fn eq_spec(&self, other: &Departure) -> bool {
        self.trip_id == other.trip_id
    }
}

impl Eq for Departure {}

impl std::hash::Hash for Departure {
    /// `Hash::hash` of the trip id, and of nothing else: departures that
    /// `==` holds equal hash alike.
    #[verifier::external_body]
    fn hash<H: std::hash::Hasher>(&self, state: &mut H) {
        self.trip_id.hash(state);
    }
}

} // verus!
