//! What the service answers: the departure board of a stop, merged from the
//! timetable and the live state, and the live status of a trip.

use vstd::prelude::*;
use crate::model::Update;
use crate::index::departure_at;
use crate::store::{StoreView, UpdateStore};
use crate::text::{parse_time_of_day, time_of_day};
use crate::time::{
    berlin_civil, berlin_clock_at, berlin_date_at, berlin_time_at, berlin_timestamp, berlin_timestamp_on, CivilTime, GTFSTime,
};

verus! {

/// The most departures that a board lists, and that are asked of the
/// timetable.
pub const MAX_DEPARTURES: usize = 10;

/// An agency of the timetable.
#[derive(Debug)]
pub struct AgencyDTO {
    pub id: i64,
    pub name: String,
    pub url: String,
    pub timezone: String,
    pub lang: Option<String>,
}

/// One line of a departure board.
#[derive(Debug)]
pub struct TripDTO {
    pub trip_id: i64,
    pub route_id: i64,
    pub service_id: i64,
    pub route_short_name: String,
    pub departure_timestamp: i64,
    pub delay: i32,
    pub live: bool,
}

/// The progress of a trip along its stops.
#[derive(Debug)]
pub struct TripStatusDTO {
    pub trip_id: i64,
    pub status: String,
    pub last_passed_stop_id: Option<i64>,
    pub next_stop_id: Option<i64>,
    pub canceled: bool,
}

/// One scheduled departure at a stop, as the timetable gives it: the
/// departure time is a time of day, written `HH:MM:SS`.
#[derive(Debug)]
pub struct StaticRow {
    pub trip_id: i64,
    pub route_id: i64,
    pub service_id: i64,
    pub route_short_name: String,
    pub departure_time: String,
}

/// What is asked of the timetable for a departure board: up to `limit`
/// departures at `stop_id` at or after `min_departure_time`, of trips that
/// run on `weekday` and on `date`, earliest first.
#[derive(Debug)]
pub struct ScheduleQuery {
    pub stop_id: i64,
    /// The moment that the board is for, as calendar time in the reference
    /// time zone.
    pub now: CivilTime,
    /// The time of day of that moment, written `HH:MM:SS`.
    pub min_departure_time: String,
    /// The day of the week of that moment, Monday being 0.
    pub weekday: u32,
    /// The date of that moment, written `YYYYMMDD`.
    pub date: String,
    pub limit: usize,
}

/// Why a departure board could not be made.
#[derive(Debug, Clone, Copy, PartialEq, Eq, Structural)]
pub enum BoardError {
    /// The row at position `row` has no live data, and the clocks of the
    /// reference time zone do not show its time of day exactly once on the
    /// day in question.
    NoLocalTime { row: usize },
}

/// The name of the timetable's calendar column for a weekday, Monday
/// being 0; every number from 6 on counts as Sunday.
pub open spec fn weekday_column_name(weekday: u32) -> Seq<char> {
    if weekday == 0 {
        "monday"@
    } else if weekday == 1 {
        "tuesday"@
    } else if weekday == 2 {
        "wednesday"@
    } else if weekday == 3 {
        "thursday"@
    } else if weekday == 4 {
        "friday"@
    } else if weekday == 5 {
        "saturday"@
    } else {
        "sunday"@
    }
}

/// The name of the timetable's calendar column for a weekday, Monday
/// being 0; every number from 6 on counts as Sunday.
pub fn weekday_column(weekday: u32) -> (name: &'static str)
    ensures
        name@ == weekday_column_name(weekday),
{
    if weekday == 0 {
        "monday"
    } else if weekday == 1 {
        "tuesday"
    } else if weekday == 2 {
        "wednesday"
    } else if weekday == 3 {
        "thursday"
    } else if weekday == 4 {
        "friday"
    } else if weekday == 5 {
        "saturday"
    } else {
        "sunday"
    }
}

/// What to ask of the timetable for the board of `stop_id` at the moment
/// `now`, a Unix timestamp: the departures from that moment's time of day
/// on, on that moment's weekday and date in the reference time zone, at
/// most [`MAX_DEPARTURES`] of them. Nothing where the calendar does not
/// reach the moment.
pub fn schedule_query(stop_id: i64, now: i64) -> (query: Option<ScheduleQuery>)
    ensures
        query is Some == berlin_civil(now) is Some,
        query matches Some(asked) ==> {
            &&& asked.stop_id == stop_id
            &&& asked.now == berlin_civil(now)->0
            &&& asked.now.well_formed()
            &&& asked.min_departure_time@ == asked.now.clock_text()
            &&& asked.weekday == asked.now.weekday
            &&& asked.date@ == asked.now.date_text()
            &&& asked.limit == MAX_DEPARTURES
        },
{
    let civil = match berlin_time_at(now) {
        Some(civil) => civil,
        None => {
            return None;
        },
    };
    let min_departure_time = match berlin_clock_at(now) {
        Some(text) => text,
        None => {
            return None;
        },
    };
    let date = match berlin_date_at(now) {
        Some(text) => text,
        None => {
            return None;
        },
    };
    Some(ScheduleQuery { stop_id, now: civil, min_departure_time, weekday: civil.weekday, date, limit: MAX_DEPARTURES })
}

/// The timestamp that stands for a time of day of the timetable on the date
/// of `today`, in the reference time zone.
pub open spec fn fallback_timestamp(today: CivilTime, departure_time: Seq<char>) -> Option<i64> {
    let time = time_of_day(departure_time);
    berlin_timestamp(today.year, today.month, today.day, time.hour, time.minute, time.second)
}

/// The timestamp, the delay and the live mark of a board line: those of the
/// live departure time where there is one, and otherwise the fallback
/// timestamp without delay; nothing where there is neither. A live time
/// with timestamp 0 is no time and counts as none.
pub open spec fn resolved_time(live: Option<GTFSTime>, fallback: Option<i64>) -> Option<(i64, i32, bool)> {
    if live is Some && live->0.carries_data() {
        Some((live->0.timestamp, live->0.delay, true))
    } else {
        match fallback {
            Some(timestamp) => Some((timestamp, 0, false)),
            None => None,
        }
    }
}

/// The board line of a timetable row with its resolved time.
pub open spec fn board_line(row: StaticRow, time: (i64, i32, bool)) -> TripDTO {
    TripDTO {
        trip_id: row.trip_id,
        route_id: row.route_id,
        service_id: row.service_id,
        route_short_name: row.route_short_name,
        departure_timestamp: time.0,
        delay: time.1,
        live: time.2,
    }
}

/// The live departure time of a trip at a stop: the one that the store
/// holds, unless its timestamp is 0, which stands for "no live data".
pub open spec fn live_time(store: StoreView, stop_id: i64, trip_id: i64) -> Option<GTFSTime> {
    match departure_at(store.departures, stop_id, trip_id) {
        Some(departure) => if departure.departure.carries_data() {
            Some(departure.departure)
        } else {
            None
        },
        None => None,
    }
}

/// The board line of a timetable row at a stop: with the live departure of
/// its trip where the store has one, and with the row's own time of day on
/// the date of `today` otherwise.
pub open spec fn row_line(store: StoreView, stop_id: i64, today: CivilTime, row: StaticRow) -> Option<TripDTO> {
    match resolved_time(live_time(store, stop_id, row.trip_id), fallback_timestamp(today, row.departure_time@)) {
        Some(time) => Some(board_line(row, time)),
        None => None,
    }
}

/// Where the store holds a live departure of the row's trip at the stop, and
/// its departure time is a time, the board line carries its timestamp and
/// delay and is marked live, whatever time of day the row gives.
pub proof fn lemma_live_departure_overrides(store: StoreView, stop_id: i64, today: CivilTime, row: StaticRow)
    requires
        departure_at(store.departures, stop_id, row.trip_id) is Some,
        departure_at(store.departures, stop_id, row.trip_id)->0.departure.timestamp != 0,
    ensures
        row_line(store, stop_id, today, row) == Some(
            board_line(
                row,
                (
                    departure_at(store.departures, stop_id, row.trip_id)->0.departure.timestamp,
                    departure_at(store.departures, stop_id, row.trip_id)->0.departure.delay,
                    true,
                ),
            ),
        ),
{
}

/// Where the store holds no live departure of the row's trip at the stop,
/// or one whose departure time has timestamp 0, the board line carries the
/// timestamp at which the clocks of the reference time zone show the row's
/// time of day on the date of `today`, without delay, and is not marked
/// live.
pub proof fn lemma_timetable_fallback(store: StoreView, stop_id: i64, today: CivilTime, row: StaticRow)
    requires
        departure_at(store.departures, stop_id, row.trip_id) is None || departure_at(
            store.departures,
            stop_id,
            row.trip_id,
        )->0.departure.timestamp == 0,
    ensures
        row_line(store, stop_id, today, row) == match fallback_timestamp(today, row.departure_time@) {
            Some(timestamp) => Some(board_line(row, (timestamp, 0, false))),
            None => None::<TripDTO>,
        },
{
}

/// Where `key` goes in a list that ascends by timestamp: before the first
/// line that is not earlier.
pub open spec fn rank_position(lines: Seq<TripDTO>, key: i64) -> int
    decreases lines.len(),
{
    if lines.len() == 0 || lines[0].departure_timestamp >= key {
        0
    } else {
        1 + rank_position(lines.drop_first(), key)
    }
}

/// The lines in ascending order of timestamp; lines with the same timestamp
/// keep the order in which they came.
pub open spec fn sorted_by_time(lines: Seq<TripDTO>) -> Seq<TripDTO>
    decreases lines.len(),
{
    if lines.len() == 0 {
        lines
    } else {
        let rest = sorted_by_time(lines.drop_first());
        rest.insert(rank_position(rest, lines[0].departure_timestamp), lines[0])
    }
}

/// Whether the timestamps of `lines` never go down.
pub open spec fn is_ascending(lines: Seq<TripDTO>) -> bool {
    forall|i: int, j: int| 0 <= i <= j < lines.len() ==> lines[i].departure_timestamp <= lines[j].departure_timestamp
}

/// The board made of `lines`: the earliest [`MAX_DEPARTURES`] of them,
/// earliest first.
pub open spec fn ranked(lines: Seq<TripDTO>) -> Seq<TripDTO> {
    let sorted = sorted_by_time(lines);
    if sorted.len() > MAX_DEPARTURES {
        sorted.take(MAX_DEPARTURES as int)
    } else {
        sorted
    }
}

/// The position that [`rank_position`] gives lies within the list, every
/// line before it is earlier than `key`, and the line at it is not.
pub proof fn lemma_rank_position(lines: Seq<TripDTO>, key: i64)
    ensures
        0 <= rank_position(lines, key) <= lines.len(),
        forall|i: int| 0 <= i < rank_position(lines, key) ==> lines[i].departure_timestamp < key,
        rank_position(lines, key) < lines.len() ==> lines[rank_position(lines, key)].departure_timestamp >= key,
    decreases lines.len(),
{
    if lines.len() == 0 || lines[0].departure_timestamp >= key {
    } else {
        let rest = lines.drop_first();
        lemma_rank_position(rest, key);
        assert forall|i: int| 0 <= i < rank_position(lines, key) implies lines[i].departure_timestamp < key by {
            if i > 0 {
                assert(lines[i] == rest[i - 1]);
            }
        }
        assert(rank_position(lines, key) < lines.len() ==> lines[rank_position(lines, key)] == rest[rank_position(rest, key)]);
    }
}

/// Sorting keeps every line, each as often as it came, and puts the lines in
/// ascending order of timestamp.
pub proof fn lemma_sorted_by_time(lines: Seq<TripDTO>)
    ensures
        sorted_by_time(lines).len() == lines.len(),
        sorted_by_time(lines).to_multiset() == lines.to_multiset(),
        is_ascending(sorted_by_time(lines)),
    decreases lines.len(),
{
    if lines.len() > 0 {
        let first = lines[0];
        let rest = sorted_by_time(lines.drop_first());
        let at = rank_position(rest, first.departure_timestamp);
        let sorted = rest.insert(at, first);
        lemma_sorted_by_time(lines.drop_first());
        lemma_rank_position(rest, first.departure_timestamp);
        assert forall|i: int, j: int| 0 <= i <= j < sorted.len() implies sorted[i].departure_timestamp <= sorted[j].departure_timestamp by {
            if i < at && j > at {
                assert(sorted[i] == rest[i]);
                assert(sorted[j] == rest[j - 1]);
            } else if i > at {
                assert(sorted[i] == rest[i - 1]);
                assert(sorted[j] == rest[j - 1]);
            } else if j < at {
                assert(sorted[i] == rest[i]);
                assert(sorted[j] == rest[j]);
            } else if i == at && j > at {
                assert(sorted[j] == rest[j - 1]);
                assert(rest[at].departure_timestamp <= rest[j - 1].departure_timestamp);
            } else if i < at && j == at {
                assert(sorted[i] == rest[i]);
            }
        }
        vstd::seq_lib::to_multiset_insert(rest, at, first);
        assert(lines =~= lines.drop_first().insert(0, first));
        vstd::seq_lib::to_multiset_insert(lines.drop_first(), 0, first);
    } else {
        assert(sorted_by_time(lines) =~= lines);
    }
}

/// The lines with a given timestamp, in the order in which `lines` holds
/// them.
pub open spec fn lines_at(lines: Seq<TripDTO>, timestamp: i64) -> Seq<TripDTO> {
    lines.filter(|line: TripDTO| line.departure_timestamp == timestamp)
}

/// Of lines that all fail a test, the test keeps none.
proof fn lemma_filter_keeps_none(lines: Seq<TripDTO>, keep: spec_fn(TripDTO) -> bool)
    requires
        forall|i: int| 0 <= i < lines.len() ==> !keep(#[trigger] lines[i]),
    ensures
        lines.filter(keep) == Seq::<TripDTO>::empty(),
    decreases lines.len(),
{
    reveal(Seq::filter);
    if lines.len() > 0 {
        assert forall|i: int| 0 <= i < lines.drop_last().len() implies !keep(#[trigger] lines.drop_last()[i]) by {
            assert(lines.drop_last()[i] == lines[i]);
        }
        lemma_filter_keeps_none(lines.drop_last(), keep);
    }
}

/// Of a single line, a test keeps the line or nothing.
proof fn lemma_filter_single(line: TripDTO, keep: spec_fn(TripDTO) -> bool)
    ensures
        seq![line].filter(keep) == if keep(line) {
            seq![line]
        } else {
            Seq::<TripDTO>::empty()
        },
{
    reveal(Seq::filter);
    assert(seq![line].drop_last() =~= Seq::<TripDTO>::empty());
    assert(seq![line].drop_last().filter(keep) =~= Seq::<TripDTO>::empty());
    assert(seq![line].last() == line);
    assert(Seq::<TripDTO>::empty().push(line) =~= seq![line]);
}

/// Sorting is stable: the lines that share a timestamp come out in the order
/// in which they went in.
pub proof fn lemma_sorting_is_stable(lines: Seq<TripDTO>, timestamp: i64)
    ensures
        lines_at(sorted_by_time(lines), timestamp) == lines_at(lines, timestamp),
    decreases lines.len(),
{
    if lines.len() > 0 {
        let keep = |line: TripDTO| line.departure_timestamp == timestamp;
        let first = lines[0];
        let tail = lines.drop_first();
        let rest = sorted_by_time(tail);
        let at = rank_position(rest, first.departure_timestamp);
        let front = rest.take(at);
        let back = rest.skip(at);
        lemma_sorting_is_stable(tail, timestamp);
        lemma_rank_position(rest, first.departure_timestamp);
        assert(rest.insert(at, first) =~= (front + seq![first]) + back);
        assert(rest =~= front + back);
        assert(lines =~= seq![first] + tail);
        Seq::filter_distributes_over_add(front + seq![first], back, keep);
        Seq::filter_distributes_over_add(front, seq![first], keep);
        Seq::filter_distributes_over_add(front, back, keep);
        Seq::filter_distributes_over_add(seq![first], tail, keep);
        lemma_filter_single(first, keep);
        if first.departure_timestamp == timestamp {
            assert forall|i: int| 0 <= i < front.len() implies !keep(#[trigger] front[i]) by {
                assert(front[i] == rest[i]);
            }
            lemma_filter_keeps_none(front, keep);
            assert(front.filter(keep) + seq![first] =~= seq![first]);
            assert(Seq::<TripDTO>::empty() + back.filter(keep) =~= back.filter(keep));
        } else {
            assert(front.filter(keep) + Seq::<TripDTO>::empty() =~= front.filter(keep));
            assert(Seq::<TripDTO>::empty() + tail.filter(keep) =~= tail.filter(keep));
        }
    }
}

/// A board has at most [`MAX_DEPARTURES`] lines, exactly that many where more
/// lines were on offer, and its timestamps never go down.
pub proof fn lemma_ranked_bounded_and_sorted(lines: Seq<TripDTO>)
    ensures
        ranked(lines).len() <= MAX_DEPARTURES,
        lines.len() > MAX_DEPARTURES ==> ranked(lines).len() == MAX_DEPARTURES,
        lines.len() <= MAX_DEPARTURES ==> ranked(lines).len() == lines.len(),
        is_ascending(ranked(lines)),
{
    lemma_sorted_by_time(lines);
    let sorted = sorted_by_time(lines);
    assert forall|i: int, j: int| 0 <= i <= j < ranked(lines).len() implies ranked(lines)[i].departure_timestamp <= ranked(lines)[j].departure_timestamp by {
        assert(ranked(lines)[i] == sorted[i]);
        assert(ranked(lines)[j] == sorted[j]);
    }
}

/// A board holds the earliest lines: it is the front of the sorted lines, and
/// no line that was left off is earlier than a line on it.
pub proof fn lemma_ranked_holds_the_earliest(lines: Seq<TripDTO>)
    ensures
        ranked(lines) == sorted_by_time(lines).take(ranked(lines).len() as int),
        forall|on: int, off: int|
            0 <= on < ranked(lines).len() && ranked(lines).len() <= off < lines.len() ==> ranked(lines)[on].departure_timestamp
                <= sorted_by_time(lines)[off].departure_timestamp,
{
    lemma_sorted_by_time(lines);
    let sorted = sorted_by_time(lines);
    assert(sorted.take(sorted.len() as int) =~= sorted);
    assert forall|on: int, off: int| 0 <= on < ranked(lines).len() && ranked(lines).len() <= off < lines.len() implies ranked(
        lines,
    )[on].departure_timestamp <= sorted[off].departure_timestamp by {
        assert(ranked(lines)[on] == sorted[on]);
    }
}

/// Makes the board line of a timetable row from the live departure time of
/// its trip, if there is one, and the timestamp of its own time of day. A
/// live time with timestamp 0 counts as none.
pub fn merge_row(row: &StaticRow, live: Option<GTFSTime>, fallback: Option<i64>) -> (line: Option<TripDTO>)
    ensures
        line == match resolved_time(live, fallback) {
            Some(time) => Some(board_line(*row, time)),
            None => None::<TripDTO>,
        },
{
    let live_time = match live {
        Some(time) => if time.has_data() {
            Some(time)
        } else {
            None
        },
        None => None,
    };
    let (departure_timestamp, delay, live) = match live_time {
        Some(time) => (time.timestamp, time.delay, true),
        None => match fallback {
            Some(timestamp) => (timestamp, 0, false),
            None => {
                return None;
            },
        },
    };
    Some(
        TripDTO {
            trip_id: row.trip_id,
            route_id: row.route_id,
            service_id: row.service_id,
            route_short_name: row.route_short_name.clone(),
            departure_timestamp,
            delay,
            live,
        },
    )
}

/// Makes the board line of a timetable row at a stop: looks for a live
/// departure of the row's trip at the stop, and falls back on the row's time
/// of day on the date of `today` where there is none or its departure time
/// has timestamp 0.
pub fn resolve_row(store: &UpdateStore, stop_id: i64, today: &CivilTime, row: &StaticRow) -> (line: Option<TripDTO>)
    ensures
        line == row_line(store@, stop_id, *today, *row),
{
    let live = match store.get_departure(stop_id, row.trip_id) {
        Some(departure) => if departure.departure.has_data() {
            Some(departure.departure)
        } else {
            None
        },
        None => None,
    };
    match live {
        Some(time) => merge_row(row, Some(time), None),
        None => {
            let time = parse_time_of_day(row.departure_time.as_str());
            merge_row(row, None, berlin_timestamp_on(today, time))
        },
    }
}

/// Puts board lines in ascending order of timestamp, lines with the same
/// timestamp in the order in which they came.
pub fn sort_by_time(lines: Vec<TripDTO>) -> (sorted: Vec<TripDTO>)
    ensures
        sorted@ == sorted_by_time(lines@),
{
    let ghost all = lines@;
    let mut lines = lines;
    let mut sorted: Vec<TripDTO> = Vec::new();
    proof {
        assert(all.skip(all.len() as int) =~= Seq::<TripDTO>::empty());
    }
    while lines.len() > 0
        invariant
            lines@.len() <= all.len(),
            lines@ == all.take(lines@.len() as int),
            sorted@ == sorted_by_time(all.skip(lines@.len() as int)),
        decreases lines@.len(),
    {
        let ghost left = lines@.len() as int;
        let line = lines.pop().unwrap();
        let key = line.departure_timestamp;
        proof {
            assert(line == all[left - 1]);
            assert(lines@ =~= all.take(left - 1));
            assert(all.skip(left - 1).drop_first() =~= all.skip(left));
            assert(all.skip(left - 1)[0] == line);
        }
        let mut at: usize = 0;
        proof {
            assert(sorted@.skip(0) =~= sorted@);
        }
        while at < sorted.len() && sorted[at].departure_timestamp < key
            invariant
                at <= sorted@.len(),
                rank_position(sorted@, key) == at + rank_position(sorted@.skip(at as int), key),
            decreases sorted@.len() - at,
        {
            proof {
                assert(sorted@.skip(at as int)[0] == sorted@[at as int]);
                assert(sorted@.skip(at as int).drop_first() =~= sorted@.skip(at + 1));
            }
            at = at + 1;
        }
        proof {
            if at < sorted@.len() {
                assert(sorted@.skip(at as int)[0] == sorted@[at as int]);
            }
        }
        sorted.insert(at, line);
    }
    proof {
        assert(all.skip(0) =~= all);
    }
    sorted
}

/// Makes a board of `lines`: sorts them by timestamp and keeps the earliest
/// [`MAX_DEPARTURES`].
pub fn rank_departures(lines: Vec<TripDTO>) -> (board: Vec<TripDTO>)
    ensures
        board@ == ranked(lines@),
        board@.len() <= MAX_DEPARTURES,
        lines@.len() > MAX_DEPARTURES ==> board@.len() == MAX_DEPARTURES,
        is_ascending(board@),
{
    proof {
        lemma_ranked_bounded_and_sorted(lines@);
    }
    let mut board = sort_by_time(lines);
    if board.len() > MAX_DEPARTURES {
        board.truncate(MAX_DEPARTURES);
    }
    board
}

/// The departure board of `stop_id`: one line for each row of the timetable,
/// with the live departure of the row's trip where the store has one with
/// a departure time, and with the row's own time of day on the date of
/// `today` otherwise, sorted by
/// timestamp and cut to [`MAX_DEPARTURES`] lines. Live trips that the
/// timetable rows do not name get no line.
///
/// The board fails on the first row that has no live data and whose time of
/// day the clocks of the reference time zone do not show exactly once on
/// that date.
pub fn departures_at_stop(store: &UpdateStore, stop_id: i64, today: &CivilTime, rows: &Vec<StaticRow>) -> (board: Result<Vec<TripDTO>, BoardError>)
    ensures
        board matches Ok(lines) ==> {
            &&& forall|i: int| 0 <= i < rows@.len() ==> row_line(store@, stop_id, *today, rows@[i]) is Some
            &&& lines@ == ranked(Seq::new(rows@.len(), |i: int| row_line(store@, stop_id, *today, rows@[i])->0))
            &&& lines@.len() <= MAX_DEPARTURES
            &&& is_ascending(lines@)
        },
        board matches Err(BoardError::NoLocalTime { row }) ==> {
            &&& row < rows@.len()
            &&& row_line(store@, stop_id, *today, rows@[row as int]) is None
            &&& forall|i: int| 0 <= i < row ==> row_line(store@, stop_id, *today, rows@[i]) is Some
        },
{
    let mut lines: Vec<TripDTO> = Vec::new();
    let mut i: usize = 0;
    while i < rows.len()
        invariant
            i <= rows@.len(),
            forall|j: int| 0 <= j < i ==> row_line(store@, stop_id, *today, rows@[j]) is Some,
            lines@ == Seq::new(i as nat, |j: int| row_line(store@, stop_id, *today, rows@[j])->0),
        decreases rows@.len() - i,
    {
        match resolve_row(store, stop_id, today, &rows[i]) {
            Some(line) => {
                lines.push(line);
                assert(lines@ =~= Seq::new((i + 1) as nat, |j: int| row_line(store@, stop_id, *today, rows@[j])->0));
            },
            None => {
                return Err(BoardError::NoLocalTime { row: i });
            },
        }
        i = i + 1;
    }
    Ok(rank_departures(lines))
}

/// The latest update of a trip, for the trip's status; nothing where the
/// store does not know the trip.
pub fn live_trip_info(store: &UpdateStore, trip_id: i64) -> (info: Option<Update>)
    ensures
        info is Some == store@.trips.contains_key(trip_id),
        info matches Some(update) ==> update@ == store@.trips[trip_id],
{
    store.get_trip(trip_id)
}

} // verus!
