//! The concurrent hash maps behind the store, and what is taken on trust
//! about them.
//!
//! The maps are `DashMap`s. What a map holds is named by a specification
//! function, and each operation on a map goes through a small function whose
//! contract says, over those names, what the operation does. The contracts
//! are not proved: they state what `dashmap` does. The operations that change
//! a map take it by `&mut`, so that nothing else can touch it meanwhile.

use vstd::prelude::*;
use dashmap::DashMap;
use crate::model::{Departure, DepartureView, Update, UpdateView};

verus! {

/// `dashmap::DashMap`, carried as a value of which nothing is known but what
/// the functions of this module say.
#[verifier::external_type_specification]
#[verifier::external_body]
#[verifier::reject_recursive_types(K)]
#[verifier::reject_recursive_types(V)]
#[verifier::reject_recursive_types(S)]
pub struct ExDashMap<K, V, S>(DashMap<K, V, S>);

/// The departures kept for one stop, by trip id.
pub type Board = Map<i64, DepartureView>;

/// The trip index without entries.
pub open spec fn no_trips() -> Map<i64, UpdateView> {
    Map::empty()
}

/// The board without entries.
pub open spec fn no_departures() -> Board {
    Map::empty()
}

/// The stop index without entries.
pub open spec fn no_stops() -> Map<i64, Board> {
    Map::empty()
}

/// Whether a board holds no departure at all.
pub open spec fn is_vacant(board: Board) -> bool {
    forall|trip_id: i64| !board.contains_key(trip_id)
}

/// The trips of `trips` that are live at `now`, each with its update.
pub open spec fn live_trips(trips: Map<i64, UpdateView>, now: i64) -> Map<i64, UpdateView> {
    trips.restrict(Set::new(|key: i64| trips.contains_key(key) && trips[key].live_at(now)))
}

/// The departures of `board` that are live at `now`.
pub open spec fn live_departures(board: Board, now: i64) -> Board {
    board.restrict(Set::new(|key: i64| board.contains_key(key) && board[key].live_at(now)))
}

/// The stops that still have a live departure at `now`, each with its live
/// departures only.
pub open spec fn live_stops(stops: Map<i64, Board>, now: i64) -> Map<i64, Board> {
    Map::new(
        |stop_id: i64| stops.contains_key(stop_id) && !is_vacant(live_departures(stops[stop_id], now)),
        |stop_id: i64| live_departures(stops[stop_id], now),
    )
}

/// The departure kept for `trip_id` at `stop_id`, if there is one.
pub open spec fn departure_at(stops: Map<i64, Board>, stop_id: i64, trip_id: i64) -> Option<DepartureView> {
    if stops.contains_key(stop_id) && stops[stop_id].contains_key(trip_id) {
        Some(stops[stop_id][trip_id])
    } else {
        None
    }
}

/// Whether `keys` and `listing` name every entry of `board` once, key and
/// departure side by side, in any order.
pub open spec fn lists_entries(keys: Seq<i64>, listing: Seq<Departure>, board: Board) -> bool {
    &&& keys.len() == listing.len()
    &&& forall|i: int| 0 <= i < keys.len() ==> board.contains_key(#[trigger] keys[i]) && board[keys[i]] == listing[i]@
    &&& forall|i: int, j: int| 0 <= i < j < keys.len() ==> #[trigger] keys[i] != #[trigger] keys[j]
    &&& forall|key: i64| board.contains_key(key) ==> exists|i: int| 0 <= i < keys.len() && #[trigger] keys[i] == key
}

/// Whether `listing` names every departure of `board` once, in any order.
pub open spec fn lists_board(listing: Seq<Departure>, board: Board) -> bool {
    exists|keys: Seq<i64>| lists_entries(keys, listing, board)
}

/// Whether `listing` names every departure of `board` once, in any order,
/// each of them under its own trip id.
pub open spec fn lists_trips(listing: Seq<Departure>, board: Board) -> bool {
    &&& forall|i: int| 0 <= i < listing.len() ==> board.contains_key((#[trigger] listing[i]).trip_id)
            && board[listing[i].trip_id] == listing[i]@
    &&& forall|i: int, j: int| 0 <= i < j < listing.len() ==> (#[trigger] listing[i]).trip_id != (#[trigger] listing[j]).trip_id
    &&& forall|trip_id: i64| board.contains_key(trip_id) ==> exists|i: int| 0 <= i < listing.len() && (#[trigger] listing[i]).trip_id == trip_id
}

/// On a board whose departures stand under their own trip ids, a listing
/// names each trip once.
pub proof fn lemma_listing_names_trips(listing: Seq<Departure>, board: Board)
    requires
        lists_board(listing, board),
        forall|trip_id: i64| board.contains_key(trip_id) ==> (#[trigger] board[trip_id]).trip_id == trip_id,
    ensures
        lists_trips(listing, board),
{
    let keys = choose|keys: Seq<i64>| lists_entries(keys, listing, board);
    assert forall|i: int| 0 <= i < listing.len() implies keys[i] == (#[trigger] listing[i]).trip_id by {
        assert(board.contains_key(keys[i]));
        assert(board[keys[i]].trip_id == keys[i]);
    }
    assert forall|trip_id: i64| board.contains_key(trip_id) implies exists|i: int| 0 <= i < listing.len() && (#[trigger] listing[i]).trip_id == trip_id by {
        let i = choose|i: int| 0 <= i < keys.len() && #[trigger] keys[i] == trip_id;
        assert(listing[i].trip_id == trip_id);
    }
    assert forall|i: int, j: int| 0 <= i < j < listing.len() implies (#[trigger] listing[i]).trip_id != (#[trigger] listing[j]).trip_id by {
        assert(keys[i] != keys[j]);
    }
}

/// The entries of a trip index: for each key the update stored under it.
pub uninterp spec fn trip_entries(index: DashMap<i64, Update>) -> Map<i64, UpdateView>;

/// The entries of one stop's board: for each key the departure stored under it.
pub uninterp spec fn board_entries(board: DashMap<i64, Departure>) -> Board;

/// The entries of a stop index: for each key the entries of the board stored
/// under it.
pub uninterp spec fn stop_entries(index: DashMap<i64, DashMap<i64, Departure>>) -> Map<i64, Board>;

/// `DashMap::new`: a map without entries.
#[verifier::external_body]
pub(crate) fn trip_index_new() -> (index: DashMap<i64, Update>)
    ensures
        trip_entries(index) == no_trips(),
{
    DashMap::new()
}

/// `DashMap::insert`: afterwards `key` maps to `update`, whether or not it
/// was present before; every other entry is as it was.
#[verifier::external_body]
pub(crate) fn trip_index_insert(index: &mut DashMap<i64, Update>, key: i64, update: Update)
    ensures
        trip_entries(*final(index)) == trip_entries(*old(index)).insert(key, update@),
{
    index.insert(key, update);
}

/// `DashMap::view`: a copy of the update stored under `key`, or nothing
/// where the map has no such key.
#[verifier::external_body]
pub(crate) fn trip_index_get(index: &DashMap<i64, Update>, key: i64) -> (found: Option<Update>)
    ensures
        found is Some == trip_entries(*index).contains_key(key),
        found matches Some(update) ==> update@ == trip_entries(*index)[key],
{
    index.view(&key, |_k, update| update.clone())
}

/// `DashMap::retain`: keeps exactly the entries whose update is live at
/// `now`, unchanged.
#[verifier::external_body]
pub(crate) fn trip_index_retain(index: &mut DashMap<i64, Update>, now: i64)
    ensures
        trip_entries(*final(index)) == live_trips(trip_entries(*old(index)), now),
{
    index.retain(|_k, update| update.is_live_at(now));
}

/// `DashMap::new`: a map without entries.
#[verifier::external_body]
pub(crate) fn board_new() -> (board: DashMap<i64, Departure>)
    ensures
        board_entries(board) == no_departures(),
{
    DashMap::new()
}

/// `DashMap::insert`: afterwards `key` maps to `departure`, whether or not
/// it was present before; every other entry is as it was.
#[verifier::external_body]
pub(crate) fn board_insert(board: &mut DashMap<i64, Departure>, key: i64, departure: Departure)
    ensures
        board_entries(*final(board)) == board_entries(*old(board)).insert(key, departure@),
{
    board.insert(key, departure);
}

/// `DashMap::view`: a copy of the departure stored under `key`, or nothing
/// where the map has no such key.
#[verifier::external_body]
pub(crate) fn board_get(board: &DashMap<i64, Departure>, key: i64) -> (found: Option<Departure>)
    ensures
        found is Some == board_entries(*board).contains_key(key),
        found matches Some(departure) ==> departure@ == board_entries(*board)[key],
{
    board.view(&key, |_k, departure| departure.clone())
}

/// `DashMap::retain`: keeps exactly the entries whose departure is live at
/// `now`, unchanged.
#[verifier::external_body]
pub(crate) fn board_retain(board: &mut DashMap<i64, Departure>, now: i64)
    ensures
        board_entries(*final(board)) == live_departures(board_entries(*old(board)), now),
{
    board.retain(|_k, departure| departure.is_live_at(now));
}

/// `DashMap::is_empty`: whether the map has no entry.
#[verifier::external_body]
pub(crate) fn board_is_empty(board: &DashMap<i64, Departure>) -> (empty: bool)
    ensures
        empty == is_vacant(board_entries(*board)),
{
    board.is_empty()
}

/// `DashMap::iter`: the key and a copy of the departure of every entry, each
/// entry once, in the order in which the map happens to be walked.
#[verifier::external_body]
pub(crate) fn board_list(board: &DashMap<i64, Departure>) -> (listing: (Vec<i64>, Vec<Departure>))
    ensures
        lists_entries(listing.0@, listing.1@, board_entries(*board)),
{
    board.iter().map(|entry| (*entry.key(), entry.value().clone())).unzip()
}

/// `DashMap::new`: a map without entries.
#[verifier::external_body]
pub(crate) fn stop_index_new() -> (index: DashMap<i64, DashMap<i64, Departure>>)
    ensures
        stop_entries(index) == no_stops(),
{
    DashMap::new()
}

/// `DashMap::contains_key`: whether the map has an entry under `key`.
#[verifier::external_body]
pub(crate) fn stop_index_contains(index: &DashMap<i64, DashMap<i64, Departure>>, key: i64) -> (present: bool)
    ensures
        present == stop_entries(*index).contains_key(key),
{
    index.contains_key(&key)
}

/// `DashMap::remove`: takes the board stored under `key` out of the map and
/// hands it over; nothing happens where the map has no such key.
#[verifier::external_body]
pub(crate) fn stop_index_take(index: &mut DashMap<i64, DashMap<i64, Departure>>, key: i64) -> (taken: Option<DashMap<i64, Departure>>)
    ensures
        taken is Some == stop_entries(*old(index)).contains_key(key),
        taken matches Some(board) ==> board_entries(board) == stop_entries(*old(index))[key],
        stop_entries(*final(index)) == stop_entries(*old(index)).remove(key),
{
    index.remove(&key).map(|pair| pair.1)
}

/// `DashMap::insert`: afterwards `key` maps to `board`, whether or not it
/// was present before; every other entry is as it was.
#[verifier::external_body]
pub(crate) fn stop_index_put(index: &mut DashMap<i64, DashMap<i64, Departure>>, key: i64, board: DashMap<i64, Departure>)
    ensures
        stop_entries(*final(index)) == stop_entries(*old(index)).insert(key, board_entries(board)),
{
    index.insert(key, board);
}

/// `DashMap::view`: what [`find_on_board`] finds on the board stored under
/// `stop_id`, or nothing where the map has no such key.
#[verifier::external_body]
pub(crate) fn stop_index_find(index: &DashMap<i64, DashMap<i64, Departure>>, stop_id: i64, trip_id: i64) -> (found: Option<Option<Departure>>)
    ensures
        found is Some == stop_entries(*index).contains_key(stop_id),
        found matches Some(inner) ==> (inner is Some == stop_entries(*index)[stop_id].contains_key(trip_id)),
        found matches Some(Some(departure)) ==> departure@ == stop_entries(*index)[stop_id][trip_id],
{
    index.view(&stop_id, |_k, board| find_on_board(board, trip_id))
}

/// `DashMap::view`: what [`list_board`] lists of the board stored under
/// `stop_id`, or nothing where the map has no such key.
#[verifier::external_body]
pub(crate) fn stop_index_list(index: &DashMap<i64, DashMap<i64, Departure>>, stop_id: i64) -> (found: Option<Vec<Departure>>)
    ensures
        found is Some == stop_entries(*index).contains_key(stop_id),
        found matches Some(listing) ==> lists_board(listing@, stop_entries(*index)[stop_id]),
{
    index.view(&stop_id, |_k, board| list_board(board))
}

/// `DashMap::retain`: runs [`sweep_board`] on every board and keeps exactly
/// the entries for which it answers true, each as the sweep left it.
#[verifier::external_body]
pub(crate) fn stop_index_retain(index: &mut DashMap<i64, DashMap<i64, Departure>>, now: i64)
    ensures
        stop_entries(*final(index)) == live_stops(stop_entries(*old(index)), now),
{
    index.retain(|_k, board| sweep_board(board, now));
}

/// The departure kept for `trip_id` on one stop's board.
pub fn find_on_board(board: &DashMap<i64, Departure>, trip_id: i64) -> (found: Option<Departure>)
    ensures
        found is Some == board_entries(*board).contains_key(trip_id),
        found matches Some(departure) ==> departure@ == board_entries(*board)[trip_id],
{
    board_get(board, trip_id)
}

/// Every departure on one stop's board, each once; the order is not fixed.
pub fn list_board(board: &DashMap<i64, Departure>) -> (listing: Vec<Departure>)
    ensures
        lists_board(listing@, board_entries(*board)),
{
    let (_keys, listing) = board_list(board);
    listing
}

/// Drops from one stop's board every departure that is in the past at `now`
/// and says whether anything is left.
pub fn sweep_board(board: &mut DashMap<i64, Departure>, now: i64) -> (keep: bool)
    ensures
        board_entries(*final(board)) == live_departures(board_entries(*old(board)), now),
        keep == !is_vacant(live_departures(board_entries(*old(board)), now)),
{
    board_retain(board, now);
    !board_is_empty(board)
}

} // verus!
