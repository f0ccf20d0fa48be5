//! Live departure information for public transit.
//!
//! A real-time feed reports, trip by trip, when vehicles will be at their
//! stops. This library keeps the latest such report in memory and merges it
//! with the departures of the static timetable into a departure board.
//!
//! - [`time`]: timestamps, the clock, and calendar time in the reference
//!   time zone.
//! - [`text`]: the decimal numbers and times of day that the feed and the
//!   timetable write.
//! - [`model`]: the records kept per trip and per stop.
//! - [`index`]: the concurrent maps that hold the records.
//! - [`store`]: the live state: storing, looking up, evicting.
//! - [`feed`]: the decoded feed and how it folds into the store.
//! - [`poller`]: one polling cycle: the request, and what its outcome does.
//! - [`endpoints`]: the departure board and the status of a trip.
//!
//! Fetching the feed, decoding its wire format, and querying the timetable
//! are left to the caller, who hands their results in as plain values.

pub mod endpoints;
pub mod feed;
pub mod index;
pub mod model;
pub mod poller;
pub mod store;
pub mod text;
pub mod time;
