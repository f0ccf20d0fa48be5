//! The feed poller, one cycle at a time: what to ask of the feed endpoint,
//! and what a cycle's outcome does to the poller and to the store.
//!
//! The poller itself is a loop around these two steps: wait, send the
//! request of [`PollerState::next_request`], and hand what came back to
//! [`PollerState::complete_cycle`].

use vstd::prelude::*;
use crate::feed::{apply_feed, feed_result, EntityOutcome, FeedMessage};
use crate::store::UpdateStore;
use crate::time::{http_date_at, utc_civil};

verus! {

/// Where the feed is fetched from.
pub const FEED_URL: &'static str = "https://realtime.gtfs.de/realtime-free.pb";

/// How the poller names itself to the feed endpoint.
pub const USER_AGENT: &'static str =
    "Mozilla/5.0 (Windows NT 10.0; Win64; x64) AppleWebKit/537.36 (KHTML, like Gecko) Chrome/58.0.3029.110 Safari/537.3";

/// The seconds after which a fetch counts as failed.
pub const FETCH_TIMEOUT_SECS: u64 = 300;

/// The seconds that the poller waits before each cycle.
pub const POLL_INTERVAL_SECS: u64 = 1;

/// What the poller remembers between cycles, for conditional fetches.
#[derive(Debug)]
pub struct PollerState {
    /// When the last response came in, in Unix seconds.
    pub last_modified: Option<i64>,
    /// The entity tag of the last response.
    pub etag: Option<String>,
}

/// One request to the feed endpoint.
#[derive(Debug)]
pub struct FeedRequest {
    pub url: &'static str,
    pub user_agent: &'static str,
    /// The value of the `If-Modified-Since` header, if it is to be sent.
    pub if_modified_since: Option<String>,
    /// The value of the `If-None-Match` header, if it is to be sent.
    pub if_none_match: Option<String>,
    pub timeout_secs: u64,
}

/// What a response carried as its body.
#[derive(Debug)]
pub enum ResponseBody {
    /// The body could not be read.
    Unreadable,
    /// The body is no feed.
    Undecodable,
    /// The body, decoded.
    Feed(FeedMessage),
}

/// How a fetch ended.
#[derive(Debug)]
pub enum FetchOutcome {
    /// No response came: the request failed or timed out.
    TransportFailure,
    /// A response came, with whatever status.
    Response { etag: Option<String>, body: ResponseBody },
}

/// What a cycle did.
#[derive(Debug)]
pub enum CycleReport {
    /// The fetch failed; nothing was changed.
    TransportFailure,
    /// The response's body could not be read; the store was not changed.
    BodyUnreadable,
    /// The response's body is no feed; the store was not changed.
    FeedUndecodable,
    /// The feed was folded into the store and the store swept; `outcomes`
    /// says what became of each entity.
    Applied { outcomes: Vec<EntityOutcome> },
}

/// The text of an optional string.
pub open spec fn text_of(text: Option<String>) -> Option<Seq<char>> {
    match text {
        Some(text) => Some(text@),
        None => None,
    }
}

/// The `If-Modified-Since` header for a last response at `last_modified`: its
/// date in UTC as HTTP writes it. No header where there was no response yet
/// or the calendar does not reach that far.
pub open spec fn modified_since_header(last_modified: Option<i64>) -> Option<Seq<char>> {
    match last_modified {
        Some(timestamp) => match utc_civil(timestamp) {
            Some(time) => Some(time.http_date_text()),
            None => None,
        },
        None => None,
    }
}

impl PollerState {
    /// The state before the first cycle: nothing to remember.
    pub fn new() -> (state: PollerState)
        ensures
            state.last_modified is None,
            state.etag is None,
    {
        PollerState { last_modified: None, etag: None }
    }

    /// The request of the next cycle: conditional on the time and the entity
    /// tag of the last response, as far as there was one.
    pub fn next_request(&self) -> (request: FeedRequest)
        ensures
            request.url == FEED_URL,
            request.user_agent == USER_AGENT,
            request.timeout_secs == FETCH_TIMEOUT_SECS,
            text_of(request.if_modified_since) == modified_since_header(self.last_modified),
            text_of(request.if_none_match) == text_of(self.etag),
    {
        let if_modified_since = match self.last_modified {
            Some(timestamp) => http_date_at(timestamp),
            None => None,
        };
        let if_none_match = match &self.etag {
            Some(tag) => Some(tag.clone()),
            None => None,
        };
        FeedRequest {
            url: FEED_URL,
            user_agent: USER_AGENT,
            if_modified_since,
            if_none_match,
            timeout_secs: FETCH_TIMEOUT_SECS,
        }
    }

    /// Notes a response that came in at `now`: its entity tag, or that it
    /// had none, and its time.
    pub fn record_response(&mut self, etag: Option<String>, now: i64)
        ensures
            final(self).last_modified == Some(now),
            final(self).etag == etag,
    {
        self.last_modified = Some(now);
        self.etag = etag;
    }

    /// Ends a cycle whose fetch came back as `outcome` at the clock reading
    /// `now`.
    ///
    /// Without a response nothing changes. With one, the poller notes its
    /// time and entity tag, whatever the response holds. Only a decoded feed
    /// touches the store: it is folded in, and then everything that is in
    /// the past at `now` is removed.
    pub fn complete_cycle(&mut self, store: &mut UpdateStore, outcome: FetchOutcome, now: i64) -> (report: CycleReport)
        ensures
            outcome is TransportFailure ==> *final(self) == *old(self),
            outcome matches FetchOutcome::Response { etag, .. } ==> final(self).last_modified == Some(now) && final(self).etag == etag,
            !(outcome matches FetchOutcome::Response { body: ResponseBody::Feed(_), .. }) ==> *final(store) == *old(store),
            outcome matches FetchOutcome::Response { body: ResponseBody::Feed(feed), .. } ==> final(store)@ == feed_result(
                old(store)@,
                feed.entity@,
            ).store.evict(now),
            old(store)@.well_formed() ==> final(store)@.well_formed(),
            match outcome {
                FetchOutcome::TransportFailure => report is TransportFailure,
                FetchOutcome::Response { body: ResponseBody::Unreadable, .. } => report is BodyUnreadable,
                FetchOutcome::Response { body: ResponseBody::Undecodable, .. } => report is FeedUndecodable,
                FetchOutcome::Response { body: ResponseBody::Feed(feed), .. } => report matches CycleReport::Applied { outcomes }
                    && outcomes@ == feed_result(old(store)@, feed.entity@).outcomes,
            },
    {
        match outcome {
            FetchOutcome::TransportFailure => CycleReport::TransportFailure,
            FetchOutcome::Response { etag, body } => {
                self.record_response(etag, now);
                match body {
                    ResponseBody::Unreadable => CycleReport::BodyUnreadable,
                    ResponseBody::Undecodable => CycleReport::FeedUndecodable,
                    ResponseBody::Feed(feed) => {
                        let outcomes = apply_feed(store, &feed);
                        store.evict_at(now);
                        CycleReport::Applied { outcomes }
                    },
                }
            },
        }
    }
}

} // verus!
