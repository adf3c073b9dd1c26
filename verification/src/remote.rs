//! Bookkeeping for a remote single-object download: counts the payload that
//! each response delivered and decides when a closed response is resumed
//! with a range request for the missing suffix.
//!
//! A resumed request is issued only when the initial response advertised a
//! content length, fewer bytes than that have arrived, and the closed
//! response delivered at least one byte — the last point keeps a dead remote
//! from causing an endless request loop.
use vstd::prelude::*;

verus! {

/// What to do when a response ends.
pub enum NextRequest {
    /// The download is complete, or resuming is pointless.
    Done,
    /// Reissue the request with `Range: bytes=range_start-range_end`.
    Resume { range_start: u64, range_end: u64 },
}

/// Progress of one remote file download.
pub struct RemoteFileState {
    content_length: Option<u64>,
    received: u64,
    received_this_request: u64,
}

impl RemoteFileState {
    /// The advertised total length, if the server gave one.
    pub closed spec fn length(self) -> Option<u64> {
        self.content_length
    }

    /// Payload bytes received over all responses so far: every chunk of
    /// every response is counted here, nothing else is.
    pub closed spec fn received(self) -> u64 {
        self.received
    }

    /// Payload bytes received in the current response.
    pub closed spec fn received_this_request(self) -> u64 {
        self.received_this_request
    }

    /// The running totals never drift apart.
    pub closed spec fn wf(self) -> bool {
        self.received_this_request <= self.received
    }

    /// What ending the current response means: done without a known length,
    /// done once everything has arrived, done after an empty response, and a
    /// range request for exactly the missing suffix otherwise.
    pub open spec fn end_decision(self) -> NextRequest {
        match self.length() {
            None => NextRequest::Done,
            Some(total) => if self.received() >= total || self.received_this_request() == 0 {
                NextRequest::Done
            } else {
                NextRequest::Resume { range_start: self.received(), range_end: total }
            },
        }
    }

    /// Starts tracking a download whose initial response advertised
    /// `content_length`.
    pub fn new(content_length: Option<u64>) -> (st: RemoteFileState)
        ensures
            st.wf(),
            st.length() == content_length,
            st.received() == 0,
            st.received_this_request() == 0,
    {
        RemoteFileState { content_length, received: 0, received_this_request: 0 }
    }

    /// Payload bytes received so far, over all responses.
    pub fn total_received(&self) -> (r: u64)
        ensures
            r == self.received(),
    {
        self.received
    }

    /// Counts one delivered chunk.
    pub fn on_chunk(&mut self, n: u64)
        requires
            old(self).wf(),
            old(self).received() + n <= u64::MAX,
        ensures
            final(self).wf(),
            final(self).received() == old(self).received() + n,
            final(self).received_this_request() == old(self).received_this_request() + n,
            final(self).length() == old(self).length(),
    {
        self.received = self.received + n;
        self.received_this_request = self.received_this_request + n;
    }

    /// Ends the current response: decides whether to stop or to resume, and
    /// opens the per-response count for the next attempt.
    pub fn on_response_end(&mut self) -> (r: NextRequest)
        requires
            old(self).wf(),
        ensures
            final(self).wf(),
            r == old(self).end_decision(),
            final(self).received() == old(self).received(),
            final(self).length() == old(self).length(),
            final(self).received_this_request() == 0,
    {
        let this_request = self.received_this_request;
        self.received_this_request = 0;
        match self.content_length {
            None => NextRequest::Done,
            Some(total) => {
                if self.received >= total || this_request == 0 {
                    NextRequest::Done
                } else {
                    NextRequest::Resume { range_start: self.received, range_end: total }
                }
            },
        }
    }
}

/// Range resumption adds up: a resumed request asks for exactly the missing
/// suffix of the advertised length, so when the server honors the range —
/// delivers exactly the requested bytes — the received total, which is the
/// sum of all delivered payload, reaches the content length and the download
/// ends.
pub proof fn lemma_range_resumption(st: RemoteFileState, after: RemoteFileState)
    requires
        st.wf(),
        after.wf(),
        st.end_decision() is Resume,
        // `after` is `st` once the resumed response delivered exactly the
        // requested range and ended.
        after.length() == st.length(),
        after.received() == st.received() + (st.end_decision()->Resume_range_end
            - st.end_decision()->Resume_range_start),
    ensures
        st.end_decision()->Resume_range_start == st.received(),
        Some(st.end_decision()->Resume_range_end) == st.length(),
        after.received() == st.length().unwrap(),
        after.end_decision() is Done,
{
}

} // verus!
