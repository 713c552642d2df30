//! The per-connection session: dispatch of one decoded frame at a
//! time against the session's private store. An insert mutates the
//! store silently, a query answers with the range average, an
//! unrecognized discriminant is ignored; only the transport (a short
//! read or a failed write) ever closes a session.

use vstd::prelude::*;
use crate::store::{average_in_range, upsert, PriceStore, calc_average};
use crate::wire::{decode_frame, spec_decode, Message, Response};

verus! {

/// The store contents after one 9-byte frame is processed: only a
/// well-formed insert changes them.
pub open spec fn step_store(s: Seq<(i32, i32)>, frame: Seq<u8>) -> Seq<(i32, i32)>
    recommends
        frame.len() == 9,
{
    match spec_decode(frame) {
        Some(Message::Insert(m)) => upsert(s, m.timestamp, m.price),
        _ => s,
    }
}

/// The response one 9-byte frame elicits from a session whose store
/// holds `s`: a query is answered with the range average, anything
/// else with silence.
pub open spec fn step_response(s: Seq<(i32, i32)>, frame: Seq<u8>) -> Option<int>
    recommends
        frame.len() == 9,
{
    match spec_decode(frame) {
        Some(Message::Query(m)) => Some(average_in_range(s, m.mintime, m.maxtime)),
        _ => None,
    }
}

/// The integer a response carries, if one is present.
pub open spec fn response_value(r: Option<Response>) -> Option<int> {
    match r {
        Some(resp) => Some(resp.average as int),
        None => None,
    }
}

/// Processes one complete 9-byte frame against `prices`: an insert
/// upserts and stays silent, a query leaves the store alone and
/// answers, an unrecognized discriminant does neither.
pub fn handle_message(message: &[u8], prices: &mut PriceStore) -> (resp: Option<Response>)
    requires
        message@.len() == 9,
        old(prices).wf(),
    ensures
        final(prices).wf(),
        final(prices)@ == step_store(old(prices)@, message@),
        response_value(resp) == step_response(old(prices)@, message@),
{
    match decode_frame(message) {
        Some(Message::Insert(m)) => {
            prices.insert(m.timestamp, m.price);
            None
        },
        Some(Message::Query(m)) => Some(Response { average: calc_average(&m, prices) }),
        None => None,
    }
}

/// Whether a session still accepts frames.
#[derive(Debug, Clone, Copy, PartialEq, Eq, Structural)]
pub enum SessionStatus {
    Open,
    Closed,
}

/// One connection's state: its private price store, created empty at
/// accept time, and whether the connection is still live. No other
/// session ever reads or writes it.
pub struct Session {
    pub store: PriceStore,
    pub status: SessionStatus,
}

impl Session {
    /// The session invariant: the store keeps one entry per timestamp.
    pub open spec fn wf(&self) -> bool {
        self.store.wf()
    }

    /// A fresh session: empty store, open.
    pub fn new() -> (s: Session)
        ensures
            s.wf(),
            s.status == SessionStatus::Open,
            s.store@ == Seq::<(i32, i32)>::empty(),
    {
        Session { store: PriceStore::new(), status: SessionStatus::Open }
    }

    /// True while the session still accepts frames.
    pub fn is_open(&self) -> (b: bool)
        ensures
            b == (self.status == SessionStatus::Open),
    {
        self.status == SessionStatus::Open
    }

    /// Feeds one complete 9-byte frame to an open session. Whatever
    /// the frame holds, the session stays open: an unrecognized
    /// discriminant is silently ignored, never fatal.
    pub fn on_frame(&mut self, frame: &[u8]) -> (resp: Option<Response>)
        requires
            old(self).wf(),
            old(self).status == SessionStatus::Open,
            frame@.len() == 9,
        ensures
            final(self).wf(),
            final(self).status == SessionStatus::Open,
            final(self).store@ == step_store(old(self).store@, frame@),
            response_value(resp) == step_response(old(self).store@, frame@),
    {
        handle_message(frame, &mut self.store)
    }

    /// Ends the session: the transport saw a short read, end of
    /// stream, or a failed response write. Terminal; the store is
    /// never consulted again.
    pub fn close(&mut self)
        ensures
            final(self).status == SessionStatus::Closed,
            final(self).store@ == old(self).store@,
            old(self).wf() ==> final(self).wf(),
    {
        self.status = SessionStatus::Closed;
    }
}

} // verus!
