//! Wall-clock bound of one evaluation.
//!
//! Time is a reading of a monotonic clock in nanoseconds. The interpreter
//! calls the host back while it runs; the host answers from the ticket of the
//! call in progress whether the script has to be aborted.

use vstd::prelude::*;

verus! {

/// The start of one evaluation and the time it may take, both in nanoseconds.
#[derive(Clone, Copy, Debug, PartialEq, Eq, Structural)]
pub struct EvalTicket {
    pub start: u128,
    pub limit: u128,
}

/// True when more than `limit` has passed between `start` and `now`.
pub open spec fn overdue(start: int, limit: int, now: int) -> bool {
    now - start > limit
}

impl EvalTicket {
    /// The ticket of a call that started at `start` and may take `limit`.
    pub fn new(start: u128, limit: u128) -> (ticket: EvalTicket)
        ensures
            ticket.start == start,
            ticket.limit == limit,
    {
        EvalTicket { start, limit }
    }

    /// Whether the evaluation that holds this ticket has run out of time at
    /// `now`. A reading before `start` is never overdue.
    pub fn expired(&self, now: u128) -> (abort: bool)
        ensures
            abort == overdue(self.start as int, self.limit as int, now as int),
    {
        now > self.start && now - self.start > self.limit
    }
}

/// The single slot of an evaluation context that holds the ticket of the call
/// in progress. A new call replaces what the slot held.
#[derive(Clone, Copy, Debug, PartialEq, Eq, Structural)]
pub struct TicketSlot {
    pub current: Option<EvalTicket>,
}

impl TicketSlot {
    /// What the timeout callback answers at `now`: abort when the slot is
    /// empty, and otherwise exactly when the ticket in it is overdue.
    pub open spec fn aborts_at(self, now: int) -> bool {
        match self.current {
            Some(t) => overdue(t.start as int, t.limit as int, now),
            None => true,
        }
    }

    /// The slot of a context on which nothing was evaluated yet.
    pub fn empty() -> (slot: TicketSlot)
        ensures
            slot.current is None,
    {
        TicketSlot { current: None }
    }

    /// Starts the clock of a new call: the slot then holds the ticket
    /// `(now, limit)` and nothing of the call before.
    pub fn replace(&mut self, now: u128, limit: u128)
        ensures
            final(self).current == Some(EvalTicket { start: now, limit }),
    {
        self.current = Some(EvalTicket::new(now, limit));
    }

    /// Empties the slot.
    pub fn clear(&mut self)
        ensures
            final(self).current is None,
    {
        self.current = None;
    }

    /// The answer of the timeout callback at `now`.
    pub fn should_abort(&self, now: u128) -> (abort: bool)
        ensures
            abort == self.aborts_at(now as int),
    {
        match self.current {
            Some(t) => t.expired(now),
            None => true,
        }
    }
}

/// A call that was given `limit` is not aborted at any reading up to
/// `start + limit`, and is aborted at every later one.
pub proof fn lemma_abort_exactly_after_limit(start: u128, limit: u128, now: u128)
    ensures
        (TicketSlot { current: Some(EvalTicket { start, limit }) }).aborts_at(now as int) <==> now
            > start + limit,
{
}

} // verus!
