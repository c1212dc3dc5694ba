//! The decision core of one query invocation.
//!
//! The outside world connects, submits the statement, and waits; this module
//! decides. A single-slot `CancelBroker` models the process-wide cancellation
//! signal: a cancel request fills the slot (and is inert when the slot is
//! already full), and whichever invocation polls the race consumes it. One
//! poll of the race yields the completed backend response if it has arrived
//! (a signal arriving later is left pending and has no effect on this
//! invocation), else the cancel branch if the slot is full, else nothing.
//! Settling the winner produces exactly one outcome per invocation:
//! connection error, query error, cancellation, or the serialized response.

use vstd::prelude::*;
use crate::encode::FetchedRow;
use crate::encode::encode_rows;
use crate::encode::spec_cell_triple;
use crate::encode::spec_rows_triples;
use crate::jsonout::json_encode;
use crate::jsonout::spec_json_response;
use crate::jsonout::spec_triple_list;
use crate::jsonout::spec_wire;
use crate::jsonout::wire_rows;

verus! {

/// Why one invocation failed: the session could not be established, the
/// backend rejected or failed the statement, the user's cancellation won the
/// race, or the final response could not be assembled.
#[derive(Debug)]
pub enum ExecError {
    Connection(String),
    Query(String),
    Cancelled,
    Serialization(String),
}

/// The human-readable text an error is flattened to before it crosses the
/// system boundary: the carried message itself, or the fixed cancellation
/// notice.
pub open spec fn spec_error_message(e: ExecError) -> Seq<char> {
    match e {
        ExecError::Connection(m) => m@,
        ExecError::Query(m) => m@,
        ExecError::Cancelled => "Query was cancelled"@,
        ExecError::Serialization(m) => m@,
    }
}

impl ExecError {
    /// Flattens the error to its human-readable message.
    pub fn message(&self) -> (r: String)
        ensures
            r@ == spec_error_message(*self),
    {
        match self {
            ExecError::Connection(m) => m.clone(),
            ExecError::Query(m) => m.clone(),
            ExecError::Cancelled => String::from_str("Query was cancelled"),
            ExecError::Serialization(m) => m.clone(),
        }
    }
}

/// The response text owed for a completed result: every row encoded in
/// backend order, lowered to `[name, tag, value]` string triples, serialized
/// as JSON.
pub open spec fn spec_response_text(rows: Seq<FetchedRow>) -> Seq<char> {
    spec_json_response(spec_wire(spec_rows_triples(rows)))
}

/// Encodes a completed result and serializes it. Success is owed: the wire
/// value is vectors of strings, which the serializer never fails on, so every
/// completed result yields its response text.
pub fn render_response(rows: &Vec<FetchedRow>) -> (r: Result<String, ExecError>)
    ensures
        r is Ok,
        r matches Ok(s) ==> s@ == spec_response_text(rows@),
{
    let encoded = encode_rows(rows);
    let wire = wire_rows(&encoded);
    match json_encode(&wire) {
        Ok(s) => Ok(s),
        Err(e) => Err(ExecError::Serialization(e)),
    }
}

/// The process-wide single-slot cancellation signal: at most one unconsumed
/// request exists at a time.
pub struct CancelBroker {
    signalled: bool,
}

/// What the backend has done by the time the race is polled.
#[derive(Debug)]
pub enum QueryStatus {
    Pending,
    Done(Result<Vec<FetchedRow>, String>),
}

/// Which branch of the race won.
#[derive(Debug)]
pub enum Winner {
    Cancel,
    Query(Result<Vec<FetchedRow>, String>),
}

/// The winner one poll of the race yields: the backend response once it has
/// arrived, else the cancel branch when the slot is full, else nothing yet.
pub open spec fn spec_poll_winner(signalled: bool, status: QueryStatus) -> Option<Winner> {
    match status {
        QueryStatus::Done(res) => Some(Winner::Query(res)),
        QueryStatus::Pending => if signalled {
            Some(Winner::Cancel)
        } else {
            None
        },
    }
}

/// What one poll leaves in the slot: a signal is consumed only by winning the
/// race; a signal that lost to a completed response is left pending.
pub open spec fn spec_poll_slot(signalled: bool, status: QueryStatus) -> bool {
    match status {
        QueryStatus::Done(_) => signalled,
        QueryStatus::Pending => false,
    }
}

impl CancelBroker {
    /// Whether the slot holds an unconsumed cancellation request.
    pub closed spec fn spec_signalled(&self) -> bool {
        self.signalled
    }

    /// A fresh broker, slot empty.
    pub fn new() -> (r: CancelBroker)
        ensures
            !r.spec_signalled(),
    {
        CancelBroker { signalled: false }
    }

    /// Requests cancellation of whichever invocation polls next: fills the
    /// slot, and is inert when the slot is already full.
    pub fn request_cancel(&mut self)
        ensures
            final(self).spec_signalled(),
    {
        self.signalled = true;
    }

    /// Takes the pending signal out of the slot, if any.
    pub fn try_take(&mut self) -> (r: bool)
        ensures
            r == old(self).spec_signalled(),
            !final(self).spec_signalled(),
    {
        let r = self.signalled;
        self.signalled = false;
        r
    }

    /// Polls the race between the backend response and the cancellation slot.
    pub fn poll_race(&mut self, status: QueryStatus) -> (r: Option<Winner>)
        ensures
            r == spec_poll_winner(old(self).spec_signalled(), status),
            final(self).spec_signalled() == spec_poll_slot(old(self).spec_signalled(), status),
    {
        match status {
            QueryStatus::Done(res) => Some(Winner::Query(res)),
            QueryStatus::Pending => {
                if self.try_take() {
                    Some(Winner::Cancel)
                } else {
                    None
                }
            },
        }
    }
}

/// What one invocation observed: the connection attempt failed, or the race
/// was won by one of its branches.
#[derive(Debug)]
pub enum ExecEvent {
    ConnectFailed(String),
    Raced(Winner),
}

/// What the invocation must do next: issue the out-of-band backend cancel
/// request and report the cancellation, or return this response or error.
#[derive(Debug)]
pub enum Settled {
    CancelBackend,
    Response(Result<String, ExecError>),
}

/// Settles one invocation. Exactly one outcome is produced: a failed
/// connection is a `Connection` error; a race won by the cancel branch
/// obliges the caller to issue the backend cancel request and report
/// `Cancelled`, and never yields any part of a result; a failed statement is
/// a `Query` error; a completed result is owed its whole serialized response.
pub fn settle(ev: ExecEvent) -> (r: Settled)
    ensures
        ev matches ExecEvent::ConnectFailed(e) ==> r == Settled::Response(
            Err(ExecError::Connection(e)),
        ),
        ev matches ExecEvent::Raced(w) ==> ((w is Cancel) <==> (r is CancelBackend)),
        ev matches ExecEvent::Raced(w) ==> (w matches Winner::Query(Err(e)) ==> r
            == Settled::Response(Err(ExecError::Query(e)))),
        ev matches ExecEvent::Raced(w) ==> (w matches Winner::Query(Ok(rows)) ==> (r matches
        Settled::Response(res) && res matches Ok(s) && s@ == spec_response_text(rows@))),
{
    match ev {
        ExecEvent::ConnectFailed(e) => Settled::Response(Err(ExecError::Connection(e))),
        ExecEvent::Raced(w) => match w {
            Winner::Cancel => Settled::CancelBackend,
            Winner::Query(Ok(rows)) => Settled::Response(render_response(&rows)),
            Winner::Query(Err(e)) => Settled::Response(Err(ExecError::Query(e))),
        },
    }
}

/// A cancellation requested while the query is still pending wins the race:
/// the poll yields the cancel branch, so the invocation issues the backend
/// cancel request and reports `Cancelled`, and the signal is consumed.
pub proof fn lemma_cancel_wins_when_pending(signalled: bool)
    requires
        signalled,
    ensures
        spec_poll_winner(signalled, QueryStatus::Pending) == Some(Winner::Cancel),
        !spec_poll_slot(signalled, QueryStatus::Pending),
{
}

/// A cancellation that arrives only after the backend response is without
/// effect: the poll yields the completed result whatever the slot holds, and
/// the slot is left exactly as it was, pending for the next listener.
pub proof fn lemma_late_cancel_without_effect(
    signalled: bool,
    res: Result<Vec<FetchedRow>, String>,
)
    ensures
        spec_poll_winner(signalled, QueryStatus::Done(res)) == Some(Winner::Query(res)),
        spec_poll_slot(signalled, QueryStatus::Done(res)) == signalled,
{
}

/// Row and column order of the wire value match the backend's orders: the
/// i-th row's j-th triple of the response is the encoding of the i-th fetched
/// row's j-th cell.
pub proof fn lemma_order_preserved(rows: Seq<FetchedRow>, i: int, j: int)
    requires
        0 <= i < rows.len(),
        0 <= j < rows[i].cells@.len(),
    ensures
        spec_wire(spec_rows_triples(rows)).len() == rows.len(),
        spec_wire(spec_rows_triples(rows))[i].len() == rows[i].cells@.len(),
        spec_wire(spec_rows_triples(rows))[i][j] == spec_triple_list(
            spec_cell_triple(rows[i].cells@[j]),
        ),
{
}

} // verus!
