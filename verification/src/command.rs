//! On-demand commands to a zm-next worker.
//!
//! A command goes out with a request id; the worker answers with a
//! Response (accepted or rejected) and, later, the owning plugin's result
//! event. This module keeps the table of requests waiting for an answer and
//! decides how each answer resolves them; the caller holds the waiting
//! futures and the connections.

use vstd::prelude::*;
use crate::protocol::{
    EVENT_CAPTURE_FAILED, EVENT_CAPTURE_RESUMED, EVENT_CONNECTION_FAILED, EVENT_CONNECTION_RESTORED,
    EVENT_DESCRIPTION, EVENT_DETECTION, EVENT_PRIME_CAPTURE_FAILED, EVENT_PRIME_CAPTURE_RESTORED,
    EVENT_RECORDING_SAVED, EVENT_SNAPSHOT, EVENT_STATE_CHANGED,
};
use crate::text::push_str;
use crate::worker_status::{EVENT_STREAM_AUTH_FAILED, EVENT_WORKER_DEGRADED, EVENT_WORKER_STATE};

verus! {

/// Why an on-demand command produced no result.
#[derive(Debug, Clone, PartialEq, Eq)]
pub enum CommandError {
    /// The monitor has no live worker connection to send on.
    NotConnected(u32),
    /// The worker refused the command (its Response had `ok:false`).
    Rejected(String),
    /// The owning plugin ran the command and reported failure.
    Failed(String),
    /// The worker accepted the command but no plugin answered within the
    /// timeout (milliseconds).
    NoResult(u64),
    /// Nothing at all came back within the timeout (milliseconds).
    Timeout(u64),
    /// The connection closed before the result arrived.
    Disconnected,
}

/// A request waiting for its result, as the table reports it.
#[derive(Debug, Clone, Copy, PartialEq, Eq, Structural)]
pub struct PendingRequest {
    pub request_id: u64,
    pub monitor_id: u32,
    /// Connection the command went out on.
    pub conn_id: u64,
    /// The worker's Response accepted the command.
    pub dispatched: bool,
}

#[verifier::external_type_specification]
#[verifier::external_body]
#[verifier::reject_recursive_types(K)]
#[verifier::reject_recursive_types(V)]
#[verifier::reject_recursive_types(S)]
pub struct ExDashMap<K, V, S>(dashmap::DashMap<K, V, S>);

/// The entries of a table of waiting requests, by request id: the
/// monitor, the connection and whether the worker accepted the command.
pub uninterp spec fn waiting_entries(m: dashmap::DashMap<u64, (u32, u64, bool)>) -> Map<u64, (u32, u64, bool)>;

/// `DashMap::new`: a map without entries.
#[verifier::external_body]
fn waiting_new() -> (r: dashmap::DashMap<u64, (u32, u64, bool)>)
    ensures
        waiting_entries(r).dom() == Set::<u64>::empty(),
{
    dashmap::DashMap::new()
}

/// `DashMap::insert`: the entry of `id` becomes `w`, the others stay.
#[verifier::external_body]
fn waiting_insert(m: &mut dashmap::DashMap<u64, (u32, u64, bool)>, id: u64, w: (u32, u64, bool))
    ensures
        waiting_entries(*final(m)) == waiting_entries(*old(m)).insert(id, w),
{
    m.insert(id, w);
}

/// `DashMap::get`: the entry of `id`, copied out, if there is one.
#[verifier::external_body]
fn waiting_get(m: &dashmap::DashMap<u64, (u32, u64, bool)>, id: u64) -> (r: Option<(u32, u64, bool)>)
    ensures
        r == if waiting_entries(*m).dom().contains(id) {
            Some(waiting_entries(*m)[id])
        } else {
            None::<(u32, u64, bool)>
        },
{
    m.get(&id).map(|e| *e.value())
}

/// `DashMap::remove`: the entry of `id` leaves the map and is returned, if
/// there was one.
#[verifier::external_body]
fn waiting_remove(m: &mut dashmap::DashMap<u64, (u32, u64, bool)>, id: u64) -> (r: Option<(u32, u64, bool)>)
    ensures
        waiting_entries(*final(m)) == waiting_entries(*old(m)).remove(id),
        r == if waiting_entries(*old(m)).dom().contains(id) {
            Some(waiting_entries(*old(m))[id])
        } else {
            None::<(u32, u64, bool)>
        },
{
    m.remove(&id).map(|(_, w)| w)
}

/// `DashMap::len`: the number of entries.
#[verifier::external_body]
fn waiting_len(m: &dashmap::DashMap<u64, (u32, u64, bool)>) -> (r: usize)
    ensures
        r == waiting_entries(*m).len(),
{
    m.len()
}

/// `DashMap::iter`, collected: every entry once, in no stated order.
#[verifier::external_body]
fn waiting_entries_vec(m: &dashmap::DashMap<u64, (u32, u64, bool)>) -> (r: Vec<(u64, (u32, u64, bool))>)
    ensures
        forall|i: int| 0 <= i < r@.len() ==> waiting_entries(*m).dom().contains(#[trigger] r@[i].0)
            && waiting_entries(*m)[r@[i].0] == r@[i].1,
        forall|k: u64| waiting_entries(*m).dom().contains(k) ==> exists|i: int| 0 <= i < r@.len() && #[trigger] r@[i].0 == k,
        forall|i: int, j: int| 0 <= i < j < r@.len() ==> r@[i].0 != r@[j].0,
{
    m.iter().map(|e| (*e.key(), *e.value())).collect()
}

/// The requests waiting for a result, by request id.
pub struct PendingTable {
    entries: dashmap::DashMap<u64, (u32, u64, bool)>,
}

impl View for PendingTable {
    type V = Map<u64, (u32, u64, bool)>;

    closed spec fn view(&self) -> Map<u64, (u32, u64, bool)> {
        waiting_entries(self.entries)
    }
}

/// Whether request `id` waits and was sent on connection `conn`.
pub open spec fn sent_on(m: Map<u64, (u32, u64, bool)>, id: u64, conn: u64) -> bool {
    m.dom().contains(id) && m[id].1 == conn
}

impl PendingTable {
    /// An empty table.
    pub fn new() -> (r: Self)
        ensures
            r@ == Map::<u64, (u32, u64, bool)>::empty(),
    {
        let r = PendingTable { entries: waiting_new() };
        assert(r@ =~= Map::<u64, (u32, u64, bool)>::empty());
        r
    }

    /// Number of waiting requests.
    pub fn len(&self) -> (r: usize)
        ensures
            r == self@.len(),
    {
        waiting_len(&self.entries)
    }

    /// The waiting request `id`, if any.
    pub fn get(&self, id: u64) -> (r: Option<PendingRequest>)
        ensures
            match r {
                Some(p) => self@.dom().contains(id) && p == (PendingRequest {
                    request_id: id,
                    monitor_id: self@[id].0,
                    conn_id: self@[id].1,
                    dispatched: self@[id].2,
                }),
                None => !self@.dom().contains(id),
            },
    {
        match waiting_get(&self.entries, id) {
            Some(w) => Some(PendingRequest { request_id: id, monitor_id: w.0, conn_id: w.1, dispatched: w.2 }),
            None => None,
        }
    }

    /// Remove request `id` (however its wait ended).
    pub fn remove(&mut self, id: u64)
        ensures
            final(self)@ == old(self)@.remove(id),
    {
        waiting_remove(&mut self.entries, id);
    }

    /// Register a request before its command is sent (the result can
    /// arrive before the Response). A request of the same id is replaced.
    pub fn register(&mut self, request_id: u64, monitor_id: u32, conn_id: u64)
        ensures
            final(self)@ == old(self)@.insert(request_id, (monitor_id, conn_id, false)),
    {
        waiting_insert(&mut self.entries, request_id, (monitor_id, conn_id, false));
    }

    /// A Response for request `id` arrived on connection `conn_id`. An
    /// acceptance marks the request as dispatched; a rejection removes it
    /// and returns `true`, the request then failing as rejected. A Response
    /// from another connection than the request's is ignored.
    pub fn on_response(&mut self, conn_id: u64, id: u64, ok: bool) -> (rejected: bool)
        ensures
            rejected == (sent_on(old(self)@, id, conn_id) && !ok),
            !sent_on(old(self)@, id, conn_id) ==> final(self)@ == old(self)@,
            sent_on(old(self)@, id, conn_id) && !ok ==> final(self)@ == old(self)@.remove(id),
            sent_on(old(self)@, id, conn_id) && ok ==> final(self)@ == old(self)@.insert(id, (old(self)@[id].0, conn_id, true)),
    {
        match waiting_get(&self.entries, id) {
            Some(w) => {
                if w.1 != conn_id {
                    return false;
                }
                if ok {
                    waiting_insert(&mut self.entries, id, (w.0, w.1, true));
                    false
                } else {
                    waiting_remove(&mut self.entries, id);
                    true
                }
            },
            None => false,
        }
    }

    /// A result event for request `id` came from monitor `monitor_id`. The
    /// request is removed and `true` returned when it waits and was sent to
    /// that monitor; otherwise nothing changes.
    pub fn on_result(&mut self, monitor_id: u32, id: u64) -> (resolved: bool)
        ensures
            resolved == (old(self)@.dom().contains(id) && old(self)@[id].0 == monitor_id),
            resolved ==> final(self)@ == old(self)@.remove(id),
            !resolved ==> final(self)@ == old(self)@,
    {
        match waiting_get(&self.entries, id) {
            Some(w) => {
                if w.0 != monitor_id {
                    return false;
                }
                waiting_remove(&mut self.entries, id);
                true
            },
            None => false,
        }
    }

    /// Connection `conn_id` closed: every request sent on it is removed,
    /// and their ids returned (each once, in no particular order) so that
    /// they fail as disconnected.
    pub fn on_disconnect(&mut self, conn_id: u64) -> (ids: Vec<u64>)
        ensures
            forall|k: u64| final(self)@.dom().contains(k) <==> (old(self)@.dom().contains(k) && old(self)@[k].1 != conn_id),
            forall|k: u64| final(self)@.dom().contains(k) ==> final(self)@[k] == old(self)@[k],
            forall|k: u64| ids@.contains(k) <==> sent_on(old(self)@, k, conn_id),
            forall|i: int, j: int| 0 <= i < j < ids@.len() ==> ids@[i] != ids@[j],
    {
        let ghost start = self@;
        let all = waiting_entries_vec(&self.entries);
        let mut ids: Vec<u64> = Vec::new();
        let mut i: usize = 0;
        while i < all.len()
            invariant
                i <= all@.len(),
                forall|a: int| 0 <= a < all@.len() ==> start.dom().contains(#[trigger] all@[a].0) && start[all@[a].0] == all@[a].1,
                forall|k: u64| start.dom().contains(k) ==> exists|a: int| 0 <= a < all@.len() && #[trigger] all@[a].0 == k,
                forall|a: int, b: int| 0 <= a < b < all@.len() ==> all@[a].0 != all@[b].0,
                forall|k: u64| self@.dom().contains(k) <==> (start.dom().contains(k)
                    && !(start[k].1 == conn_id && exists|a: int| 0 <= a < i && #[trigger] all@[a].0 == k)),
                forall|k: u64| self@.dom().contains(k) ==> self@[k] == start[k],
                forall|k: u64| ids@.contains(k) <==> (sent_on(start, k, conn_id) && exists|a: int| 0 <= a < i && #[trigger] all@[a].0 == k),
                forall|a: int, b: int| 0 <= a < b < ids@.len() ==> ids@[a] != ids@[b],
            decreases all@.len() - i,
        {
            let (k, w) = all[i];
            if w.1 == conn_id {
                let ghost before = ids@;
                proof {
                    assert(!before.contains(k)) by {
                        if before.contains(k) {
                            let a = choose|a: int| 0 <= a < i && #[trigger] all@[a].0 == k;
                            assert(all@[a].0 == all@[i as int].0);
                        }
                    }
                }
                waiting_remove(&mut self.entries, k);
                ids.push(k);
                proof {
                    assert forall|x: u64| ids@.contains(x) <==> (sent_on(start, x, conn_id) && exists|a: int| 0 <= a < i + 1 && #[trigger] all@[a].0 == x) by {
                        if ids@.contains(x) && x != k {
                            let n = choose|n: int| 0 <= n < ids@.len() && ids@[n] == x;
                            assert(before[n] == x);
                            assert(before.contains(x));
                        }
                        if x == k {
                            assert(all@[i as int].0 == x);
                            assert(ids@[ids@.len() - 1] == x);
                        }
                        if sent_on(start, x, conn_id) && (exists|a: int| 0 <= a < i + 1 && #[trigger] all@[a].0 == x) && x != k {
                            assert(before.contains(x));
                            let n = choose|n: int| 0 <= n < before.len() && before[n] == x;
                            assert(ids@[n] == x);
                        }
                    }
                    assert forall|x: u64| self@.dom().contains(x) <==> (start.dom().contains(x)
                        && !(start[x].1 == conn_id && exists|a: int| 0 <= a < i + 1 && #[trigger] all@[a].0 == x)) by {
                        if x == k {
                            assert(all@[i as int].0 == x);
                        }
                    }
                }
            } else {
                proof {
                    assert forall|x: u64| self@.dom().contains(x) <==> (start.dom().contains(x)
                        && !(start[x].1 == conn_id && exists|a: int| 0 <= a < i + 1 && #[trigger] all@[a].0 == x)) by {
                        if x == k {
                            assert(all@[i as int].0 == x);
                        }
                    }
                    assert forall|x: u64| ids@.contains(x) <==> (sent_on(start, x, conn_id) && exists|a: int| 0 <= a < i + 1 && #[trigger] all@[a].0 == x) by {
                        if x == k {
                            assert(all@[i as int].0 == x);
                        }
                    }
                }
            }
            i = i + 1;
        }
        ids
    }

    /// The error of a request whose wait timed out: no result from a plugin
    /// if the worker had accepted it, a plain timeout otherwise (also when
    /// the request is no longer waiting).
    pub fn timeout_error(&self, id: u64, timeout_ms: u64) -> (e: CommandError)
        ensures
            (self@.dom().contains(id) && self@[id].2) ==> e == CommandError::NoResult(timeout_ms),
            !(self@.dom().contains(id) && self@[id].2) ==> e == CommandError::Timeout(timeout_ms),
    {
        match waiting_get(&self.entries, id) {
            Some(w) => if w.2 { CommandError::NoResult(timeout_ms) } else { CommandError::Timeout(timeout_ms) },
            None => CommandError::Timeout(timeout_ms),
        }
    }
}

/// The outcome of a plugin's result: success when its `ok` is true, else a
/// failure with its `error` (or a stock reason when it gives none).
pub fn result_outcome(ok: Option<bool>, error: Option<String>) -> (r: Result<(), CommandError>)
    ensures
        ok == Some(true) ==> r is Ok,
        ok != Some(true) ==> match error {
            Some(e) => r == Err::<(), CommandError>(CommandError::Failed(e)),
            None => r matches Err(CommandError::Failed(m)) && m@ == "the plugin reported a failure without a reason"@,
        },
{
    match ok {
        Some(true) => Ok(()),
        _ => match error {
            Some(e) => Err(CommandError::Failed(e)),
            None => {
                let mut m = String::new();
                push_str(&mut m, "the plugin reported a failure without a reason");
                assert(Seq::<char>::empty() + "the plugin reported a failure without a reason"@
                    =~= "the plugin reported a failure without a reason"@);
                Err(CommandError::Failed(m))
            },
        },
    }
}

/// An event code with a meaning of its own in the protocol (health
/// snapshot, lifecycle, state, detection, description, recording, worker
/// status).
pub open spec fn known_event_code(code: u16) -> bool {
    code == EVENT_SNAPSHOT || code == EVENT_CONNECTION_FAILED || code == EVENT_CONNECTION_RESTORED
        || code == EVENT_PRIME_CAPTURE_FAILED || code == EVENT_PRIME_CAPTURE_RESTORED
        || code == EVENT_CAPTURE_FAILED || code == EVENT_CAPTURE_RESUMED || code == EVENT_STATE_CHANGED
        || code == EVENT_DETECTION || code == EVENT_DESCRIPTION || code == EVENT_RECORDING_SAVED
        || code == EVENT_WORKER_STATE || code == EVENT_STREAM_AUTH_FAILED || code == EVENT_WORKER_DEGRADED
}

/// Whether an event of this code can carry an on-demand result: a
/// description, or the snapshot-saved result, whose code is none of the
/// others.
pub open spec fn spec_result_code(code: u16) -> bool {
    code == EVENT_DESCRIPTION || !known_event_code(code)
}

/// Whether an event of this code can carry an on-demand result (see
/// [`spec_result_code`]); only such events have their detail read.
pub fn is_result_code(code: u16) -> (r: bool)
    ensures
        r == spec_result_code(code),
{
    let known = code == EVENT_SNAPSHOT || code == EVENT_CONNECTION_FAILED || code == EVENT_CONNECTION_RESTORED
        || code == EVENT_PRIME_CAPTURE_FAILED || code == EVENT_PRIME_CAPTURE_RESTORED
        || code == EVENT_CAPTURE_FAILED || code == EVENT_CAPTURE_RESUMED || code == EVENT_STATE_CHANGED
        || code == EVENT_DETECTION || code == EVENT_DESCRIPTION || code == EVENT_RECORDING_SAVED
        || code == EVENT_WORKER_STATE || code == EVENT_STREAM_AUTH_FAILED || code == EVENT_WORKER_DEGRADED;
    code == EVENT_DESCRIPTION || !known
}

/// Whether an event is the result of an on-demand command: a result code
/// whose detail is marked `on_demand: true`.
pub fn is_on_demand_result(code: u16, on_demand: Option<bool>) -> (r: bool)
    ensures
        r == (spec_result_code(code) && on_demand == Some(true)),
{
    is_result_code(code) && match on_demand {
        Some(b) => b,
        None => false,
    }
}

/// A request registered and then answered by its result leaves no trace:
/// the table is as it was without that id.
pub proof fn lemma_register_then_resolve(m: Map<u64, (u32, u64, bool)>, id: u64, monitor_id: u32, conn_id: u64)
    ensures
        m.insert(id, (monitor_id, conn_id, false)).remove(id) == m.remove(id),
{
    assert(m.insert(id, (monitor_id, conn_id, false)).remove(id) =~= m.remove(id));
}

/// A Response never touches a request sent on another connection, and a
/// result never resolves a request of another monitor.
pub proof fn lemma_answers_stay_on_their_connection(m: Map<u64, (u32, u64, bool)>, id: u64, other: u64)
    requires
        m.dom().contains(id),
        m[id].1 != other,
    ensures
        !sent_on(m, id, other),
{
}

} // verus!
