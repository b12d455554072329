use crate::session::{step, MsgOutcome, SessionState, StepOutcome, WsSession};
use crate::signal::{resolve, Resolution};
use crate::SocketCompletionResponse;
use vstd::prelude::*;
use vstd::string::StringExecFns;

verus! {

/// Mathematical view of one registered connection: its unique key and the
/// state of its session.
pub struct ConnModel {
    pub id: u64,
    pub sess: SessionState,
}

/// True when a connection with the given key is registered.
pub open spec fn has_conn(v: Seq<ConnModel>, id: u64) -> bool {
    exists|k: int| 0 <= k < v.len() && v[k].id == id
}

/// The position of the connection with the given key; meaningful only
/// when `has_conn` holds (keys are unique under `ServerState::wf`).
pub open spec fn idx_of(v: Seq<ConnModel>, id: u64) -> int {
    choose|k: int| 0 <= k < v.len() && v[k].id == id
}

/// With distinct keys, the position holding a key is the unique one that
/// `idx_of` names.
proof fn lemma_idx_of_unique(v: Seq<ConnModel>, id: u64, i: int)
    requires
        0 <= i < v.len(),
        v[i].id == id,
        forall|p: int, q: int|
            0 <= p < q < v.len() ==> #[trigger] v[p].id != #[trigger] v[q].id,
    ensures
        has_conn(v, id),
        idx_of(v, id) == i,
{
    assert(has_conn(v, id));
    let k = idx_of(v, id);
    assert(0 <= k < v.len() && v[k].id == id);
    if k < i {
        assert(v[k].id != v[i].id);
    }
    if i < k {
        assert(v[i].id != v[k].id);
    }
}

/// The position of the first idle connection at or after `i`, if any.
pub open spec fn first_idle_from(v: Seq<ConnModel>, i: int) -> Option<int>
    decreases v.len() - i,
{
    if i < 0 || i >= v.len() {
        None
    } else if !v[i].sess.busy {
        Some(i)
    } else {
        first_idle_from(v, i + 1)
    }
}

/// The position of the first idle connection in scan order, if any.
pub open spec fn first_idle(v: Seq<ConnModel>) -> Option<int> {
    first_idle_from(v, 0)
}

/// Selection law: the scan selects an idle connection, never a busy one,
/// and it selects the earliest one; it comes up empty exactly when every
/// registered connection is busy (in particular, when none is registered).
pub proof fn lemma_first_idle_selects_idle(v: Seq<ConnModel>)
    ensures
        first_idle(v) matches Some(k) ==> 0 <= k < v.len() && !v[k].sess.busy && (forall|j: int|
            0 <= j < k ==> v[j].sess.busy),
        first_idle(v) is None <==> (forall|j: int| 0 <= j < v.len() ==> v[j].sess.busy),
{
    lemma_first_idle_from_selects_idle(v, 0);
}

proof fn lemma_first_idle_from_selects_idle(v: Seq<ConnModel>, i: int)
    requires
        0 <= i <= v.len(),
    ensures
        first_idle_from(v, i) matches Some(k) ==> i <= k < v.len() && !v[k].sess.busy && (
        forall|j: int| i <= j < k ==> v[j].sess.busy),
        first_idle_from(v, i) is None <==> (forall|j: int| i <= j < v.len() ==> v[j].sess.busy),
    decreases v.len() - i,
{
    if i < v.len() && v[i].sess.busy {
        lemma_first_idle_from_selects_idle(v, i + 1);
    }
}

/// A scan that has only seen busy connections up to `i` finds the same
/// first idle connection as a scan from the start.
proof fn lemma_first_idle_skip_busy_prefix(v: Seq<ConnModel>, i: int)
    requires
        0 <= i <= v.len(),
        forall|j: int| 0 <= j < i ==> v[j].sess.busy,
    ensures
        first_idle(v) == first_idle_from(v, i),
    decreases i,
{
    if i > 0 {
        lemma_first_idle_skip_busy_prefix(v, i - 1);
    }
}

struct Connection {
    id: u64,
    session: WsSession,
}

/// The process-wide registry of live worker connections. Each connection
/// is stored under a unique, monotonically assigned key; scan order is the
/// registration order.
pub struct ServerState {
    sockets: Vec<Connection>,
    next_id: u64,
}

impl ServerState {
    /// Mathematical view of the registry, in scan order.
    pub closed spec fn conns(self) -> Seq<ConnModel> {
        self.sockets@.map_values(
            |c: Connection| ConnModel { id: c.id, sess: c.session.model() },
        )
    }

    /// The key the next registered connection will receive.
    pub closed spec fn fresh_id(self) -> u64 {
        self.next_id
    }

    /// Well-formedness: keys are unique and below the next fresh key.
    pub open spec fn wf(self) -> bool {
        &&& forall|i: int, j: int|
            0 <= i < j < self.conns().len() ==> #[trigger] self.conns()[i].id
                != #[trigger] self.conns()[j].id
        &&& forall|i: int|
            0 <= i < self.conns().len() ==> #[trigger] self.conns()[i].id < self.fresh_id()
    }

    /// An empty registry.
    pub fn new() -> (r: ServerState)
        ensures
            r.wf(),
            r.conns() == Seq::<ConnModel>::empty(),
    {
        let r = ServerState { sockets: Vec::new(), next_id: 0 };
        proof {
            assert(r.conns() =~= Seq::<ConnModel>::empty());
        }
        r
    }

    /// Registers a fresh, idle connection and returns its key; `None` only
    /// when the key space is exhausted.
    pub fn register(&mut self) -> (r: Option<u64>)
        requires
            old(self).wf(),
        ensures
            final(self).wf(),
            r is Some <==> old(self).fresh_id() < u64::MAX,
            r is None ==> *final(self) == *old(self),
            r matches Some(id) ==> id == old(self).fresh_id() && final(self).fresh_id() == id + 1
                && final(self).conns() == old(self).conns().push(
                ConnModel { id, sess: SessionState { busy: false, chunks: Seq::empty() } },
            ),
    {
        if self.next_id == u64::MAX {
            None
        } else {
            let id = self.next_id;
            self.next_id = id + 1;
            self.sockets.push(Connection { id, session: WsSession::new() });
            proof {
                assert(self.conns() =~= old(self).conns().push(
                    ConnModel { id, sess: SessionState { busy: false, chunks: Seq::empty() } },
                ));
            }
            Some(id)
        }
    }

    /// Removes the connection with the given key, failing its pending
    /// completion first if it was busy, so no completion handle is ever
    /// silently dropped: the receipt shows it was resolved with
    /// `succeeded = false` and the disconnect reason "worker connection
    /// closed". Asking to remove an unknown key is a caller error, excluded
    /// here.
    pub fn unregister(&mut self, id: u64) -> (r: Option<Resolution>)
        requires
            old(self).wf(),
            has_conn(old(self).conns(), id),
        ensures
            final(self).wf(),
            final(self).fresh_id() == old(self).fresh_id(),
            final(self).conns() == old(self).conns().remove(idx_of(old(self).conns(), id)),
            r is Some <==> old(self).conns()[idx_of(old(self).conns(), id)].sess.busy,
            r matches Some(res) ==> res@ == (false, "worker connection closed"@),
    {
        let mut i: usize = 0;
        while i < self.sockets.len() && self.sockets[i].id != id
            invariant
                self.conns() == old(self).conns(),
                self.fresh_id() == old(self).fresh_id(),
                i <= self.conns().len(),
                forall|j: int| 0 <= j < i ==> self.conns()[j].id != id,
            decreases self.conns().len() - i,
        {
            i += 1;
        }
        proof {
            assert(i < self.conns().len()) by {
                if i == self.conns().len() {
                    let w = choose|k: int|
                        0 <= k < old(self).conns().len() && old(self).conns()[k].id == id;
                    assert(self.conns()[w].id != id);
                }
            }
            lemma_idx_of_unique(old(self).conns(), id, i as int);
        }
        let mut conn = self.sockets.remove(i);
        let r = conn.session.disconnect_chat("worker connection closed");
        proof {
            assert(self.conns() =~= old(self).conns().remove(i as int));
        }
        r
    }

    /// Dispatch: scans the registered connections in order and assigns the
    /// completion handle to the first idle one, which becomes busy with an
    /// empty buffer; every other connection is untouched. When every
    /// connection is busy, or none is registered, the registry is unchanged
    /// and the handle itself is resolved, within the synchronous scan, with
    /// `succeeded = false` and the reason "no available clients to handle
    /// prompt" — the receipt in `Err` shows it.
    pub fn dispatch(&mut self, sender: tokio::sync::oneshot::Sender<SocketCompletionResponse>)
        -> (r: Result<u64, Resolution>)
        requires
            old(self).wf(),
        ensures
            final(self).wf(),
            final(self).fresh_id() == old(self).fresh_id(),
            match first_idle(old(self).conns()) {
                Some(k) => ({
                    &&& r matches Ok(id) && id == old(self).conns()[k].id
                    &&& final(self).conns() == old(self).conns().update(
                        k,
                        ConnModel {
                            id: old(self).conns()[k].id,
                            sess: SessionState { busy: true, chunks: Seq::empty() },
                        },
                    )
                }),
                None => ({
                    &&& r matches Err(res) && res@ == (
                        false,
                        "no available clients to handle prompt"@,
                    )
                    &&& final(self).conns() == old(self).conns()
                }),
            },
    {
        let mut pending = sender;
        let mut i: usize = 0;
        while i < self.sockets.len()
            invariant
                old(self).wf(),
                self.conns() == old(self).conns(),
                self.fresh_id() == old(self).fresh_id(),
                i <= self.conns().len(),
                forall|j: int| 0 <= j < i ==> self.conns()[j].sess.busy,
            decreases self.conns().len() - i,
        {
            let ghost prev = self.conns();
            let mut conn = self.sockets.remove(i);
            let id = conn.id;
            let back = conn.session.try_assign(pending);
            self.sockets.insert(i, conn);
            match back {
                None => {
                    proof {
                        assert(self.conns() =~= prev.update(
                            i as int,
                            ConnModel {
                                id: prev[i as int].id,
                                sess: SessionState { busy: true, chunks: Seq::empty() },
                            },
                        ));
                        lemma_first_idle_skip_busy_prefix(prev, i as int);
                        assert(first_idle(prev) == Some(i as int));
                        assert forall|p: int, q: int|
                            0 <= p < q < self.conns().len() implies #[trigger] self.conns()[p].id
                            != #[trigger] self.conns()[q].id by {
                            assert(self.conns()[p].id == old(self).conns()[p].id);
                            assert(self.conns()[q].id == old(self).conns()[q].id);
                            assert(old(self).conns()[p].id != old(self).conns()[q].id);
                        }
                        assert forall|p: int|
                            0 <= p < self.conns().len() implies #[trigger] self.conns()[p].id
                            < self.fresh_id() by {
                            assert(self.conns()[p].id == old(self).conns()[p].id);
                        }
                    }
                    return Ok(id);
                },
                Some(sb) => {
                    proof {
                        assert(self.conns() =~= prev);
                    }
                    pending = sb;
                    i += 1;
                },
            }
        }
        proof {
            lemma_first_idle_skip_busy_prefix(self.conns(), self.conns().len() as int);
        }
        Err(resolve(pending, false, String::from_str("no available clients to handle prompt")))
    }

    /// Routes one inbound protocol message to the connection with the
    /// given key, which takes a `step`; every other connection is
    /// untouched, and any resolution of that connection's pending
    /// completion is shown by the receipt, as in `WsSession::handle_msg`.
    /// Returns `None`, changing nothing, when the key is not registered.
    pub fn handle_message(&mut self, id: u64, action: &str, data: Option<String>) -> (r: Option<
        (MsgOutcome, Option<Resolution>),
    >)
        requires
            old(self).wf(),
        ensures
            final(self).wf(),
            final(self).fresh_id() == old(self).fresh_id(),
            !has_conn(old(self).conns(), id) ==> r is None && final(self).conns() == old(
                self,
            ).conns(),
            has_conn(old(self).conns(), id) ==> ({
                let k = idx_of(old(self).conns(), id);
                let next = step(old(self).conns()[k].sess, action@, data.deep_view());
                r matches Some(p) && ({
                    &&& p.0.model() == next.1
                    &&& (p.1 is Some <==> old(self).conns()[k].sess.busy && !next.0.busy)
                    &&& (p.1 matches Some(res) ==> res@ == (match next.1 {
                        StepOutcome::Completed(m) => (true, m),
                        _ => (false, "invalid message action"@),
                    }))
                    &&& final(self).conns() == old(self).conns().update(
                        k,
                        ConnModel { id, sess: next.0 },
                    )
                })
            }),
    {
        let mut i: usize = 0;
        while i < self.sockets.len() && self.sockets[i].id != id
            invariant
                self.conns() == old(self).conns(),
                self.fresh_id() == old(self).fresh_id(),
                i <= self.conns().len(),
                forall|j: int| 0 <= j < i ==> self.conns()[j].id != id,
            decreases self.conns().len() - i,
        {
            i += 1;
        }
        if i == self.sockets.len() {
            proof {
                assert(!has_conn(old(self).conns(), id)) by {
                    if has_conn(old(self).conns(), id) {
                        let w = choose|k: int|
                            0 <= k < old(self).conns().len() && old(self).conns()[k].id == id;
                        assert(self.conns()[w].id != id);
                    }
                }
            }
            return None;
        }
        proof {
            lemma_idx_of_unique(old(self).conns(), id, i as int);
        }
        let ghost prev = self.conns();
        let mut conn = self.sockets.remove(i);
        let outcome = conn.session.handle_msg(action, data);
        self.sockets.insert(i, conn);
        proof {
            assert(self.conns() =~= prev.update(
                i as int,
                ConnModel {
                    id,
                    sess: step(prev[i as int].sess, action@, data.deep_view()).0,
                },
            ));
            assert(forall|p: int|
                0 <= p < self.conns().len() ==> #[trigger] self.conns()[p].id == prev[p].id);
        }
        Some(outcome)
    }
}

} // verus!
