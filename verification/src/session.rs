use crate::signal::{resolve, Resolution};
use crate::SocketCompletionResponse;
use vstd::prelude::*;
use vstd::string::StringExecFns;

verus! {

/// Mathematical state of one worker connection: whether it is serving a
/// request (`busy`) and the chunks of the answer in progress, in arrival
/// order. `busy` also means the pending completion handle is present.
pub struct SessionState {
    pub busy: bool,
    pub chunks: Seq<Seq<char>>,
}

/// What one inbound protocol message did to a connection.
pub enum StepOutcome {
    /// Keep-alive; the state is untouched.
    Ignored,
    /// A fresh answer began; the buffer was cleared.
    Started,
    /// One chunk was appended to the buffer.
    Appended,
    /// The answer finished; the pending completion was resolved
    /// successfully with the concatenation of the buffered chunks.
    Completed(Seq<char>),
    /// Protocol violation; the pending completion, if any, was failed and
    /// the connection was forced back to an idle, empty state.
    Rejected,
}

/// One step of the worker-connection protocol: `ping` keeps the state;
/// `chatStart`, `chatChunk` and `chatEnd` drive a busy connection; any
/// other message, or a chat message while idle, is a violation that forces
/// the connection back to an idle, empty state.
pub open spec fn step(s: SessionState, action: Seq<char>, data: Option<Seq<char>>) -> (
    SessionState,
    StepOutcome,
) {
    if action == "ping"@ {
        (s, StepOutcome::Ignored)
    } else if s.busy && action == "chatStart"@ {
        (SessionState { busy: true, chunks: Seq::empty() }, StepOutcome::Started)
    } else if s.busy && action == "chatChunk"@ && data is Some {
        (
            SessionState { busy: true, chunks: s.chunks.push(data->0) },
            StepOutcome::Appended,
        )
    } else if s.busy && action == "chatEnd"@ {
        (
            SessionState { busy: false, chunks: Seq::empty() },
            StepOutcome::Completed(s.chunks.flatten()),
        )
    } else {
        (SessionState { busy: false, chunks: Seq::empty() }, StepOutcome::Rejected)
    }
}

/// Observable outcome of `WsSession::handle_msg`, mirroring `StepOutcome`
/// with the completed message carried as a `String`.
#[derive(Debug)]
pub enum MsgOutcome {
    Ignored,
    Started,
    Appended,
    Completed(String),
    Rejected,
}

impl MsgOutcome {
    pub open spec fn model(self) -> StepOutcome {
        match self {
            MsgOutcome::Ignored => StepOutcome::Ignored,
            MsgOutcome::Started => StepOutcome::Started,
            MsgOutcome::Appended => StepOutcome::Appended,
            MsgOutcome::Completed(m) => StepOutcome::Completed(m@),
            MsgOutcome::Rejected => StepOutcome::Rejected,
        }
    }
}

/// Relies on str's `PartialEq`: two string slices are equal exactly when
/// their character sequences are equal.
#[verifier::external_body]
fn str_eq(a: &str, b: &str) -> (r: bool)
    ensures
        r == (a@ == b@),
{
    a == b
}

/// Concatenates the chunks in arrival order, with no separator.
fn join_chunks(chunks: &Vec<String>) -> (r: String)
    ensures
        r@ == chunks.deep_view().flatten(),
{
    let mut out = String::new();
    let mut i: usize = 0;
    while i < chunks.len()
        invariant
            i <= chunks@.len(),
            out@ == chunks.deep_view().take(i as int).flatten(),
        decreases chunks@.len() - i,
    {
        out.append(chunks[i].as_str());
        proof {
            let dv = chunks.deep_view();
            assert(dv.take(i + 1) =~= dv.take(i as int).push(dv[i as int]));
            dv.take(i as int).lemma_flatten_push(dv[i as int]);
        }
        i += 1;
    }
    proof {
        assert(chunks.deep_view().take(chunks@.len() as int) =~= chunks.deep_view());
    }
    out
}

/// One live worker connection: the buffered chunks of the answer in
/// progress and, while busy, the completion handle of the request it is
/// serving.
pub struct WsSession {
    chunks: Vec<String>,
    sender: Option<tokio::sync::oneshot::Sender<SocketCompletionResponse>>,
}

impl WsSession {
    /// Mathematical view of the connection.
    pub closed spec fn model(self) -> SessionState {
        SessionState { busy: self.sender is Some, chunks: self.chunks.deep_view() }
    }

    /// A fresh connection starts idle with an empty buffer.
    pub fn new() -> (r: WsSession)
        ensures
            r.model() == (SessionState { busy: false, chunks: Seq::<Seq<char>>::empty() }),
    {
        let r = WsSession { chunks: Vec::new(), sender: None };
        proof {
            assert(r.chunks.deep_view() =~= Seq::<Seq<char>>::empty());
        }
        r
    }

    /// Availability probe: true exactly when no request is assigned.
    pub fn is_idle(&self) -> (r: bool)
        ensures
            r == !self.model().busy,
    {
        self.sender.is_none()
    }

    /// Atomic probe-and-assign: an idle connection becomes busy with an
    /// empty buffer, keeping the completion handle; a busy one is left
    /// untouched and the handle is handed back, so a pending completion is
    /// never overwritten.
    pub fn try_assign(
        &mut self,
        sender: tokio::sync::oneshot::Sender<SocketCompletionResponse>,
    ) -> (r: Option<tokio::sync::oneshot::Sender<SocketCompletionResponse>>)
        ensures
            old(self).model().busy ==> r == Some(sender) && *final(self) == *old(self),
            !old(self).model().busy ==> r is None && final(self).model() == (SessionState {
                busy: true,
                chunks: Seq::<Seq<char>>::empty(),
            }),
    {
        if self.sender.is_some() {
            Some(sender)
        } else {
            self.sender = Some(sender);
            self.chunks = Vec::new();
            proof {
                assert(self.chunks.deep_view() =~= Seq::<Seq<char>>::empty());
            }
            None
        }
    }

    /// Forced disconnect: fails the pending completion, if one is present,
    /// with the given reason, and clears the buffer. The receipt shows that
    /// the pending completion — held exactly when the connection was busy —
    /// was resolved with `succeeded = false` and the reason; resolving is
    /// inert when the awaiting side has already given up.
    pub fn disconnect_chat(&mut self, reason: &str) -> (r: Option<Resolution>)
        ensures
            final(self).model() == (SessionState {
                busy: false,
                chunks: Seq::<Seq<char>>::empty(),
            }),
            r is Some <==> old(self).model().busy,
            r matches Some(res) ==> res@ == (false, reason@),
    {
        let sender = self.sender.take();
        self.chunks = Vec::new();
        proof {
            assert(self.chunks.deep_view() =~= Seq::<Seq<char>>::empty());
        }
        match sender {
            Some(s) => Some(resolve(s, false, reason.to_owned())),
            None => None,
        }
    }

    /// Drives the state machine by one inbound protocol message, with the
    /// effect on the pending completion: `chatEnd` resolves it successfully
    /// with the concatenated chunks, and a protocol violation fails it with
    /// reason "invalid message action". The receipt shows the resolution,
    /// produced exactly when the connection goes from busy to idle.
    pub fn handle_msg(&mut self, action: &str, data: Option<String>) -> (r: (
        MsgOutcome,
        Option<Resolution>,
    ))
        ensures
            ({
                let next = step(old(self).model(), action@, data.deep_view());
                &&& final(self).model() == next.0
                &&& r.0.model() == next.1
                &&& (r.1 is Some <==> old(self).model().busy && !next.0.busy)
                &&& (r.1 matches Some(res) ==> res@ == (match next.1 {
                    StepOutcome::Completed(m) => (true, m),
                    _ => (false, "invalid message action"@),
                }))
            }),
    {
        if str_eq(action, "ping") {
            (MsgOutcome::Ignored, None)
        } else if self.sender.is_some() && str_eq(action, "chatStart") {
            self.chunks = Vec::new();
            proof {
                assert(self.chunks.deep_view() =~= Seq::<Seq<char>>::empty());
            }
            (MsgOutcome::Started, None)
        } else if self.sender.is_some() && str_eq(action, "chatChunk") {
            match data {
                Some(chunk) => {
                    let ghost cv = chunk@;
                    self.chunks.push(chunk);
                    proof {
                        assert(self.chunks.deep_view() =~= old(self).chunks.deep_view().push(cv));
                    }
                    (MsgOutcome::Appended, None)
                },
                None => {
                    proof {
                        reveal_strlit("chatChunk");
                        reveal_strlit("chatEnd");
                        assert("chatChunk"@.len() == 9);
                        assert("chatEnd"@.len() == 7);
                    }
                    self.reject()
                },
            }
        } else if self.sender.is_some() && str_eq(action, "chatEnd") {
            let message = join_chunks(&self.chunks);
            self.chunks = Vec::new();
            proof {
                assert(self.chunks.deep_view() =~= Seq::<Seq<char>>::empty());
            }
            let sender = self.sender.take();
            match sender {
                Some(s) => {
                    let res = resolve(s, true, message.clone());
                    (MsgOutcome::Completed(message), Some(res))
                },
                // Unreachable: busy means the completion handle is present.
                // Defended against as a protocol violation nonetheless.
                None => self.reject(),
            }
        } else {
            self.reject()
        }
    }

    /// Protocol violation: force the connection back to idle, failing any
    /// pending completion with reason "invalid message action".
    fn reject(&mut self) -> (r: (MsgOutcome, Option<Resolution>))
        ensures
            final(self).model() == (SessionState {
                busy: false,
                chunks: Seq::<Seq<char>>::empty(),
            }),
            r.0 == MsgOutcome::Rejected,
            r.1 is Some <==> old(self).model().busy,
            r.1 matches Some(res) ==> res@ == (false, "invalid message action"@),
    {
        let res = self.disconnect_chat("invalid message action");
        (MsgOutcome::Rejected, res)
    }
}

/// The four protocol actions are pairwise distinct words.
proof fn lemma_action_literals_distinct()
    ensures
        "ping"@ != "chatStart"@,
        "ping"@ != "chatChunk"@,
        "ping"@ != "chatEnd"@,
        "chatStart"@ != "chatChunk"@,
        "chatStart"@ != "chatEnd"@,
        "chatChunk"@ != "chatEnd"@,
{
    reveal_strlit("ping");
    reveal_strlit("chatStart");
    reveal_strlit("chatChunk");
    reveal_strlit("chatEnd");
    assert("ping"@.len() == 4);
    assert("chatStart"@.len() == 9);
    assert("chatChunk"@.len() == 9);
    assert("chatEnd"@.len() == 7);
    assert("chatStart"@[4] == 'S');
    assert("chatChunk"@[4] == 'C');
}

/// The state reached after a connection receives the given chunks, one
/// `chatChunk` message each, in order.
pub open spec fn feed_chunks(s: SessionState, cs: Seq<Seq<char>>) -> SessionState
    decreases cs.len(),
{
    if cs.len() == 0 {
        s
    } else {
        feed_chunks(step(s, "chatChunk"@, Some(cs[0])).0, cs.drop_first())
    }
}

proof fn lemma_feed_chunks_accumulates(s: SessionState, cs: Seq<Seq<char>>)
    requires
        s.busy,
    ensures
        feed_chunks(s, cs).busy,
        feed_chunks(s, cs).chunks == s.chunks + cs,
    decreases cs.len(),
{
    lemma_action_literals_distinct();
    if cs.len() == 0 {
        assert(s.chunks + cs =~= s.chunks);
    } else {
        let s1 = step(s, "chatChunk"@, Some(cs[0])).0;
        assert(s1.chunks == s.chunks.push(cs[0]));
        lemma_feed_chunks_accumulates(s1, cs.drop_first());
        assert(s.chunks.push(cs[0]) + cs.drop_first() =~= s.chunks + cs);
    }
}

/// Streaming law: starting a fresh answer on a busy connection with
/// `chatStart`, delivering chunks c_0 ... c_{n-1} in order with one
/// `chatChunk` message each, and closing with `chatEnd` completes the
/// request with exactly the concatenation of the chunks, in order, with no
/// separator.
pub proof fn lemma_streamed_answer_is_concatenation(s: SessionState, cs: Seq<Seq<char>>)
    requires
        s.busy,
    ensures
        ({
            let started = step(s, "chatStart"@, None).0;
            let fed = feed_chunks(started, cs);
            step(fed, "chatEnd"@, None).1 == StepOutcome::Completed(cs.flatten())
        }),
{
    lemma_action_literals_distinct();
    let started = step(s, "chatStart"@, None).0;
    assert(started.busy);
    lemma_feed_chunks_accumulates(started, cs);
    let fed = feed_chunks(started, cs);
    assert(fed.chunks =~= cs);
}

/// An exchange with no chunks at all (`chatStart` immediately followed by
/// `chatEnd`) still completes successfully, with the empty message.
pub proof fn lemma_empty_answer(s: SessionState)
    requires
        s.busy,
    ensures
        step(step(s, "chatStart"@, None).0, "chatEnd"@, None).1 == StepOutcome::Completed(
            Seq::<char>::empty(),
        ),
{
    lemma_streamed_answer_is_concatenation(s, Seq::empty());
    assert(feed_chunks(step(s, "chatStart"@, None).0, Seq::empty()) == step(
        s,
        "chatStart"@,
        None,
    ).0);
    assert(Seq::<Seq<char>>::empty().flatten() =~= Seq::<char>::empty());
}

} // verus!
