//! Runs that are under way: steering, waiters for client tools, and the subscriber.
//!
//! A waiter `W` and a subscriber `S` are the sending ends by which the server reaches whoever
//! waits; the state only keeps them and hands them out.

use vstd::prelude::*;

use crate::dup::{push_all, Dup};
use crate::keyed::{has_key, Keyed};
use crate::protocol::{ToolResultRequest, WireMessage, WireMessageView};
use crate::store::{PendingTool, PendingToolView};
use crate::text::same;

verus! {

/// The identity of a run.
#[derive(Debug, PartialEq, Eq, Hash)]
pub struct RunId(pub String);

impl DeepView for RunId {
    type V = Seq<char>;

    open spec fn deep_view(&self) -> Seq<char> {
        self.0@
    }
}

impl Dup for RunId {
    fn dup(&self) -> (r: Self) {
        RunId(self.0.dup())
    }
}

/// Why a request to a run is refused.
#[derive(Debug, Clone, Copy, PartialEq, Eq, Structural)]
pub enum SubmitError {
    Conflict,
}

impl SubmitError {
    /// The text of the error.
    pub fn message(&self) -> (r: &'static str)
        ensures
            r@ == "run is not waiting for this tool result"@,
    {
        "run is not waiting for this tool result"
    }
}

/// Why a wait for a tool ends without a result.
#[derive(Debug, Clone, Copy, PartialEq, Eq, Structural)]
pub enum WaitError {
    Timeout,
    Cancelled,
}

impl WaitError {
    pub open spec fn text(self) -> Seq<char> {
        match self {
            WaitError::Timeout => "tool wait timed out"@,
            WaitError::Cancelled => "run cancelled"@,
        }
    }

    /// The text of the error.
    pub fn message(&self) -> (r: &'static str)
        ensures
            r@ == self.text(),
    {
        match self {
            WaitError::Timeout => "tool wait timed out",
            WaitError::Cancelled => "run cancelled",
        }
    }
}

/// What became of an event.
#[derive(Debug, Clone, Copy, PartialEq, Eq, Structural)]
pub enum EmitOutcome {
    Delivered,
    DroppedNoSubscriber,
}

/// How a wait for a tool ended.
#[derive(Debug, PartialEq)]
pub enum RecvOutcome {
    Result(ToolResultRequest),
    /// The waiter was dropped.
    Closed,
    TimedOut,
}

/// A run that is under way.
pub struct RunHandle<W, S> {
    id: RunId,
    steer_queue: Vec<WireMessage>,
    waiters: Keyed<W>,
    pending_tools: Keyed<PendingTool>,
    subscriber: Option<S>,
    persist: bool,
    cancelled: bool,
    finished: bool,
}

/// What a `RunHandle` is.
#[verifier::reject_recursive_types(W)]
#[verifier::reject_recursive_types(S)]
#[verifier::ext_equal]
pub struct RunHandleView<W, S> {
    pub id: Seq<char>,
    /// Messages that were sent to the run and not yet taken up.
    pub steer: Seq<WireMessageView>,
    /// Those who wait for the result of a client tool, by the id of the call.
    pub waiters: Map<Seq<char>, W>,
    /// The client tools whose results are awaited, by the id of the call.
    pub pending: Map<Seq<char>, PendingToolView>,
    /// Who gets the events.
    pub subscriber: Option<S>,
    pub persist: bool,
    pub cancelled: bool,
    pub finished: bool,
}

/// A run of which nothing has happened yet.
pub open spec fn fresh_run<W, S>(id: Seq<char>) -> RunHandleView<W, S> {
    RunHandleView {
        id,
        steer: Seq::empty(),
        waiters: Map::empty(),
        pending: Map::empty(),
        subscriber: None,
        persist: false,
        cancelled: false,
        finished: false,
    }
}

pub open spec fn pending_views(m: Map<Seq<char>, PendingTool>) -> Map<Seq<char>, PendingToolView> {
    Map::new(|k: Seq<char>| m.dom().contains(k), |k: Seq<char>| m[k].deep_view())
}

impl<W, S> DeepView for RunHandle<W, S> {
    type V = RunHandleView<W, S>;

    closed spec fn deep_view(&self) -> RunHandleView<W, S> {
        RunHandleView {
            id: self.id.deep_view(),
            steer: self.steer_queue.deep_view(),
            waiters: self.waiters@,
            pending: pending_views(self.pending_tools@),
            subscriber: self.subscriber,
            persist: self.persist,
            cancelled: self.cancelled,
            finished: self.finished,
        }
    }
}

impl<W, S> RunHandleView<W, S> {
    /// The calls that were made for a nested task.
    pub open spec fn calls_of_task(self, task_id: Seq<char>) -> Set<Seq<char>> {
        self.pending.dom().filter(
            |id: Seq<char>| self.pending[id].parent_task_id == Some(task_id),
        )
    }

    /// Whether the result of a tool is awaited.
    pub open spec fn awaits(self, tool: PendingToolView) -> bool {
        exists|id: Seq<char>| #[trigger]
            self.pending.dom().contains(id) && self.pending[id] == tool
    }

    /// Without what is kept of a call.
    pub open spec fn forgotten(self, call_id: Seq<char>) -> Self {
        RunHandleView {
            waiters: self.waiters.remove(call_id),
            pending: self.pending.remove(call_id),
            ..self
        }
    }

    /// After messages were sent to the run, and whether it took them.
    pub open spec fn after_steer(self, messages: Seq<WireMessageView>) -> (
        Self,
        Result<(), SubmitError>,
    ) {
        if self.cancelled || self.finished {
            (self, Err(SubmitError::Conflict))
        } else {
            (RunHandleView { steer: self.steer + messages, ..self }, Ok(()))
        }
    }

    /// After the queued messages were taken, and those messages.
    pub open spec fn after_drain(self) -> (Self, Seq<WireMessageView>) {
        (RunHandleView { steer: Seq::empty(), ..self }, self.steer)
    }

    /// After someone wants to wait for the result of a call, and whether they may.
    pub open spec fn after_wait(self, call_id: Seq<char>, waiter: W) -> (
        Self,
        Result<(), WaitError>,
    ) {
        if self.cancelled {
            (self, Err(WaitError::Cancelled))
        } else {
            (RunHandleView { waiters: self.waiters.insert(call_id, waiter), ..self }, Ok(()))
        }
    }

    /// With a client tool whose result is awaited.
    pub open spec fn after_record(self, tool: PendingToolView) -> Self {
        RunHandleView { pending: self.pending.insert(tool.tool_call_id, tool), ..self }
    }

    /// After the result of a call came, and who is to get it.
    pub open spec fn after_submit(self, call_id: Seq<char>) -> (Self, Result<W, SubmitError>) {
        if self.finished || !self.waiters.dom().contains(call_id) {
            (self, Err(SubmitError::Conflict))
        } else {
            (self.forgotten(call_id), Ok(self.waiters[call_id]))
        }
    }

    /// After a wait for the result of a call is over, and what came of it.
    pub open spec fn after_recv(self, call_id: Seq<char>, outcome: RecvOutcome) -> (
        Self,
        Result<ToolResultRequest, WaitError>,
    ) {
        match outcome {
            RecvOutcome::Result(result) => (self, Ok(result)),
            RecvOutcome::Closed => (self.forgotten(call_id), Err(WaitError::Cancelled)),
            RecvOutcome::TimedOut => (self.forgotten(call_id), Err(WaitError::Timeout)),
        }
    }

    /// Without what is kept of the calls of a nested task.
    pub open spec fn after_task_cancel(self, task_id: Seq<char>) -> Self {
        RunHandleView {
            waiters: self.waiters.remove_keys(self.calls_of_task(task_id)),
            pending: self.pending.remove_keys(self.calls_of_task(task_id)),
            ..self
        }
    }

    /// With one who gets the events.
    pub open spec fn after_subscribe(self, subscriber: S) -> Self {
        RunHandleView { subscriber: Some(subscriber), ..self }
    }

    /// After an event that the subscriber took or did not take, and what became of it.
    pub open spec fn after_emit(self, sent: bool) -> (Self, EmitOutcome) {
        (
            if sent {
                self
            } else {
                RunHandleView { subscriber: None, ..self }
            },
            if sent && self.subscriber is Some {
                EmitOutcome::Delivered
            } else {
                EmitOutcome::DroppedNoSubscriber
            },
        )
    }

    pub open spec fn after_cancel(self) -> Self {
        RunHandleView {
            steer: Seq::empty(),
            waiters: Map::empty(),
            pending: Map::empty(),
            cancelled: true,
            ..self
        }
    }

    pub open spec fn after_finish(self) -> Self {
        if self.finished {
            self
        } else {
            RunHandleView {
                steer: Seq::empty(),
                waiters: Map::empty(),
                pending: Map::empty(),
                subscriber: None,
                finished: true,
                ..self
            }
        }
    }
}

impl<W, S> RunHandle<W, S> {
    pub closed spec fn wf(self) -> bool {
        self.waiters.wf() && self.pending_tools.wf()
    }

    /// A handle for a known run.
    pub fn reopen(id: RunId) -> (r: Self)
        ensures
            r.wf(),
            r.deep_view() == fresh_run::<W, S>(id.deep_view()),
    {
        let r = RunHandle {
            id,
            steer_queue: Vec::new(),
            waiters: Keyed::new(),
            pending_tools: Keyed::new(),
            subscriber: None,
            persist: false,
            cancelled: false,
            finished: false,
        };
        assert(r.steer_queue.deep_view() =~= Seq::<WireMessageView>::empty());
        assert(pending_views(r.pending_tools@) =~= Map::<Seq<char>, PendingToolView>::empty());
        r
    }

    pub fn id(&self) -> (r: &RunId)
        ensures
            r.deep_view() == self.deep_view().id,
    {
        &self.id
    }

    /// Sets whether checkpoints of the run are kept.
    pub fn set_persist(&mut self, persist: bool)
        requires
            old(self).wf(),
        ensures
            final(self).wf(),
            final(self).deep_view() == (RunHandleView { persist, ..old(self).deep_view() }),
    {
        self.persist = persist;
    }

    pub fn persist_enabled(&self) -> (r: bool)
        ensures
            r == self.deep_view().persist,
    {
        self.persist
    }

    /// Replaces the subscriber; the last one wins.
    pub fn subscribe(&mut self, subscriber: S)
        requires
            old(self).wf(),
        ensures
            final(self).wf(),
            final(self).deep_view() == (RunHandleView {
                subscriber: Some(subscriber),
                ..old(self).deep_view()
            }),
            final(self).deep_view() == old(self).deep_view().after_subscribe(subscriber),
    {
        self.subscriber = Some(subscriber);
    }

    /// To whom the next event goes.
    pub fn subscriber(&self) -> (r: Option<&S>)
        ensures
            match r {
                Some(s) => self.deep_view().subscriber == Some(*s),
                None => self.deep_view().subscriber is None,
            },
    {
        self.subscriber.as_ref()
    }

    /// Records an event: `sent` says whether the subscriber took it, and is not read where there
    /// is none. One that did not take it is dropped, and the run goes on.
    pub fn emit_event(&mut self, sent: bool) -> (r: EmitOutcome)
        requires
            old(self).wf(),
        ensures
            final(self).wf(),
            r == (if old(self).deep_view().subscriber is Some && sent {
                EmitOutcome::Delivered
            } else {
                EmitOutcome::DroppedNoSubscriber
            }),
            final(self).deep_view() == (if sent {
                old(self).deep_view()
            } else {
                RunHandleView { subscriber: None, ..old(self).deep_view() }
            }),
            (final(self).deep_view(), r) == old(self).deep_view().after_emit(sent),
    {
        if self.subscriber.is_none() {
            return EmitOutcome::DroppedNoSubscriber;
        }
        if sent {
            EmitOutcome::Delivered
        } else {
            self.subscriber = None;
            EmitOutcome::DroppedNoSubscriber
        }
    }

    pub fn is_waiting_tool(&self) -> (r: bool)
        requires
            self.wf(),
        ensures
            r == (self.deep_view().waiters != Map::<Seq<char>, W>::empty()),
    {
        !self.waiters.is_empty()
    }

    /// Records a client tool whose result is awaited.
    pub fn upsert_pending_tool(&mut self, tool: PendingTool)
        requires
            old(self).wf(),
        ensures
            final(self).wf(),
            final(self).deep_view() == (RunHandleView {
                pending: old(self).deep_view().pending.insert(
                    tool.deep_view().tool_call_id,
                    tool.deep_view(),
                ),
                ..old(self).deep_view()
            }),
            final(self).deep_view() == old(self).deep_view().after_record(tool.deep_view()),
    {
        let key = tool.tool_call_id.dup();
        self.pending_tools.insert(key, tool);
        assert(self.deep_view().pending =~= old(self).deep_view().pending.insert(
            tool.deep_view().tool_call_id,
            tool.deep_view(),
        ));
    }

    pub fn remove_pending_tool(&mut self, tool_call_id: &str)
        requires
            old(self).wf(),
        ensures
            final(self).wf(),
            final(self).deep_view() == (RunHandleView {
                pending: old(self).deep_view().pending.remove(tool_call_id@),
                ..old(self).deep_view()
            }),
    {
        let _ = self.pending_tools.remove(tool_call_id);
        assert(self.deep_view().pending =~= old(self).deep_view().pending.remove(tool_call_id@));
    }

    /// All client tools whose results are awaited, each once, in any order.
    pub fn pending_tools(&self) -> (r: Vec<PendingTool>)
        requires
            self.wf(),
        ensures
            forall|i: int|
                0 <= i < r@.len() ==> self.deep_view().awaits((#[trigger] r@[i]).deep_view()),
            forall|id: Seq<char>| #[trigger]
                self.deep_view().pending.dom().contains(id) ==> exists|i: int|
                    0 <= i < r@.len() && (#[trigger] r@[i]).deep_view()
                        == self.deep_view().pending[id],
            r@.len() == self.deep_view().pending.dom().len(),
    {
        let mut out: Vec<PendingTool> = Vec::new();
        let mut i: usize = 0;
        let ghost listed = self.pending_tools.listed();
        while i < self.pending_tools.len()
            invariant
                i <= listed.len(),
                listed == self.pending_tools.listed(),
                out@.len() == i,
                forall|k: int|
                    0 <= k < i ==> (#[trigger] out@[k]).deep_view() == listed[k].1.deep_view(),
            decreases listed.len() - i,
        {
            out.push(self.pending_tools.value_at(i).dup());
            i = i + 1;
        }
        proof {
            self.pending_tools.lemma_listed();
            let pending = self.deep_view().pending;
            assert forall|k: int| 0 <= k < out@.len() implies self.deep_view().awaits(
                (#[trigger] out@[k]).deep_view(),
            ) by {
                assert(pending.dom().contains(listed[k].0@));
            }
            assert forall|id: Seq<char>| #[trigger] pending.dom().contains(id) implies exists|k: int|
                0 <= k < out@.len() && (#[trigger] out@[k]).deep_view() == pending[id] by {
                assert(self.pending_tools@.dom().contains(id));
                assert(has_key(listed, id));
                let k = choose|k: int| 0 <= k < listed.len() && (#[trigger] listed[k]).0@ == id;
                assert(out@[k].deep_view() == pending[id]);
            }
            let keys = Seq::new(listed.len(), |k: int| listed[k].0@);
            assert(keys.no_duplicates());
            assert(keys.to_set() =~= pending.dom()) by {
                assert forall|id: Seq<char>| pending.dom().contains(id) implies keys.to_set().contains(
                    id,
                ) by {
                    assert(self.pending_tools@.dom().contains(id));
                    let k = choose|k: int| 0 <= k < listed.len() && (#[trigger] listed[k]).0@ == id;
                    assert(keys[k] == id);
                }
                assert forall|id: Seq<char>| keys.to_set().contains(id) implies pending.dom().contains(
                    id,
                ) by {
                    let k = choose|k: int| 0 <= k < keys.len() && keys[k] == id;
                    assert(listed[k].0@ == id);
                }
            }
            keys.unique_seq_to_set();
        }
        out
    }

    /// A client tool whose result is awaited, if there is any.
    pub fn pending_tool(&self) -> (r: Option<PendingTool>)
        requires
            self.wf(),
        ensures
            match r {
                Some(tool) => self.deep_view().awaits(tool.deep_view()),
                None => self.deep_view().pending == Map::<Seq<char>, PendingToolView>::empty(),
            },
    {
        if self.pending_tools.len() > 0 {
            proof {
                self.pending_tools.lemma_listed();
                assert(self.deep_view().pending.dom().contains(
                    self.pending_tools.listed()[0].0@,
                ));
            }
            Some(self.pending_tools.value_at(0).dup())
        } else {
            proof {
                self.pending_tools.lemma_listed();
                assert(self.deep_view().pending =~= Map::<Seq<char>, PendingToolView>::empty());
            }
            None
        }
    }

    fn forget(&mut self, tool_call_id: &str)
        requires
            old(self).wf(),
        ensures
            final(self).wf(),
            final(self).deep_view() == old(self).deep_view().forgotten(tool_call_id@),
    {
        let _ = self.waiters.remove(tool_call_id);
        let _ = self.pending_tools.remove(tool_call_id);
        assert(self.deep_view().pending =~= old(self).deep_view().pending.remove(tool_call_id@));
    }

    fn calls_for_task(&self, parent_task_id: &str) -> (r: Vec<String>)
        requires
            self.wf(),
        ensures
            forall|id: Seq<char>| #[trigger]
                self.deep_view().calls_of_task(parent_task_id@).contains(id) <==> exists|i: int|
                    0 <= i < r@.len() && (#[trigger] r@[i])@ == id,
    {
        let mut ids: Vec<String> = Vec::new();
        let ghost listed = self.pending_tools.listed();
        let ghost wanted = self.deep_view().calls_of_task(parent_task_id@);
        let ghost pending = self.deep_view().pending;
        proof {
            self.pending_tools.lemma_listed();
        }
        let mut i: usize = 0;
        while i < self.pending_tools.len()
            invariant
                i <= listed.len(),
                listed == self.pending_tools.listed(),
                wanted == self.deep_view().calls_of_task(parent_task_id@),
                pending == self.deep_view().pending,
                forall|k: int|
                    0 <= k < listed.len() ==> pending.dom().contains((#[trigger] listed[k]).0@)
                        && pending[listed[k].0@] == listed[k].1.deep_view(),
                forall|j: int| 0 <= j < ids@.len() ==> wanted.contains((#[trigger] ids@[j])@),
                forall|k: int|
                    0 <= k < i && wanted.contains((#[trigger] listed[k]).0@) ==> exists|j: int|
                        0 <= j < ids@.len() && (#[trigger] ids@[j])@ == listed[k].0@,
            decreases listed.len() - i,
        {
            let ghost before = ids@;
            let tool = self.pending_tools.value_at(i);
            let belongs = match &tool.parent_task_id {
                Some(id) => same(id.as_str(), parent_task_id),
                None => false,
            };
            assert(pending[listed[i as int].0@] == tool.deep_view());
            assert(belongs <==> wanted.contains(listed[i as int].0@));
            if belongs {
                ids.push(self.pending_tools.key_at(i).dup());
                assert(ids@[before.len() as int]@ == listed[i as int].0@);
            }
            assert forall|k: int| 0 <= k < i + 1 && wanted.contains(
                (#[trigger] listed[k]).0@,
            ) implies exists|j: int| 0 <= j < ids@.len() && (#[trigger] ids@[j])@
                == listed[k].0@ by {
                if k < i {
                    let j = choose|j: int|
                        0 <= j < before.len() && (#[trigger] before[j])@ == listed[k].0@;
                    assert(ids@[j]@ == listed[k].0@);
                }
            }
            i = i + 1;
        }
        assert forall|id: Seq<char>| #[trigger] wanted.contains(id) implies exists|j: int|
            0 <= j < ids@.len() && (#[trigger] ids@[j])@ == id by {
            assert(self.pending_tools@.dom().contains(id));
            assert(has_key(listed, id));
            let k = choose|k: int| 0 <= k < listed.len() && (#[trigger] listed[k]).0@ == id;
            assert(wanted.contains(listed[k].0@));
        }
        ids
    }

    /// Drops the waiters and the pending tools of a nested task.
    pub fn cancel_waits_for_parent_task(&mut self, parent_task_id: &str)
        requires
            old(self).wf(),
        ensures
            final(self).wf(),
            ({
                let calls = old(self).deep_view().calls_of_task(parent_task_id@);
                final(self).deep_view() == (RunHandleView {
                    waiters: old(self).deep_view().waiters.remove_keys(calls),
                    pending: old(self).deep_view().pending.remove_keys(calls),
                    ..old(self).deep_view()
                })
            }),
            final(self).deep_view() == old(self).deep_view().after_task_cancel(parent_task_id@),
    {
        let ghost start = self.deep_view();
        let ghost calls = start.calls_of_task(parent_task_id@);
        let ids = self.calls_for_task(parent_task_id);
        let ghost mut done: Set<Seq<char>> = Set::empty();
        let mut i: usize = 0;
        assert(start.waiters.remove_keys(done) =~= start.waiters);
        assert(start.pending.remove_keys(done) =~= start.pending);
        while i < ids.len()
            invariant
                i <= ids@.len(),
                self.wf(),
                self.deep_view() == (RunHandleView {
                    waiters: start.waiters.remove_keys(done),
                    pending: start.pending.remove_keys(done),
                    ..start
                }),
                forall|id: Seq<char>| #[trigger]
                    done.contains(id) <==> exists|k: int| 0 <= k < i && (#[trigger] ids@[k])@ == id,
            decreases ids@.len() - i,
        {
            let ghost id = ids@[i as int]@;
            self.forget(ids[i].as_str());
            proof {
                assert(start.waiters.remove_keys(done).remove(id) =~= start.waiters.remove_keys(
                    done.insert(id),
                ));
                assert(start.pending.remove_keys(done).remove(id) =~= start.pending.remove_keys(
                    done.insert(id),
                ));
                let before = done;
                done = done.insert(id);
                assert forall|x: Seq<char>| #[trigger] done.contains(x) <==> exists|k: int|
                    0 <= k < i + 1 && (#[trigger] ids@[k])@ == x by {
                    if x == id {
                        assert(ids@[i as int]@ == x);
                    } else if before.contains(x) {
                        let k = choose|k: int| 0 <= k < i && (#[trigger] ids@[k])@ == x;
                        assert(ids@[k]@ == x);
                    }
                }
            }
            i = i + 1;
        }
        assert(done =~= calls) by {
            assert forall|x: Seq<char>| done.contains(x) <==> calls.contains(x) by {}
        }
    }

    /// Queues messages for the run; refused once it is cancelled or over.
    pub fn enqueue_steer(&mut self, msgs: Vec<WireMessage>) -> (r: Result<(), SubmitError>)
        requires
            old(self).wf(),
        ensures
            final(self).wf(),
            if old(self).deep_view().cancelled || old(self).deep_view().finished {
                r == Err::<(), SubmitError>(SubmitError::Conflict) && final(self).deep_view()
                    == old(self).deep_view()
            } else {
                r == Ok::<(), SubmitError>(()) && final(self).deep_view() == (RunHandleView {
                    steer: old(self).deep_view().steer + msgs.deep_view(),
                    ..old(self).deep_view()
                })
            },
            (final(self).deep_view(), r) == old(self).deep_view().after_steer(msgs.deep_view()),
    {
        if self.cancelled || self.finished {
            return Err(SubmitError::Conflict);
        }
        push_all(&mut self.steer_queue, msgs);
        Ok(())
    }

    /// Takes the queued messages, in the order in which they came.
    pub fn drain_steer(&mut self) -> (r: Vec<WireMessage>)
        requires
            old(self).wf(),
        ensures
            final(self).wf(),
            r.deep_view() == old(self).deep_view().steer,
            final(self).deep_view() == (RunHandleView {
                steer: Seq::empty(),
                ..old(self).deep_view()
            }),
            (final(self).deep_view(), r.deep_view()) == old(self).deep_view().after_drain(),
    {
        let mut out: Vec<WireMessage> = Vec::new();
        std::mem::swap(&mut out, &mut self.steer_queue);
        assert(self.steer_queue.deep_view() =~= Seq::<WireMessageView>::empty());
        out
    }

    pub fn is_cancelled(&self) -> (r: bool)
        ensures
            r == self.deep_view().cancelled,
    {
        self.cancelled
    }

    pub fn is_finished(&self) -> (r: bool)
        ensures
            r == self.deep_view().finished,
    {
        self.finished
    }

    /// Installs a waiter for the result of a client tool, so that the result can come before
    /// anyone asks for it. Waiters for several calls may be there at once.
    pub fn begin_wait_tool(&mut self, tool_call_id: String, waiter: W) -> (r: Result<(), WaitError>)
        requires
            old(self).wf(),
        ensures
            final(self).wf(),
            if old(self).deep_view().cancelled {
                r == Err::<(), WaitError>(WaitError::Cancelled) && final(self).deep_view()
                    == old(self).deep_view()
            } else {
                r == Ok::<(), WaitError>(()) && final(self).deep_view() == (RunHandleView {
                    waiters: old(self).deep_view().waiters.insert(tool_call_id@, waiter),
                    ..old(self).deep_view()
                })
            },
            (final(self).deep_view(), r) == old(self).deep_view().after_wait(tool_call_id@, waiter),
    {
        if self.cancelled {
            return Err(WaitError::Cancelled);
        }
        self.waiters.insert(tool_call_id, waiter);
        Ok(())
    }

    /// Records a client tool and installs a waiter for its result. A cancelled run takes the record
    /// and no waiter.
    pub fn arm_tool(&mut self, pending: PendingTool, waiter: W) -> (r: Result<(), WaitError>)
        requires
            old(self).wf(),
        ensures
            final(self).wf(),
            r == if old(self).deep_view().cancelled {
                Err::<(), WaitError>(WaitError::Cancelled)
            } else {
                Ok(())
            },
            final(self).deep_view() == (RunHandleView {
                pending: old(self).deep_view().pending.insert(
                    pending.deep_view().tool_call_id,
                    pending.deep_view(),
                ),
                waiters: if old(self).deep_view().cancelled {
                    old(self).deep_view().waiters
                } else {
                    old(self).deep_view().waiters.insert(pending.deep_view().tool_call_id, waiter)
                },
                ..old(self).deep_view()
            }),
            (final(self).deep_view(), r) == old(self).deep_view().after_record(
                pending.deep_view(),
            ).after_wait(pending.deep_view().tool_call_id, waiter),
    {
        let id = pending.tool_call_id.dup();
        self.upsert_pending_tool(pending);
        self.begin_wait_tool(id, waiter)
    }

    /// Ends a wait for a client tool: a result is handed on, and a wait that ended without one
    /// leaves nothing of the call behind.
    pub fn recv_tool(&mut self, tool_call_id: &str, outcome: RecvOutcome) -> (r: Result<
        ToolResultRequest,
        WaitError,
    >)
        requires
            old(self).wf(),
        ensures
            final(self).wf(),
            match outcome {
                RecvOutcome::Result(result) => r == Ok::<_, WaitError>(result)
                    && final(self).deep_view() == old(self).deep_view(),
                RecvOutcome::Closed => r == Err::<ToolResultRequest, _>(WaitError::Cancelled)
                    && final(self).deep_view() == old(self).deep_view().forgotten(tool_call_id@),
                RecvOutcome::TimedOut => r == Err::<ToolResultRequest, _>(WaitError::Timeout)
                    && final(self).deep_view() == old(self).deep_view().forgotten(tool_call_id@),
            },
            (final(self).deep_view(), r) == old(self).deep_view().after_recv(tool_call_id@, outcome),
    {
        match outcome {
            RecvOutcome::Result(result) => Ok(result),
            RecvOutcome::Closed => {
                self.forget(tool_call_id);
                Err(WaitError::Cancelled)
            },
            RecvOutcome::TimedOut => {
                self.forget(tool_call_id);
                Err(WaitError::Timeout)
            },
        }
    }

    /// Takes the waiter for a result, so that the result can be handed to it. Refused once the run
    /// is over, and where no one waits for the call.
    pub fn submit_tool_result(&mut self, result: &ToolResultRequest) -> (r: Result<W, SubmitError>)
        requires
            old(self).wf(),
        ensures
            final(self).wf(),
            ({
                let before = old(self).deep_view();
                let id = result.deep_view().tool_call_id;
                if before.finished || !before.waiters.dom().contains(id) {
                    r == Err::<W, _>(SubmitError::Conflict) && final(self).deep_view() == before
                } else {
                    r == Ok::<W, SubmitError>(before.waiters[id]) && final(self).deep_view()
                        == before.forgotten(id)
                }
            }),
            (final(self).deep_view(), r) == old(self).deep_view().after_submit(
                result.deep_view().tool_call_id,
            ),
    {
        if self.finished {
            return Err(SubmitError::Conflict);
        }
        match self.waiters.remove(result.tool_call_id.as_str()) {
            Some(waiter) => {
                let _ = self.pending_tools.remove(result.tool_call_id.as_str());
                assert(self.deep_view().pending =~= old(self).deep_view().pending.remove(
                    result.tool_call_id@,
                ));
                Ok(waiter)
            },
            None => {
                assert(self.deep_view().waiters =~= old(self).deep_view().waiters);
                Err(SubmitError::Conflict)
            },
        }
    }

    /// Cancels the run: nothing is queued or awaited any more.
    pub fn cancel(&mut self)
        requires
            old(self).wf(),
        ensures
            final(self).wf(),
            final(self).deep_view() == old(self).deep_view().after_cancel(),
    {
        self.cancelled = true;
        self.steer_queue = Vec::new();
        self.waiters.clear();
        self.pending_tools.clear();
        assert(self.steer_queue.deep_view() =~= Seq::<WireMessageView>::empty());
        assert(self.deep_view().pending =~= Map::<Seq<char>, PendingToolView>::empty());
    }

    /// Marks the run as over, and lets go of the subscriber.
    pub fn finish(&mut self)
        requires
            old(self).wf(),
        ensures
            final(self).wf(),
            final(self).deep_view() == old(self).deep_view().after_finish(),
    {
        if self.finished {
            return ;
        }
        self.finished = true;
        self.steer_queue = Vec::new();
        self.waiters.clear();
        self.pending_tools.clear();
        self.subscriber = None;
        assert(self.steer_queue.deep_view() =~= Seq::<WireMessageView>::empty());
        assert(self.deep_view().pending =~= Map::<Seq<char>, PendingToolView>::empty());
    }
}

/// Whether a text has the form of an id: lower-case hexadecimal digits in five groups with hyphens
/// between them.
pub open spec fn is_id(s: Seq<char>) -> bool {
    &&& s.len() == 36
    &&& forall|i: int|
        0 <= i < 36 ==> if i == 8 || i == 13 || i == 18 || i == 23 {
            #[trigger] s[i] == '-'
        } else {
            '0' <= s[i] <= '9' || 'a' <= s[i] <= 'f'
        }
}

/// Makes up an id with `uuid::Uuid::new_v4`, and writes it as `Uuid` does: in lower case and with
/// hyphens. The id is random: nothing but its form is claimed.
#[verifier::external_body]
pub(crate) fn random_id() -> (r: String)
    ensures
        is_id(r@),
{
    uuid::Uuid::new_v4().to_string()
}

/// A new id for a run, a message or an instance. It is random: two calls may be told apart by
/// nothing that is stated here.
pub fn new_id() -> (r: String)
    ensures
        is_id(r@),
{
    random_id()
}

/// The runs that are under way, by their ids.
pub struct RunRegistry<W, S> {
    runs: Keyed<RunHandle<W, S>>,
}

pub open spec fn run_views<W, S>(m: Map<Seq<char>, RunHandle<W, S>>) -> Map<
    Seq<char>,
    RunHandleView<W, S>,
> {
    Map::new(|k: Seq<char>| m.dom().contains(k), |k: Seq<char>| m[k].deep_view())
}

impl<W, S> DeepView for RunRegistry<W, S> {
    type V = Map<Seq<char>, RunHandleView<W, S>>;

    closed spec fn deep_view(&self) -> Map<Seq<char>, RunHandleView<W, S>> {
        run_views(self.runs@)
    }
}

impl<W, S> RunRegistry<W, S> {
    pub closed spec fn wf(self) -> bool {
        self.runs.wf() && forall|id: Seq<char>| #[trigger]
            self.runs@.dom().contains(id) ==> self.runs@[id].wf()
    }

    pub fn new() -> (r: Self)
        ensures
            r.wf(),
            r.deep_view() == Map::<Seq<char>, RunHandleView<W, S>>::empty(),
    {
        let r = RunRegistry { runs: Keyed::new() };
        assert(r.deep_view() =~= Map::<Seq<char>, RunHandleView<W, S>>::empty());
        r
    }

    /// Adds a run with a new id.
    pub fn create(&mut self) -> (r: RunId)
        requires
            old(self).wf(),
        ensures
            is_id(r.deep_view()),
            final(self).wf(),
            final(self).deep_view() == old(self).deep_view().insert(
                r.deep_view(),
                fresh_run::<W, S>(r.deep_view()),
            ),
    {
        let id = RunId(new_id());
        let handle = RunHandle::reopen(id.dup());
        self.insert(handle);
        id
    }

    /// Adds a run, in place of any with its id.
    pub fn insert(&mut self, handle: RunHandle<W, S>)
        requires
            old(self).wf(),
            handle.wf(),
        ensures
            final(self).wf(),
            final(self).deep_view() == old(self).deep_view().insert(
                handle.deep_view().id,
                handle.deep_view(),
            ),
    {
        let key = handle.id.0.dup();
        self.runs.insert(key, handle);
        assert(self.deep_view() =~= old(self).deep_view().insert(
            handle.deep_view().id,
            handle.deep_view(),
        ));
    }

    /// The run with an id.
    pub fn get(&self, id: &str) -> (r: Option<&RunHandle<W, S>>)
        requires
            self.wf(),
        ensures
            match r {
                Some(run) => run.wf() && self.deep_view().dom().contains(id@) && run.deep_view()
                    == self.deep_view()[id@],
                None => !self.deep_view().dom().contains(id@),
            },
    {
        self.runs.get(id)
    }

    /// The run with an id, to be changed in place.
    pub fn get_mut(&mut self, id: &str) -> (r: Option<&mut RunHandle<W, S>>)
        requires
            old(self).wf(),
        ensures
            match r {
                Some(run) => {
                    &&& run.wf()
                    &&& old(self).deep_view().dom().contains(id@)
                    &&& run.deep_view() == old(self).deep_view()[id@]
                    &&& final(run).wf() ==> final(self).wf()
                    &&& final(self).deep_view() == old(self).deep_view().insert(
                        id@,
                        final(run).deep_view(),
                    )
                },
                None => !old(self).deep_view().dom().contains(id@) && *final(self) == *old(self),
            },
    {
        proof {
            let before = self.runs@;
            assert forall|run: RunHandle<W, S>| run_views(#[trigger] before.insert(id@, run))
                == run_views(before).insert(id@, run.deep_view()) by {
                assert(run_views(before.insert(id@, run)) =~= run_views(before).insert(
                    id@,
                    run.deep_view(),
                ));
            }
        }
        self.runs.get_mut(id)
    }
}

/// A run that is over takes nothing more: steering and tool results are refused.
pub proof fn law_finished_run_refuses<W, S>(run: RunHandleView<W, S>, call_id: Seq<char>)
    ensures
        run.after_finish().finished,
        !run.finished ==> !run.after_finish().waiters.dom().contains(call_id)
            && run.after_finish().subscriber is None && run.after_finish().steer.len() == 0,
        run.after_finish().after_finish() == run.after_finish(),
{
}

/// A cancelled run has no waiters, so every tool result that comes later is refused, and it stays
/// cancelled.
pub proof fn law_cancelled_run_waits_for_nothing<W, S>(
    run: RunHandleView<W, S>,
    call_id: Seq<char>,
)
    ensures
        run.after_cancel().cancelled,
        !run.after_cancel().waiters.dom().contains(call_id),
        run.after_cancel().pending.dom() == Set::<Seq<char>>::empty(),
        run.after_cancel().after_cancel() == run.after_cancel(),
        run.after_cancel().finished == run.finished,
{
    assert(run.after_cancel().pending.dom() =~= Set::<Seq<char>>::empty());
}

/// A result is taken once: after it was handed to its waiter, the same result is refused.
pub proof fn law_result_is_taken_once<W, S>(run: RunHandleView<W, S>, call_id: Seq<char>)
    ensures
        !run.forgotten(call_id).waiters.dom().contains(call_id),
        !run.forgotten(call_id).pending.dom().contains(call_id),
        forall|other: Seq<char>|
            other != call_id && run.waiters.dom().contains(other) ==> run.forgotten(
                call_id,
            ).waiters.dom().contains(other) && #[trigger] run.forgotten(call_id).waiters[other]
                == run.waiters[other],
{
}

} // verus!
