//! Runs that are under way: what clients may do to them.

use vstd::prelude::*;

use crate::dup::{push_all, Dup};
use crate::keyed::Keyed;
use crate::protocol::{ToolResultRequest, WireMessage, WireMessageView};
use crate::runtime::{is_id, new_id, RecvOutcome, RunId, SubmitError, WaitError};
use crate::text::same;

verus! {

/// The one who waits for the result of a tool.
pub struct ToolWaiter<W> {
    pub tool_call_id: String,
    pub tx: W,
}

/// A run. `W` is one who waits for the result of a tool.
pub struct RunHandle<W> {
    id: RunId,
    steer_queue: Vec<WireMessage>,
    waiter: Option<ToolWaiter<W>>,
    cancelled: bool,
    finished: bool,
}

/// What a `RunHandle` is.
#[verifier::ext_equal]
pub struct RunHandleView<W> {
    pub id: Seq<char>,
    pub steer: Seq<WireMessageView>,
    /// The awaited call, and the one who waits for it.
    pub waiter: Option<(Seq<char>, W)>,
    pub cancelled: bool,
    pub finished: bool,
}

impl<W> DeepView for RunHandle<W> {
    type V = RunHandleView<W>;

    closed spec fn deep_view(&self) -> RunHandleView<W> {
        RunHandleView {
            id: self.id.deep_view(),
            steer: self.steer_queue.deep_view(),
            waiter: match self.waiter {
                Some(waiter) => Some((waiter.tool_call_id@, waiter.tx)),
                None => None,
            },
            cancelled: self.cancelled,
            finished: self.finished,
        }
    }
}

/// A run that has just been made.
pub open spec fn fresh_run<W>(id: Seq<char>) -> RunHandleView<W> {
    RunHandleView {
        id,
        steer: Seq::empty(),
        waiter: None,
        cancelled: false,
        finished: false,
    }
}

impl<W> RunHandleView<W> {
    pub open spec fn after_cancel(self) -> Self {
        RunHandleView { cancelled: true, steer: Seq::empty(), waiter: None, ..self }
    }

    pub open spec fn after_finish(self) -> Self {
        RunHandleView { finished: true, waiter: None, ..self }
    }

    /// After messages were sent to the run, and whether it took them.
    pub open spec fn after_steer(self, messages: Seq<WireMessageView>) -> (
        Self,
        Result<(), SubmitError>,
    ) {
        if self.cancelled || self.finished {
            (self, Err(SubmitError::Conflict))
        } else {
            (RunHandleView { steer: self.steer + messages, ..self }, Ok(()))
        }
    }

    /// After the queued messages were taken, and those messages.
    pub open spec fn after_drain(self) -> (Self, Seq<WireMessageView>) {
        (RunHandleView { steer: Seq::empty(), ..self }, self.steer)
    }

    /// After someone wants to wait for the result of a call, and whether they may.
    pub open spec fn after_wait(self, call_id: Seq<char>, tx: W) -> (Self, Result<(), WaitError>) {
        if self.cancelled {
            (self, Err(WaitError::Cancelled))
        } else {
            (RunHandleView { waiter: Some((call_id, tx)), ..self }, Ok(()))
        }
    }

    /// After the result of a call came, and who is to get it.
    pub open spec fn after_submit(self, call_id: Seq<char>) -> (Self, Result<W, SubmitError>) {
        match self.waiter {
            Some((awaited, tx)) if awaited == call_id => (
                RunHandleView { waiter: None, ..self },
                Ok(tx),
            ),
            _ => (self, Err(SubmitError::Conflict)),
        }
    }

    /// The one who waits, where someone does.
    pub open spec fn waiting(self) -> W {
        match self.waiter {
            Some((_, tx)) => tx,
            None => arbitrary(),
        }
    }

    /// Whether the result of a call is awaited.
    pub open spec fn awaits(self, call_id: Seq<char>) -> bool {
        self.waiter matches Some(waiter) && waiter.0 == call_id
    }
}

impl<W> RunHandle<W> {
    pub fn new(id: RunId) -> (r: Self)
        ensures
            r.deep_view() == fresh_run::<W>(id.deep_view()),
    {
        let r = RunHandle {
            id,
            steer_queue: Vec::new(),
            waiter: None,
            cancelled: false,
            finished: false,
        };
        assert(r.steer_queue.deep_view() =~= Seq::<WireMessageView>::empty());
        r
    }

    pub fn id(&self) -> (r: &RunId)
        ensures
            r.deep_view() == self.deep_view().id,
    {
        &self.id
    }

    /// Queues messages for the run; refused once it is cancelled or over.
    pub fn enqueue_steer(&mut self, msgs: Vec<WireMessage>) -> (r: Result<(), SubmitError>)
        ensures
            if old(self).deep_view().cancelled || old(self).deep_view().finished {
                r == Err::<(), SubmitError>(SubmitError::Conflict) && final(self).deep_view()
                    == old(self).deep_view()
            } else {
                r == Ok::<(), SubmitError>(()) && final(self).deep_view() == (RunHandleView {
                    steer: old(self).deep_view().steer + msgs.deep_view(),
                    ..old(self).deep_view()
                })
            },
            (final(self).deep_view(), r) == old(self).deep_view().after_steer(msgs.deep_view()),
    {
        if self.cancelled || self.finished {
            return Err(SubmitError::Conflict);
        }
        push_all(&mut self.steer_queue, msgs);
        Ok(())
    }

    /// Takes the queued messages, in the order in which they came.
    pub fn drain_steer(&mut self) -> (r: Vec<WireMessage>)
        ensures
            r.deep_view() == old(self).deep_view().steer,
            final(self).deep_view() == (RunHandleView {
                steer: Seq::empty(),
                ..old(self).deep_view()
            }),
            (final(self).deep_view(), r.deep_view()) == old(self).deep_view().after_drain(),
    {
        let mut out: Vec<WireMessage> = Vec::new();
        std::mem::swap(&mut out, &mut self.steer_queue);
        assert(self.steer_queue.deep_view() =~= Seq::<WireMessageView>::empty());
        out
    }

    pub fn is_cancelled(&self) -> (r: bool)
        ensures
            r == self.deep_view().cancelled,
    {
        self.cancelled
    }

    /// Installs the waiter, in place of any other, so that the result can come before anyone asks
    /// for it.
    pub fn begin_wait_tool(&mut self, tool_call_id: String, tx: W) -> (r: Result<(), WaitError>)
        ensures
            if old(self).deep_view().cancelled {
                r == Err::<(), WaitError>(WaitError::Cancelled) && final(self).deep_view()
                    == old(self).deep_view()
            } else {
                r == Ok::<(), WaitError>(()) && final(self).deep_view() == (RunHandleView {
                    waiter: Some((tool_call_id@, tx)),
                    ..old(self).deep_view()
                })
            },
            (final(self).deep_view(), r) == old(self).deep_view().after_wait(tool_call_id@, tx),
    {
        if self.cancelled {
            return Err(WaitError::Cancelled);
        }
        self.waiter = Some(ToolWaiter { tool_call_id, tx });
        Ok(())
    }

    /// Ends a wait: one that timed out leaves no waiter behind.
    pub fn recv_tool(&mut self, outcome: RecvOutcome) -> (r: Result<ToolResultRequest, WaitError>)
        ensures
            match outcome {
                RecvOutcome::Result(result) => r == Ok::<_, WaitError>(result)
                    && final(self).deep_view() == old(self).deep_view(),
                RecvOutcome::Closed => r == Err::<ToolResultRequest, _>(WaitError::Cancelled)
                    && final(self).deep_view() == old(self).deep_view(),
                RecvOutcome::TimedOut => r == Err::<ToolResultRequest, _>(WaitError::Timeout)
                    && final(self).deep_view() == (RunHandleView {
                    waiter: None,
                    ..old(self).deep_view()
                }),
            },
    {
        match outcome {
            RecvOutcome::Result(result) => Ok(result),
            RecvOutcome::Closed => Err(WaitError::Cancelled),
            RecvOutcome::TimedOut => {
                self.waiter = None;
                Err(WaitError::Timeout)
            },
        }
    }

    /// Takes the waiter for a result, so that the result can be handed to it. Refused where no one
    /// waits for the call; one who waits for another call goes on waiting.
    pub fn submit_tool_result(&mut self, result: &ToolResultRequest) -> (r: Result<W, SubmitError>)
        ensures
            ({
                let before = old(self).deep_view();
                if before.awaits(result.deep_view().tool_call_id) {
                    r == Ok::<W, SubmitError>(before.waiting()) && final(self).deep_view() == (
                    RunHandleView { waiter: None, ..before })
                } else {
                    r == Err::<W, _>(SubmitError::Conflict) && final(self).deep_view() == before
                }
            }),
            (final(self).deep_view(), r) == old(self).deep_view().after_submit(
                result.deep_view().tool_call_id,
            ),
    {
        match self.waiter.take() {
            None => Err(SubmitError::Conflict),
            Some(waiter) => {
                if same(waiter.tool_call_id.as_str(), result.tool_call_id.as_str()) {
                    Ok(waiter.tx)
                } else {
                    self.waiter = Some(waiter);
                    Err(SubmitError::Conflict)
                }
            },
        }
    }

    /// Cancels the run: nothing is queued or awaited any more.
    pub fn cancel(&mut self)
        ensures
            final(self).deep_view() == old(self).deep_view().after_cancel(),
    {
        self.cancelled = true;
        self.steer_queue = Vec::new();
        self.waiter = None;
        assert(self.steer_queue.deep_view() =~= Seq::<WireMessageView>::empty());
    }

    /// Marks the run as over.
    pub fn finish(&mut self)
        ensures
            final(self).deep_view() == old(self).deep_view().after_finish(),
    {
        self.finished = true;
        self.waiter = None;
    }
}

/// The runs that are under way, by their ids.
pub struct RunRegistry<W> {
    runs: Keyed<RunHandle<W>>,
}

pub open spec fn run_views<W>(m: Map<Seq<char>, RunHandle<W>>) -> Map<
    Seq<char>,
    RunHandleView<W>,
> {
    Map::new(|k: Seq<char>| m.dom().contains(k), |k: Seq<char>| m[k].deep_view())
}

impl<W> DeepView for RunRegistry<W> {
    type V = Map<Seq<char>, RunHandleView<W>>;

    closed spec fn deep_view(&self) -> Map<Seq<char>, RunHandleView<W>> {
        run_views(self.runs@)
    }
}

impl<W> RunRegistry<W> {
    pub closed spec fn wf(self) -> bool {
        self.runs.wf()
    }

    pub fn new() -> (r: Self)
        ensures
            r.wf(),
            r.deep_view() == Map::<Seq<char>, RunHandleView<W>>::empty(),
    {
        let r = RunRegistry { runs: Keyed::new() };
        assert(r.deep_view() =~= Map::<Seq<char>, RunHandleView<W>>::empty());
        r
    }

    /// Adds a run with a new id.
    pub fn create(&mut self) -> (r: RunId)
        requires
            old(self).wf(),
        ensures
            is_id(r.deep_view()),
            final(self).wf(),
            final(self).deep_view() == old(self).deep_view().insert(
                r.deep_view(),
                fresh_run::<W>(r.deep_view()),
            ),
    {
        let id = RunId(new_id());
        let handle = RunHandle::new(id.dup());
        let key = id.0.dup();
        self.runs.insert(key, handle);
        assert(self.deep_view() =~= old(self).deep_view().insert(
            id.deep_view(),
            handle.deep_view(),
        ));
        id
    }

    /// The run with an id.
    pub fn get(&self, id: &str) -> (r: Option<&RunHandle<W>>)
        requires
            self.wf(),
        ensures
            match r {
                Some(run) => self.deep_view().dom().contains(id@) && run.deep_view()
                    == self.deep_view()[id@],
                None => !self.deep_view().dom().contains(id@),
            },
    {
        self.runs.get(id)
    }

    /// The run with an id, to be changed in place.
    pub fn get_mut(&mut self, id: &str) -> (r: Option<&mut RunHandle<W>>)
        requires
            old(self).wf(),
        ensures
            final(self).wf(),
            match r {
                Some(run) => {
                    &&& old(self).deep_view().dom().contains(id@)
                    &&& run.deep_view() == old(self).deep_view()[id@]
                    &&& final(self).deep_view() == old(self).deep_view().insert(
                        id@,
                        final(run).deep_view(),
                    )
                },
                None => !old(self).deep_view().dom().contains(id@) && *final(self) == *old(self),
            },
    {
        proof {
            let before = self.runs@;
            assert forall|run: RunHandle<W>| run_views(#[trigger] before.insert(id@, run))
                == run_views(before).insert(id@, run.deep_view()) by {
                assert(run_views(before.insert(id@, run)) =~= run_views(before).insert(
                    id@,
                    run.deep_view(),
                ));
            }
        }
        self.runs.get_mut(id)
    }
}

/// A cancelled run refuses every result, and a run that is over refuses steering and results.
pub proof fn law_ended_runs_refuse<W>(run: RunHandleView<W>, call_id: Seq<char>)
    ensures
        !run.after_cancel().awaits(call_id),
        !run.after_finish().awaits(call_id),
        run.after_cancel().cancelled,
        run.after_finish().finished,
        run.after_cancel().after_cancel() == run.after_cancel(),
        run.after_finish().after_finish() == run.after_finish(),
{
}

} // verus!
