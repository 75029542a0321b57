//! What the server answers to a request.

use vstd::prelude::*;

use crate::agent::orchestrator::state::{
    default_opts, AgentRun, AgentRunView, AskView, EffectView, HappeningView, PersistSessionView,
    PhaseView, RunAgentOpts, RunAgentOptsView, RunPersist, RunPersistView, SaveRequest,
    SaveRequestView, StepEnv,
};
use crate::agent::orchestrator::steps::{session_of, started};
use crate::agent::tools::plan::nudged;
use crate::config::{GuardsConfig, SubagentsConfig};
use crate::dup::Dup;
use crate::json::{Json, JsonNum, JsonValue, Number};
use crate::protocol::{
    CreateRunRequest, CreateRunRequestView, SseEvent, SseEventView, SteerRequest, ToolCallView,
    ToolResultRequest, WireMessageView,
};
use crate::runtime::{RunHandle, RunHandleView, RunRegistry};
use crate::store::{
    cas, guards_from, Checkpoint, CheckpointView, GuardsSnapshot, PendingTool, PendingToolView,
    RunStatus, StoreError, StoreErrorView,
};
use crate::text::{same, trim, trimmed};

verus! {

/// Why a request is refused.
#[derive(Debug, Clone, Copy, PartialEq)]
pub enum ApiError {
    NotFound,
    Conflict {
        code: Option<&'static str>,
    },
}

/// What `ApiError` is.
#[verifier::ext_equal]
pub enum ApiErrorView {
    NotFound,
    Conflict {
        code: Option<Seq<char>>,
    },
}

impl DeepView for ApiError {
    type V = ApiErrorView;

    open spec fn deep_view(&self) -> ApiErrorView {
        match self {
            ApiError::NotFound => ApiErrorView::NotFound,
            ApiError::Conflict { code } => ApiErrorView::Conflict {
                code: match code {
                    Some(code) => Some(code@),
                    None => None,
                },
            },
        }
    }
}

/// A conflict without a code.
pub open spec fn conflict() -> ApiErrorView {
    ApiErrorView::Conflict { code: None }
}

/// The conflict of a run that another instance owns.
pub open spec fn not_owner() -> ApiErrorView {
    ApiErrorView::Conflict { code: Some("not_owner"@) }
}

impl ApiErrorView {
    pub open spec fn status(self) -> u16 {
        match self {
            ApiErrorView::NotFound => 404,
            ApiErrorView::Conflict { .. } => 409,
        }
    }

    pub open spec fn body(self) -> Json {
        match self {
            ApiErrorView::NotFound => Json::Obj(seq![("error"@, Json::Str("run not found"@))]),
            ApiErrorView::Conflict { code: Some(code) } => Json::Obj(
                seq![("code"@, Json::Str(code)), ("error"@, Json::Str("conflict"@))],
            ),
            ApiErrorView::Conflict { code: None } => Json::Obj(
                seq![("error"@, Json::Str("conflict"@))],
            ),
        }
    }
}

impl ApiError {
    /// The HTTP status of the answer.
    pub fn status(&self) -> (r: u16)
        ensures
            r == self.deep_view().status(),
    {
        match self {
            ApiError::NotFound => 404,
            ApiError::Conflict { .. } => 409,
        }
    }

    /// The JSON body of the answer.
    pub fn body(&self) -> (r: JsonValue)
        ensures
            r.tree() == self.deep_view().body(),
    {
        match self {
            ApiError::NotFound => JsonValue::object1("error", JsonValue::string("run not found")),
            ApiError::Conflict { code: Some(code) } => JsonValue::object2(
                "code",
                JsonValue::string(code),
                "error",
                JsonValue::string("conflict"),
            ),
            ApiError::Conflict { code: None } => JsonValue::object1(
                "error",
                JsonValue::string("conflict"),
            ),
        }
    }
}

/// The body of an answer that says no more than yes.
pub fn ok_body() -> (r: JsonValue)
    ensures
        r.tree() == Json::Obj(seq![("ok"@, Json::Bool(true))]),
{
    JsonValue::object1("ok", JsonValue::Bool(true))
}

/// The body of the answer to steering: how many messages were queued.
pub fn steer_body(queued: usize) -> (r: JsonValue)
    ensures
        r.tree() == Json::Obj(
            seq![
                ("ok"@, Json::Bool(true)),
                ("queued"@, Json::Num(JsonNum::PosInt(queued as u64))),
            ],
        ),
{
    JsonValue::object2(
        "ok",
        JsonValue::Bool(true),
        "queued",
        JsonValue::Number(Number::PosInt(queued as u64)),
    )
}

/// What is kept beside the checkpoint of a new run.
pub fn meta_body(instance_id: &str) -> (r: JsonValue)
    ensures
        r.tree() == Json::Obj(
            seq![("created"@, Json::Bool(true)), ("owner_id"@, Json::Str(instance_id@))],
        ),
{
    JsonValue::object2("created", JsonValue::Bool(true), "owner_id", JsonValue::string(instance_id))
}

/// The id of this instance: the configured one, or `fresh` where that is blank.
pub fn instance_id_or(configured: &str, fresh: String) -> (r: String)
    ensures
        r@ == if trimmed(configured@).len() == 0 {
            fresh@
        } else {
            configured@
        },
{
    let text = trim(configured);
    if same(text.as_str(), "") {
        proof {
            reveal_strlit("");
        }
        fresh
    } else {
        proof {
            reveal_strlit("");
            assert(text@.len() == 0 ==> text@ =~= ""@);
        }
        configured.to_owned()
    }
}

/// Why a request on a run that is not under way here is refused.
pub open spec fn refusal(stored: Option<CheckpointView>, instance_id: Seq<char>) -> ApiErrorView {
    match stored {
        None => ApiErrorView::NotFound,
        Some(cp) => if !cp.status.terminal() && cp.owner_id != Some(instance_id) {
            not_owner()
        } else {
            conflict()
        },
    }
}

/// Why a request on a run that is not under way here is refused: it is unknown, it is over,
/// another instance owns it, or it was not taken up again.
pub fn resolve_run_or_owner(stored: &Option<Checkpoint>, instance_id: &str) -> (r: ApiError)
    ensures
        r.deep_view() == refusal(stored.deep_view(), instance_id@),
{
    let cp = match stored {
        None => {
            return ApiError::NotFound;
        },
        Some(cp) => cp,
    };
    if cp.status.is_terminal() {
        return ApiError::Conflict { code: None };
    }
    let owned = match &cp.owner_id {
        Some(owner) => same(owner.as_str(), instance_id),
        None => false,
    };
    if owned {
        ApiError::Conflict { code: None }
    } else {
        ApiError::Conflict { code: Some("not_owner") }
    }
}

/// The runs after the result of a client tool came for one of them, and who is to get it.
pub open spec fn result_handed<W, S>(
    runs: Map<Seq<char>, RunHandleView<W, S>>,
    id: Seq<char>,
    stored: Option<CheckpointView>,
    instance_id: Seq<char>,
    call_id: Seq<char>,
) -> (Map<Seq<char>, RunHandleView<W, S>>, Result<W, ApiErrorView>) {
    if !runs.dom().contains(id) {
        (runs, Err(refusal(stored, instance_id)))
    } else {
        match runs[id].after_submit(call_id) {
            (run, Ok(waiter)) => (runs.insert(id, run), Ok(waiter)),
            (_, Err(_)) => (runs, Err(conflict())),
        }
    }
}

/// The runs after messages came for one of them, and how many were queued.
pub open spec fn messages_queued<W, S>(
    runs: Map<Seq<char>, RunHandleView<W, S>>,
    id: Seq<char>,
    stored: Option<CheckpointView>,
    instance_id: Seq<char>,
    messages: Seq<WireMessageView>,
) -> (Map<Seq<char>, RunHandleView<W, S>>, Result<nat, ApiErrorView>) {
    if !runs.dom().contains(id) {
        (runs, Err(refusal(stored, instance_id)))
    } else {
        match runs[id].after_steer(messages) {
            (run, Ok(_)) => (runs.insert(id, run), Ok(messages.len())),
            (_, Err(_)) => (runs, Err(conflict())),
        }
    }
}

/// The runs after one of them is to be cancelled, and whether it is known.
pub open spec fn run_cancelled<W, S>(
    runs: Map<Seq<char>, RunHandleView<W, S>>,
    id: Seq<char>,
) -> (Map<Seq<char>, RunHandleView<W, S>>, Result<(), ApiErrorView>) {
    if runs.dom().contains(id) {
        (runs.insert(id, runs[id].after_cancel()), Ok(()))
    } else {
        (runs, Err(ApiErrorView::NotFound))
    }
}

/// Hands the result of a client tool to the run that waits for it: gives the waiter.
pub fn tool_results<W, S>(
    registry: &mut RunRegistry<W, S>,
    id: &str,
    stored: &Option<Checkpoint>,
    instance_id: &str,
    body: &ToolResultRequest,
) -> (r: Result<W, ApiError>)
    requires
        old(registry).wf(),
    ensures
        final(registry).wf(),
        ({
            let runs = old(registry).deep_view();
            let call_id = body.deep_view().tool_call_id;
            if !runs.dom().contains(id@) {
                &&& r matches Err(err) && err.deep_view() == refusal(
                    stored.deep_view(),
                    instance_id@,
                )
                &&& final(registry).deep_view() == runs
            } else if runs[id@].finished || !runs[id@].waiters.dom().contains(call_id) {
                &&& r matches Err(err) && err.deep_view() == conflict()
                &&& final(registry).deep_view() == runs
            } else {
                &&& r == Ok::<W, ApiError>(runs[id@].waiters[call_id])
                &&& final(registry).deep_view() == runs.insert(
                    id@,
                    runs[id@].forgotten(call_id),
                )
            }
        }),
        ({
            let (runs, answer) = result_handed(
                old(registry).deep_view(),
                id@,
                stored.deep_view(),
                instance_id@,
                body.deep_view().tool_call_id,
            );
            &&& final(registry).deep_view() == runs
            &&& match r {
                Ok(waiter) => answer == Ok::<W, ApiErrorView>(waiter),
                Err(err) => answer == Err::<W, ApiErrorView>(err.deep_view()),
            }
        }),
{
    let ghost runs = registry.deep_view();
    match registry.get_mut(id) {
        None => Err(resolve_run_or_owner(stored, instance_id)),
        Some(run) => match run.submit_tool_result(body) {
            Ok(waiter) => Ok(waiter),
            Err(_) => {
                assert(runs.insert(id@, runs[id@]) =~= runs);
                Err(ApiError::Conflict { code: None })
            },
        },
    }
}

/// Queues messages for a run: gives how many.
pub fn steer<W, S>(
    registry: &mut RunRegistry<W, S>,
    id: &str,
    stored: &Option<Checkpoint>,
    instance_id: &str,
    body: SteerRequest,
) -> (r: Result<usize, ApiError>)
    requires
        old(registry).wf(),
    ensures
        final(registry).wf(),
        ({
            let runs = old(registry).deep_view();
            let messages = body.deep_view().messages;
            if !runs.dom().contains(id@) {
                &&& r matches Err(err) && err.deep_view() == refusal(
                    stored.deep_view(),
                    instance_id@,
                )
                &&& final(registry).deep_view() == runs
            } else if runs[id@].cancelled || runs[id@].finished {
                &&& r matches Err(err) && err.deep_view() == conflict()
                &&& final(registry).deep_view() == runs
            } else {
                &&& r matches Ok(queued) && queued == messages.len()
                &&& final(registry).deep_view() == runs.insert(
                    id@,
                    RunHandleView { steer: runs[id@].steer + messages, ..runs[id@] },
                )
            }
        }),
        ({
            let (runs, answer) = messages_queued(
                old(registry).deep_view(),
                id@,
                stored.deep_view(),
                instance_id@,
                body.deep_view().messages,
            );
            &&& final(registry).deep_view() == runs
            &&& match r {
                Ok(queued) => answer == Ok::<nat, ApiErrorView>(queued as nat),
                Err(err) => answer == Err::<nat, ApiErrorView>(err.deep_view()),
            }
        }),
{
    let ghost runs = registry.deep_view();
    let queued: usize = body.messages.len();
    match registry.get_mut(id) {
        None => Err(resolve_run_or_owner(stored, instance_id)),
        Some(run) => match run.enqueue_steer(body.messages) {
            Ok(()) => Ok(queued),
            Err(_) => {
                assert(runs.insert(id@, runs[id@]) =~= runs);
                Err(ApiError::Conflict { code: None })
            },
        },
    }
}

/// Cancels a run that is under way here.
pub fn cancel_run<W, S>(registry: &mut RunRegistry<W, S>, id: &str) -> (r: Result<(), ApiError>)
    requires
        old(registry).wf(),
    ensures
        final(registry).wf(),
        ({
            let runs = old(registry).deep_view();
            if runs.dom().contains(id@) {
                &&& r is Ok
                &&& final(registry).deep_view() == runs.insert(id@, runs[id@].after_cancel())
            } else {
                &&& r matches Err(err) && err.deep_view() == ApiErrorView::NotFound
                &&& final(registry).deep_view() == runs
            }
        }),
        ({
            let (runs, answer) = run_cancelled(old(registry).deep_view(), id@);
            &&& final(registry).deep_view() == runs
            &&& match r {
                Ok(_) => answer is Ok,
                Err(err) => answer == Err::<(), ApiErrorView>(err.deep_view()),
            }
        }),
{
    match registry.get_mut(id) {
        None => Err(ApiError::NotFound),
        Some(run) => {
            run.cancel();
            Ok(())
        },
    }
}

/// How a new run begins.
#[derive(Debug, PartialEq)]
pub struct NewRun {
    /// Whether checkpoints of the run are kept.
    pub persist: bool,
    /// The first checkpoint, to be written before the run starts.
    pub first: Option<SaveRequest>,
}

/// What a `NewRun` is.
#[verifier::ext_equal]
pub struct NewRunView {
    pub persist: bool,
    pub first: Option<SaveRequestView>,
}

impl DeepView for NewRun {
    type V = NewRunView;

    open spec fn deep_view(&self) -> NewRunView {
        NewRunView {
            persist: self.persist,
            first: self.first.deep_view(),
        }
    }
}

/// How a new run begins: checkpoints are kept where the server keeps them, the request wants them
/// and there is a store; the first one has what the request brought.
pub open spec fn new_run_of(
    req: CreateRunRequestView,
    run_id: Seq<char>,
    instance_id: Seq<char>,
    persist_enabled: bool,
    has_store: bool,
    now: u64,
) -> NewRunView {
    let persist = persist_enabled && req.options.persist && has_store;
    NewRunView {
        persist,
        first: if persist {
            Some(
                SaveRequestView {
                    checkpoint: CheckpointView {
                        run_id,
                        status: RunStatus::Running,
                        context: req.messages,
                        tools: req.tools,
                        todos: Seq::empty(),
                        plan_mode: req.options.plan_mode,
                        subagents: req.options.subagents,
                        pending_tool: None,
                        guards: guards_from(now),
                        parent_run_id: None,
                        owner_id: Some(instance_id),
                        revision: 1,
                        finish_reason: None,
                    },
                    expected: 0,
                },
            )
        } else {
            None
        },
    }
}

/// How a new run begins.
pub fn new_run(
    req: &CreateRunRequest,
    run_id: &str,
    instance_id: &str,
    persist_enabled: bool,
    has_store: bool,
    now: u64,
) -> (r: NewRun)
    ensures
        r.deep_view() == new_run_of(
            req.deep_view(),
            run_id@,
            instance_id@,
            persist_enabled,
            has_store,
            now,
        ),
{
    let persist = persist_enabled && req.options.persist && has_store;
    if !persist {
        return NewRun { persist, first: None };
    }
    let checkpoint = Checkpoint {
        run_id: run_id.to_owned(),
        status: RunStatus::Running,
        context: req.messages.dup(),
        tools: req.tools.dup(),
        todos: Vec::new(),
        plan_mode: req.options.plan_mode,
        subagents: req.options.subagents,
        pending_tool: None,
        guards: GuardsSnapshot::new_at(now),
        parent_run_id: None,
        owner_id: Some(instance_id.to_owned()),
        revision: 1,
        finish_reason: None,
    };
    assert(checkpoint.todos.deep_view() =~= Seq::empty());
    NewRun { persist, first: Some(SaveRequest { checkpoint, expected: 0 }) }
}

/// The loop of a new run; `revision` is that of the stored checkpoint.
pub open spec fn started_run(
    req: CreateRunRequestView,
    run_id: Seq<char>,
    instance_id: Seq<char>,
    persist: bool,
    revision: u64,
    guards_cfg: GuardsConfig,
    subagents_cfg: SubagentsConfig,
    now: u64,
) -> AgentRunView {
    started(
        run_id,
        req.messages,
        req.tools,
        session_of(
            if persist {
                Some(RunPersistView { instance_id, revision })
            } else {
                None
            },
            persist,
            RunAgentOptsView {
                plan_mode: req.options.plan_mode,
                subagents: req.options.subagents,
                guards_cfg,
                subagents_cfg,
                ..default_opts()
            },
            now,
        ),
        PhaseView::Start(true),
    )
}

/// The loop of a new run; `revision` is that of the stored checkpoint.
pub fn start_run(
    req: CreateRunRequest,
    run_id: String,
    instance_id: String,
    persist: bool,
    revision: u64,
    guards_cfg: GuardsConfig,
    subagents_cfg: SubagentsConfig,
    now: u64,
) -> (r: AgentRun)
    ensures
        r.deep_view() == started(
            run_id@,
            req.deep_view().messages,
            req.deep_view().tools,
            session_of(
                if persist {
                    Some(RunPersistView { instance_id: instance_id@, revision })
                } else {
                    None
                },
                persist,
                RunAgentOptsView {
                    plan_mode: req.deep_view().options.plan_mode,
                    subagents: req.deep_view().options.subagents,
                    guards_cfg,
                    subagents_cfg,
                    ..default_opts()
                },
                now,
            ),
            PhaseView::Start(true),
        ),
        r.deep_view() == started_run(
            req.deep_view(),
            run_id@,
            instance_id@,
            persist,
            revision,
            guards_cfg,
            subagents_cfg,
            now,
        ),
{
    let opts = RunAgentOpts::lead(
        req.options.plan_mode,
        req.options.subagents,
        guards_cfg,
        subagents_cfg,
    );
    let keeper = if persist {
        Some(RunPersist { instance_id, revision })
    } else {
        None
    };
    AgentRun::run_agent(run_id, req.messages, req.tools, keeper, persist, opts, now)
}

/// The request for a client tool whose result is awaited.
pub open spec fn request_for(run_id: Seq<char>, pending: PendingToolView) -> SseEventView {
    SseEventView::ToolRequest {
        run_id,
        tool_call_id: pending.tool_call_id,
        name: pending.name,
        arguments: pending.arguments,
        agent_id: pending.agent_id,
        parent_task_id: pending.parent_task_id,
    }
}

fn tool_request(run_id: &str, pending: &PendingTool) -> (r: SseEvent)
    ensures
        r.deep_view() == request_for(run_id@, pending.deep_view()),
{
    SseEvent::ToolRequest {
        run_id: run_id.to_owned(),
        tool_call_id: pending.tool_call_id.dup(),
        name: pending.name.dup(),
        arguments: pending.arguments.dup(),
        agent_id: pending.agent_id.dup(),
        parent_task_id: pending.parent_task_id.dup(),
    }
}

/// What a new subscriber of a run that is known here is sent first.
#[derive(Debug, PartialEq)]
pub enum HotEvents {
    Over(SseEvent),
    Live(Vec<SseEvent>),
}

/// What `HotEvents` is.
#[verifier::ext_equal]
pub enum HotEventsView {
    Over(SseEventView),
    Live(Seq<SseEventView>),
}

impl DeepView for HotEvents {
    type V = HotEventsView;

    open spec fn deep_view(&self) -> HotEventsView {
        match self {
            HotEvents::Over(x) => HotEventsView::Over(x.deep_view()),
            HotEvents::Live(x) => HotEventsView::Live(x.deep_view()),
        }
    }
}

/// The event that a run is taken up again.
pub open spec fn resumed(run_id: Seq<char>, revision: u64, status: RunStatus) -> SseEventView {
    SseEventView::RunResumed { run_id, revision, status: status.label() }
}

/// Whether this is what a new subscriber of a run is to be sent first.
pub open spec fn is_sent_first<W, S>(
    run: RunHandleView<W, S>,
    revision: u64,
    hot: HotEventsView,
) -> bool {
    match hot {
        HotEventsView::Over(event) => run.finished && event == (SseEventView::RunFinished {
            run_id: run.id,
            reason: "stop"@,
        }),
        HotEventsView::Live(events) => {
            &&& !run.finished
            &&& events.len() == 1 + run.pending.dom().len()
            &&& events[0] == resumed(
                run.id,
                revision,
                if run.waiters == Map::<Seq<char>, W>::empty() {
                    RunStatus::Running
                } else {
                    RunStatus::WaitingTool
                },
            )
            &&& forall|call_id: Seq<char>| #[trigger]
                run.pending.dom().contains(call_id) ==> events.contains(
                    request_for(run.id, run.pending[call_id]),
                )
            &&& forall|i: int|
                1 <= i < events.len() ==> is_open_request(run, #[trigger] events[i])
        },
    }
}

/// What a new subscriber of a run that is known here is sent first: that it is over; or that it is
/// taken up again, and then every request for a client tool that is still open.
pub fn hot_events<W, S>(run: &RunHandle<W, S>, revision: u64) -> (r: HotEvents)
    requires
        run.wf(),
    ensures
        ({
            let view = run.deep_view();
            match r.deep_view() {
                HotEventsView::Over(event) => {
                    &&& view.finished
                    &&& event == SseEventView::RunFinished { run_id: view.id, reason: "stop"@ }
                },
                HotEventsView::Live(events) => {
                    &&& !view.finished
                    &&& events.len() == 1 + view.pending.dom().len()
                    &&& events[0] == resumed(
                        view.id,
                        revision,
                        if view.waiters == Map::<Seq<char>, W>::empty() {
                            RunStatus::Running
                        } else {
                            RunStatus::WaitingTool
                        },
                    )
                    &&& forall|call_id: Seq<char>| #[trigger]
                        view.pending.dom().contains(call_id) ==> events.contains(
                            request_for(view.id, view.pending[call_id]),
                        )
                    &&& forall|i: int|
                        1 <= i < events.len() ==> is_open_request(view, #[trigger] events[i])
                },
            }
        }),
        is_sent_first(run.deep_view(), revision, r.deep_view()),
{
    let run_id = run.id().0.as_str();
    let ghost view = run.deep_view();
    if run.is_finished() {
        return HotEvents::Over(
            SseEvent::RunFinished { run_id: run_id.to_owned(), reason: "stop".to_owned() },
        );
    }
    let status = if run.is_waiting_tool() {
        RunStatus::WaitingTool
    } else {
        RunStatus::Running
    };
    let mut events: Vec<SseEvent> = Vec::new();
    events.push(
        SseEvent::RunResumed {
            run_id: run_id.to_owned(),
            revision,
            status: status.as_str().to_owned(),
        },
    );
    let open = run.pending_tools();
    let mut i: usize = 0;
    while i < open.len()
        invariant
            i <= open@.len(),
            run_id@ == view.id,
            events@.len() == 1 + i,
            events@[0].deep_view() == resumed(view.id, revision, status),
            forall|k: int|
                0 <= k < i ==> (#[trigger] events@[1 + k]).deep_view() == request_for(
                    view.id,
                    open@[k].deep_view(),
                ),
        decreases open@.len() - i,
    {
        events.push(tool_request(run_id, &open[i]));
        i = i + 1;
    }
    proof {
        let all = events.deep_view();
        assert forall|call_id: Seq<char>| #[trigger]
            view.pending.dom().contains(call_id) implies all.contains(
            request_for(view.id, view.pending[call_id]),
        ) by {
            let k = choose|k: int|
                0 <= k < open@.len() && (#[trigger] open@[k]).deep_view()
                    == view.pending[call_id];
            assert(all[1 + k] == events@[1 + k].deep_view());
        }
        assert forall|k: int| 1 <= k < all.len() implies is_open_request(
            view,
            #[trigger] all[k],
        ) by {
            assert(all[k] == events@[1 + (k - 1)].deep_view());
            assert(view.awaits(open@[k - 1].deep_view()));
        }
    }
    HotEvents::Live(events)
}

/// Whether an event is the request for a client tool whose result is awaited.
pub open spec fn is_open_request<W, S>(run: RunHandleView<W, S>, event: SseEventView) -> bool {
    exists|call_id: Seq<char>| #[trigger]
        run.pending.dom().contains(call_id) && event == request_for(
            run.id,
            run.pending[call_id],
        )
}

/// How a run that is known only from its checkpoint is taken up again.
#[derive(Debug, PartialEq)]
pub enum ColdStart {
    /// The run is over: this is all there is to send.
    Over(SseEvent),
    /// To be written first, so that this instance owns the run.
    Claim(SaveRequest),
}

/// What `ColdStart` is.
#[verifier::ext_equal]
pub enum ColdStartView {
    Over(SseEventView),
    Claim(SaveRequestView),
}

impl DeepView for ColdStart {
    type V = ColdStartView;

    open spec fn deep_view(&self) -> ColdStartView {
        match self {
            ColdStart::Over(x) => ColdStartView::Over(x.deep_view()),
            ColdStart::Claim(x) => ColdStartView::Claim(x.deep_view()),
        }
    }
}

/// Why a run is over, on the wire.
pub open spec fn over_reason(status: RunStatus) -> Seq<char> {
    match status {
        RunStatus::Cancelled => "cancelled"@,
        RunStatus::Failed => "error"@,
        _ => "stop"@,
    }
}

/// How a run that is known only from its checkpoint is taken up again: a run that is over is only
/// told of; any other is claimed with the next revision.
pub open spec fn cold_start_of(
    stored: Option<CheckpointView>,
    run_id: Seq<char>,
    instance_id: Seq<char>,
) -> Result<ColdStartView, ApiErrorView> {
    match stored {
        None => Err(ApiErrorView::NotFound),
        Some(cp) => if cp.status.terminal() {
            Ok(
                ColdStartView::Over(
                    SseEventView::RunFinished { run_id, reason: over_reason(cp.status) },
                ),
            )
        } else {
            Ok(
                ColdStartView::Claim(
                    SaveRequestView {
                        checkpoint: CheckpointView {
                            revision: (cp.revision + 1) as u64,
                            owner_id: Some(instance_id),
                            ..cp
                        },
                        expected: cp.revision,
                    },
                ),
            )
        },
    }
}

/// How a run that is known only from its checkpoint is taken up again.
pub fn cold_start(stored: Option<Checkpoint>, run_id: &str, instance_id: &str) -> (r: Result<
    ColdStart,
    ApiError,
>)
    requires
        stored matches Some(cp) ==> cp.deep_view().revision < u64::MAX,
    ensures
        match r {
            Ok(start) => cold_start_of(stored.deep_view(), run_id@, instance_id@) == Ok::<
                _,
                ApiErrorView,
            >(start.deep_view()),
            Err(err) => cold_start_of(stored.deep_view(), run_id@, instance_id@) == Err::<
                ColdStartView,
                _,
            >(err.deep_view()),
        },
{
    let mut cp = match stored {
        None => {
            return Err(ApiError::NotFound);
        },
        Some(cp) => cp,
    };
    if cp.status.is_terminal() {
        let reason = match cp.status {
            RunStatus::Cancelled => "cancelled",
            RunStatus::Failed => "error",
            _ => "stop",
        };
        return Ok(
            ColdStart::Over(
                SseEvent::RunFinished { run_id: run_id.to_owned(), reason: reason.to_owned() },
            ),
        );
    }
    let expected: u64 = cp.revision;
    cp.revision = expected + 1;
    cp.owner_id = Some(instance_id.to_owned());
    Ok(ColdStart::Claim(SaveRequest { checkpoint: cp, expected }))
}

/// What became of a claim: any failure to write it is a conflict.
pub fn claimed(saved: Result<(), StoreError>) -> (r: Result<(), ApiError>)
    ensures
        match r {
            Ok(_) => saved is Ok,
            Err(err) => saved is Err && err.deep_view() == not_owner(),
        },
{
    match saved {
        Ok(()) => Ok(()),
        Err(_) => Err(ApiError::Conflict { code: Some("not_owner") }),
    }
}

/// The event that a claimed run is taken up again, under the id that was asked for.
pub fn resumed_event(run_id: &str, cp: &Checkpoint) -> (r: SseEvent)
    ensures
        r.deep_view() == resumed(run_id@, cp.deep_view().revision, cp.deep_view().status),
{
    SseEvent::RunResumed {
        run_id: run_id.to_owned(),
        revision: cp.revision,
        status: cp.status.as_str().to_owned(),
    }
}

/// The loop of a claimed run.
#[derive(Debug, PartialEq)]
pub enum ColdRun {
    /// A waiter is to be installed and the event sent before the run goes on.
    Wait {
        pending: PendingTool,
        event: SseEvent,
        run: AgentRun,
    },
    Go(AgentRun),
}

/// What `ColdRun` is.
#[verifier::ext_equal]
pub enum ColdRunView {
    Wait {
        pending: PendingToolView,
        event: SseEventView,
        run: AgentRunView,
    },
    Go(AgentRunView),
}

impl DeepView for ColdRun {
    type V = ColdRunView;

    open spec fn deep_view(&self) -> ColdRunView {
        match self {
            ColdRun::Wait { pending, event, run } => ColdRunView::Wait {
                pending: pending.deep_view(),
                event: event.deep_view(),
                run: run.deep_view(),
            },
            ColdRun::Go(x) => ColdRunView::Go(x.deep_view()),
        }
    }
}

/// The loop of a claimed run: it goes on where it was, with its todos, its counters and its modes,
/// under the id that was asked for.
pub open spec fn cold_run_of(
    run_id: Seq<char>,
    cp: CheckpointView,
    instance_id: Seq<char>,
    guards_cfg: GuardsConfig,
    subagents_cfg: SubagentsConfig,
    now: u64,
) -> Result<ColdRunView, ApiErrorView> {
    let session = session_of(
        Some(RunPersistView { instance_id, revision: cp.revision }),
        true,
        RunAgentOptsView {
            plan_mode: cp.plan_mode,
            subagents: cp.subagents,
            initial_todos: cp.todos,
            initial_guards: Some(cp.guards),
            guards_cfg,
            subagents_cfg,
            emit_started: false,
            ..default_opts()
        },
        now,
    );
    match (cp.status, cp.pending_tool) {
        (RunStatus::WaitingTool, Some(pending)) => Ok(
            ColdRunView::Wait {
                pending,
                event: request_for(run_id, pending),
                run: started(
                    run_id,
                    cp.context,
                    cp.tools,
                    PersistSessionView {
                        pending_tool: Some(pending),
                        ..session
                    },
                    PhaseView::Resume(pending),
                ),
            },
        ),
        (RunStatus::Running, _) => Ok(
            ColdRunView::Go(
                started(run_id, cp.context, cp.tools, session, PhaseView::Start(false)),
            ),
        ),
        _ => Err(conflict()),
    }
}

/// The loop of a claimed run.
pub fn cold_run(
    run_id: String,
    cp: Checkpoint,
    instance_id: String,
    guards_cfg: GuardsConfig,
    subagents_cfg: SubagentsConfig,
    now: u64,
) -> (r: Result<ColdRun, ApiError>)
    ensures
        match r {
            Ok(run) => cold_run_of(
                run_id@,
                cp.deep_view(),
                instance_id@,
                guards_cfg,
                subagents_cfg,
                now,
            ) == Ok::<_, ApiErrorView>(run.deep_view()),
            Err(err) => cold_run_of(
                run_id@,
                cp.deep_view(),
                instance_id@,
                guards_cfg,
                subagents_cfg,
                now,
            ) == Err::<ColdRunView, _>(err.deep_view()),
        },
{
    let opts = RunAgentOpts::resume_running(
        cp.plan_mode,
        cp.subagents,
        cp.todos,
        guards_cfg,
        Some(cp.guards),
        subagents_cfg,
    );
    let keeper = Some(RunPersist { instance_id, revision: cp.revision });
    match cp.status {
        RunStatus::WaitingTool => match cp.pending_tool {
            None => Err(ApiError::Conflict { code: None }),
            Some(pending) => {
                let event = tool_request(run_id.as_str(), &pending);
                let run = AgentRun::continue_after_pending_tool(
                    run_id,
                    cp.context,
                    cp.tools,
                    pending.dup(),
                    keeper,
                    true,
                    opts,
                    now,
                );
                Ok(ColdRun::Wait { pending, event, run })
            },
        },
        RunStatus::Running => Ok(
            ColdRun::Go(
                AgentRun::run_agent(run_id, cp.context, cp.tools, keeper, true, opts, now),
            ),
        ),
        _ => Err(ApiError::Conflict { code: None }),
    }
}

/// Only the instance that claimed a run last can write its checkpoint: a claim is written over the
/// stored revision, and makes every write over that revision stale.
pub proof fn law_claim_takes_ownership(
    stored: CheckpointView,
    run_id: Seq<char>,
    instance_id: Seq<char>,
    rival: CheckpointView,
)
    requires
        !stored.status.terminal(),
        stored.revision < u64::MAX,
    ensures
        cold_start_of(Some(stored), run_id, instance_id) matches Ok(ColdStartView::Claim(claim)) && {
            &&& cas(Some(stored), claim.checkpoint, claim.expected) == Ok::<_, StoreErrorView>(
                Some(claim.checkpoint),
            )
            &&& claim.checkpoint.owner_id == Some(instance_id)
            &&& cas(Some(claim.checkpoint), rival, stored.revision) == Err::<
                Option<CheckpointView>,
                _,
            >(StoreErrorView::Conflict)
        },
{
}

/// A run that is over is never claimed or taken up again.
pub proof fn law_finished_run_stays_over(
    stored: CheckpointView,
    run_id: Seq<char>,
    instance_id: Seq<char>,
    guards_cfg: GuardsConfig,
    subagents_cfg: SubagentsConfig,
    now: u64,
)
    requires
        stored.status.terminal(),
    ensures
        cold_start_of(Some(stored), run_id, instance_id) matches Ok(ColdStartView::Over(_)),
        cold_run_of(run_id, stored, instance_id, guards_cfg, subagents_cfg, now) is Err,
        refusal(Some(stored), instance_id) == conflict(),
{
}

/// A run that is taken up again has the context, the tools, the todos and the modes of its
/// checkpoint, goes on from its revision, and has the id that was asked for; in plan mode it has
/// the nudge too.
pub proof fn law_taken_up_run_is_the_stored_run(
    run_id: Seq<char>,
    cp: CheckpointView,
    instance_id: Seq<char>,
    guards_cfg: GuardsConfig,
    subagents_cfg: SubagentsConfig,
    now: u64,
)
    ensures
        match cold_run_of(run_id, cp, instance_id, guards_cfg, subagents_cfg, now) {
            Ok(ColdRunView::Wait { run, .. }) => restores(run_id, cp, instance_id, run),
            Ok(ColdRunView::Go(run)) => restores(run_id, cp, instance_id, run),
            Err(_) => cp.status.terminal() || (cp.status == RunStatus::WaitingTool
                && cp.pending_tool is None),
        },
{
}

/// A run that was saved while it waited for a client tool can be taken up by any instance: it is
/// asked for the same tool with the same event, and goes on as the same run.
pub proof fn law_waiting_run_can_be_taken_up(
    run: AgentRunView,
    call: ToolCallView,
    env: StepEnv,
    instance_id: Seq<char>,
    guards_cfg: GuardsConfig,
    subagents_cfg: SubagentsConfig,
    later: u64,
)
    requires
        run.phase == PhaseView::Arm(call),
        !run.session.fold_stream,
        run.session.enabled,
        env.persist,
        run.session.revision < u64::MAX - 1,
    ensures
        ({
            let turned = run.step(HappeningView::Armed, env);
            &&& turned.ask matches AskView::Save(Some(saved))
            &&& cold_start_of(Some(saved.checkpoint), run.run_id, instance_id) matches Ok(
                ColdStartView::Claim(claim),
            )
            &&& cold_run_of(
                run.run_id,
                claim.checkpoint,
                instance_id,
                guards_cfg,
                subagents_cfg,
                later,
            ) matches Ok(ColdRunView::Wait { pending, event, run: next })
            &&& turned.effects == seq![EffectView::Emit(event)]
            &&& pending.tool_call_id == call.id
            &&& pending.name == call.name
            &&& pending.arguments == call.arguments
            &&& next.phase == PhaseView::Resume(pending)
            &&& restores(run.run_id, claim.checkpoint, instance_id, next)
            &&& claim.checkpoint.run_id == run.run_id
            &&& claim.checkpoint.context == run.context
            &&& claim.checkpoint.tools == run.tools
            &&& claim.checkpoint.todos == run.session.todos
        }),
{
    reveal(AgentRunView::step);
    reveal(AgentRunView::armed);
}

/// Whether a run is the one of a checkpoint, under an id.
pub open spec fn restores(
    run_id: Seq<char>,
    cp: CheckpointView,
    instance_id: Seq<char>,
    run: AgentRunView,
) -> bool {
    &&& run.run_id == run_id
    &&& run.context == if cp.plan_mode {
        nudged(cp.context)
    } else {
        cp.context
    }
    &&& run.tools == cp.tools
    &&& run.session.todos == cp.todos
    &&& run.session.guards == cp.guards
    &&& run.session.plan_mode == cp.plan_mode
    &&& run.session.subagents == cp.subagents
    &&& run.session.revision == cp.revision
    &&& run.session.instance_id == instance_id
    &&& run.session.enabled
    &&& !run.session.fold_stream
    &&& run.follow_up_rounds == cp.guards.follow_up_rounds
}

} // verus!
