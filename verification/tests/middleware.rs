use andromeda::agent::error::OrchestratorError;
use andromeda::agent::middleware::chain::{ChainAsk, ChainEvent, ChainRun};
use andromeda::agent::middleware::time_context::{
    ensure_time_context, refresh_time_context, time_context_text, weekday_zh, LocalTime,
    TimeContextMiddleware, TIME_CONTEXT_PREFIX,
};
use andromeda::agent::middleware::{
    default_summarize_chain, run_before_llm, Middleware, MwAction, MwEffect, SummarizeMiddleware,
};
use andromeda::agent::orchestrator::state::Happening;
use andromeda::agent::summarize::SUMMARY_PREFIX;
use andromeda::config::ContextConfig;
use andromeda::protocol::{Role, SseEvent, WireMessage};

fn user(content: &str) -> WireMessage {
    WireMessage {
        role: Role::User,
        content: content.into(),
        tool_call_id: None,
        name: None,
        tool_calls: None,
        reasoning_content: None,
    }
}

fn noon() -> LocalTime {
    LocalTime {
        year: 2026,
        month: 9,
        day: 25,
        weekday: 4,
        hour: 12,
        minute: 5,
        offset: "+08:00".into(),
    }
}

#[test]
fn inserts_then_refreshes_prefix() {
    let mut ctx = vec![user("今天星期几")];
    ensure_time_context(&mut ctx);
    assert_eq!(ctx.len(), 2);
    assert!(ctx[0].content.starts_with(TIME_CONTEXT_PREFIX));
    let first = ctx[0].content.clone();
    ensure_time_context(&mut ctx);
    assert_eq!(ctx.len(), 2);
    assert!(ctx[0].content.starts_with(TIME_CONTEXT_PREFIX));
    assert_eq!(ctx[0].content, first);
}

#[test]
fn middleware_injects_before_llm() {
    let mut context = vec![user("今天星期几")];
    let outcome = TimeContextMiddleware.before_llm(&mut context);
    let effect = run_before_llm(vec![outcome]).unwrap();
    assert!(!effect.checkpoint);
    assert!(effect.events.is_empty());
    assert!(context[0].content.starts_with(TIME_CONTEXT_PREFIX));
}

#[test]
fn the_time_is_told_in_words() {
    let text = time_context_text(&noon());
    assert!(text.starts_with(TIME_CONTEXT_PREFIX));
    assert!(text.contains("2026"));
    assert!(text.contains(weekday_zh(4)));
    assert!(text.contains("12:05"));
    assert!(text.contains("+08:00"));
}

#[test]
fn an_old_time_is_replaced() {
    let mut context = vec![user("hi")];
    refresh_time_context(&mut context, &noon());
    let mut later = noon();
    later.hour = 13;
    refresh_time_context(&mut context, &later);
    assert_eq!(context.len(), 2);
    assert!(context[0].content.contains("13:05"));
}

#[test]
fn effects_add_up_until_one_fails() {
    let event = SseEvent::RunStarted { run_id: "r".into() };
    let effect = run_before_llm(vec![
        Ok(MwAction::Continue(MwEffect {
            events: vec![event],
            checkpoint: false,
        })),
        Ok(MwAction::Continue(MwEffect::none())),
    ])
    .unwrap();
    assert_eq!(effect.events.len(), 1);
    assert!(!effect.checkpoint);
    let err = run_before_llm(vec![
        Ok(MwAction::Continue(MwEffect::none())),
        Err(OrchestratorError::ContextOverflow),
    ])
    .unwrap_err();
    assert_eq!(err, OrchestratorError::ContextOverflow);
}

#[test]
fn the_default_chain_summarizes_and_then_tells_the_time() {
    let chain = default_summarize_chain(ContextConfig::default());
    let names: Vec<&str> = chain.iter().map(|m| m.name()).collect();
    assert_eq!(names, vec!["summarize", "time_context"]);
}

fn chain(middlewares: Vec<Middleware>, context: Vec<WireMessage>) -> ChainRun {
    ChainRun::new("r1".into(), middlewares, None, context)
}

fn long_talk() -> Vec<WireMessage> {
    (0..6).map(|i| user(&format!("message {i}"))).collect()
}

fn tight(max_context_tokens: u64) -> ContextConfig {
    ContextConfig {
        summarize_threshold_tokens: 1,
        keep_last_messages: 2,
        max_context_tokens,
    }
}

#[test]
fn a_chain_hands_its_context_from_one_to_the_next() {
    let mut run = chain(default_summarize_chain(tight(100_000)), long_talk());
    assert!(matches!(run.ask(), ChainAsk::Summary(Some(_))));
    assert!(!run.is_expected(&ChainEvent::Time(noon())));
    let reply = ChainEvent::Reply(Ok("so far".into()));
    assert!(run.is_expected(&reply));
    run.step(reply);
    assert_eq!(run.ask(), ChainAsk::Time);
    run.step(ChainEvent::Time(noon()));
    assert_eq!(run.ask(), ChainAsk::End);
    assert!(!run.is_expected(&ChainEvent::Time(noon())));
    match run.into_happening() {
        Happening::MiddlewareDone(context, effect) => {
            assert!(context[0].content.starts_with(TIME_CONTEXT_PREFIX));
            assert!(context.iter().any(|m| m.content.starts_with(SUMMARY_PREFIX)));
            assert!(effect.checkpoint);
            assert!(matches!(
                effect.events.as_slice(),
                [SseEvent::ContextSummarized { run_id, .. }] if run_id == "r1"
            ));
        }
        other => panic!("expected MiddlewareDone, got {other:?}"),
    }
}

#[test]
fn a_chain_stops_where_a_middleware_fails() {
    let mut run = chain(
        vec![
            Middleware::TimeContext(TimeContextMiddleware),
            Middleware::Summarize(SummarizeMiddleware { config: tight(1) }),
            Middleware::TimeContext(TimeContextMiddleware),
        ],
        long_talk(),
    );
    run.step(ChainEvent::Time(noon()));
    assert!(matches!(run.ask(), ChainAsk::Summary(Some(_))));
    run.step(ChainEvent::Reply(Err("boom".into())));
    assert_eq!(run.ask(), ChainAsk::End);
    match run.into_happening() {
        Happening::MiddlewareFailed(context, err) => {
            assert_eq!(err, OrchestratorError::ContextOverflow);
            assert_eq!(context.len(), 7);
            assert!(context[0].content.contains("12:05"));
        }
        other => panic!("expected MiddlewareFailed, got {other:?}"),
    }
}

#[test]
fn the_model_is_not_asked_where_the_context_is_short() {
    let mut run = chain(default_summarize_chain(ContextConfig::default()), vec![user("hi")]);
    assert_eq!(run.ask(), ChainAsk::Summary(None));
    run.step(ChainEvent::Reply(Ok("unread".into())));
    run.step(ChainEvent::Time(noon()));
    match run.into_happening() {
        Happening::MiddlewareDone(context, effect) => {
            assert_eq!(context.len(), 2);
            assert_eq!(context[1], user("hi"));
            assert_eq!(effect, MwEffect::none());
        }
        other => panic!("expected MiddlewareDone, got {other:?}"),
    }
}

#[test]
fn an_empty_chain_is_over_at_once() {
    let run = chain(vec![], vec![user("hi")]);
    assert_eq!(run.ask(), ChainAsk::End);
    assert_eq!(
        run.into_happening(),
        Happening::MiddlewareDone(vec![user("hi")], MwEffect::none())
    );
}
