//! What holds of a configuration that is loaded.

use vstd::prelude::*;

use crate::config::{
    context_section, default_context, default_guards, default_subagents, guards_section, loaded,
    persist_section, subagents_section, LoadFailureView, RawConfigView, RawContext, RawGuards,
    RawPersistSectionView, RawPersistView, RawSubagents,
};
use crate::text::{has_part, trimmed};
use crate::text_laws::law_between_is_a_part;

verus! {

/// What a file says is taken as it says it.
pub proof fn law_what_is_given_is_taken(raw: RawConfigView)
    ensures
        raw.filled().api_key == raw.api_key,
        raw.filled().base_url == raw.base_url,
        raw.model matches Some(x) ==> raw.filled().model == x,
        raw.listen matches Some(x) ==> raw.filled().listen == x,
        raw.tool_timeout_secs matches Some(x) ==> raw.filled().tool_timeout_secs == x,
        raw.follow_up_policy matches Some(x) ==> raw.filled().follow_up_policy == x,
        raw.log_level matches Some(x) ==> raw.filled().log_level == x,
{
}

/// What a section says is taken as it says it, under the same name.
pub proof fn law_sections_are_taken(
    context: RawContext,
    guards: RawGuards,
    subagents: RawSubagents,
    raw: RawConfigView,
)
    requires
        raw.context == Some(context),
        raw.guards == Some(guards),
        raw.subagents == Some(subagents),
    ensures
        ({
            let c = raw.filled().context;
            &&& context.summarize_threshold_tokens matches Some(x) ==> c.summarize_threshold_tokens == x
            &&& context.keep_last_messages matches Some(x) ==> c.keep_last_messages == x
            &&& context.max_context_tokens matches Some(x) ==> c.max_context_tokens == x
        }),
        ({
            let g = raw.filled().guards;
            &&& guards.max_llm_rounds matches Some(x) ==> g.max_llm_rounds == x
            &&& guards.max_run_wall_secs matches Some(x) ==> g.max_run_wall_secs == x
            &&& guards.max_follow_up_rounds matches Some(x) ==> g.max_follow_up_rounds == x
            &&& guards.max_noop_llm_rounds matches Some(x) ==> g.max_noop_llm_rounds == x
        }),
        ({
            let s = raw.filled().subagents;
            &&& subagents.max_concurrent_subagents matches Some(x) ==> s.max_concurrent_subagents == x
            &&& subagents.subagent_timeout_secs matches Some(x) ==> s.subagent_timeout_secs == x
        }),
{
}

/// The section on checkpoints means the same under either of its names, and what it says is taken as
/// it says it; checkpoints are kept unless it says that they are not.
pub proof fn law_checkpoints_are_configured(p: RawPersistView)
    ensures
        persist_section(RawPersistSectionView::Persist(p)) == persist_section(
            RawPersistSectionView::LongHorizon(p),
        ),
        p.data_dir matches Some(x) ==> persist_section(RawPersistSectionView::Persist(p)).data_dir == x,
        p.instance_id matches Some(x) ==> persist_section(
            RawPersistSectionView::Persist(p),
        ).instance_id == x,
        persist_section(RawPersistSectionView::Persist(p)).enabled <==> p.enabled != Some(false),
        persist_section(RawPersistSectionView::Absent).enabled,
{
}

/// Whether a section on checkpoints says nothing.
pub open spec fn says_nothing(p: RawPersistView) -> bool {
    p.enabled is None && p.data_dir is None && p.instance_id is None
}

/// A section that is empty means the same as one that is not there.
pub proof fn law_empty_section_is_as_none(
    context: RawContext,
    guards: RawGuards,
    subagents: RawSubagents,
    persist: RawPersistView,
)
    requires
        context.summarize_threshold_tokens is None,
        context.keep_last_messages is None,
        context.max_context_tokens is None,
        guards.max_llm_rounds is None,
        guards.max_run_wall_secs is None,
        guards.max_follow_up_rounds is None,
        guards.max_noop_llm_rounds is None,
        subagents.max_concurrent_subagents is None,
        subagents.subagent_timeout_secs is None,
        says_nothing(persist),
    ensures
        context_section(Some(context)) == context_section(None),
        guards_section(Some(guards)) == guards_section(None),
        subagents_section(Some(subagents)) == subagents_section(None),
        persist_section(RawPersistSectionView::Persist(persist)) == persist_section(
            RawPersistSectionView::Absent,
        ),
        context_section(None) == default_context(),
        guards_section(None) == default_guards(),
        subagents_section(None) == default_subagents(),
{
}

/// By default a context is summarised before it reaches its cap, a run has no limit but on its
/// follow-ups, and a subtask can run and has time to.
pub proof fn law_defaults_go_together()
    ensures
        0 < default_context().summarize_threshold_tokens < default_context().max_context_tokens,
        default_context().keep_last_messages > 0,
        default_guards().max_llm_rounds == 0,
        default_guards().max_run_wall_secs == 0,
        default_guards().max_noop_llm_rounds == 0,
        default_guards().max_follow_up_rounds > 0,
        default_subagents().max_concurrent_subagents > 0,
        default_subagents().subagent_timeout_secs > 0,
{
}

/// Whether a file was read that has a key.
pub open spec fn has_a_key(source: Result<RawConfigView, LoadFailureView>) -> bool {
    source matches Ok(raw) && trimmed(raw.api_key).len() > 0
}

/// A configuration is loaded exactly where the file is read and has a key that is not blank; else the
/// message names the file, and says why it could not be read.
pub proof fn law_when_a_configuration_loads(
    path: Seq<char>,
    source: Result<RawConfigView, LoadFailureView>,
)
    ensures
        loaded(path, source) is Ok <==> has_a_key(source),
        loaded(path, source) matches Ok(config) ==> config == source->Ok_0.filled(),
        loaded(path, source) matches Err(message) ==> has_part(message, path),
        source matches Err(LoadFailureView::Read(err)) ==> has_part(
            loaded(path, source)->Err_0,
            err,
        ),
        source matches Err(LoadFailureView::Parse(err)) ==> has_part(
            loaded(path, source)->Err_0,
            err,
        ),
{
    match source {
        Ok(_) => {
            law_between_is_a_part(Seq::empty(), path, ": api_key is required"@);
            assert(Seq::<char>::empty() + path + ": api_key is required"@ =~= path
                + ": api_key is required"@);
        },
        Err(LoadFailureView::Read(err)) => {
            let tail = "\nCopy config.example.toml to config.toml and fill in api_key."@;
            let head = "failed to read "@;
            law_between_is_a_part(head, path, ": "@ + err + tail);
            assert(head + path + (": "@ + err + tail) =~= head + path + ": "@ + err + tail);
            law_between_is_a_part(head + path + ": "@, err, tail);
        },
        Err(LoadFailureView::Parse(err)) => {
            let head = "failed to parse "@;
            law_between_is_a_part(head, path, ": "@ + err);
            assert(head + path + (": "@ + err) =~= head + path + ": "@ + err);
            law_between_is_a_part(head + path + ": "@, err, Seq::empty());
            assert(head + path + ": "@ + err + Seq::<char>::empty() =~= head + path + ": "@ + err);
        },
    }
}

} // verus!
