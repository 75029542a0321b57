//! Configuration of the server: sections, defaults and the rules of loading.

use vstd::prelude::*;

use crate::dup::Dup;
use crate::text::{concat, concat4, trim, trimmed};

verus! {

/// When the context is summarised, and how large it may be.
#[derive(Debug, Clone, Copy, PartialEq, Eq, Structural)]
pub struct ContextConfig {
    pub summarize_threshold_tokens: u64,
    pub keep_last_messages: usize,
    pub max_context_tokens: u64,
}

impl Default for ContextConfig {
    fn default() -> (r: Self)
        ensures
            r == default_context(),
    {
        ContextConfig {
            summarize_threshold_tokens: 80_000,
            keep_last_messages: 24,
            max_context_tokens: 120_000,
        }
    }
}

pub open spec fn default_context() -> ContextConfig {
    ContextConfig {
        summarize_threshold_tokens: 80_000,
        keep_last_messages: 24,
        max_context_tokens: 120_000,
    }
}

/// Limits that stop a run. A limit of zero is off.
#[derive(Debug, Clone, Copy, PartialEq, Eq, Structural)]
pub struct GuardsConfig {
    pub max_llm_rounds: u32,
    pub max_run_wall_secs: u64,
    pub max_follow_up_rounds: u32,
    pub max_noop_llm_rounds: u32,
}

impl Default for GuardsConfig {
    fn default() -> (r: Self)
        ensures
            r == default_guards(),
    {
        GuardsConfig {
            max_llm_rounds: 0,
            max_run_wall_secs: 0,
            max_follow_up_rounds: 8,
            max_noop_llm_rounds: 0,
        }
    }
}

pub open spec fn default_guards() -> GuardsConfig {
    GuardsConfig {
        max_llm_rounds: 0,
        max_run_wall_secs: 0,
        max_follow_up_rounds: 8,
        max_noop_llm_rounds: 0,
    }
}

/// How many subagents may run at once, and for how long.
#[derive(Debug, Clone, Copy, PartialEq, Eq, Structural)]
pub struct SubagentsConfig {
    pub max_concurrent_subagents: u32,
    pub subagent_timeout_secs: u64,
}

impl Default for SubagentsConfig {
    fn default() -> (r: Self)
        ensures
            r == default_subagents(),
    {
        SubagentsConfig { max_concurrent_subagents: 2, subagent_timeout_secs: 30 }
    }
}

pub open spec fn default_subagents() -> SubagentsConfig {
    SubagentsConfig { max_concurrent_subagents: 2, subagent_timeout_secs: 30 }
}

/// The `[persist]` section.
#[derive(Debug, PartialEq)]
pub struct PersistConfig {
    /// When false, runs stay in memory.
    pub enabled: bool,
    pub data_dir: String,
    /// When empty, one is made up at startup.
    pub instance_id: String,
}

/// What a `PersistConfig` is.
#[verifier::ext_equal]
pub struct PersistConfigView {
    pub enabled: bool,
    pub data_dir: Seq<char>,
    pub instance_id: Seq<char>,
}

impl DeepView for PersistConfig {
    type V = PersistConfigView;

    open spec fn deep_view(&self) -> PersistConfigView {
        PersistConfigView {
            enabled: self.enabled,
            data_dir: self.data_dir@,
            instance_id: self.instance_id@,
        }
    }
}

impl Dup for PersistConfig {
    fn dup(&self) -> (r: Self) {
        PersistConfig {
            enabled: self.enabled,
            data_dir: self.data_dir.dup(),
            instance_id: self.instance_id.dup(),
        }
    }
}

pub open spec fn default_persist() -> PersistConfigView {
    PersistConfigView { enabled: true, data_dir: "./data"@, instance_id: Seq::empty() }
}

impl Default for PersistConfig {
    fn default() -> (r: Self)
        ensures
            r.deep_view() == default_persist(),
    {
        PersistConfig {
            enabled: true,
            data_dir: "./data".to_owned(),
            instance_id: String::new(),
        }
    }
}

/// The configuration of the server.
#[derive(Debug, PartialEq)]
pub struct AppConfig {
    pub api_key: String,
    pub base_url: Option<String>,
    pub model: String,
    pub listen: String,
    pub tool_timeout_secs: u64,
    pub follow_up_policy: String,
    pub log_level: String,
    pub persist: PersistConfig,
    pub context: ContextConfig,
    pub guards: GuardsConfig,
    pub subagents: SubagentsConfig,
}

/// What a `AppConfig` is.
#[verifier::ext_equal]
pub struct AppConfigView {
    pub api_key: Seq<char>,
    pub base_url: Option<Seq<char>>,
    pub model: Seq<char>,
    pub listen: Seq<char>,
    pub tool_timeout_secs: u64,
    pub follow_up_policy: Seq<char>,
    pub log_level: Seq<char>,
    pub persist: PersistConfigView,
    pub context: ContextConfig,
    pub guards: GuardsConfig,
    pub subagents: SubagentsConfig,
}

impl DeepView for AppConfig {
    type V = AppConfigView;

    open spec fn deep_view(&self) -> AppConfigView {
        AppConfigView {
            api_key: self.api_key@,
            base_url: self.base_url.deep_view(),
            model: self.model@,
            listen: self.listen@,
            tool_timeout_secs: self.tool_timeout_secs,
            follow_up_policy: self.follow_up_policy@,
            log_level: self.log_level@,
            persist: self.persist.deep_view(),
            context: self.context,
            guards: self.guards,
            subagents: self.subagents,
        }
    }
}

impl Dup for AppConfig {
    fn dup(&self) -> (r: Self) {
        AppConfig {
            api_key: self.api_key.dup(),
            base_url: self.base_url.dup(),
            model: self.model.dup(),
            listen: self.listen.dup(),
            tool_timeout_secs: self.tool_timeout_secs,
            follow_up_policy: self.follow_up_policy.dup(),
            log_level: self.log_level.dup(),
            persist: self.persist.dup(),
            context: self.context,
            guards: self.guards,
            subagents: self.subagents,
        }
    }
}

/// The `[context]` section of a configuration file.
#[derive(Debug, Clone, Copy, PartialEq, Eq, Structural)]
pub struct RawContext {
    pub summarize_threshold_tokens: Option<u64>,
    pub keep_last_messages: Option<usize>,
    pub max_context_tokens: Option<u64>,
}

/// The `[guards]` section of a configuration file.
#[derive(Debug, Clone, Copy, PartialEq, Eq, Structural)]
pub struct RawGuards {
    pub max_llm_rounds: Option<u32>,
    pub max_run_wall_secs: Option<u64>,
    pub max_follow_up_rounds: Option<u32>,
    pub max_noop_llm_rounds: Option<u32>,
}

/// The `[subagents]` section of a configuration file.
#[derive(Debug, Clone, Copy, PartialEq, Eq, Structural)]
pub struct RawSubagents {
    pub max_concurrent_subagents: Option<u32>,
    pub subagent_timeout_secs: Option<u64>,
}

/// The `[persist]` section of a configuration file.
#[derive(Debug, PartialEq)]
pub struct RawPersist {
    pub enabled: Option<bool>,
    pub data_dir: Option<String>,
    pub instance_id: Option<String>,
}

/// What a `RawPersist` is.
#[verifier::ext_equal]
pub struct RawPersistView {
    pub enabled: Option<bool>,
    pub data_dir: Option<Seq<char>>,
    pub instance_id: Option<Seq<char>>,
}

impl DeepView for RawPersist {
    type V = RawPersistView;

    open spec fn deep_view(&self) -> RawPersistView {
        RawPersistView {
            enabled: self.enabled,
            data_dir: self.data_dir.deep_view(),
            instance_id: self.instance_id.deep_view(),
        }
    }
}

/// The section on checkpoints, under the name that the file gives it.
#[derive(Debug, PartialEq)]
pub enum RawPersistSection {
    Absent,
    /// `[persist]`
    Persist(RawPersist),
    /// `[long_horizon]`, its former name.
    LongHorizon(RawPersist),
}

/// What `RawPersistSection` is.
#[verifier::ext_equal]
pub enum RawPersistSectionView {
    Absent,
    Persist(RawPersistView),
    LongHorizon(RawPersistView),
}

impl DeepView for RawPersistSection {
    type V = RawPersistSectionView;

    open spec fn deep_view(&self) -> RawPersistSectionView {
        match self {
            RawPersistSection::Absent => RawPersistSectionView::Absent,
            RawPersistSection::Persist(x) => RawPersistSectionView::Persist(x.deep_view()),
            RawPersistSection::LongHorizon(x) => RawPersistSectionView::LongHorizon(x.deep_view()),
        }
    }
}

/// A configuration file: what it says, and where it says nothing.
#[derive(Debug, PartialEq)]
pub struct RawConfig {
    pub api_key: String,
    pub base_url: Option<String>,
    pub model: Option<String>,
    pub listen: Option<String>,
    pub tool_timeout_secs: Option<u64>,
    pub follow_up_policy: Option<String>,
    pub log_level: Option<String>,
    pub persist: RawPersistSection,
    pub context: Option<RawContext>,
    pub guards: Option<RawGuards>,
    pub subagents: Option<RawSubagents>,
}

/// What a `RawConfig` is.
#[verifier::ext_equal]
pub struct RawConfigView {
    pub api_key: Seq<char>,
    pub base_url: Option<Seq<char>>,
    pub model: Option<Seq<char>>,
    pub listen: Option<Seq<char>>,
    pub tool_timeout_secs: Option<u64>,
    pub follow_up_policy: Option<Seq<char>>,
    pub log_level: Option<Seq<char>>,
    pub persist: RawPersistSectionView,
    pub context: Option<RawContext>,
    pub guards: Option<RawGuards>,
    pub subagents: Option<RawSubagents>,
}

impl DeepView for RawConfig {
    type V = RawConfigView;

    open spec fn deep_view(&self) -> RawConfigView {
        RawConfigView {
            api_key: self.api_key@,
            base_url: self.base_url.deep_view(),
            model: self.model.deep_view(),
            listen: self.listen.deep_view(),
            tool_timeout_secs: self.tool_timeout_secs,
            follow_up_policy: self.follow_up_policy.deep_view(),
            log_level: self.log_level.deep_view(),
            persist: self.persist.deep_view(),
            context: self.context,
            guards: self.guards,
            subagents: self.subagents,
        }
    }
}

/// Why there is no `RawConfig`.
#[derive(Debug, PartialEq)]
pub enum LoadFailure {
    /// The file could not be read.
    Read(String),
    /// The file is not a configuration.
    Parse(String),
}

/// What `LoadFailure` is.
#[verifier::ext_equal]
pub enum LoadFailureView {
    Read(Seq<char>),
    Parse(Seq<char>),
}

impl DeepView for LoadFailure {
    type V = LoadFailureView;

    open spec fn deep_view(&self) -> LoadFailureView {
        match self {
            LoadFailure::Read(x) => LoadFailureView::Read(x@),
            LoadFailure::Parse(x) => LoadFailureView::Parse(x@),
        }
    }
}

pub open spec fn or<T>(given: Option<T>, otherwise: T) -> T {
    match given {
        Some(x) => x,
        None => otherwise,
    }
}

/// The section means the same under either of its names.
pub open spec fn persist_section(raw: RawPersistSectionView) -> PersistConfigView {
    match raw {
        RawPersistSectionView::Persist(p) | RawPersistSectionView::LongHorizon(
            p,
        ) => PersistConfigView {
            enabled: or(p.enabled, true),
            data_dir: or(p.data_dir, "./data"@),
            instance_id: or(p.instance_id, Seq::empty()),
        },
        RawPersistSectionView::Absent => default_persist(),
    }
}

pub open spec fn context_section(raw: Option<RawContext>) -> ContextConfig {
    match raw {
        Some(c) => ContextConfig {
            summarize_threshold_tokens: or(c.summarize_threshold_tokens, 80_000),
            keep_last_messages: or(c.keep_last_messages, 24),
            max_context_tokens: or(c.max_context_tokens, 120_000),
        },
        None => default_context(),
    }
}

pub open spec fn guards_section(raw: Option<RawGuards>) -> GuardsConfig {
    match raw {
        Some(g) => GuardsConfig {
            max_llm_rounds: or(g.max_llm_rounds, 0),
            max_run_wall_secs: or(g.max_run_wall_secs, 0),
            max_follow_up_rounds: or(g.max_follow_up_rounds, 8),
            max_noop_llm_rounds: or(g.max_noop_llm_rounds, 0),
        },
        None => default_guards(),
    }
}

pub open spec fn subagents_section(raw: Option<RawSubagents>) -> SubagentsConfig {
    match raw {
        Some(s) => SubagentsConfig {
            max_concurrent_subagents: or(s.max_concurrent_subagents, 2),
            subagent_timeout_secs: or(s.subagent_timeout_secs, 30),
        },
        None => default_subagents(),
    }
}

impl RawConfigView {
    /// The configuration with every default filled in.
    pub open spec fn filled(self) -> AppConfigView {
        AppConfigView {
            api_key: self.api_key,
            base_url: self.base_url,
            model: or(self.model, "deepseek-v4-flash-0731"@),
            listen: or(self.listen, "127.0.0.1:8080"@),
            tool_timeout_secs: or(self.tool_timeout_secs, 60),
            follow_up_policy: or(self.follow_up_policy, "noop"@),
            log_level: or(self.log_level, "info"@),
            persist: persist_section(self.persist),
            context: context_section(self.context),
            guards: guards_section(self.guards),
            subagents: subagents_section(self.subagents),
        }
    }
}

fn or_text(given: &Option<String>, otherwise: &str) -> (r: String)
    ensures
        r@ == or(given.deep_view(), otherwise@),
{
    match given {
        Some(s) => s.dup(),
        None => otherwise.to_owned(),
    }
}

fn fill_persist(raw: &RawPersistSection) -> (r: PersistConfig)
    ensures
        r.deep_view() == persist_section(raw.deep_view()),
{
    match raw {
        RawPersistSection::Persist(p) | RawPersistSection::LongHorizon(p) => PersistConfig {
            enabled: p.enabled.unwrap_or(true),
            data_dir: or_text(&p.data_dir, "./data"),
            instance_id: match &p.instance_id {
                Some(s) => s.dup(),
                None => String::new(),
            },
        },
        RawPersistSection::Absent => PersistConfig::default(),
    }
}

fn fill_context(raw: Option<RawContext>) -> (r: ContextConfig)
    ensures
        r == context_section(raw),
{
    match raw {
        Some(c) => ContextConfig {
            summarize_threshold_tokens: c.summarize_threshold_tokens.unwrap_or(80_000),
            keep_last_messages: c.keep_last_messages.unwrap_or(24),
            max_context_tokens: c.max_context_tokens.unwrap_or(120_000),
        },
        None => ContextConfig::default(),
    }
}

fn fill_guards(raw: Option<RawGuards>) -> (r: GuardsConfig)
    ensures
        r == guards_section(raw),
{
    match raw {
        Some(g) => GuardsConfig {
            max_llm_rounds: g.max_llm_rounds.unwrap_or(0),
            max_run_wall_secs: g.max_run_wall_secs.unwrap_or(0),
            max_follow_up_rounds: g.max_follow_up_rounds.unwrap_or(8),
            max_noop_llm_rounds: g.max_noop_llm_rounds.unwrap_or(0),
        },
        None => GuardsConfig::default(),
    }
}

fn fill_subagents(raw: Option<RawSubagents>) -> (r: SubagentsConfig)
    ensures
        r == subagents_section(raw),
{
    match raw {
        Some(s) => SubagentsConfig {
            max_concurrent_subagents: s.max_concurrent_subagents.unwrap_or(2),
            subagent_timeout_secs: s.subagent_timeout_secs.unwrap_or(30),
        },
        None => SubagentsConfig::default(),
    }
}

/// What loading a configuration gives.
pub open spec fn loaded(
    path: Seq<char>,
    source: Result<RawConfigView, LoadFailureView>,
) -> Result<AppConfigView, Seq<char>> {
    match source {
        Err(LoadFailureView::Read(err)) => Err(
            "failed to read "@ + path + ": "@ + err
                + "\nCopy config.example.toml to config.toml and fill in api_key."@,
        ),
        Err(LoadFailureView::Parse(err)) => Err("failed to parse "@ + path + ": "@ + err),
        Ok(raw) => if trimmed(raw.api_key).len() == 0 {
            Err(path + ": api_key is required"@)
        } else {
            Ok(raw.filled())
        },
    }
}

impl RawConfig {
    /// The configuration with every default filled in.
    pub fn fill(&self) -> (r: AppConfig)
        ensures
            r.deep_view() == self.deep_view().filled(),
    {
        AppConfig {
            api_key: self.api_key.dup(),
            base_url: self.base_url.dup(),
            model: or_text(&self.model, "deepseek-v4-flash-0731"),
            listen: or_text(&self.listen, "127.0.0.1:8080"),
            tool_timeout_secs: self.tool_timeout_secs.unwrap_or(60),
            follow_up_policy: or_text(&self.follow_up_policy, "noop"),
            log_level: or_text(&self.log_level, "info"),
            persist: fill_persist(&self.persist),
            context: fill_context(self.context),
            guards: fill_guards(self.guards),
            subagents: fill_subagents(self.subagents),
        }
    }
}

impl AppConfig {
    /// The configuration that the file at `path` gives. `source` is what reading and parsing it
    /// gave.
    pub fn load(path: &str, source: Result<RawConfig, LoadFailure>) -> (r: Result<AppConfig, String>)
        ensures
            ({
                let source_view = match source {
                    Ok(raw) => Ok(raw.deep_view()),
                    Err(failure) => Err(failure.deep_view()),
                };
                match r {
                    Ok(config) => loaded(path@, source_view) == Ok::<_, Seq<char>>(
                        config.deep_view(),
                    ),
                    Err(message) => loaded(path@, source_view) == Err::<AppConfigView, _>(message@),
                }
            }),
    {
        match source {
            Err(LoadFailure::Read(err)) => {
                let head = concat4("failed to read ", path, ": ", err.as_str());
                Err(
                    concat(
                        head.as_str(),
                        "\nCopy config.example.toml to config.toml and fill in api_key.",
                    ),
                )
            },
            Err(LoadFailure::Parse(err)) => Err(
                concat4("failed to parse ", path, ": ", err.as_str()),
            ),
            Ok(raw) => {
                if trim(raw.api_key.as_str()).as_str().is_empty() {
                    Err(concat(path, ": api_key is required"))
                } else {
                    Ok(raw.fill())
                }
            },
        }
    }
}

} // verus!
