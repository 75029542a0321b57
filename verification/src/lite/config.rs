//! The configuration of the smaller server.

use vstd::prelude::*;

use crate::config::{or, LoadFailure, LoadFailureView};
use crate::dup::Dup;
use crate::text::{concat, concat4, same, trim, trimmed};

verus! {

/// The configuration.
#[derive(Debug, PartialEq)]
pub struct AppConfig {
    pub api_key: String,
    pub base_url: Option<String>,
    pub model: String,
    pub listen: String,
    pub tool_timeout_secs: u64,
    pub follow_up_policy: String,
}

/// What a `AppConfig` is.
#[verifier::ext_equal]
pub struct AppConfigView {
    pub api_key: Seq<char>,
    pub base_url: Option<Seq<char>>,
    pub model: Seq<char>,
    pub listen: Seq<char>,
    pub tool_timeout_secs: u64,
    pub follow_up_policy: Seq<char>,
}

impl DeepView for AppConfig {
    type V = AppConfigView;

    open spec fn deep_view(&self) -> AppConfigView {
        AppConfigView {
            api_key: self.api_key@,
            base_url: self.base_url.deep_view(),
            model: self.model@,
            listen: self.listen@,
            tool_timeout_secs: self.tool_timeout_secs,
            follow_up_policy: self.follow_up_policy@,
        }
    }
}

/// The configuration as it was written: all but the key may be left out.
#[derive(Debug, PartialEq)]
pub struct RawConfig {
    pub api_key: String,
    pub base_url: Option<String>,
    pub model: Option<String>,
    pub listen: Option<String>,
    pub tool_timeout_secs: Option<u64>,
    pub follow_up_policy: Option<String>,
}

/// What a `RawConfig` is.
#[verifier::ext_equal]
pub struct RawConfigView {
    pub api_key: Seq<char>,
    pub base_url: Option<Seq<char>>,
    pub model: Option<Seq<char>>,
    pub listen: Option<Seq<char>>,
    pub tool_timeout_secs: Option<u64>,
    pub follow_up_policy: Option<Seq<char>>,
}

impl DeepView for RawConfig {
    type V = RawConfigView;

    open spec fn deep_view(&self) -> RawConfigView {
        RawConfigView {
            api_key: self.api_key@,
            base_url: self.base_url.deep_view(),
            model: self.model.deep_view(),
            listen: self.listen.deep_view(),
            tool_timeout_secs: self.tool_timeout_secs,
            follow_up_policy: self.follow_up_policy.deep_view(),
        }
    }
}

impl RawConfigView {
    /// With the defaults for what was left out.
    pub open spec fn filled(self) -> AppConfigView {
        AppConfigView {
            api_key: self.api_key,
            base_url: self.base_url,
            model: or(self.model, "gpt-4o-mini"@),
            listen: or(self.listen, "127.0.0.1:8080"@),
            tool_timeout_secs: or(self.tool_timeout_secs, 60),
            follow_up_policy: or(self.follow_up_policy, "noop"@),
        }
    }
}

fn text_or(given: &Option<String>, otherwise: &str) -> (r: String)
    ensures
        r@ == or(given.deep_view(), otherwise@),
{
    match given {
        Some(text) => text.dup(),
        None => otherwise.to_owned(),
    }
}

/// The configuration that a file gives, or the message that says why it gives none.
pub open spec fn loaded(
    path: Seq<char>,
    source: Result<RawConfigView, LoadFailureView>,
) -> Result<AppConfigView, Seq<char>> {
    match source {
        Err(LoadFailureView::Read(err)) => Err(
            "failed to read "@ + path + ": "@ + err
                + "\nCopy config.example.toml to config.toml and fill in api_key."@,
        ),
        Err(LoadFailureView::Parse(err)) => Err("failed to parse "@ + path + ": "@ + err),
        Ok(raw) => if trimmed(raw.api_key).len() == 0 {
            Err(path + ": api_key is required"@)
        } else {
            Ok(raw.filled())
        },
    }
}

impl AppConfig {
    /// The configuration that a file gives.
    pub fn load(path: &str, source: Result<RawConfig, LoadFailure>) -> (r: Result<AppConfig, String>)
        ensures
            ({
                let given = match source {
                    Ok(raw) => Ok(raw.deep_view()),
                    Err(err) => Err(err.deep_view()),
                };
                match r {
                    Ok(config) => loaded(path@, given) == Ok::<_, Seq<char>>(config.deep_view()),
                    Err(err) => loaded(path@, given) == Err::<AppConfigView, _>(err@),
                }
            }),
    {
        let raw = match source {
            Err(LoadFailure::Read(err)) => {
                let head = concat4("failed to read ", path, ": ", err.as_str());
                return Err(
                    concat(
                        head.as_str(),
                        "\nCopy config.example.toml to config.toml and fill in api_key.",
                    ),
                );
            },
            Err(LoadFailure::Parse(err)) => {
                return Err(concat4("failed to parse ", path, ": ", err.as_str()));
            },
            Ok(raw) => raw,
        };
        let key = trim(raw.api_key.as_str());
        proof {
            reveal_strlit("");
            assert(key@.len() == 0 ==> key@ =~= ""@);
        }
        if same(key.as_str(), "") {
            return Err(concat(path, ": api_key is required"));
        }
        let model = text_or(&raw.model, "gpt-4o-mini");
        let listen = text_or(&raw.listen, "127.0.0.1:8080");
        let follow_up_policy = text_or(&raw.follow_up_policy, "noop");
        let tool_timeout_secs: u64 = match raw.tool_timeout_secs {
            Some(secs) => secs,
            None => 60,
        };
        Ok(
            AppConfig {
                api_key: raw.api_key,
                base_url: raw.base_url,
                model,
                listen,
                tool_timeout_secs,
                follow_up_policy,
            },
        )
    }
}

} // verus!
