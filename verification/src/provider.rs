//! Which AI endpoint the assistant talks to, and where its configuration is kept.
//!
//! The teacher brings their own OpenAI- or Anthropic-compatible endpoint: a base URL, a model and
//! usually an API key. The key is kept encrypted on this machine by the program and never reaches
//! the web layer; this module holds the configuration and where it is stored.

use crate::paths::{as_path, join, path_exists, path_join};
use crate::text::{trim_strip_end, trim_then_strip_end};
use std::path::{Path, PathBuf};
use vstd::prelude::*;
use vstd::string::StringExecFns;

verus! {

/// The provider families the assistant understands. Only [`ProviderKind::Anthropic`] uses the
/// native Anthropic Messages wire shape; every other kind uses the OpenAI chat-completions shape.
#[derive(Debug, Clone, Copy, PartialEq, Eq, Structural)]
pub enum ProviderKind {
    /// Official OpenAI.
    OpenAi,
    /// Official Anthropic, native Messages API.
    Anthropic,
    /// Any other OpenAI-compatible endpoint.
    Custom,
    /// A local server exposing an OpenAI-compatible `/v1`.
    Local,
}

impl ProviderKind {
    /// Whether this kind speaks the native Anthropic Messages API.
    pub fn is_anthropic(self) -> (b: bool)
        ensures
            b == (self == ProviderKind::Anthropic),
    {
        match self {
            ProviderKind::Anthropic => true,
            _ => false,
        }
    }

    /// The lower-case name the configuration file uses for this kind.
    pub fn name(self) -> (n: &'static str)
        ensures
            n@ == (match self {
                ProviderKind::OpenAi => "openai"@,
                ProviderKind::Anthropic => "anthropic"@,
                ProviderKind::Custom => "custom"@,
                ProviderKind::Local => "local"@,
            }),
    {
        match self {
            ProviderKind::OpenAi => "openai",
            ProviderKind::Anthropic => "anthropic",
            ProviderKind::Custom => "custom",
            ProviderKind::Local => "local",
        }
    }
}

/// The provider kind a settings form names: `openai`, `anthropic` and `local` by name, anything
/// else a custom endpoint.
pub fn parse_kind(name: &str) -> (k: ProviderKind)
    ensures
        k == (if name@ == "openai"@ {
            ProviderKind::OpenAi
        } else if name@ == "anthropic"@ {
            ProviderKind::Anthropic
        } else if name@ == "local"@ {
            ProviderKind::Local
        } else {
            ProviderKind::Custom
        }),
{
    let v = crate::text::chars_of(name);
    let a = crate::text::word("openai");
    let b = crate::text::word("anthropic");
    let c = crate::text::word("local");
    proof {
        assert(v@.subrange(0, v@.len() as int) =~= v@);
    }
    if crate::text::chars_eq(v.as_slice(), 0, v.len(), a.as_slice()) {
        ProviderKind::OpenAi
    } else if crate::text::chars_eq(v.as_slice(), 0, v.len(), b.as_slice()) {
        ProviderKind::Anthropic
    } else if crate::text::chars_eq(v.as_slice(), 0, v.len(), c.as_slice()) {
        ProviderKind::Local
    } else {
        ProviderKind::Custom
    }
}

/// The teacher's AI endpoint choice (everything except the secret key).
#[derive(Debug, Clone)]
pub struct ProviderConfig {
    /// Which provider family.
    pub kind: ProviderKind,
    /// Base URL up to and including `/v1` (no trailing slash needed).
    pub base_url: String,
    /// Model id to request.
    pub model: String,
}

impl Default for ProviderConfig {
    /// Official OpenAI with a small model.
    fn default() -> (c: Self)
        ensures
            c.kind == ProviderKind::OpenAi,
            c.base_url@ == "https://api.openai.com/v1"@,
            c.model@ == "gpt-4o-mini"@,
    {
        ProviderConfig {
            kind: ProviderKind::OpenAi,
            base_url: String::from_str("https://api.openai.com/v1"),
            model: String::from_str("gpt-4o-mini"),
        }
    }
}

impl ProviderConfig {
    /// The base URL trimmed, with any trailing slash removed, so joining a path is unambiguous.
    pub fn trimmed_base(&self) -> (b: String)
        ensures
            b@ == trim_then_strip_end(self.base_url@, '/'),
    {
        trim_strip_end(self.base_url.as_str(), '/')
    }
}

/// Where the provider configuration (JSON) and its API key (encrypted bytes) are kept.
pub struct Store {
    config_path: PathBuf,
    key_path: PathBuf,
}

impl Store {
    /// The file holding the configuration.
    pub closed spec fn config_file(&self) -> PathBuf {
        self.config_path
    }

    /// The file holding the encrypted key.
    pub closed spec fn key_file(&self) -> PathBuf {
        self.key_path
    }

    /// Uses `ai.json` and `ai.key` inside the Console data directory.
    pub fn new(data_dir: &Path) -> (s: Self)
        ensures
            s.config_file() == path_join(data_dir, "ai.json"@),
            s.key_file() == path_join(data_dir, "ai.key"@),
    {
        Store { config_path: join(data_dir, "ai.json"), key_path: join(data_dir, "ai.key") }
    }

    /// The file holding the configuration.
    pub fn config_path(&self) -> (p: &PathBuf)
        ensures
            *p == self.config_file(),
    {
        &self.config_path
    }

    /// The file holding the encrypted key.
    pub fn key_path(&self) -> (p: &PathBuf)
        ensures
            *p == self.key_file(),
    {
        &self.key_path
    }

    /// Whether an API key is stored (without revealing it): whether its file exists.
    pub fn has_key(&self) -> bool {
        path_exists(as_path(&self.key_path))
    }
}

} // verus!
