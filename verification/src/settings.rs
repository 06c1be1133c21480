//! Console-wide preferences: whether AI features are on, and the colour theme.
//!
//! These are a teacher's personal choices rather than per-classroom state, so they live in the base
//! directory and apply to every classroom. A missing or unreadable file means the defaults.

use crate::paths::{join, path_join};
use std::path::{Path, PathBuf};
use vstd::prelude::*;

verus! {

/// One colour theme. `dark` and `light` are built in; `custom` uses [`Settings::custom`].
#[derive(Debug, Clone, Copy, PartialEq, Eq, Structural)]
pub enum Theme {
    Dark,
    Light,
    Custom,
}

impl Default for Theme {
    /// The dark theme.
    fn default() -> (t: Self)
        ensures
            t == Theme::Dark,
    {
        Theme::Dark
    }
}

/// A custom palette: each field a CSS colour; an empty one falls back to the dark default.
#[derive(Debug, Clone, PartialEq, Eq)]
pub struct CustomTheme {
    pub bg: String,
    pub panel: String,
    pub panel2: String,
    pub line: String,
    pub text: String,
    pub muted: String,
    pub accent: String,
}

impl Default for CustomTheme {
    /// Every colour empty.
    fn default() -> (t: Self)
        ensures
            t.bg@.len() == 0 && t.panel@.len() == 0 && t.panel2@.len() == 0 && t.line@.len() == 0
                && t.text@.len() == 0 && t.muted@.len() == 0 && t.accent@.len() == 0,
    {
        CustomTheme {
            bg: String::new(),
            panel: String::new(),
            panel2: String::new(),
            line: String::new(),
            text: String::new(),
            muted: String::new(),
            accent: String::new(),
        }
    }
}

/// Everything on the settings surface that is persisted.
#[derive(Debug, Clone, PartialEq, Eq)]
pub struct Settings {
    /// When false, every AI feature is hidden and no AI request is ever made.
    pub ai_enabled: bool,
    /// Whether previews linger after watching stops.
    pub keep_previews: bool,
    pub theme: Theme,
    pub custom: CustomTheme,
}

impl Default for Settings {
    /// AI on, previews kept, the dark theme, an empty custom palette.
    fn default() -> (s: Self)
        ensures
            s.ai_enabled,
            s.keep_previews,
            s.theme == Theme::Dark,
            s.custom.bg@.len() == 0 && s.custom.accent@.len() == 0,
    {
        Settings {
            ai_enabled: true,
            keep_previews: true,
            theme: Theme::default(),
            custom: CustomTheme::default(),
        }
    }
}

/// Where [`Settings`] are kept: `settings.json` in the base directory.
pub struct Store {
    path: PathBuf,
}

impl Store {
    /// The settings file.
    pub closed spec fn file(&self) -> PathBuf {
        self.path
    }

    /// Uses `settings.json` in `base_dir`.
    pub fn new(base_dir: &Path) -> (s: Self)
        ensures
            s.file() == path_join(base_dir, "settings.json"@),
    {
        Store { path: join(base_dir, "settings.json") }
    }

    /// The settings file.
    pub fn path(&self) -> (p: &PathBuf)
        ensures
            *p == self.file(),
    {
        &self.path
    }
}

} // verus!
