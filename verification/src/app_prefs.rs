//! fastpatch settings: the last strategy, auto-connect after autostart, and
//! the selected engine. Reading and writing `prefs.json` is the caller's
//! part; this module holds the settings and how they are merged and changed.

use crate::text;
use vstd::prelude::*;

verus! {

/// The engine selected in the settings.
#[derive(Clone, Copy, PartialEq, Eq, Structural, Debug)]
pub enum ZapretBackendPref {
    V1,
    V2,
}

/// The settings.
#[derive(Clone, Debug)]
pub struct AppPrefs {
    pub last_strategy_id: Option<String>,
    /// Connect `last_strategy_id` after Windows autostart.
    pub auto_connect_on_autostart: bool,
    pub zapret_backend: ZapretBackendPref,
}

/// The contents of [`AppPrefs`].
pub struct AppPrefsView {
    pub last_strategy_id: Option<Seq<char>>,
    pub auto_connect_on_autostart: bool,
    pub zapret_backend: ZapretBackendPref,
}

impl View for AppPrefs {
    type V = AppPrefsView;

    open spec fn view(&self) -> AppPrefsView {
        AppPrefsView {
            last_strategy_id: match self.last_strategy_id {
                Some(s) => Some(s@),
                None => None,
            },
            auto_connect_on_autostart: self.auto_connect_on_autostart,
            zapret_backend: self.zapret_backend,
        }
    }
}

/// Auto-connect is on unless the settings say otherwise.
pub fn default_auto_connect() -> (res: bool)
    ensures
        res,
{
    true
}

/// The settings when none are saved: no last strategy, auto-connect on,
/// zapret 2.
pub open spec fn default_prefs() -> AppPrefsView {
    AppPrefsView {
        last_strategy_id: None,
        auto_connect_on_autostart: true,
        zapret_backend: ZapretBackendPref::V2,
    }
}

impl Default for AppPrefs {
    fn default() -> (res: Self)
        ensures
            res@ == default_prefs(),
    {
        AppPrefs {
            last_strategy_id: None,
            auto_connect_on_autostart: true,
            zapret_backend: ZapretBackendPref::V2,
        }
    }
}

fn copy_opt(s: &Option<String>) -> (res: Option<String>)
    ensures
        res == *s,
{
    match s {
        Some(x) => Some(x.clone()),
        None => None,
    }
}

/// The settings loaded from the user's profile (`primary`, or the defaults
/// when it is absent or unreadable), with the last strategy taken from the
/// settings an older build wrote elsewhere (`legacy`) when only those have
/// one; in that case the merged settings are to be saved (the `bool`).
pub open spec fn merged_prefs(primary: Option<AppPrefsView>, legacy: Option<AppPrefsView>) -> (
    AppPrefsView,
    bool,
) {
    let p = match primary {
        Some(p) => p,
        None => default_prefs(),
    };
    if p.last_strategy_id is None && (legacy matches Some(l) && l.last_strategy_id is Some) {
        (AppPrefsView { last_strategy_id: legacy->0.last_strategy_id, ..p }, true)
    } else {
        (p, false)
    }
}

/// The view of optional settings.
pub open spec fn opt_prefs(o: Option<AppPrefs>) -> Option<AppPrefsView> {
    match o {
        Some(p) => Some(p@),
        None => None,
    }
}

/// Merges the settings read from the user's profile and from the legacy
/// location; the flag says whether the result must be saved.
pub fn load(primary: Option<AppPrefs>, legacy: Option<AppPrefs>) -> (res: (AppPrefs, bool))
    ensures
        (res.0@, res.1) == merged_prefs(opt_prefs(primary), opt_prefs(legacy)),
{
    let mut prefs = match primary {
        Some(p) => p,
        None => AppPrefs::default(),
    };
    if prefs.last_strategy_id.is_none() {
        if let Some(l) = legacy {
            if l.last_strategy_id.is_some() {
                prefs.last_strategy_id = copy_opt(&l.last_strategy_id);
                return (prefs, true);
            }
        }
    }
    (prefs, false)
}

/// The settings with `id` as the last strategy.
pub fn set_last_strategy_id(prefs: AppPrefs, id: &str) -> (res: AppPrefs)
    ensures
        res@ == (AppPrefsView { last_strategy_id: Some(id@), ..prefs@ }),
{
    AppPrefs { last_strategy_id: Some(text::owned(id)), ..prefs }
}

/// The settings with auto-connect after autostart turned on or off.
pub fn set_auto_connect_on_autostart(prefs: AppPrefs, enabled: bool) -> (res: AppPrefs)
    ensures
        res@ == (AppPrefsView { auto_connect_on_autostart: enabled, ..prefs@ }),
{
    AppPrefs { auto_connect_on_autostart: enabled, ..prefs }
}

/// The settings with another engine selected.
pub fn set_zapret_backend(prefs: AppPrefs, backend: ZapretBackendPref) -> (res: AppPrefs)
    ensures
        res@ == (AppPrefsView { zapret_backend: backend, ..prefs@ }),
{
    AppPrefs { zapret_backend: backend, ..prefs }
}

/// Saved settings are read back as saved: loading them keeps
/// auto-connect and the engine, and when a last strategy is saved, loading
/// gives exactly the saved settings and asks for no save.
pub proof fn lemma_prefs_read_back(saved: AppPrefsView, legacy: Option<AppPrefsView>)
    ensures
        merged_prefs(Some(saved), legacy).0.auto_connect_on_autostart
            == saved.auto_connect_on_autostart,
        merged_prefs(Some(saved), legacy).0.zapret_backend == saved.zapret_backend,
        saved.last_strategy_id is Some ==> merged_prefs(Some(saved), legacy) == (saved, false),
{
}

/// The strategy saved as the last one is the one loaded, whatever the
/// legacy settings hold.
pub proof fn lemma_last_strategy_read_back(
    prefs: AppPrefsView,
    id: Seq<char>,
    legacy: Option<AppPrefsView>,
)
    ensures
        merged_prefs(Some(AppPrefsView { last_strategy_id: Some(id), ..prefs }), legacy).0.last_strategy_id
            == Some(id),
{
}

} // verus!
