//! The choice of engine: zapret 1 (`winws`) or zapret 2 (`winws2`).

use crate::app_prefs::{AppPrefs, ZapretBackendPref};
use crate::text;
use super::strategy_runner::{busy_message, leftover_detail, winws_busy_message};
use super::zapret2_runner::{busy2_message, leftover2_detail};
use vstd::prelude::*;

verus! {

/// The engine in use.
#[derive(Debug, Clone, Copy, PartialEq, Eq, Structural)]
pub enum ZapretBackend {
    V1,
    V2,
}

/// The engine for a setting.
pub open spec fn backend_of(p: ZapretBackendPref) -> ZapretBackend {
    match p {
        ZapretBackendPref::V1 => ZapretBackend::V1,
        ZapretBackendPref::V2 => ZapretBackend::V2,
    }
}

/// The setting for an engine.
pub open spec fn pref_of(b: ZapretBackend) -> ZapretBackendPref {
    match b {
        ZapretBackend::V1 => ZapretBackendPref::V1,
        ZapretBackend::V2 => ZapretBackendPref::V2,
    }
}

pub fn backend_from_pref(p: ZapretBackendPref) -> (res: ZapretBackend)
    ensures
        res == backend_of(p),
{
    match p {
        ZapretBackendPref::V1 => ZapretBackend::V1,
        ZapretBackendPref::V2 => ZapretBackend::V2,
    }
}

pub fn pref_from_backend(b: ZapretBackend) -> (res: ZapretBackendPref)
    ensures
        res == pref_of(b),
{
    match b {
        ZapretBackend::V1 => ZapretBackendPref::V1,
        ZapretBackend::V2 => ZapretBackendPref::V2,
    }
}

/// The engine selected in the settings.
pub fn current(prefs: &AppPrefs) -> (res: ZapretBackend)
    ensures
        res == backend_of(prefs.zapret_backend),
{
    backend_from_pref(prefs.zapret_backend)
}

/// The settings after selecting `backend` (the caller stops both engines
/// first and saves the settings).
pub fn set_current(prefs: AppPrefs, backend: ZapretBackend) -> (res: AppPrefs)
    ensures
        res@ == (crate::app_prefs::AppPrefsView { zapret_backend: pref_of(backend), ..prefs@ }),
{
    crate::app_prefs::set_zapret_backend(prefs, pref_from_backend(backend))
}

/// Before starting an engine, after both were stopped: an error when the
/// selected engine's process (`leftover`, its first remaining process id)
/// is still there.
pub open spec fn preflight(backend: ZapretBackend, leftover: Option<u32>) -> Result<(), Seq<char>> {
    match leftover {
        None => Ok(()),
        Some(pid) => match backend {
            ZapretBackend::V2 => Err(
                busy2_message(
                    "не удалось остановить процесс "@ + text::decimal(pid as nat)
                        + " — zapret, возможно, запущен вне fastpatch"@,
                ),
            ),
            ZapretBackend::V1 => Err(
                busy_message(
                    "не удалось остановить процесс "@ + text::decimal(pid as nat)
                        + " — zapret, возможно, запущен вне fastpatch"@,
                ),
            ),
        },
    }
}

/// Checks that the selected engine is not running after both were stopped.
pub fn preflight_engine_spawn(backend: ZapretBackend, leftover: Option<u32>) -> (res: Result<
    (),
    String,
>)
    ensures
        match res {
            Ok(()) => preflight(backend, leftover) is Ok,
            Err(e) => preflight(backend, leftover) == Err::<(), Seq<char>>(e@),
        },
{
    match leftover {
        None => Ok(()),
        Some(pid) => {
            let d = leftover2_detail(pid);
            match backend {
                ZapretBackend::V2 => Err(super::zapret2_runner::winws_busy_message(d.as_str())),
                ZapretBackend::V1 => Err(winws_busy_message(d.as_str())),
            }
        },
    }
}

} // verus!
