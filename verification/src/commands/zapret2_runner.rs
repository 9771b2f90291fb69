//! Starting and stopping zapret 2 (`winws2.exe`): messages, the log tail
//! shown when the engine exits, and the warm-up time.

use crate::text;
use crate::text::{cat2, cat3, chars_of, concat, seqs, string_of};
use super::strategy_runner::{not_elevated, not_elevated_message, SpawnOptions};
use vstd::prelude::*;

verus! {

/// The argument that makes `winws2.exe` read the active preset (a path
/// relative to the zapret 2 folder, as in `zapret-console.bat`).
pub const ACTIVE_PRESET_ARG: &'static str = "@utils\\preset-active.txt";

pub const WINWS2_WARMUP_MS: u64 = 2000;

pub const WINWS2_IMAGE: &'static str = "winws2.exe";

/// The message when `winws2.exe` is already running.
pub open spec fn busy2_message(detail: Seq<char>) -> Seq<char> {
    "WINWS_BUSY:winws2.exe уже запущен ("@ + detail
        + "). Нажмите «Снять задачу» ниже и снова подключите нужную стратегию."@
}

pub fn winws_busy_message(detail: &str) -> (res: String)
    ensures
        res@ == busy2_message(detail@),
{
    cat3(
        "WINWS_BUSY:winws2.exe уже запущен (",
        detail,
        "). Нажмите «Снять задачу» ниже и снова подключите нужную стратегию.",
    )
}

/// The message when `winws2.exe` failed to start.
pub open spec fn start_failed_message(detail: Seq<char>) -> Seq<char> {
    "winws2.exe не запустился ("@ + detail
        + "). Попробуйте «Снять задачу», пресет Default v5, или zapret2\\service.bat → диагностика WinDivert."@
}

pub fn winws_start_failed_message(detail: &str) -> (res: String)
    ensures
        res@ == start_failed_message(detail@),
{
    cat3(
        "winws2.exe не запустился (",
        detail,
        "). Попробуйте «Снять задачу», пресет Default v5, или zapret2\\service.bat → диагностика WinDivert.",
    )
}

/// The hint naming the engine's log, when the log file exists.
pub fn log_path_hint(log_path: &str, log_exists: bool) -> (res: String)
    ensures
        res@ == (if log_exists {
            "\n\nЛог: "@ + log_path@
        } else {
            Seq::empty()
        }),
{
    if log_exists {
        cat2("\n\nЛог: ", log_path)
    } else {
        String::new()
    }
}

/// The last `max_lines` lines of a log, or `None` when there are none.
pub open spec fn log_tail(log: Seq<char>, max_lines: nat) -> Option<Seq<char>> {
    let ls = text::lines(log);
    let k = if ls.len() < max_lines {
        ls.len()
    } else {
        max_lines
    };
    if k == 0 {
        None
    } else {
        Some(text::join(ls.subrange(ls.len() - k, ls.len() as int), "\n"@))
    }
}

/// The last `max_lines` lines of the log text, joined by newlines.
pub fn tail_log(log: &str, max_lines: usize) -> (res: Option<String>)
    ensures
        match res {
            Some(t) => log_tail(log@, max_lines as nat) == Some(t@),
            None => log_tail(log@, max_lines as nat) is None,
        },
{
    let c = chars_of(log);
    let ls = text::lines_of(&c);
    let n = ls.len();
    let k = if n < max_lines { n } else { max_lines };
    if k == 0 {
        return None;
    }
    let mut tail: Vec<Vec<char>> = Vec::new();
    let mut i = n - k;
    while i < n
        invariant
            n == ls.len(),
            k <= n,
            n - k <= i <= n,
            seqs(tail@) == seqs(ls@).subrange(n - k, i as int),
        decreases n - i,
    {
        let l = text::copy(&ls[i]);
        proof {
            text::lemma_seqs_push(tail@, l);
        }
        tail.push(l);
        i += 1;
        assert(seqs(tail@) =~= seqs(ls@).subrange(n - k, i as int));
    }
    let nl = chars_of("\n");
    let j = text::join_chars(&tail, &nl);
    Some(string_of(&j))
}

/// The detail when `winws2.exe` exited after starting.
pub open spec fn exit_detail(
    preset_label: Seq<char>,
    code: int,
    tail: Option<Seq<char>>,
    hint: Seq<char>,
) -> Seq<char> {
    "после "@ + preset_label + " завершился с кодом "@ + text::signed_decimal(code) + match tail {
        Some(t) => "\n\nПоследние строки лога:\n"@ + t,
        None => Seq::empty(),
    } + hint
}

/// The detail when `winws2.exe` exited: its exit code (`-1` when unknown),
/// the tail of its log and the log hint.
pub fn child_exit_detail(preset_label: &str, code: i32, tail: Option<&str>, hint: &str) -> (res:
    String)
    ensures
        res@ == exit_detail(preset_label@, code as int, text::opt_str(tail), hint@),
{
    let a = cat3("после ", preset_label, " завершился с кодом ");
    let d = text::signed_decimal_string(code);
    let t = match tail {
        Some(t) => cat2("\n\nПоследние строки лога:\n", t),
        None => String::new(),
    };
    let ac = chars_of(a.as_str());
    let dc = chars_of(d.as_str());
    let tc = chars_of(t.as_str());
    let hc = chars_of(hint);
    let x = concat(&ac, &dc);
    let y = concat(&x, &tc);
    let z = concat(&y, &hc);
    string_of(&z)
}

/// How long to wait after starting `winws2.exe`: the requested warm-up, at
/// least 2 s.
pub fn warmup_ms(opts: &SpawnOptions) -> (res: u64)
    ensures
        res == (if opts.warmup_ms > 0 && opts.warmup_ms > WINWS2_WARMUP_MS {
            opts.warmup_ms
        } else {
            WINWS2_WARMUP_MS
        }),
{
    if opts.warmup_ms > 0 {
        if opts.warmup_ms > WINWS2_WARMUP_MS {
            opts.warmup_ms
        } else {
            WINWS2_WARMUP_MS
        }
    } else {
        WINWS2_WARMUP_MS
    }
}

/// The preset path with Windows separators.
pub fn preset_windows_path(preset_rel: &str) -> (res: String)
    ensures
        res@ == text::replace(preset_rel@, "/"@, "\\"@),
{
    proof {
        reveal_strlit("/");
    }
    let p = chars_of(preset_rel);
    let r = text::replace_str(&p, "/", "\\");
    string_of(&r)
}

/// Presets for Apex need their lists installed before starting.
pub fn preset_needs_apex_assets(preset_rel: &str) -> (res: bool)
    ensures
        res == text::contains(preset_rel@, "Apex"@),
{
    let p = chars_of(preset_rel);
    text::mentions(&p, "Apex")
}

/// The message when a preset file is missing.
pub fn missing_preset_message(path: &str) -> (res: String)
    ensures
        res@ == "Пресет не найден: "@ + path@ + ". Переустановите Zapret 2."@,
{
    cat3("Пресет не найден: ", path, ". Переустановите Zapret 2.")
}

/// The message when `winws2.exe` is missing.
pub fn missing_winws2_message(path: &str) -> (res: String)
    ensures
        res@ == "winws2.exe не найден: "@ + path@,
{
    cat2("winws2.exe не найден: ", path)
}

/// The message when the Apex files could not be prepared.
pub fn apex_assets_failed_message(e: &str) -> (res: String)
    ensures
        res@ == "Не удалось подготовить файлы Apex: "@ + e@
            + ". Настройки → Игры → «Установить пресет»."@,
{
    cat3("Не удалось подготовить файлы Apex: ", e, ". Настройки → Игры → «Установить пресет».")
}

/// The detail when a previous `winws2.exe` could not be stopped.
pub fn leftover2_detail(pid: u32) -> (res: String)
    ensures
        res@ == "не удалось остановить процесс "@ + text::decimal(pid as nat)
            + " — zapret, возможно, запущен вне fastpatch"@,
{
    let d = text::decimal_string(pid as u64);
    cat3("не удалось остановить процесс ", d.as_str(), " — zapret, возможно, запущен вне fastpatch")
}

/// The services that a stale `winws2.exe` can leave behind (cleaned up as
/// `zapret-console.bat` does).
pub fn windivert_services() -> (res: Vec<&'static str>)
    ensures
        res@.map_values(|s: &str| s@) == seq!["WinDivert"@, "WinDivert14"@, "Monkey"@, "Monkey14"@],
{
    let mut v: Vec<&'static str> = Vec::new();
    v.push("WinDivert");
    v.push("WinDivert14");
    v.push("Monkey");
    v.push("Monkey14");
    assert(v@.map_values(|s: &str| s@) =~= seq!["WinDivert"@, "WinDivert14"@, "Monkey"@, "Monkey14"@]);
    v
}

// ---------------------------------------------------------------------------
// Starting a zapret 2 preset, step by step
// ---------------------------------------------------------------------------

/// The next step of starting a preset with `winws2.exe`.
#[derive(Debug)]
pub enum PresetAction {
    /// Check that the preset and `winws2.exe` exist. Answer: `Files`.
    CheckFiles,
    /// Install the Apex lists. Answer: `Prepared`.
    PrepareApex,
    /// Stop every engine, waiting up to `wait_ms`, clear stale WinDivert
    /// services and pause half a second. Answer: `Done`.
    StopAll { wait_ms: u64 },
    /// Check for administrator rights. Answer: `Elevated`.
    CheckElevated,
    /// Look for a running `winws2.exe`. Answer: `Pid`.
    FindPid,
    /// Copy the preset to `utils\preset-active.txt`. Answer: `NoFolder` or
    /// `Activated`.
    Activate,
    /// Start `winws2.exe` with `arg`. Answer: `SpawnOk` or `SpawnErr`.
    Spawn { arg: &'static str },
    /// Wait `ms`. Answer: `Done`.
    Sleep { ms: u64 },
    /// Ask whether the started process has exited. Answer: `Exited`.
    CheckExit,
    /// Ask whether process `pid` runs. Answer: `Running`.
    IsRunning { pid: u32 },
    /// Describe how the started process ended. Answer: `Detail`.
    ExitDetail,
    /// The engine runs as process `pid`.
    Started { pid: u32 },
    /// Starting failed with this message.
    Fail(String),
}

/// What happened on a step.
#[derive(Debug)]
pub enum PresetEvent {
    Files { preset_exists: bool, preset_path: String, winws2_exists: bool, winws2_path: String },
    Prepared(Result<(), String>),
    Done,
    Elevated(bool),
    Pid(Option<u32>),
    /// The `utils` folder could not be created.
    NoFolder(String),
    /// The preset copy, or why it failed.
    Activated(Result<(), String>),
    SpawnOk { pid: u32 },
    /// The start error, and the log hint (`log_path_hint`).
    SpawnErr { error: String, log_hint: String },
    /// `Some(detail)` (see `child_exit_detail`) when the process has exited.
    Exited(Option<String>),
    Running(bool),
    Detail(String),
}

/// Where starting a preset stands.
#[derive(PartialEq, Eq, Structural)]
pub enum PresetPhase {
    Files,
    Apex,
    Stopping,
    Elevation,
    Leftover,
    Activating,
    Spawning,
    BusyCheck,
    Warmup,
    Exit,
    Running,
    Another,
    Detail,
    Over,
}

/// The message where zapret 2 cannot run.
pub open spec fn windows_only2_message() -> Seq<char> {
    "Zapret 2 поддерживается только на Windows"@
}

/// The phase after `event` in phase `phase`; `apex` when the preset needs
/// the Apex files.
pub open spec fn preset_next(phase: PresetPhase, event: PresetEvent, windows: bool, apex: bool) -> PresetPhase {
    match (phase, event) {
        (PresetPhase::Files, PresetEvent::Files { preset_exists, winws2_exists, .. }) => if !preset_exists
            || !winws2_exists {
            PresetPhase::Over
        } else if apex {
            PresetPhase::Apex
        } else {
            PresetPhase::Stopping
        },
        (PresetPhase::Apex, PresetEvent::Prepared(r)) => match r {
            Ok(()) => PresetPhase::Stopping,
            Err(_) => PresetPhase::Over,
        },
        (PresetPhase::Stopping, PresetEvent::Done) => if windows {
            PresetPhase::Elevation
        } else {
            PresetPhase::Over
        },
        (PresetPhase::Elevation, PresetEvent::Elevated(e)) => if e {
            PresetPhase::Leftover
        } else {
            PresetPhase::Over
        },
        (PresetPhase::Leftover, PresetEvent::Pid(p)) => match p {
            Some(_) => PresetPhase::Over,
            None => PresetPhase::Activating,
        },
        (PresetPhase::Activating, PresetEvent::Activated(r)) => match r {
            Ok(()) => PresetPhase::Spawning,
            Err(_) => PresetPhase::Over,
        },
        (PresetPhase::Spawning, PresetEvent::SpawnOk { .. }) => PresetPhase::Warmup,
        (PresetPhase::Spawning, PresetEvent::SpawnErr { .. }) => PresetPhase::BusyCheck,
        (PresetPhase::Warmup, PresetEvent::Done) => PresetPhase::Exit,
        (PresetPhase::Exit, PresetEvent::Exited(x)) => match x {
            Some(_) => PresetPhase::Over,
            None => PresetPhase::Running,
        },
        (PresetPhase::Running, PresetEvent::Running(r)) => if r {
            PresetPhase::Over
        } else {
            PresetPhase::Another
        },
        (PresetPhase::Another, PresetEvent::Pid(p)) => match p {
            Some(_) => PresetPhase::Over,
            None => PresetPhase::Detail,
        },
        _ => PresetPhase::Over,
    }
}

/// The phases of a preset launch that receives `events`, starting in
/// `start`: the phase before each event, and the last one.
pub open spec fn preset_phases(start: PresetPhase, events: Seq<PresetEvent>, windows: bool, apex: bool) -> Seq<
    PresetPhase,
>
    decreases events.len(),
{
    if events.len() == 0 {
        seq![start]
    } else {
        let prev = preset_phases(start, events.drop_last(), windows, apex);
        prev.push(preset_next(prev.last(), events.last(), windows, apex))
    }
}

/// The `k`-th phase of a run follows from the one before and the event.
pub open spec fn preset_step_at(
    start: PresetPhase,
    events: Seq<PresetEvent>,
    windows: bool,
    apex: bool,
    k: int,
) -> bool {
    let ph = preset_phases(start, events, windows, apex);
    ph[k] == preset_next(ph[k - 1], events[k - 1], windows, apex)
}

proof fn lemma_preset_phases_len(start: PresetPhase, events: Seq<PresetEvent>, windows: bool, apex: bool)
    ensures
        preset_phases(start, events, windows, apex).len() == events.len() + 1,
        preset_phases(start, events, windows, apex)[0] == start,
        forall|k: int| 0 < k <= events.len() ==> #[trigger] preset_step_at(start, events, windows, apex, k),
    decreases events.len(),
{
    if events.len() > 0 {
        let prev_events = events.drop_last();
        lemma_preset_phases_len(start, prev_events, windows, apex);
        let prev = preset_phases(start, prev_events, windows, apex);
        let all = preset_phases(start, events, windows, apex);
        assert forall|k: int| 0 < k <= events.len() implies #[trigger] preset_step_at(
            start,
            events,
            windows,
            apex,
            k,
        ) by {
            if k < events.len() {
                assert(preset_step_at(start, prev_events, windows, apex, k));
                assert(all[k] == prev[k]);
                assert(all[k - 1] == prev[k - 1]);
                assert(events[k - 1] == prev_events[k - 1]);
            } else {
                assert(all[k - 1] == prev.last());
            }
        }
    }
}

/// The phases after no `winws2.exe` was found running.
pub open spec fn preset_after_check(p: PresetPhase) -> bool {
    p == PresetPhase::Activating || p == PresetPhase::Spawning || p == PresetPhase::BusyCheck || p
        == PresetPhase::Warmup || p == PresetPhase::Exit || p == PresetPhase::Running || p
        == PresetPhase::Another || p == PresetPhase::Detail
}

/// The phases after the engines were stopped.
pub open spec fn preset_after_stop(p: PresetPhase) -> bool {
    p == PresetPhase::Elevation || p == PresetPhase::Leftover || preset_after_check(p)
}

proof fn lemma_preset_stopped(events: Seq<PresetEvent>, windows: bool, apex: bool, k: int)
    requires
        0 <= k <= events.len(),
        preset_after_stop(preset_phases(PresetPhase::Files, events, windows, apex)[k]),
    ensures
        exists|i: int|
            0 <= i < k && preset_phases(PresetPhase::Files, events, windows, apex)[i]
                == PresetPhase::Stopping && #[trigger] events[i] == PresetEvent::Done,
    decreases k,
{
    let ph = preset_phases(PresetPhase::Files, events, windows, apex);
    lemma_preset_phases_len(PresetPhase::Files, events, windows, apex);
    if k > 0 {
        let p = ph[k - 1];
        let e = events[k - 1];
        assert(preset_step_at(PresetPhase::Files, events, windows, apex, k));
        if p == PresetPhase::Stopping && e == PresetEvent::Done {
            assert(events[k - 1] == PresetEvent::Done);
        } else {
            assert(preset_after_stop(p));
            lemma_preset_stopped(events, windows, apex, k - 1);
        }
    }
}

proof fn lemma_preset_checked(events: Seq<PresetEvent>, windows: bool, apex: bool, k: int)
    requires
        0 <= k <= events.len(),
        preset_after_check(preset_phases(PresetPhase::Files, events, windows, apex)[k]),
    ensures
        exists|j: int|
            0 <= j < k && preset_phases(PresetPhase::Files, events, windows, apex)[j]
                == PresetPhase::Leftover && #[trigger] events[j] == PresetEvent::Pid(None),
    decreases k,
{
    let ph = preset_phases(PresetPhase::Files, events, windows, apex);
    lemma_preset_phases_len(PresetPhase::Files, events, windows, apex);
    if k > 0 {
        let p = ph[k - 1];
        let e = events[k - 1];
        assert(preset_step_at(PresetPhase::Files, events, windows, apex, k));
        if p == PresetPhase::Leftover {
            assert(e == PresetEvent::Pid(None));
        } else {
            assert(preset_after_check(p));
            lemma_preset_checked(events, windows, apex, k - 1);
        }
    }
}

/// The preset was copied into place.
pub open spec fn activated(e: PresetEvent) -> bool {
    e matches PresetEvent::Activated(Ok(_))
}

/// One engine at a time: in a preset launch that starts by checking the
/// files, `winws2.exe` is started (the phase `Spawning`) only after every
/// engine was stopped, then no `winws2.exe` was found running, then the
/// preset was activated, in this order.
pub proof fn lemma_preset_stops_before_spawn(events: Seq<PresetEvent>, windows: bool, apex: bool, k: int)
    requires
        0 <= k <= events.len(),
        preset_phases(PresetPhase::Files, events, windows, apex)[k] == PresetPhase::Spawning,
    ensures
        exists|i: int, j: int, l: int|
            0 <= i < j < l < k && preset_phases(PresetPhase::Files, events, windows, apex)[i]
                == PresetPhase::Stopping && #[trigger] events[i] == PresetEvent::Done
                && preset_phases(PresetPhase::Files, events, windows, apex)[j]
                == PresetPhase::Leftover && #[trigger] events[j] == PresetEvent::Pid(None)
                && preset_phases(PresetPhase::Files, events, windows, apex)[l]
                == PresetPhase::Activating && activated(#[trigger] events[l]),
{
    let ph = preset_phases(PresetPhase::Files, events, windows, apex);
    lemma_preset_phases_len(PresetPhase::Files, events, windows, apex);
    assert(k > 0);
    assert(preset_step_at(PresetPhase::Files, events, windows, apex, k));
    let l = k - 1;
    assert(ph[l] == PresetPhase::Activating);
    assert(activated(events[l]));
    lemma_preset_checked(events, windows, apex, l);
    let j = choose|j: int| 0 <= j < l && ph[j] == PresetPhase::Leftover && events[j] == PresetEvent::Pid(None);
    lemma_preset_stopped(events, windows, apex, j);
    let i = choose|i: int| 0 <= i < j && ph[i] == PresetPhase::Stopping && events[i] == PresetEvent::Done;
    assert(0 <= i < j < l < k && ph[i] == PresetPhase::Stopping && events[i] == PresetEvent::Done
        && ph[j] == PresetPhase::Leftover && events[j] == PresetEvent::Pid(None) && ph[l]
        == PresetPhase::Activating && activated(events[l]));
}

/// Starting the preset `preset_rel` with `opts`; `windows` when the engine
/// can run here. `pid` is the started process; `spawn_error` and
/// `spawn_hint` keep a start error while the busy check runs.
pub struct PresetLaunch {
    pub preset_rel: String,
    pub opts: SpawnOptions,
    pub windows: bool,
    pub phase: PresetPhase,
    pub pid: u32,
    pub spawn_error: String,
    pub spawn_hint: String,
}

impl PresetLaunch {
    /// The first step: check the files.
    pub fn start(preset_rel: String, opts: SpawnOptions, windows: bool) -> (res: (PresetLaunch, PresetAction))
        ensures
            res.0.preset_rel == preset_rel,
            res.0.opts == opts,
            res.0.windows == windows,
            res.0.phase == PresetPhase::Files,
            res.1 is CheckFiles,
    {
        (
            PresetLaunch {
                preset_rel,
                opts,
                windows,
                phase: PresetPhase::Files,
                pid: 0,
                spawn_error: String::new(),
                spawn_hint: String::new(),
            },
            PresetAction::CheckFiles,
        )
    }

    /// The step after `event`: a missing file, unprepared Apex lists,
    /// missing rights, a `winws2.exe` that would not stop, a failed copy, a
    /// failed start or a process that ends during the warm-up end with the
    /// message for it; otherwise the engines are stopped, the preset
    /// activated, `winws2.exe` started, given the warm-up and checked.
    pub fn on_event(&mut self, event: PresetEvent) -> (res: PresetAction)
        requires
            old(self).phase != PresetPhase::Over,
        ensures
            final(self).preset_rel == old(self).preset_rel,
            final(self).opts == old(self).opts,
            final(self).windows == old(self).windows,
            final(self).phase == preset_next(
                old(self).phase,
                event,
                old(self).windows,
                text::contains(old(self).preset_rel@, "Apex"@),
            ),
            ({
                let o = *old(self);
                let f = *final(self);
                match (o.phase, event) {
                    (PresetPhase::Files, PresetEvent::Files { preset_exists, preset_path, winws2_exists, winws2_path }) =>
                        if !preset_exists {
                        f.phase == PresetPhase::Over && (res matches PresetAction::Fail(m) && m@
                            == "Пресет не найден: "@ + preset_path@ + ". Переустановите Zapret 2."@)
                    } else if !winws2_exists {
                        f.phase == PresetPhase::Over && (res matches PresetAction::Fail(m) && m@
                            == "winws2.exe не найден: "@ + winws2_path@)
                    } else if text::contains(o.preset_rel@, "Apex"@) {
                        f.phase == PresetPhase::Apex && res is PrepareApex
                    } else {
                        f.phase == PresetPhase::Stopping && res == (PresetAction::StopAll {
                            wait_ms: o.opts.stop_wait_ms,
                        })
                    },
                    (PresetPhase::Apex, PresetEvent::Prepared(r)) => match r {
                        Err(e) => f.phase == PresetPhase::Over && (res matches PresetAction::Fail(m)
                            && m@ == "Не удалось подготовить файлы Apex: "@ + e@
                            + ". Настройки → Игры → «Установить пресет»."@),
                        Ok(()) => f.phase == PresetPhase::Stopping && res == (PresetAction::StopAll {
                            wait_ms: o.opts.stop_wait_ms,
                        }),
                    },
                    (PresetPhase::Stopping, PresetEvent::Done) => if o.windows {
                        f.phase == PresetPhase::Elevation && res is CheckElevated
                    } else {
                        f.phase == PresetPhase::Over && (res matches PresetAction::Fail(m) && m@
                            == windows_only2_message())
                    },
                    (PresetPhase::Elevation, PresetEvent::Elevated(e)) => if e {
                        f.phase == PresetPhase::Leftover && res is FindPid
                    } else {
                        f.phase == PresetPhase::Over && (res matches PresetAction::Fail(m) && m@
                            == not_elevated_message())
                    },
                    (PresetPhase::Leftover, PresetEvent::Pid(p)) => match p {
                        Some(pid) => f.phase == PresetPhase::Over && (res matches PresetAction::Fail(
                            m,
                        ) && m@ == busy2_message(
                            "не удалось остановить процесс "@ + text::decimal(pid as nat)
                                + " — zapret, возможно, запущен вне fastpatch"@,
                        )),
                        None => f.phase == PresetPhase::Activating && res is Activate,
                    },
                    (PresetPhase::Activating, PresetEvent::NoFolder(e)) => f.phase
                        == PresetPhase::Over && res == PresetAction::Fail(e),
                    (PresetPhase::Activating, PresetEvent::Activated(r)) => match r {
                        Err(e) => f.phase == PresetPhase::Over && (res matches PresetAction::Fail(m)
                            && m@ == "Не удалось активировать пресет: "@ + e@),
                        Ok(()) => f.phase == PresetPhase::Spawning && (res matches PresetAction::Spawn {
                            arg,
                        } && arg@ == ACTIVE_PRESET_ARG@),
                    },
                    (PresetPhase::Spawning, PresetEvent::SpawnOk { pid }) => f.phase
                        == PresetPhase::Warmup && f.pid == pid && res == (PresetAction::Sleep {
                        ms: (if o.opts.warmup_ms > WINWS2_WARMUP_MS {
                            o.opts.warmup_ms
                        } else {
                            WINWS2_WARMUP_MS
                        }),
                    }),
                    (PresetPhase::Spawning, PresetEvent::SpawnErr { error, log_hint }) => f.phase
                        == PresetPhase::BusyCheck && f.spawn_error == error && f.spawn_hint
                        == log_hint && res is FindPid,
                    (PresetPhase::BusyCheck, PresetEvent::Pid(p)) => f.phase == PresetPhase::Over
                        && match p {
                        Some(_) => res matches PresetAction::Fail(m) && m@ == busy2_message(
                            o.spawn_error@,
                        ),
                        None => res matches PresetAction::Fail(m) && m@ == start_failed_message(
                            o.spawn_error@ + o.spawn_hint@,
                        ),
                    },
                    (PresetPhase::Warmup, PresetEvent::Done) => f.phase == PresetPhase::Exit
                        && f.pid == o.pid && res is CheckExit,
                    (PresetPhase::Exit, PresetEvent::Exited(x)) => match x {
                        Some(detail) => f.phase == PresetPhase::Over && (res matches PresetAction::Fail(
                            m,
                        ) && m@ == start_failed_message(detail@)),
                        None => f.phase == PresetPhase::Running && f.pid == o.pid && res
                            == (PresetAction::IsRunning { pid: o.pid }),
                    },
                    (PresetPhase::Running, PresetEvent::Running(r)) => if r {
                        f.phase == PresetPhase::Over && res == (PresetAction::Started { pid: o.pid })
                    } else {
                        f.phase == PresetPhase::Another && res is FindPid
                    },
                    (PresetPhase::Another, PresetEvent::Pid(p)) => match p {
                        Some(_) => f.phase == PresetPhase::Over && (res matches PresetAction::Fail(m)
                            && m@ == busy2_message(
                            "обнаружен другой экземпляр winws2 после запуска"@,
                        )),
                        None => f.phase == PresetPhase::Detail && res is ExitDetail,
                    },
                    (PresetPhase::Detail, PresetEvent::Detail(d)) => f.phase == PresetPhase::Over
                        && (res matches PresetAction::Fail(m) && m@ == start_failed_message(d@)),
                    _ => f.phase == PresetPhase::Over && (res matches PresetAction::Fail(m) && m@
                        == "unexpected step"@),
                }
            }),
    {
        let phase = match self.phase {
            PresetPhase::Files => PresetPhase::Files,
            PresetPhase::Apex => PresetPhase::Apex,
            PresetPhase::Stopping => PresetPhase::Stopping,
            PresetPhase::Elevation => PresetPhase::Elevation,
            PresetPhase::Leftover => PresetPhase::Leftover,
            PresetPhase::Activating => PresetPhase::Activating,
            PresetPhase::Spawning => PresetPhase::Spawning,
            PresetPhase::BusyCheck => PresetPhase::BusyCheck,
            PresetPhase::Warmup => PresetPhase::Warmup,
            PresetPhase::Exit => PresetPhase::Exit,
            PresetPhase::Running => PresetPhase::Running,
            PresetPhase::Another => PresetPhase::Another,
            PresetPhase::Detail => PresetPhase::Detail,
            PresetPhase::Over => PresetPhase::Over,
        };
        match (phase, event) {
            (PresetPhase::Files, PresetEvent::Files { preset_exists, preset_path, winws2_exists, winws2_path }) => {
                if !preset_exists {
                    self.phase = PresetPhase::Over;
                    PresetAction::Fail(missing_preset_message(preset_path.as_str()))
                } else if !winws2_exists {
                    self.phase = PresetPhase::Over;
                    PresetAction::Fail(missing_winws2_message(winws2_path.as_str()))
                } else if preset_needs_apex_assets(self.preset_rel.as_str()) {
                    self.phase = PresetPhase::Apex;
                    PresetAction::PrepareApex
                } else {
                    self.phase = PresetPhase::Stopping;
                    PresetAction::StopAll { wait_ms: self.opts.stop_wait_ms }
                }
            },
            (PresetPhase::Apex, PresetEvent::Prepared(r)) => {
                match r {
                    Err(e) => {
                        self.phase = PresetPhase::Over;
                        PresetAction::Fail(apex_assets_failed_message(e.as_str()))
                    },
                    Ok(()) => {
                        self.phase = PresetPhase::Stopping;
                        PresetAction::StopAll { wait_ms: self.opts.stop_wait_ms }
                    },
                }
            },
            (PresetPhase::Stopping, PresetEvent::Done) => {
                if self.windows {
                    self.phase = PresetPhase::Elevation;
                    PresetAction::CheckElevated
                } else {
                    self.phase = PresetPhase::Over;
                    PresetAction::Fail(text::owned("Zapret 2 поддерживается только на Windows"))
                }
            },
            (PresetPhase::Elevation, PresetEvent::Elevated(e)) => {
                if e {
                    self.phase = PresetPhase::Leftover;
                    PresetAction::FindPid
                } else {
                    self.phase = PresetPhase::Over;
                    PresetAction::Fail(not_elevated())
                }
            },
            (PresetPhase::Leftover, PresetEvent::Pid(p)) => {
                match p {
                    Some(pid) => {
                        self.phase = PresetPhase::Over;
                        let d = leftover2_detail(pid);
                        PresetAction::Fail(winws_busy_message(d.as_str()))
                    },
                    None => {
                        self.phase = PresetPhase::Activating;
                        PresetAction::Activate
                    },
                }
            },
            (PresetPhase::Activating, PresetEvent::NoFolder(e)) => {
                self.phase = PresetPhase::Over;
                PresetAction::Fail(e)
            },
            (PresetPhase::Activating, PresetEvent::Activated(r)) => {
                match r {
                    Err(e) => {
                        self.phase = PresetPhase::Over;
                        PresetAction::Fail(cat2("Не удалось активировать пресет: ", e.as_str()))
                    },
                    Ok(()) => {
                        self.phase = PresetPhase::Spawning;
                        PresetAction::Spawn { arg: ACTIVE_PRESET_ARG }
                    },
                }
            },
            (PresetPhase::Spawning, PresetEvent::SpawnOk { pid }) => {
                self.phase = PresetPhase::Warmup;
                self.pid = pid;
                PresetAction::Sleep { ms: warmup_ms(&self.opts) }
            },
            (PresetPhase::Spawning, PresetEvent::SpawnErr { error, log_hint }) => {
                self.phase = PresetPhase::BusyCheck;
                self.spawn_error = error;
                self.spawn_hint = log_hint;
                PresetAction::FindPid
            },
            (PresetPhase::BusyCheck, PresetEvent::Pid(p)) => {
                self.phase = PresetPhase::Over;
                match p {
                    Some(_) => PresetAction::Fail(winws_busy_message(self.spawn_error.as_str())),
                    None => {
                        let d = cat2(self.spawn_error.as_str(), self.spawn_hint.as_str());
                        PresetAction::Fail(winws_start_failed_message(d.as_str()))
                    },
                }
            },
            (PresetPhase::Warmup, PresetEvent::Done) => {
                self.phase = PresetPhase::Exit;
                PresetAction::CheckExit
            },
            (PresetPhase::Exit, PresetEvent::Exited(x)) => {
                match x {
                    Some(detail) => {
                        self.phase = PresetPhase::Over;
                        PresetAction::Fail(winws_start_failed_message(detail.as_str()))
                    },
                    None => {
                        self.phase = PresetPhase::Running;
                        PresetAction::IsRunning { pid: self.pid }
                    },
                }
            },
            (PresetPhase::Running, PresetEvent::Running(r)) => {
                if r {
                    self.phase = PresetPhase::Over;
                    PresetAction::Started { pid: self.pid }
                } else {
                    self.phase = PresetPhase::Another;
                    PresetAction::FindPid
                }
            },
            (PresetPhase::Another, PresetEvent::Pid(p)) => {
                match p {
                    Some(_) => {
                        self.phase = PresetPhase::Over;
                        PresetAction::Fail(
                            winws_busy_message("обнаружен другой экземпляр winws2 после запуска"),
                        )
                    },
                    None => {
                        self.phase = PresetPhase::Detail;
                        PresetAction::ExitDetail
                    },
                }
            },
            (PresetPhase::Detail, PresetEvent::Detail(d)) => {
                self.phase = PresetPhase::Over;
                PresetAction::Fail(winws_start_failed_message(d.as_str()))
            },
            _ => {
                self.phase = PresetPhase::Over;
                PresetAction::Fail(text::owned("unexpected step"))
            },
        }
    }
}

} // verus!
