//! Starting and stopping zapret 1 (`winws.exe`): options, the hidden
//! `service.bat` preamble, and the messages shown when the engine is busy.

use crate::text;
use crate::text::{cat2, cat3, chars_of, seqs};
use super::engine_process::unquote_chars;
use vstd::prelude::*;

verus! {

pub const WINWS_WARMUP_MS: u64 = 4000;

pub const WINWS_FAST_WARMUP_MS: u64 = 800;

/// Prefix for the UI: a yellow warning and an "end task" button.
pub const WINWS_BUSY_PREFIX: &'static str = "WINWS_BUSY:";

/// The message when `winws.exe` is already running.
pub open spec fn busy_message(detail: Seq<char>) -> Seq<char> {
    "WINWS_BUSY:winws.exe уже запущен ("@ + detail
        + "). Нажмите «Снять задачу» ниже и снова подключите нужную стратегию."@
}

/// The message when `winws.exe` is already running, with `detail`.
pub fn winws_busy_message(detail: &str) -> (res: String)
    ensures
        res@ == busy_message(detail@),
{
    cat3(
        "WINWS_BUSY:winws.exe уже запущен (",
        detail,
        "). Нажмите «Снять задачу» ниже и снова подключите нужную стратегию.",
    )
}

/// How an engine is started.
#[derive(Clone, Copy, Debug)]
pub struct SpawnOptions {
    pub run_preamble: bool,
    pub warmup_ms: u64,
    /// How long to wait for the previous `winws.exe` to exit before starting.
    pub stop_wait_ms: u64,
}

impl Default for SpawnOptions {
    fn default() -> (res: Self)
        ensures
            res.run_preamble,
            res.warmup_ms == WINWS_WARMUP_MS,
            res.stop_wait_ms == 4000,
    {
        SpawnOptions { run_preamble: true, warmup_ms: WINWS_WARMUP_MS, stop_wait_ms: 4000 }
    }
}

impl SpawnOptions {
    /// The fast cycle of a scan: no repeated preamble, shorter waits.
    pub fn for_scan_iteration(long_warmup: bool) -> (res: Self)
        ensures
            !res.run_preamble,
            res.warmup_ms == (if long_warmup {
                2200u64
            } else {
                1200u64
            }),
            res.stop_wait_ms == 3500,
    {
        SpawnOptions {
            run_preamble: false,
            warmup_ms: if long_warmup {
                2200
            } else {
                1200
            },
            stop_wait_ms: 3500,
        }
    }
}

/// The `service.bat` calls made before starting `winws.exe`, as at the top
/// of `general*.bat`: the status check is left out of the minimal run.
pub open spec fn preamble_hooks(minimal: bool) -> Seq<Seq<char>> {
    if minimal {
        seq!["call service.bat load_game_filter"@, "call service.bat load_user_lists"@]
    } else {
        seq![
            "call service.bat status_zapret"@,
            "call service.bat load_game_filter"@,
            "call service.bat load_user_lists"@,
        ]
    }
}

/// The `service.bat` calls of the preamble, in order.
pub fn zapret_preamble_hooks(minimal: bool) -> (res: Vec<&'static str>)
    ensures
        res@.map_values(|h: &str| h@) == preamble_hooks(minimal),
{
    let mut v: Vec<&'static str> = Vec::new();
    if !minimal {
        v.push("call service.bat status_zapret");
    }
    v.push("call service.bat load_game_filter");
    v.push("call service.bat load_user_lists");
    assert(v@.map_values(|h: &str| h@) =~= preamble_hooks(minimal));
    v
}

/// The process id on a line of `tasklist /FO CSV /NH` output, as the
/// zapret 1 runner reads it: any non-empty line without the header text,
/// second field.
pub open spec fn runner_pid_on_line(line: Seq<char>) -> Option<u32> {
    let t = text::trim(line);
    let parts = text::split(t, ',');
    if t.len() == 0 || text::contains(t, "Image Name"@) || parts.len() < 2 {
        None
    } else {
        text::parse_u32(crate::commands::engine_process::unquote(text::trim(parts[1])))
    }
}

/// The first process id on `lines`.
pub open spec fn first_runner_pid(lines: Seq<Seq<char>>) -> Option<u32>
    decreases lines.len(),
{
    if lines.len() == 0 {
        None
    } else {
        match runner_pid_on_line(lines[0]) {
            Some(p) => Some(p),
            None => first_runner_pid(lines.drop_first()),
        }
    }
}

/// The first `winws.exe` process id in the output of
/// `tasklist /FI "IMAGENAME eq winws.exe" /FO CSV /NH`.
pub fn find_winws_pid(listing: &str) -> (res: Option<u32>)
    ensures
        res == first_runner_pid(text::lines(listing@)),
{
    let c = chars_of(listing);
    let ls = text::lines_of(&c);
    let mut i: usize = 0;
    assert(seqs(ls@).subrange(0, seqs(ls@).len() as int) =~= seqs(ls@));
    while i < ls.len()
        invariant
            i <= ls.len(),
            seqs(ls@) == text::lines(listing@),
            first_runner_pid(seqs(ls@)) == first_runner_pid(
                seqs(ls@).subrange(i as int, seqs(ls@).len() as int),
            ),
        decreases ls.len() - i,
    {
        let ghost rest = seqs(ls@).subrange(i as int, seqs(ls@).len() as int);
        assert(rest[0] == ls@[i as int]@);
        assert(rest.drop_first() =~= seqs(ls@).subrange(i + 1, seqs(ls@).len() as int));
        let t = text::trim_chars(&ls[i]);
        let parts = text::split_chars(&t, ',');
        if !(t.len() == 0 || text::mentions(&t, "Image Name") || parts.len() < 2) {
            let p1 = text::trim_chars(&parts[1]);
            let num = unquote_chars(&p1);
            match text::parse_u32_chars(&num) {
                Some(p) => {
                    return Some(p);
                },
                None => {},
            }
        }
        i += 1;
    }
    None
}

/// The message when a `.bat` is missing.
pub fn missing_bat_message(path: &str) -> (res: String)
    ensures
        res@ == "Файл стратегии не найден: "@ + path@ + ". Переустановите zapret."@,
{
    cat3("Файл стратегии не найден: ", path, ". Переустановите zapret.")
}

/// The message when `winws.exe` is missing.
pub fn missing_winws_message(path: &str) -> (res: String)
    ensures
        res@ == "winws.exe не найден: "@ + path@,
{
    cat2("winws.exe не найден: ", path)
}

/// The message when a `.bat` holds no `winws.exe` arguments.
pub fn no_argv_message(source_bat: &str) -> (res: String)
    ensures
        res@ == "В "@ + source_bat@ + " не найдены аргументы winws.exe"@,
{
    cat3("В ", source_bat, " не найдены аргументы winws.exe")
}

/// The detail when a previous engine could not be stopped.
pub fn leftover_detail(pid: u32) -> (res: String)
    ensures
        res@ == "не удалось остановить процесс "@ + text::decimal(pid as nat)
            + " — возможно, zapret запущен вне fastpatch"@,
{
    let d = text::decimal_string(pid as u64);
    cat3("не удалось остановить процесс ", d.as_str(), " — возможно, zapret запущен вне fastpatch")
}

/// The detail when `winws.exe` did not appear after starting.
pub fn not_started_detail(source_bat: &str) -> (res: String)
    ensures
        res@ == "после "@ + source_bat@ + " процесс не появился — WinDivert может быть занят"@,
{
    cat3("после ", source_bat, " процесс не появился — WinDivert может быть занят")
}

/// The message when the app has no administrator rights.
pub open spec fn not_elevated_message() -> Seq<char> {
    "Нет прав администратора. Запустите fastpatch от имени администратора."@
}

pub fn not_elevated() -> (res: String)
    ensures
        res@ == not_elevated_message(),
{
    text::owned("Нет прав администратора. Запустите fastpatch от имени администратора.")
}

/// The message where strategies cannot be started.
pub open spec fn windows_only_message() -> Seq<char> {
    "Запуск стратегий поддерживается только на Windows"@
}

// ---------------------------------------------------------------------------
// Starting a zapret 1 strategy, step by step
// ---------------------------------------------------------------------------

/// The next step of starting a `.bat` strategy.
#[derive(Debug)]
pub enum LaunchAction {
    /// Check that the `.bat` and `winws.exe` exist. Answer: `Files`.
    CheckFiles,
    /// Stop every `winws.exe`, waiting up to `wait_ms`. Answer: `Done`.
    StopAll { wait_ms: u64 },
    /// Check for administrator rights. Answer: `Elevated`.
    CheckElevated,
    /// Look for a `winws.exe` still running. Answer: `Pid`.
    FindPid,
    /// Run the full `service.bat` preamble. Answer: `Done`.
    RunPreamble,
    /// Read and expand the `.bat`'s `winws.exe` arguments. Answer: `Args`.
    ReadArgs,
    /// Start `winws.exe` with `argv` in the `bin` folder. Answer: `Spawned`.
    Spawn { argv: Vec<String> },
    /// Wait `ms` for the engine to settle. Answer: `Done`.
    Sleep { ms: u64 },
    /// The engine runs as process `pid`.
    Started { pid: u32 },
    /// Starting failed with this message.
    Fail(String),
}

/// What happened on a step.
#[derive(Debug)]
pub enum LaunchEvent {
    Files { bat_exists: bool, bat_path: String, winws_exists: bool, winws_path: String },
    Done,
    Elevated(bool),
    Pid(Option<u32>),
    Args(Result<Vec<String>, String>),
    Spawned(Result<(), String>),
}

/// Where starting stands.
#[derive(PartialEq, Eq, Structural)]
pub enum LaunchPhase {
    Files,
    Stopping,
    Elevation,
    Leftover,
    Preamble,
    Args,
    Spawning,
    BusyCheck,
    Warmup,
    Appearing,
    Over,
}

/// The phase after `event` in phase `phase`.
pub open spec fn launch_next(
    phase: LaunchPhase,
    event: LaunchEvent,
    opts: SpawnOptions,
    windows: bool,
) -> LaunchPhase {
    match (phase, event) {
        (LaunchPhase::Files, LaunchEvent::Files { bat_exists, winws_exists, .. }) => if bat_exists
            && winws_exists {
            LaunchPhase::Stopping
        } else {
            LaunchPhase::Over
        },
        (LaunchPhase::Stopping, LaunchEvent::Done) => if windows {
            LaunchPhase::Elevation
        } else {
            LaunchPhase::Over
        },
        (LaunchPhase::Elevation, LaunchEvent::Elevated(e)) => if e {
            LaunchPhase::Leftover
        } else {
            LaunchPhase::Over
        },
        (LaunchPhase::Leftover, LaunchEvent::Pid(p)) => match p {
            Some(_) => LaunchPhase::Over,
            None => if opts.run_preamble {
                LaunchPhase::Preamble
            } else {
                LaunchPhase::Args
            },
        },
        (LaunchPhase::Preamble, LaunchEvent::Done) => LaunchPhase::Args,
        (LaunchPhase::Args, LaunchEvent::Args(a)) => match a {
            Ok(argv) => if argv@.len() > 0 {
                LaunchPhase::Spawning
            } else {
                LaunchPhase::Over
            },
            Err(_) => LaunchPhase::Over,
        },
        (LaunchPhase::Spawning, LaunchEvent::Spawned(r)) => match r {
            Ok(()) => LaunchPhase::Warmup,
            Err(_) => LaunchPhase::BusyCheck,
        },
        (LaunchPhase::Warmup, LaunchEvent::Done) => LaunchPhase::Appearing,
        _ => LaunchPhase::Over,
    }
}

/// The phases of a launch that receives `events`, starting in `start`:
/// the phase before each event, and the last one.
pub open spec fn launch_phases(
    start: LaunchPhase,
    events: Seq<LaunchEvent>,
    opts: SpawnOptions,
    windows: bool,
) -> Seq<LaunchPhase>
    decreases events.len(),
{
    if events.len() == 0 {
        seq![start]
    } else {
        let prev = launch_phases(start, events.drop_last(), opts, windows);
        prev.push(launch_next(prev.last(), events.last(), opts, windows))
    }
}

/// The `k`-th phase of a run follows from the one before and the event.
pub open spec fn launch_step_at(
    start: LaunchPhase,
    events: Seq<LaunchEvent>,
    opts: SpawnOptions,
    windows: bool,
    k: int,
) -> bool {
    let ph = launch_phases(start, events, opts, windows);
    ph[k] == launch_next(ph[k - 1], events[k - 1], opts, windows)
}

proof fn lemma_launch_phases_len(
    start: LaunchPhase,
    events: Seq<LaunchEvent>,
    opts: SpawnOptions,
    windows: bool,
)
    ensures
        launch_phases(start, events, opts, windows).len() == events.len() + 1,
        launch_phases(start, events, opts, windows)[0] == start,
        forall|k: int| 0 < k <= events.len() ==> #[trigger] launch_step_at(start, events, opts, windows, k),
    decreases events.len(),
{
    if events.len() > 0 {
        let prev_events = events.drop_last();
        lemma_launch_phases_len(start, prev_events, opts, windows);
        let prev = launch_phases(start, prev_events, opts, windows);
        let all = launch_phases(start, events, opts, windows);
        assert forall|k: int| 0 < k <= events.len() implies #[trigger] launch_step_at(
            start,
            events,
            opts,
            windows,
            k,
        ) by {
            if k < events.len() {
                assert(launch_step_at(start, prev_events, opts, windows, k));
                assert(all[k] == prev[k]);
                assert(all[k - 1] == prev[k - 1]);
                assert(events[k - 1] == prev_events[k - 1]);
            } else {
                assert(all[k - 1] == prev.last());
            }
        }
    }
}

/// The phases after the engines were stopped and none was left running.
pub open spec fn after_check(p: LaunchPhase) -> bool {
    p == LaunchPhase::Preamble || p == LaunchPhase::Args || p == LaunchPhase::Spawning || p
        == LaunchPhase::BusyCheck || p == LaunchPhase::Warmup || p == LaunchPhase::Appearing
}

/// The phases after the engines were stopped.
pub open spec fn after_stop(p: LaunchPhase) -> bool {
    p == LaunchPhase::Elevation || p == LaunchPhase::Leftover || after_check(p)
}

/// One engine at a time: in a launch that starts by checking the files,
/// `winws.exe` is started (the phase `Spawning`) only after every engine
/// was stopped (`Done` answered `StopAll` in `Stopping`) and, after that,
/// no `winws.exe` was found running (`Pid(None)` in `Leftover`).
pub proof fn lemma_launch_stops_before_spawn(
    events: Seq<LaunchEvent>,
    opts: SpawnOptions,
    windows: bool,
    k: int,
)
    requires
        0 <= k <= events.len(),
        launch_phases(LaunchPhase::Files, events, opts, windows)[k] == LaunchPhase::Spawning,
    ensures
        exists|i: int, j: int|
            0 <= i < j < k && launch_phases(LaunchPhase::Files, events, opts, windows)[i]
                == LaunchPhase::Stopping && #[trigger] events[i] == LaunchEvent::Done
                && launch_phases(LaunchPhase::Files, events, opts, windows)[j]
                == LaunchPhase::Leftover && #[trigger] events[j] == LaunchEvent::Pid(None),
{
    let ph = launch_phases(LaunchPhase::Files, events, opts, windows);
    lemma_launch_phases_len(LaunchPhase::Files, events, opts, windows);
    lemma_launch_checked(events, opts, windows, k);
    let j = choose|j: int| 0 <= j < k && ph[j] == LaunchPhase::Leftover && events[j] == LaunchEvent::Pid(None);
    lemma_launch_stopped(events, opts, windows, j);
    let i = choose|i: int| 0 <= i < j && ph[i] == LaunchPhase::Stopping && events[i] == LaunchEvent::Done;
    assert(0 <= i < j < k && ph[i] == LaunchPhase::Stopping && events[i] == LaunchEvent::Done
        && ph[j] == LaunchPhase::Leftover && events[j] == LaunchEvent::Pid(None));
}

proof fn lemma_launch_stopped(events: Seq<LaunchEvent>, opts: SpawnOptions, windows: bool, k: int)
    requires
        0 <= k <= events.len(),
        after_stop(launch_phases(LaunchPhase::Files, events, opts, windows)[k]),
    ensures
        exists|i: int|
            0 <= i < k && launch_phases(LaunchPhase::Files, events, opts, windows)[i]
                == LaunchPhase::Stopping && #[trigger] events[i] == LaunchEvent::Done,
    decreases k,
{
    let ph = launch_phases(LaunchPhase::Files, events, opts, windows);
    lemma_launch_phases_len(LaunchPhase::Files, events, opts, windows);
    if k > 0 {
        let p = ph[k - 1];
        let e = events[k - 1];
        assert(launch_step_at(LaunchPhase::Files, events, opts, windows, k));
        if p == LaunchPhase::Stopping && e == LaunchEvent::Done {
            assert(events[k - 1] == LaunchEvent::Done);
        } else {
            assert(after_stop(p));
            lemma_launch_stopped(events, opts, windows, k - 1);
        }
    }
}

proof fn lemma_launch_checked(events: Seq<LaunchEvent>, opts: SpawnOptions, windows: bool, k: int)
    requires
        0 <= k <= events.len(),
        after_check(launch_phases(LaunchPhase::Files, events, opts, windows)[k]),
    ensures
        exists|j: int|
            0 <= j < k && launch_phases(LaunchPhase::Files, events, opts, windows)[j]
                == LaunchPhase::Leftover && #[trigger] events[j] == LaunchEvent::Pid(None),
    decreases k,
{
    let ph = launch_phases(LaunchPhase::Files, events, opts, windows);
    lemma_launch_phases_len(LaunchPhase::Files, events, opts, windows);
    if k > 0 {
        let p = ph[k - 1];
        let e = events[k - 1];
        assert(launch_step_at(LaunchPhase::Files, events, opts, windows, k));
        if p == LaunchPhase::Leftover {
            assert(e == LaunchEvent::Pid(None));
        } else {
            assert(after_check(p));
            lemma_launch_checked(events, opts, windows, k - 1);
        }
    }
}

/// Starting the `.bat` strategy `source_bat` with `opts`; `windows` when
/// the engine can run here; `spawn_error` keeps a start error while the
/// busy check runs.
pub struct Launch {
    pub source_bat: String,
    pub opts: SpawnOptions,
    pub windows: bool,
    pub phase: LaunchPhase,
    pub spawn_error: String,
}

impl Launch {
    /// The first step: check the files.
    pub fn start(source_bat: String, opts: SpawnOptions, windows: bool) -> (res: (Launch, LaunchAction))
        ensures
            res.0.source_bat == source_bat,
            res.0.opts == opts,
            res.0.windows == windows,
            res.0.phase == LaunchPhase::Files,
            res.1 is CheckFiles,
    {
        (
            Launch { source_bat, opts, windows, phase: LaunchPhase::Files, spawn_error: String::new() },
            LaunchAction::CheckFiles,
        )
    }

    /// The step after `event`: missing files, missing rights, a `winws.exe`
    /// that would not stop, unreadable or empty arguments, or a process
    /// that never appears end with the message for it; otherwise the
    /// engine is stopped, the preamble run when asked, `winws.exe` started,
    /// given the warm-up, and found.
    pub fn on_event(&mut self, event: LaunchEvent) -> (res: LaunchAction)
        requires
            old(self).phase != LaunchPhase::Over,
        ensures
            final(self).source_bat == old(self).source_bat,
            final(self).opts == old(self).opts,
            final(self).windows == old(self).windows,
            final(self).phase == launch_next(old(self).phase, event, old(self).opts, old(self).windows),
            ({
                let o = *old(self);
                let f = *final(self);
                match (o.phase, event) {
                    (LaunchPhase::Files, LaunchEvent::Files { bat_exists, bat_path, winws_exists, winws_path }) =>
                        if !bat_exists {
                        f.phase == LaunchPhase::Over && (res matches LaunchAction::Fail(m) && m@
                            == "Файл стратегии не найден: "@ + bat_path@ + ". Переустановите zapret."@)
                    } else if !winws_exists {
                        f.phase == LaunchPhase::Over && (res matches LaunchAction::Fail(m) && m@
                            == "winws.exe не найден: "@ + winws_path@)
                    } else {
                        f.phase == LaunchPhase::Stopping && res == (LaunchAction::StopAll {
                            wait_ms: o.opts.stop_wait_ms,
                        })
                    },
                    (LaunchPhase::Stopping, LaunchEvent::Done) => if o.windows {
                        f.phase == LaunchPhase::Elevation && res is CheckElevated
                    } else {
                        f.phase == LaunchPhase::Over && (res matches LaunchAction::Fail(m) && m@
                            == windows_only_message())
                    },
                    (LaunchPhase::Elevation, LaunchEvent::Elevated(e)) => if e {
                        f.phase == LaunchPhase::Leftover && res is FindPid
                    } else {
                        f.phase == LaunchPhase::Over && (res matches LaunchAction::Fail(m) && m@
                            == not_elevated_message())
                    },
                    (LaunchPhase::Leftover, LaunchEvent::Pid(p)) => match p {
                        Some(pid) => f.phase == LaunchPhase::Over && (res matches LaunchAction::Fail(
                            m,
                        ) && m@ == busy_message(
                            "не удалось остановить процесс "@ + text::decimal(pid as nat)
                                + " — возможно, zapret запущен вне fastpatch"@,
                        )),
                        None => if o.opts.run_preamble {
                            f.phase == LaunchPhase::Preamble && res is RunPreamble
                        } else {
                            f.phase == LaunchPhase::Args && res is ReadArgs
                        },
                    },
                    (LaunchPhase::Preamble, LaunchEvent::Done) => f.phase == LaunchPhase::Args
                        && res is ReadArgs,
                    (LaunchPhase::Args, LaunchEvent::Args(a)) => match a {
                        Err(e) => f.phase == LaunchPhase::Over && res == LaunchAction::Fail(e),
                        Ok(argv) => if argv@.len() == 0 {
                            f.phase == LaunchPhase::Over && (res matches LaunchAction::Fail(m) && m@
                                == "В "@ + o.source_bat@ + " не найдены аргументы winws.exe"@)
                        } else {
                            f.phase == LaunchPhase::Spawning && res == (LaunchAction::Spawn { argv })
                        },
                    },
                    (LaunchPhase::Spawning, LaunchEvent::Spawned(r)) => match r {
                        Err(e) => f.phase == LaunchPhase::BusyCheck && f.spawn_error == e && res
                            is FindPid,
                        Ok(()) => f.phase == LaunchPhase::Warmup && res == (LaunchAction::Sleep {
                            ms: o.opts.warmup_ms,
                        }),
                    },
                    (LaunchPhase::BusyCheck, LaunchEvent::Pid(p)) => f.phase == LaunchPhase::Over
                        && match p {
                        Some(_) => res matches LaunchAction::Fail(m) && m@ == busy_message(
                            o.spawn_error@,
                        ),
                        None => res matches LaunchAction::Fail(m) && m@ == o.spawn_error@,
                    },
                    (LaunchPhase::Warmup, LaunchEvent::Done) => f.phase == LaunchPhase::Appearing
                        && res is FindPid,
                    (LaunchPhase::Appearing, LaunchEvent::Pid(p)) => f.phase == LaunchPhase::Over
                        && match p {
                        Some(pid) => res == (LaunchAction::Started { pid }),
                        None => res matches LaunchAction::Fail(m) && m@ == busy_message(
                            "после "@ + o.source_bat@
                                + " процесс не появился — WinDivert может быть занят"@,
                        ),
                    },
                    _ => f.phase == LaunchPhase::Over && (res matches LaunchAction::Fail(m) && m@
                        == "unexpected step"@),
                }
            }),
    {
        let phase = match self.phase {
            LaunchPhase::Files => LaunchPhase::Files,
            LaunchPhase::Stopping => LaunchPhase::Stopping,
            LaunchPhase::Elevation => LaunchPhase::Elevation,
            LaunchPhase::Leftover => LaunchPhase::Leftover,
            LaunchPhase::Preamble => LaunchPhase::Preamble,
            LaunchPhase::Args => LaunchPhase::Args,
            LaunchPhase::Spawning => LaunchPhase::Spawning,
            LaunchPhase::BusyCheck => LaunchPhase::BusyCheck,
            LaunchPhase::Warmup => LaunchPhase::Warmup,
            LaunchPhase::Appearing => LaunchPhase::Appearing,
            LaunchPhase::Over => LaunchPhase::Over,
        };
        match (phase, event) {
            (LaunchPhase::Files, LaunchEvent::Files { bat_exists, bat_path, winws_exists, winws_path }) => {
                if !bat_exists {
                    self.phase = LaunchPhase::Over;
                    LaunchAction::Fail(missing_bat_message(bat_path.as_str()))
                } else if !winws_exists {
                    self.phase = LaunchPhase::Over;
                    LaunchAction::Fail(missing_winws_message(winws_path.as_str()))
                } else {
                    self.phase = LaunchPhase::Stopping;
                    LaunchAction::StopAll { wait_ms: self.opts.stop_wait_ms }
                }
            },
            (LaunchPhase::Stopping, LaunchEvent::Done) => {
                if self.windows {
                    self.phase = LaunchPhase::Elevation;
                    LaunchAction::CheckElevated
                } else {
                    self.phase = LaunchPhase::Over;
                    LaunchAction::Fail(text::owned("Запуск стратегий поддерживается только на Windows"))
                }
            },
            (LaunchPhase::Elevation, LaunchEvent::Elevated(e)) => {
                if e {
                    self.phase = LaunchPhase::Leftover;
                    LaunchAction::FindPid
                } else {
                    self.phase = LaunchPhase::Over;
                    LaunchAction::Fail(not_elevated())
                }
            },
            (LaunchPhase::Leftover, LaunchEvent::Pid(p)) => {
                match p {
                    Some(pid) => {
                        self.phase = LaunchPhase::Over;
                        let d = leftover_detail(pid);
                        LaunchAction::Fail(winws_busy_message(d.as_str()))
                    },
                    None => {
                        if self.opts.run_preamble {
                            self.phase = LaunchPhase::Preamble;
                            LaunchAction::RunPreamble
                        } else {
                            self.phase = LaunchPhase::Args;
                            LaunchAction::ReadArgs
                        }
                    },
                }
            },
            (LaunchPhase::Preamble, LaunchEvent::Done) => {
                self.phase = LaunchPhase::Args;
                LaunchAction::ReadArgs
            },
            (LaunchPhase::Args, LaunchEvent::Args(a)) => {
                match a {
                    Err(e) => {
                        self.phase = LaunchPhase::Over;
                        LaunchAction::Fail(e)
                    },
                    Ok(argv) => {
                        if argv.len() == 0 {
                            self.phase = LaunchPhase::Over;
                            LaunchAction::Fail(no_argv_message(self.source_bat.as_str()))
                        } else {
                            self.phase = LaunchPhase::Spawning;
                            LaunchAction::Spawn { argv }
                        }
                    },
                }
            },
            (LaunchPhase::Spawning, LaunchEvent::Spawned(r)) => {
                match r {
                    Err(e) => {
                        self.phase = LaunchPhase::BusyCheck;
                        self.spawn_error = e;
                        LaunchAction::FindPid
                    },
                    Ok(()) => {
                        self.phase = LaunchPhase::Warmup;
                        LaunchAction::Sleep { ms: self.opts.warmup_ms }
                    },
                }
            },
            (LaunchPhase::BusyCheck, LaunchEvent::Pid(p)) => {
                self.phase = LaunchPhase::Over;
                match p {
                    Some(_) => LaunchAction::Fail(winws_busy_message(self.spawn_error.as_str())),
                    None => LaunchAction::Fail(self.spawn_error.clone()),
                }
            },
            (LaunchPhase::Warmup, LaunchEvent::Done) => {
                self.phase = LaunchPhase::Appearing;
                LaunchAction::FindPid
            },
            (LaunchPhase::Appearing, LaunchEvent::Pid(p)) => {
                self.phase = LaunchPhase::Over;
                match p {
                    Some(pid) => LaunchAction::Started { pid },
                    None => {
                        let d = not_started_detail(self.source_bat.as_str());
                        LaunchAction::Fail(winws_busy_message(d.as_str()))
                    },
                }
            },
            _ => {
                self.phase = LaunchPhase::Over;
                LaunchAction::Fail(text::owned("unexpected step"))
            },
        }
    }
}

} // verus!
