//! Strategy sessions: which strategy runs, what a test or a scan probes and
//! records, the order and course of auto-detection, and the progress shown
//! during a scan. Starting processes, sleeping and HTTP requests are the
//! caller's part; the decisions are made here, step by step.

use super::preset_loader::{preset_key, preset_key_of, sort_key_of_preset};
use super::probe::{merge_probe_targets, merged_targets, targets_view, Target};
use super::strategy_loader::{
    autodetect_priority, autodetect_priority_of, key_of, make_key,
};
use super::strategy_runner::{SpawnOptions, WINWS_FAST_WARMUP_MS};
use super::zapret_backend::ZapretBackend;
use super::{any_tag, has_tag, strategy_views, Strategy, StrategyView};
use crate::order::{keys_view, sort_by_keys, sorted_by_keys};
use crate::text;
use crate::text::{cat2, cat3, chars_of, decimal, same, strs};
use vstd::prelude::*;

verus! {

pub const AUTO_DETECT_WARMUP_MS: u64 = 1500;

pub const TEST_WARMUP_MS: u64 = 2500;

/// A faster run during a scan (fewer targets, shorter wait).
pub const SCAN_WARMUP_MS: u64 = 1000;

/// How long to wait for the engine to exit after a failed start during
/// auto-detection.
pub const DETECT_SPAWN_FAIL_WAIT_MS: u64 = 3500;

/// The same during a scan.
pub const SCAN_SPAWN_FAIL_WAIT_MS: u64 = 4000;

/// The result of probing one target for a strategy.
#[derive(Clone, Debug)]
pub struct TestResult {
    pub strategy_id: String,
    pub target: String,
    pub success: bool,
    pub latency_ms: Option<u64>,
    pub error: Option<String>,
}

/// The results of one strategy during a scan.
#[derive(Clone, Debug)]
pub struct StrategyScanEntry {
    pub strategy_id: String,
    pub results: Vec<TestResult>,
    pub works: bool,
}

/// The strategy that runs.
#[derive(Clone, Debug)]
pub struct ActiveStrategy {
    pub id: String,
    pub name: String,
    pub pid: Option<u32>,
}

/// What the UI shows about the engines.
#[derive(Clone, Debug)]
pub struct ZapretStatus {
    pub installed: bool,
    pub winws_path: String,
    pub zapret_dir: String,
    /// `v2` or `v1`
    pub backend: String,
    pub v1_installed: bool,
    pub v2_installed: bool,
}

/// The session of the running strategy: its id, name and engine process.
#[derive(Clone, Debug)]
pub struct Session {
    pub id: String,
    pub name: String,
    pub pid: u32,
}

/// The progress of a scan as kept between steps (the start time is kept by
/// the caller).
#[derive(Clone, Debug)]
pub struct ScanProgressInner {
    pub current: usize,
    pub total: usize,
    pub current_id: Option<String>,
    pub current_name: Option<String>,
    pub finished: bool,
}

/// The progress of a scan as shown.
#[derive(Clone, Debug)]
pub struct ScanProgress {
    pub current: usize,
    pub total: usize,
    pub current_id: Option<String>,
    pub current_name: Option<String>,
    pub elapsed_ms: u64,
    pub avg_ms_per_strategy: Option<u64>,
    pub eta_ms: Option<u64>,
    pub finished: bool,
}

/// The outcome of a scan of all strategies.
#[derive(Clone, Debug)]
pub struct ScanAllResult {
    pub entries: Vec<StrategyScanEntry>,
    pub restored_previous: bool,
    pub previous_name: Option<String>,
    pub cancelled: bool,
}

// ---------------------------------------------------------------------------
// Targets and results
// ---------------------------------------------------------------------------

/// The targets probed for a strategy: Discord, the general ones and EA for
/// an Apex strategy; otherwise Discord when it is tagged so or is a
/// `general` file, and the general ones.
pub open spec fn targets_for(s: StrategyView) -> Seq<(Seq<char>, Seq<char>)> {
    if has_tag(s.tags, "apex"@) {
        merged_targets(true, super::apex::apex_targets())
    } else {
        merged_targets(
            has_tag(s.tags, "discord"@) || text::contains(text::lowercase(s.source_bat), "general"@),
            Seq::empty(),
        )
    }
}

pub fn probe_targets_for(strategy: &Strategy) -> (res: Vec<Target>)
    ensures
        targets_view(res@) == targets_for(strategy@),
{
    if any_tag(&strategy.tags, "apex") {
        let extra = super::apex::apex_probe_targets();
        return merge_probe_targets(true, &extra);
    }
    let src = chars_of(strategy.source_bat.as_str());
    let lower = text::to_lower(&src);
    let discord = any_tag(&strategy.tags, "discord") || text::mentions(&lower, "general");
    let none: Vec<Target> = Vec::new();
    assert(targets_view(none@) =~= Seq::<(Seq<char>, Seq<char>)>::empty());
    merge_probe_targets(discord, &none)
}

/// Some probe succeeded.
pub open spec fn any_success(results: Seq<TestResult>) -> bool {
    exists|i: int| 0 <= i < results.len() && results[i].success
}

/// A strategy works during a scan when some probe succeeded.
pub fn scan_results_work(results: &Vec<TestResult>) -> (res: bool)
    ensures
        res == any_success(results@),
{
    let mut i: usize = 0;
    while i < results.len()
        invariant
            i <= results.len(),
            forall|j: int| 0 <= j < i ==> !results@[j].success,
        decreases results.len() - i,
    {
        if results[i].success {
            return true;
        }
        i += 1;
    }
    false
}

/// The result recorded when a strategy could not be started during a scan.
pub fn spawn_failure_result(strategy_id: &str, error: String) -> (res: TestResult)
    ensures
        res.strategy_id@ == strategy_id@,
        res.target@ == "spawn"@,
        !res.success,
        res.latency_ms is None,
        res.error matches Some(e) && e@ == error@,
{
    TestResult {
        strategy_id: text::owned(strategy_id),
        target: text::owned("spawn"),
        success: false,
        latency_ms: None,
        error: Some(error),
    }
}

/// The result recorded when a probe task itself failed.
pub fn probe_task_failure_result(strategy_id: &str, error: String) -> (res: TestResult)
    ensures
        res.strategy_id@ == strategy_id@,
        res.target@ == "error"@,
        !res.success,
        res.latency_ms is None,
        res.error matches Some(e) && e@ == error@,
{
    TestResult {
        strategy_id: text::owned(strategy_id),
        target: text::owned("error"),
        success: false,
        latency_ms: None,
        error: Some(error),
    }
}

/// The result of probing one target: a success only when the response
/// arrived before `max_latency_ms`.
pub fn probe_result(
    strategy_id: &str,
    target: &str,
    reachable: bool,
    latency_ms: Option<u64>,
    error: Option<String>,
    max_latency_ms: u64,
) -> (res: TestResult)
    ensures
        res.strategy_id@ == strategy_id@,
        res.target@ == target@,
        res.success == super::probe::probe_ok(reachable, latency_ms, max_latency_ms),
        res.latency_ms == latency_ms,
        res.error == error,
{
    TestResult {
        strategy_id: text::owned(strategy_id),
        target: text::owned(target),
        success: super::probe::probe_is_ok_with_limit(reachable, latency_ms, max_latency_ms),
        latency_ms,
        error,
    }
}

// ---------------------------------------------------------------------------
// Finding strategies
// ---------------------------------------------------------------------------

/// The first position of a strategy with id `id`.
pub open spec fn index_of_id(v: Seq<StrategyView>, id: Seq<char>) -> Option<int>
    decreases v.len(),
{
    if v.len() == 0 {
        None
    } else if v[0].id == id {
        Some(0)
    } else {
        match index_of_id(v.drop_first(), id) {
            Some(i) => Some(i + 1),
            None => None,
        }
    }
}

/// The message when no strategy has the id.
pub open spec fn not_found_message(id: Seq<char>) -> Seq<char> {
    "Стратегия '"@ + id + "' не найдена"@
}

/// The position of the strategy with id `id`, or the error shown.
pub fn find_strategy(strategies: &Vec<Strategy>, id: &str) -> (res: Result<usize, String>)
    ensures
        match res {
            Ok(i) => index_of_id(strategy_views(strategies@), id@) == Some(i as int),
            Err(e) => index_of_id(strategy_views(strategies@), id@) is None && e@
                == not_found_message(id@),
        },
{
    let idc = chars_of(id);
    let ghost all = strategy_views(strategies@);
    let mut i: usize = 0;
    assert(all.subrange(0, all.len() as int) =~= all);
    while i < strategies.len()
        invariant
            i <= strategies.len(),
            all == strategy_views(strategies@),
            idc@ == id@,
            index_of_id(all, id@) == match index_of_id(all.subrange(i as int, all.len() as int), id@) {
                Some(k) => Some(k + i),
                None => None,
            },
        decreases strategies.len() - i,
    {
        let ghost rest = all.subrange(i as int, all.len() as int);
        assert(rest[0] == strategies@[i as int]@);
        assert(rest.drop_first() =~= all.subrange(i + 1, all.len() as int));
        let c = chars_of(strategies[i].id.as_str());
        if same(&c, &idc) {
            return Ok(i);
        }
        i += 1;
    }
    Err(cat3("Стратегия '", id, "' не найдена"))
}

/// Some strategy has the id `id` (the saved strategy is still available).
pub fn saved_strategy_exists(strategies: &Vec<Strategy>, id: &str) -> (res: bool)
    ensures
        res == (index_of_id(strategy_views(strategies@), id@) is Some),
{
    find_strategy(strategies, id).is_ok()
}

// ---------------------------------------------------------------------------
// The order of auto-detection
// ---------------------------------------------------------------------------

/// The auto-detection key of a strategy for the engine in use.
pub open spec fn detect_key(s: StrategyView, backend: ZapretBackend) -> Seq<u32> {
    match backend {
        ZapretBackend::V2 => preset_key(s.id),
        ZapretBackend::V1 => {
            let k = autodetect_priority_of(s.id, s.source_bat);
            key_of(seq![k.0 as u32, k.1 as u32, k.2], k.3)
        },
    }
}

/// The strategies in the order auto-detection tries them: by the presets'
/// order for zapret 2, by the `.bat` priority for zapret 1, stably.
pub open spec fn detect_order(v: Seq<StrategyView>, backend: ZapretBackend) -> Seq<StrategyView> {
    sorted_by_keys(v, v.map_values(|s: StrategyView| detect_key(s, backend)))
}

fn detect_key_of(s: &Strategy, backend: ZapretBackend) -> (res: Vec<u32>)
    ensures
        res@ == detect_key(s@, backend),
{
    match backend {
        ZapretBackend::V2 => preset_key_of(s.id.as_str()),
        ZapretBackend::V1 => {
            let (t, a, b, c) = autodetect_priority(s.id.as_str(), s.source_bat.as_str());
            let mut parts: Vec<u32> = Vec::new();
            parts.push(t as u32);
            parts.push(a as u32);
            parts.push(b);
            assert(parts@ =~= seq![t as u32, a as u32, b]);
            let cs = chars_of(c.as_str());
            make_key(parts, &cs)
        },
    }
}

/// The strategies in the order auto-detection tries them.
pub fn strategies_for_autodetect<'a>(strategies: &'a Vec<Strategy>, backend: ZapretBackend) -> (res:
    Vec<&'a Strategy>)
    ensures
        res@.map_values(|s: &Strategy| s@) == detect_order(strategy_views(strategies@), backend),
{
    let ghost all = strategy_views(strategies@);
    let mut refs: Vec<&Strategy> = Vec::new();
    let mut keys: Vec<Vec<u32>> = Vec::new();
    let mut i: usize = 0;
    while i < strategies.len()
        invariant
            i <= strategies.len(),
            refs.len() == i,
            keys.len() == i,
            all == strategy_views(strategies@),
            forall|k: int| 0 <= k < i ==> *#[trigger] refs@[k] == strategies@[k],
            forall|k: int| 0 <= k < i ==> #[trigger] keys@[k]@ == detect_key(strategies@[k]@, backend),
        decreases strategies.len() - i,
    {
        let s = &strategies[i];
        refs.push(s);
        keys.push(detect_key_of(s, backend));
        i += 1;
    }
    assert(refs@.map_values(|s: &Strategy| s@) =~= all);
    assert(keys_view(keys@) =~= all.map_values(|s: StrategyView| detect_key(s, backend)));
    let ghost unsorted = refs@;
    let sorted = sort_by_keys(refs, &keys);
    proof {
        crate::order::lemma_sorted_map(unsorted, keys_view(keys@), |s: &Strategy| s@);
    }
    sorted
}

/// The strategies tagged `apex`, in list order (the candidates of Apex
/// auto-detection).
pub open spec fn apex_positions(v: Seq<StrategyView>) -> Seq<int>
    decreases v.len(),
{
    if v.len() == 0 {
        Seq::empty()
    } else {
        let r = apex_positions(v.drop_last());
        if has_tag(v.last().tags, "apex"@) {
            r.push(v.len() - 1)
        } else {
            r
        }
    }
}

/// The message when no strategy is tagged for Apex.
pub open spec fn no_apex_message() -> Seq<char> {
    "Нет стратегий с тегом Apex. В «Расширенные» нажмите «Установить пресет» в панели Apex Legends."@
}

/// The positions of the Apex strategies, or the error when there are none.
pub fn apex_candidates(strategies: &Vec<Strategy>) -> (res: Result<Vec<usize>, String>)
    ensures
        match res {
            Ok(v) => v@.len() > 0 && v@.map_values(|i: usize| i as int) == apex_positions(
                strategy_views(strategies@),
            ),
            Err(e) => apex_positions(strategy_views(strategies@)).len() == 0 && e@
                == no_apex_message(),
        },
{
    let ghost all = strategy_views(strategies@);
    let mut out: Vec<usize> = Vec::new();
    let mut i: usize = 0;
    assert(all.take(0) =~= Seq::<StrategyView>::empty());
    while i < strategies.len()
        invariant
            i <= strategies.len(),
            all == strategy_views(strategies@),
            out@.map_values(|k: usize| k as int) == apex_positions(all.take(i as int)),
        decreases strategies.len() - i,
    {
        assert(all.take(i + 1).drop_last() =~= all.take(i as int));
        assert(all.take(i + 1).last() == strategies@[i as int]@);
        let ghost prev = out@;
        if any_tag(&strategies[i].tags, "apex") {
            out.push(i);
            assert(out@.map_values(|k: usize| k as int) =~= prev.map_values(|k: usize| k as int).push(
                i as int,
            ));
        }
        i += 1;
    }
    assert(all.take(strategies.len() as int) =~= all);
    if out.len() == 0 {
        Err(
            text::owned(
                "Нет стратегий с тегом Apex. В «Расширенные» нажмите «Установить пресет» в панели Apex Legends.",
            ),
        )
    } else {
        Ok(out)
    }
}

// ---------------------------------------------------------------------------
// The active strategy
// ---------------------------------------------------------------------------

/// The active strategy: the recorded session while its engine still runs
/// (`live_pid`); a session whose engine is gone is forgotten.
pub fn get_active_strategy_inner(session: &mut Option<Session>, live_pid: Option<u32>) -> (res:
    Option<ActiveStrategy>)
    ensures
        *old(session) is None ==> res is None && *final(session) is None,
        *old(session) is Some && live_pid is None ==> res is None && *final(session) is None,
        *old(session) is Some && live_pid is Some ==> *final(session) == *old(session) && (res matches Some(
            a,
        ) && a.id == (*old(session))->0.id && a.name == (*old(session))->0.name && a.pid == live_pid),
{
    match session {
        None => None,
        Some(s) => {
            if live_pid.is_none() {
                *session = None;
                None
            } else {
                Some(ActiveStrategy { id: s.id.clone(), name: s.name.clone(), pid: live_pid })
            }
        },
    }
}

/// The session after `strategy` was started with engine process `pid`.
pub fn session_for(strategy: &Strategy, pid: u32) -> (res: Session)
    ensures
        res.id == strategy.id,
        res.name == strategy.name,
        res.pid == pid,
{
    Session { id: strategy.id.clone(), name: strategy.name.clone(), pid }
}

/// The message when an engine is still running after it was stopped.
pub open spec fn still_running_message(image: Seq<char>, pid: u32) -> Seq<char> {
    "WINWS_BUSY:"@ + image + " всё ещё работает (PID "@ + decimal(pid as nat)
        + "). Закройте zapret вручную или перезапустите fastpatch от имени администратора."@
}

fn still_running(image: &str, pid: u32) -> (res: String)
    ensures
        res@ == still_running_message(image@, pid),
{
    let a = cat3("WINWS_BUSY:", image, " всё ещё работает (PID ");
    let d = text::decimal_string(pid as u64);
    let b = cat2(a.as_str(), d.as_str());
    cat2(
        b.as_str(),
        "). Закройте zapret вручную или перезапустите fastpatch от имени администратора.",
    )
}

/// After forcing both engines to stop: an error naming the first that is
/// still running (`winws.exe` first).
pub fn kill_winws_outcome(winws_pid: Option<u32>, winws2_pid: Option<u32>) -> (res: Result<
    (),
    String,
>)
    ensures
        winws_pid matches Some(p) ==> (res matches Err(e) && e@ == still_running_message(
            "winws.exe"@,
            p,
        )),
        winws_pid is None ==> (winws2_pid matches Some(p) ==> (res matches Err(e) && e@
            == still_running_message("winws2.exe"@, p))),
        winws_pid is None && winws2_pid is None ==> res is Ok,
{
    if let Some(p) = winws_pid {
        return Err(still_running("winws.exe", p));
    }
    if let Some(p) = winws2_pid {
        return Err(still_running("winws2.exe", p));
    }
    Ok(())
}

/// The engines' status for the engine in use: installed, the executable's
/// path and folder, and the name of the engine.
pub fn get_zapret_status(
    backend: ZapretBackend,
    v1_installed: bool,
    v2_installed: bool,
    v1_winws: &str,
    v1_dir: &str,
    v2_winws: &str,
    v2_dir: &str,
) -> (res: ZapretStatus)
    ensures
        res.v1_installed == v1_installed,
        res.v2_installed == v2_installed,
        backend == ZapretBackend::V2 ==> res.installed == v2_installed && res.winws_path@
            == v2_winws@ && res.zapret_dir@ == v2_dir@ && res.backend@ == "v2"@,
        backend == ZapretBackend::V1 ==> res.installed == v1_installed && res.winws_path@
            == v1_winws@ && res.zapret_dir@ == v1_dir@ && res.backend@ == "v1"@,
{
    match backend {
        ZapretBackend::V2 => ZapretStatus {
            installed: v2_installed,
            winws_path: text::owned(v2_winws),
            zapret_dir: text::owned(v2_dir),
            backend: text::owned("v2"),
            v1_installed,
            v2_installed,
        },
        ZapretBackend::V1 => ZapretStatus {
            installed: v1_installed,
            winws_path: text::owned(v1_winws),
            zapret_dir: text::owned(v1_dir),
            backend: text::owned("v1"),
            v1_installed,
            v2_installed,
        },
    }
}

// ---------------------------------------------------------------------------
// Testing one strategy
// ---------------------------------------------------------------------------

/// How a strategy is tested, given the session running before the test.
#[derive(Clone, Debug)]
pub struct TestPlan {
    /// The strategy already runs and its engine is alive: only wait.
    pub reuse_running: bool,
    /// Stop the tested strategy after probing.
    pub stop_after: bool,
    /// Start the previous session again after probing.
    pub resume_after: bool,
}

/// Testing the running strategy reuses its engine when it is alive;
/// testing another one stops the session, starts the tested strategy, and
/// afterwards stops it and starts the previous session again.
pub fn test_plan(session_id: Option<&str>, id: &str, engine_alive: bool) -> (res: TestPlan)
    ensures
        ({
            let testing_active = text::opt_str(session_id) == Some(id@);
            &&& res.reuse_running == (testing_active && engine_alive)
            &&& res.stop_after == !testing_active
            &&& res.resume_after == !testing_active
        }),
{
    let testing_active = match session_id {
        Some(s) => {
            let a = chars_of(s);
            let b = chars_of(id);
            same(&a, &b)
        },
        None => false,
    };
    TestPlan {
        reuse_running: testing_active && engine_alive,
        stop_after: !testing_active,
        resume_after: !testing_active,
    }
}

/// How long to wait before probing a test: the running engine gets 1.5 s,
/// a freshly started one the test warm-up.
pub fn test_wait_ms(plan: &TestPlan) -> (res: u64)
    ensures
        res == (if plan.reuse_running {
            1500u64
        } else {
            TEST_WARMUP_MS
        }),
{
    if plan.reuse_running {
        1500
    } else {
        TEST_WARMUP_MS
    }
}

/// Checking the connection of the running strategy: the session's strategy
/// id, or the error when no strategy was started or its engine is gone.
pub fn media_test_target(active_id: Option<&str>, engine_alive: bool) -> (res: Result<String, String>)
    ensures
        match active_id {
            None => res matches Err(e) && e@ == "Сначала запустите стратегию"@,
            Some(id) => if engine_alive {
                res matches Ok(x) && x@ == id@
            } else {
                res matches Err(e) && e@ == "Обход не запущен. Перезапустите стратегию."@
            },
        },
{
    match active_id {
        None => Err(text::owned("Сначала запустите стратегию")),
        Some(id) => if engine_alive {
            Ok(text::owned(id))
        } else {
            Err(text::owned("Обход не запущен. Перезапустите стратегию."))
        },
    }
}

// ---------------------------------------------------------------------------
// Scan progress
// ---------------------------------------------------------------------------

/// The progress after an update; the start time is kept.
pub fn set_scan_progress(
    current: usize,
    total: usize,
    current_id: Option<String>,
    current_name: Option<String>,
    finished: bool,
) -> (res: ScanProgressInner)
    ensures
        res.current == current,
        res.total == total,
        res.current_id == current_id,
        res.current_name == current_name,
        res.finished == finished,
{
    ScanProgressInner { current, total, current_id, current_name, finished }
}

/// The progress at the end of a scan: no current strategy, finished.
pub fn finish_scan_progress(progress: &mut Option<ScanProgressInner>)
    ensures
        *old(progress) is None ==> *final(progress) is None,
        *old(progress) matches Some(p) ==> (*final(progress) matches Some(q) && q.current == p.current
            && q.total == p.total && q.current_id is None && q.current_name is None && q.finished),
{
    match progress {
        Some(p) => {
            p.current_id = None;
            p.current_name = None;
            p.finished = true;
        },
        None => {},
    }
}

/// The progress shown, `elapsed_ms` after the scan started: the mean time
/// per strategy so far and the time left at that pace.
pub fn get_scan_progress(p: &ScanProgressInner, elapsed_ms: u64) -> (res: ScanProgress)
    requires
        p.current > 0 ==> (elapsed_ms / (p.current as u64)) * (if p.total > p.current {
            p.total - p.current
        } else {
            0
        }) <= u64::MAX,
    ensures
        res.current == p.current,
        res.total == p.total,
        res.current_id == p.current_id,
        res.current_name == p.current_name,
        res.elapsed_ms == elapsed_ms,
        res.finished == p.finished,
        p.current == 0 ==> res.avg_ms_per_strategy is None && res.eta_ms is None,
        p.current > 0 ==> res.avg_ms_per_strategy == Some((elapsed_ms / (p.current as u64)) as u64)
            && res.eta_ms == Some(
            ((elapsed_ms / (p.current as u64)) * (if p.total > p.current {
                p.total - p.current
            } else {
                0
            })) as u64,
        ),
{
    let avg = if p.current > 0 {
        Some(elapsed_ms / (p.current as u64))
    } else {
        None
    };
    let left: u64 = if p.total > p.current {
        (p.total - p.current) as u64
    } else {
        0
    };
    let eta = match avg {
        Some(a) => Some(a * left),
        None => None,
    };
    ScanProgress {
        current: p.current,
        total: p.total,
        current_id: p.current_id.clone(),
        current_name: p.current_name.clone(),
        elapsed_ms,
        avg_ms_per_strategy: avg,
        eta_ms: eta,
        finished: p.finished,
    }
}

// ---------------------------------------------------------------------------
// Auto-detection, step by step
// ---------------------------------------------------------------------------

/// What to do before the next step.
#[derive(PartialEq, Eq, Structural)]
pub enum Cleanup {
    Nothing,
    /// Stop every instance of the engine and wait up to `wait_ms` for it to exit.
    StopAll { wait_ms: u64 },
    /// Stop the session's engine.
    StopSession,
}

/// The next step of auto-detection.
#[derive(Debug)]
pub enum DetectNext {
    /// Start the strategy at `index` with `opts`, record the session, wait
    /// the auto-detection warm-up, probe, and report.
    Try { index: usize, opts: SpawnOptions },
    /// The strategy at `index` passed: save it as the last strategy and
    /// return its id; it keeps running.
    Found { index: usize },
    /// None passed: start the paused session again when `resume`, and
    /// return none.
    Exhausted { resume: bool },
}

/// A step: the cleanup of the previous attempt, then what comes next.
pub struct DetectStep {
    pub cleanup: Cleanup,
    pub next: DetectNext,
}

/// What happened on a `Try`.
#[derive(Debug)]
pub enum DetectEvent {
    /// The strategy could not be started.
    SpawnFailed,
    /// The strategy was started and probed; `passes` when Discord and
    /// YouTube answered.
    Probed { passes: bool },
}

/// The course of an auto-detection: the strategies to try, in order, the
/// attempt under way, and whether a session was paused.
pub struct AutoDetect {
    pub order: Vec<usize>,
    pub attempt: usize,
    pub resume: bool,
}

/// The start options of the `k`-th attempt: only the first runs the
/// preamble and gets the long warm-up and stop wait.
pub open spec fn detect_opts(k: int) -> SpawnOptions {
    if k == 0 {
        SpawnOptions { run_preamble: true, warmup_ms: AUTO_DETECT_WARMUP_MS, stop_wait_ms: 5000 }
    } else {
        SpawnOptions { run_preamble: false, warmup_ms: WINWS_FAST_WARMUP_MS, stop_wait_ms: 3500 }
    }
}

/// Try the `k`-th candidate, or give up when there is none.
pub open spec fn detect_next(order: Seq<usize>, k: int, resume: bool) -> DetectNext {
    if k < order.len() {
        DetectNext::Try { index: order[k], opts: detect_opts(k) }
    } else {
        DetectNext::Exhausted { resume }
    }
}

/// The event says the strategy passed.
pub open spec fn detect_passed(e: DetectEvent) -> bool {
    e matches DetectEvent::Probed { passes: true }
}

/// The attempt and the next step after `event` during attempt `attempt`.
pub open spec fn detect_transition(order: Seq<usize>, resume: bool, attempt: int, event: DetectEvent) -> (
    int,
    DetectNext,
) {
    if detect_passed(event) {
        (attempt, DetectNext::Found { index: order[attempt] })
    } else {
        (attempt + 1, detect_next(order, attempt + 1, resume))
    }
}

/// The attempt and the next step after `events`, from the start.
pub open spec fn detect_run(order: Seq<usize>, resume: bool, events: Seq<DetectEvent>) -> (int, DetectNext)
    decreases events.len(),
{
    if events.len() == 0 {
        (0, detect_next(order, 0, resume))
    } else {
        let prev = detect_run(order, resume, events.drop_last());
        detect_transition(order, resume, prev.0, events.last())
    }
}

proof fn lemma_detect_failures(order: Seq<usize>, resume: bool, events: Seq<DetectEvent>)
    requires
        forall|k: int| 0 <= k < events.len() ==> !detect_passed(#[trigger] events[k]),
    ensures
        detect_run(order, resume, events) == (events.len() as int, detect_next(order, events.len() as int, resume)),
    decreases events.len(),
{
    if events.len() > 0 {
        let prev = events.drop_last();
        assert forall|k: int| 0 <= k < prev.len() implies !detect_passed(#[trigger] prev[k]) by {
            assert(prev[k] == events[k]);
        }
        lemma_detect_failures(order, resume, prev);
        assert(!detect_passed(events[events.len() - 1]));
    }
}

/// The first `n` events are failures.
pub open spec fn detect_failed_first(events: Seq<DetectEvent>, n: int) -> bool {
    forall|k: int| 0 <= k < n ==> !detect_passed(#[trigger] events[k])
}

/// Auto-detection answers with the first candidate that passes: while the
/// candidates fail, each is tried in order (the `k`-th after `k` failures)
/// until none is left and the paused session is to be resumed; the first
/// candidate that passes is the one found.
pub proof fn lemma_detect_first_pass(order: Seq<usize>, resume: bool, events: Seq<DetectEvent>)
    ensures
        detect_failed_first(events, events.len() as int) ==> detect_run(order, resume, events) == (
            events.len() as int,
            detect_next(order, events.len() as int, resume),
        ),
        events.len() > 0 && events.len() <= order.len() && detect_passed(events.last())
            && detect_failed_first(events, events.len() - 1) ==> detect_run(order, resume, events).1
            == (DetectNext::Found { index: order[events.len() - 1] }),
{
    if detect_failed_first(events, events.len() as int) {
        lemma_detect_failures(order, resume, events);
    }
    if events.len() > 0 && events.len() <= order.len() && detect_passed(events.last())
        && detect_failed_first(events, events.len() - 1) {
        let prev = events.drop_last();
        assert forall|k: int| 0 <= k < prev.len() implies !detect_passed(#[trigger] prev[k]) by {
            assert(prev[k] == events[k]);
        }
        lemma_detect_failures(order, resume, prev);
    }
}

fn detect_opts_exec(k: usize) -> (res: SpawnOptions)
    ensures
        res == detect_opts(k as int),
{
    if k == 0 {
        SpawnOptions { run_preamble: true, warmup_ms: AUTO_DETECT_WARMUP_MS, stop_wait_ms: 5000 }
    } else {
        SpawnOptions { run_preamble: false, warmup_ms: WINWS_FAST_WARMUP_MS, stop_wait_ms: 3500 }
    }
}

fn detect_next_exec(order: &Vec<usize>, k: usize, resume: bool) -> (res: DetectNext)
    ensures
        res == detect_next(order@, k as int, resume),
{
    if k < order.len() {
        DetectNext::Try { index: order[k], opts: detect_opts_exec(k) }
    } else {
        DetectNext::Exhausted { resume }
    }
}

impl AutoDetect {
    /// Starts auto-detection over the candidates `order` (positions in the
    /// strategy list, in the order to try); `resume` when a session was
    /// paused for it.
    pub fn start(order: Vec<usize>, resume: bool) -> (res: (AutoDetect, DetectStep))
        ensures
            res.0.order == order,
            res.0.attempt == 0,
            res.0.resume == resume,
            res.1.cleanup == Cleanup::Nothing,
            res.1.next == detect_next(order@, 0, resume),
            (res.0.attempt as int, res.1.next) == detect_run(order@, resume, Seq::empty()),
    {
        let next = detect_next_exec(&order, 0, resume);
        (AutoDetect { order, attempt: 0, resume }, DetectStep { cleanup: Cleanup::Nothing, next })
    }

    /// The step after the current attempt's outcome: a passing strategy is
    /// the answer; after a failed start every engine instance is stopped
    /// (3.5 s wait), after failed probes the session is stopped, and the
    /// next candidate is tried.
    pub fn on_event(&mut self, event: DetectEvent) -> (res: DetectStep)
        requires
            old(self).attempt < old(self).order.len(),
        ensures
            final(self).order == old(self).order,
            final(self).resume == old(self).resume,
            (final(self).attempt as int, res.next) == detect_transition(
                old(self).order@,
                old(self).resume,
                old(self).attempt as int,
                event,
            ),
            match event {
                DetectEvent::Probed { passes: true } => {
                    &&& final(self).attempt == old(self).attempt
                    &&& res.cleanup == Cleanup::Nothing
                    &&& res.next == DetectNext::Found { index: old(self).order@[old(self).attempt as int] }
                },
                DetectEvent::Probed { passes: false } => {
                    &&& final(self).attempt == old(self).attempt + 1
                    &&& res.cleanup == Cleanup::StopSession
                    &&& res.next == detect_next(old(self).order@, old(self).attempt + 1, old(self).resume)
                },
                DetectEvent::SpawnFailed => {
                    &&& final(self).attempt == old(self).attempt + 1
                    &&& res.cleanup == (Cleanup::StopAll { wait_ms: DETECT_SPAWN_FAIL_WAIT_MS })
                    &&& res.next == detect_next(old(self).order@, old(self).attempt + 1, old(self).resume)
                },
            },
    {
        match event {
            DetectEvent::Probed { passes: true } => {
                DetectStep {
                    cleanup: Cleanup::Nothing,
                    next: DetectNext::Found { index: self.order[self.attempt] },
                }
            },
            DetectEvent::Probed { passes: false } => {
                self.attempt = self.attempt + 1;
                let next = detect_next_exec(&self.order, self.attempt, self.resume);
                DetectStep { cleanup: Cleanup::StopSession, next }
            },
            DetectEvent::SpawnFailed => {
                self.attempt = self.attempt + 1;
                let next = detect_next_exec(&self.order, self.attempt, self.resume);
                DetectStep { cleanup: Cleanup::StopAll { wait_ms: DETECT_SPAWN_FAIL_WAIT_MS }, next }
            },
        }
    }
}

// ---------------------------------------------------------------------------
// Scanning all strategies, step by step
// ---------------------------------------------------------------------------

/// The next step of a scan of all strategies.
#[derive(Debug)]
pub enum ScanAction {
    /// Stop every `winws.exe` (waiting up to `stop_wait_ms`), run the
    /// minimal preamble once, then sleep `sleep_ms` unless cancelled.
    /// Answer: `Slept`.
    Prepare { stop_wait_ms: u64, sleep_ms: u64 },
    /// Read the cancel flag. Answer: `Checked`.
    CheckCancel,
    /// Show progress `(progress, total)` on strategy `index`, then start it
    /// with `opts`. Answer: `Spawned`.
    Start { index: usize, opts: SpawnOptions, progress: usize },
    /// After a failed start: stop every `winws.exe` (waiting up to
    /// `wait_ms`) and show progress `progress`. Answer: `Done`.
    Recover { wait_ms: u64, progress: usize },
    /// Record the started session and sleep `sleep_ms` unless cancelled.
    /// Answer: `Slept`.
    Warmup { index: usize, sleep_ms: u64 },
    /// Probe the auto-detection targets for strategy `index`. Answer:
    /// `Probed`.
    Probe { index: usize },
    /// Show progress `progress`, stop the session, then read the cancel
    /// flag. Answer: `Checked`.
    StopAndCheck { progress: usize },
    /// End: stop the session first when `stop_session`, then start the
    /// paused session again and mark the progress finished.
    Finish { stop_session: bool },
}

/// What happened on the last step.
#[derive(Debug)]
pub enum ScanEvent {
    Slept { completed: bool },
    Checked { cancelled: bool },
    Spawned { result: Result<(), String> },
    Done,
    Probed { results: Vec<TestResult> },
}

/// Where a scan stands.
#[derive(PartialEq, Eq, Structural)]
pub enum ScanPhase {
    Preparing,
    Checking,
    Starting,
    Recovering,
    WarmingUp,
    Probing,
    Stopping,
    Finished,
}

/// A scan of all strategies: their ids, the strategy under way, the
/// entries recorded so far and whether the scan was cancelled.
pub struct ScanAll {
    pub ids: Vec<String>,
    pub current: usize,
    pub entries: Vec<StrategyScanEntry>,
    pub cancelled: bool,
    pub phase: ScanPhase,
}

/// What every state of a scan keeps: one entry per strategy scanned so
/// far, for the strategies in list order; the strategy under way has its
/// entry once it is recorded; a scan that finished without being cancelled
/// has an entry for every strategy.
pub open spec fn scan_wf(s: ScanAll) -> bool {
    &&& s.current <= s.ids.len()
    &&& s.entries.len() <= s.ids.len()
    &&& forall|k: int| 0 <= k < s.entries.len() ==> (#[trigger] s.entries@[k]).strategy_id == s.ids@[k]
    &&& match s.phase {
        ScanPhase::Preparing => s.current == 0 && s.entries.len() == 0,
        ScanPhase::Checking | ScanPhase::Starting | ScanPhase::WarmingUp | ScanPhase::Probing => s.entries.len()
            == s.current && s.current < s.ids.len(),
        ScanPhase::Recovering | ScanPhase::Stopping => s.entries.len() == s.current + 1,
        ScanPhase::Finished => !s.cancelled ==> s.entries.len() == s.ids.len(),
    }
}

impl ScanAll {
    /// Starts a scan of the strategies with ids `ids`: first stop the
    /// engines (6 s), run the preamble and sleep 0.6 s.
    pub fn start(ids: Vec<String>) -> (res: (ScanAll, ScanAction))
        ensures
            res.0.ids == ids,
            res.0.current == 0,
            res.0.entries@.len() == 0,
            !res.0.cancelled,
            res.0.phase == ScanPhase::Preparing,
            res.1 == (ScanAction::Prepare { stop_wait_ms: 6000, sleep_ms: 600 }),
            scan_wf(res.0),
    {
        (
            ScanAll {
                ids,
                current: 0,
                entries: Vec::new(),
                cancelled: false,
                phase: ScanPhase::Preparing,
            },
            ScanAction::Prepare { stop_wait_ms: 6000, sleep_ms: 600 },
        )
    }

    fn next_strategy(&mut self) -> (res: ScanAction)
        requires
            old(self).current <= old(self).ids.len(),
        ensures
            final(self).ids == old(self).ids,
            final(self).current == old(self).current,
            final(self).entries == old(self).entries,
            final(self).cancelled == old(self).cancelled,
            old(self).current < old(self).ids.len() ==> final(self).phase == ScanPhase::Checking
                && res == ScanAction::CheckCancel,
            old(self).current >= old(self).ids.len() ==> final(self).phase == ScanPhase::Finished
                && res == (ScanAction::Finish { stop_session: false }),
    {
        if self.current < self.ids.len() {
            self.phase = ScanPhase::Checking;
            ScanAction::CheckCancel
        } else {
            self.phase = ScanPhase::Finished;
            ScanAction::Finish { stop_session: false }
        }
    }

    /// The step after `event`. Cancelling (a cancelled sleep, or the flag)
    /// ends the scan, stopping the session that runs; a failed start is
    /// recorded as a failed `spawn` result; probed results are recorded
    /// with `works` when any probe succeeded; each strategy is started with
    /// the scan's fast options (the first with the longer warm-up). An event
    /// that does not answer the last action ends the scan as cancelled.
    /// Every step keeps `scan_wf`.
    pub fn on_event(&mut self, event: ScanEvent) -> (res: ScanAction)
        requires
            old(self).current <= old(self).ids.len(),
            old(self).current < old(self).ids.len() || old(self).phase == ScanPhase::Preparing,
            old(self).phase != ScanPhase::Finished,
        ensures
            final(self).ids == old(self).ids,
            ({
                let o = *old(self);
                let f = *final(self);
                let i = o.current as int;
                match (o.phase, event) {
                    (ScanPhase::Preparing, ScanEvent::Slept { completed: false }) => f.cancelled
                        && f.phase == ScanPhase::Finished && f.entries == o.entries && res == (
                    ScanAction::Finish { stop_session: false }),
                    (ScanPhase::Preparing, ScanEvent::Slept { completed: true }) => !f.cancelled
                        == !o.cancelled && f.entries == o.entries && f.current == o.current && (if o.current
                        < o.ids.len() {
                        f.phase == ScanPhase::Checking && res == ScanAction::CheckCancel
                    } else {
                        f.phase == ScanPhase::Finished && res == (ScanAction::Finish {
                            stop_session: false,
                        })
                    }),
                    (ScanPhase::Checking, ScanEvent::Checked { cancelled: true }) => f.cancelled
                        && f.phase == ScanPhase::Finished && f.entries == o.entries && res == (
                    ScanAction::Finish { stop_session: true }),
                    (ScanPhase::Checking, ScanEvent::Checked { cancelled: false }) => f.phase
                        == ScanPhase::Starting && f.entries == o.entries && f.current == o.current
                        && res == (ScanAction::Start {
                        index: o.current,
                        opts: SpawnOptions {
                            run_preamble: false,
                            warmup_ms: if o.current == 0 {
                                2200u64
                            } else {
                                1200u64
                            },
                            stop_wait_ms: 3500,
                        },
                        progress: o.entries.len(),
                    }),
                    (ScanPhase::Starting, ScanEvent::Spawned { result: Err(e) }) => f.phase
                        == ScanPhase::Recovering && f.current == o.current && f.entries@.len()
                        == o.entries@.len() + 1 && f.entries@.drop_last() == o.entries@ && ({
                        let entry = f.entries@.last();
                        &&& entry.strategy_id == o.ids@[i]
                        &&& !entry.works
                        &&& entry.results@.len() == 1
                        &&& entry.results@[0].strategy_id@ == o.ids@[i]@
                        &&& entry.results@[0].target@ == "spawn"@
                        &&& !entry.results@[0].success
                        &&& entry.results@[0].latency_ms is None
                        &&& entry.results@[0].error matches Some(x) && x@ == e@
                    }) && res == (ScanAction::Recover {
                        wait_ms: SCAN_SPAWN_FAIL_WAIT_MS,
                        progress: f.entries.len(),
                    }),
                    (ScanPhase::Starting, ScanEvent::Spawned { result: Ok(()) }) => f.phase
                        == ScanPhase::WarmingUp && f.current == o.current && f.entries == o.entries
                        && res == (ScanAction::Warmup { index: o.current, sleep_ms: SCAN_WARMUP_MS }),
                    (ScanPhase::Recovering, ScanEvent::Done) => f.current == o.current + 1
                        && f.entries == o.entries && (if o.current + 1 < o.ids.len() {
                        f.phase == ScanPhase::Checking && res == ScanAction::CheckCancel
                    } else {
                        f.phase == ScanPhase::Finished && res == (ScanAction::Finish {
                            stop_session: false,
                        })
                    }),
                    (ScanPhase::WarmingUp, ScanEvent::Slept { completed: false }) => f.cancelled
                        && f.phase == ScanPhase::Finished && f.entries == o.entries && res == (
                    ScanAction::Finish { stop_session: true }),
                    (ScanPhase::WarmingUp, ScanEvent::Slept { completed: true }) => f.phase
                        == ScanPhase::Probing && f.entries == o.entries && f.current == o.current
                        && res == (ScanAction::Probe { index: o.current }),
                    (ScanPhase::Probing, ScanEvent::Probed { results }) => f.phase
                        == ScanPhase::Stopping && f.current == o.current && f.entries@.len()
                        == o.entries@.len() + 1 && f.entries@.drop_last() == o.entries@ && ({
                        let entry = f.entries@.last();
                        &&& entry.strategy_id == o.ids@[i]
                        &&& entry.results == results
                        &&& entry.works == any_success(results@)
                    }) && res == (ScanAction::StopAndCheck { progress: f.entries.len() }),
                    (ScanPhase::Stopping, ScanEvent::Checked { cancelled: true }) => f.cancelled
                        && f.phase == ScanPhase::Finished && f.entries == o.entries && res == (
                    ScanAction::Finish { stop_session: false }),
                    (ScanPhase::Stopping, ScanEvent::Checked { cancelled: false }) => f.current
                        == o.current + 1 && f.entries == o.entries && (if o.current + 1
                        < o.ids.len() {
                        f.phase == ScanPhase::Checking && res == ScanAction::CheckCancel
                    } else {
                        f.phase == ScanPhase::Finished && res == (ScanAction::Finish {
                            stop_session: false,
                        })
                    }),
                    _ => f.cancelled && f.phase == ScanPhase::Finished && f.entries == o.entries
                        && res == (ScanAction::Finish { stop_session: true }),
                }
            }),
            scan_wf(*old(self)) ==> scan_wf(*final(self)),
    {
        let phase = match self.phase {
            ScanPhase::Preparing => ScanPhase::Preparing,
            ScanPhase::Checking => ScanPhase::Checking,
            ScanPhase::Starting => ScanPhase::Starting,
            ScanPhase::Recovering => ScanPhase::Recovering,
            ScanPhase::WarmingUp => ScanPhase::WarmingUp,
            ScanPhase::Probing => ScanPhase::Probing,
            ScanPhase::Stopping => ScanPhase::Stopping,
            ScanPhase::Finished => ScanPhase::Finished,
        };
        match (phase, event) {
            (ScanPhase::Preparing, ScanEvent::Slept { completed }) => {
                if !completed {
                    self.cancelled = true;
                    self.phase = ScanPhase::Finished;
                    ScanAction::Finish { stop_session: false }
                } else {
                    self.next_strategy()
                }
            },
            (ScanPhase::Checking, ScanEvent::Checked { cancelled }) => {
                if cancelled {
                    self.cancelled = true;
                    self.phase = ScanPhase::Finished;
                    ScanAction::Finish { stop_session: true }
                } else {
                    self.phase = ScanPhase::Starting;
                    ScanAction::Start {
                        index: self.current,
                        opts: SpawnOptions::for_scan_iteration(self.current == 0),
                        progress: self.entries.len(),
                    }
                }
            },
            (ScanPhase::Starting, ScanEvent::Spawned { result }) => {
                match result {
                    Err(e) => {
                        let id = self.ids[self.current].clone();
                        let failure = spawn_failure_result(id.as_str(), e);
                        let mut results: Vec<TestResult> = Vec::new();
                        results.push(failure);
                        self.entries.push(StrategyScanEntry { strategy_id: id, results, works: false });
                        self.phase = ScanPhase::Recovering;
                        ScanAction::Recover {
                            wait_ms: SCAN_SPAWN_FAIL_WAIT_MS,
                            progress: self.entries.len(),
                        }
                    },
                    Ok(()) => {
                        self.phase = ScanPhase::WarmingUp;
                        ScanAction::Warmup { index: self.current, sleep_ms: SCAN_WARMUP_MS }
                    },
                }
            },
            (ScanPhase::Recovering, ScanEvent::Done) => {
                self.current = self.current + 1;
                self.next_strategy()
            },
            (ScanPhase::WarmingUp, ScanEvent::Slept { completed }) => {
                if !completed {
                    self.cancelled = true;
                    self.phase = ScanPhase::Finished;
                    ScanAction::Finish { stop_session: true }
                } else {
                    self.phase = ScanPhase::Probing;
                    ScanAction::Probe { index: self.current }
                }
            },
            (ScanPhase::Probing, ScanEvent::Probed { results }) => {
                let works = scan_results_work(&results);
                let id = self.ids[self.current].clone();
                self.entries.push(StrategyScanEntry { strategy_id: id, results, works });
                self.phase = ScanPhase::Stopping;
                ScanAction::StopAndCheck { progress: self.entries.len() }
            },
            (ScanPhase::Stopping, ScanEvent::Checked { cancelled }) => {
                if cancelled {
                    self.cancelled = true;
                    self.phase = ScanPhase::Finished;
                    ScanAction::Finish { stop_session: false }
                } else {
                    self.current = self.current + 1;
                    self.next_strategy()
                }
            },
            _ => {
                self.cancelled = true;
                self.phase = ScanPhase::Finished;
                ScanAction::Finish { stop_session: true }
            },
        }
    }

    /// The scan's outcome once finished: the entries recorded, whether the
    /// paused session was started again, its name, and whether the scan was
    /// cancelled.
    pub fn into_result(self, restored_previous: bool, previous_name: Option<String>) -> (res:
        ScanAllResult)
        ensures
            res.entries == self.entries,
            res.restored_previous == restored_previous,
            res.previous_name == previous_name,
            res.cancelled == self.cancelled,
            scan_wf(self) && self.phase == ScanPhase::Finished ==> (forall|k: int|
                0 <= k < res.entries.len() ==> (#[trigger] res.entries@[k]).strategy_id == self.ids@[k])
                && (!res.cancelled ==> res.entries.len() == self.ids.len()),
    {
        ScanAllResult {
            entries: self.entries,
            restored_previous,
            previous_name,
            cancelled: self.cancelled,
        }
    }
}

} // verus!
