use fastpatch::commands::apex::{apex_probe_targets, get_apex_status, setup_apex_preset, ApexFiles};
use fastpatch::app_prefs::ZapretBackendPref;
use fastpatch::commands::probe::{
    autodetect_probe_targets, discord_probe_targets, discord_required_targets,
    general_probe_targets, http_status_error, merge_probe_targets, probe_is_ok_with_limit,
    score_probe_hits_with_timeout, timeout_message, ProbeHit, AUTODETECT_TIMEOUT_MS,
};
use fastpatch::commands::strategy::{
    apex_candidates, find_strategy, finish_scan_progress, get_active_strategy_inner,
    get_scan_progress, get_zapret_status, kill_winws_outcome, media_test_target, probe_result, probe_targets_for,
    saved_strategy_exists, scan_results_work, session_for, set_scan_progress,
    spawn_failure_result, strategies_for_autodetect, test_plan, test_wait_ms, AutoDetect, Cleanup,
    DetectEvent, DetectNext, ScanAction, ScanAll, ScanEvent, TestResult,
};
use fastpatch::commands::zapret_backend::ZapretBackend;
use fastpatch::commands::Strategy;

fn strategy(id: &str, bat: &str, tags: &[&str]) -> Strategy {
    Strategy {
        id: id.to_string(),
        name: id.to_uppercase(),
        description: String::new(),
        tags: tags.iter().map(|t| t.to_string()).collect(),
        source_bat: bat.to_string(),
        args: String::new(),
    }
}

fn hit(tag: &str, ok: bool, latency: Option<u64>) -> ProbeHit {
    ProbeHit { tag: tag.to_string(), ok, latency_ms: latency }
}

fn tags_of(v: &[(&'static str, &'static str)]) -> Vec<&'static str> {
    v.iter().map(|t| t.0).collect()
}

#[test]
fn probe_targets() {
    assert_eq!(
        tags_of(&autodetect_probe_targets()),
        vec!["discord_gw", "discord_upd", "discord", "youtube", "youtube_gen"]
    );
    assert_eq!(discord_probe_targets().len(), 4);
    assert_eq!(general_probe_targets()[2], ("cloudflare", "https://www.cloudflare.com"));
    assert_eq!(discord_required_targets(), vec!["discord_gw", "discord_upd"]);
    let merged = merge_probe_targets(false, &apex_probe_targets());
    assert_eq!(
        tags_of(&merged),
        vec!["youtube", "youtube_gen", "cloudflare", "ea_web", "ea_accounts", "origin", "apex_site", "ea_cdn"]
    );
    let apex = probe_targets_for(&strategy("a", "x.bat", &["apex"]));
    assert_eq!(apex.len(), 12);
    let general = probe_targets_for(&strategy("g", "General (ALT).bat", &[]));
    assert_eq!(tags_of(&general)[0], "discord");
    let other = probe_targets_for(&strategy("o", "x.bat", &["youtube"]));
    assert_eq!(tags_of(&other), vec!["youtube", "youtube_gen", "cloudflare"]);
}

#[test]
fn a_probe_answers_only_before_the_limit() {
    assert!(probe_is_ok_with_limit(true, Some(2999), 3000));
    assert!(!probe_is_ok_with_limit(true, Some(3000), 3000));
    assert!(!probe_is_ok_with_limit(true, None, 3000));
    assert!(!probe_is_ok_with_limit(false, Some(1), 3000));
    assert_eq!(http_status_error(200), None);
    assert_eq!(http_status_error(204), None);
    assert_eq!(http_status_error(399), None);
    assert_eq!(http_status_error(404), Some("HTTP 404".to_string()));
    assert_eq!(http_status_error(101), Some("HTTP 101".to_string()));
    assert_eq!(timeout_message(3), "таймаут (>3 с)");
}

#[test]
fn scoring_probes() {
    let hits = vec![
        hit("discord_gw", true, Some(100)),
        hit("discord_upd", true, Some(300)),
        hit("discord", false, None),
        hit("youtube", true, Some(200)),
        hit("youtube_gen", true, None),
    ];
    let s = score_probe_hits_with_timeout(&hits, AUTODETECT_TIMEOUT_MS);
    assert!(s.discord_required_ok);
    assert_eq!(s.discord_ok, 2);
    assert!(s.youtube_ok);
    assert_eq!(s.avg_latency_ms, 200);
    assert!(s.passes_autodetect());

    let missing_gw = vec![hit("discord_gw", false, None), hit("discord_upd", true, Some(1))];
    let s = score_probe_hits_with_timeout(&missing_gw, 3000);
    assert!(!s.discord_required_ok);
    assert!(!s.passes_autodetect());

    let none: Vec<ProbeHit> = Vec::new();
    let s = score_probe_hits_with_timeout(&none, 3000);
    assert_eq!(s.avg_latency_ms, 3000);
    assert!(!s.passes_autodetect());
}

#[test]
fn test_results() {
    let r = probe_result("s", "youtube", true, Some(100), None, 3000);
    assert!(r.success);
    let r = probe_result("s", "youtube", true, Some(3000), Some("e".into()), 3000);
    assert!(!r.success);
    assert_eq!(r.error.as_deref(), Some("e"));
    let f = spawn_failure_result("s", "boom".into());
    assert_eq!(f.target, "spawn");
    assert!(!f.success);
    assert!(!scan_results_work(&vec![f.clone()]));
    let ok = TestResult { success: true, ..f.clone() };
    assert!(scan_results_work(&vec![f, ok]));
    assert!(!scan_results_work(&Vec::new()));
}

#[test]
fn finding_strategies() {
    let list = vec![strategy("a", "a.bat", &[]), strategy("b", "b.bat", &["apex"]), strategy("b", "c.bat", &[])];
    assert_eq!(find_strategy(&list, "b"), Ok(1));
    assert_eq!(find_strategy(&list, "z"), Err("Стратегия 'z' не найдена".to_string()));
    assert!(saved_strategy_exists(&list, "a"));
    assert!(!saved_strategy_exists(&list, "A"));
    assert_eq!(apex_candidates(&list), Ok(vec![1]));
    assert_eq!(
        apex_candidates(&vec![strategy("a", "a.bat", &[])]),
        Err("Нет стратегий с тегом Apex. В «Расширенные» нажмите «Установить пресет» в панели Apex Legends.".to_string())
    );
}

#[test]
fn autodetect_order_for_each_engine() {
    let bats = vec![
        strategy("general", "general.bat", &[]),
        strategy("alt2", "general (ALT2).bat", &[]),
        strategy("alt11", "general (ALT11).bat", &[]),
        strategy("alt10", "general (ALT10).bat", &[]),
        strategy("alt9", "general (ALT9).bat", &[]),
    ];
    let ids: Vec<&str> = strategies_for_autodetect(&bats, ZapretBackend::V1)
        .iter()
        .map(|s| s.id.as_str())
        .collect();
    assert_eq!(ids, vec!["alt9", "alt11", "alt10", "alt2", "general"]);

    let presets = vec![
        strategy("zeta", "presets/zeta.txt", &[]),
        strategy("default", "presets/Default.txt", &[]),
        strategy("apex-legends", "presets/Apex Legends.txt", &[]),
        strategy("alpha", "presets/alpha.txt", &[]),
        strategy("default-v5", "presets/Default v5.txt", &[]),
    ];
    let ids: Vec<&str> = strategies_for_autodetect(&presets, ZapretBackend::V2)
        .iter()
        .map(|s| s.id.as_str())
        .collect();
    assert_eq!(ids, vec!["apex-legends", "default-v5", "default", "alpha", "zeta"]);
}

#[test]
fn the_active_strategy() {
    let mut none = None;
    assert!(get_active_strategy_inner(&mut none, Some(1)).is_none());
    let s = session_for(&strategy("a", "a.bat", &[]), 42);
    assert_eq!((s.id.as_str(), s.pid), ("a", 42));
    let mut session = Some(s.clone());
    let a = get_active_strategy_inner(&mut session, Some(7)).unwrap();
    assert_eq!((a.id.as_str(), a.name.as_str(), a.pid), ("a", "A", Some(7)));
    assert!(session.is_some());
    assert!(get_active_strategy_inner(&mut session, None).is_none());
    assert!(session.is_none());
}

#[test]
fn forcing_the_engines_to_stop() {
    assert_eq!(kill_winws_outcome(None, None), Ok(()));
    assert_eq!(
        kill_winws_outcome(Some(5), Some(6)),
        Err("WINWS_BUSY:winws.exe всё ещё работает (PID 5). Закройте zapret вручную или перезапустите fastpatch от имени администратора.".to_string())
    );
    assert_eq!(
        kill_winws_outcome(None, Some(6)),
        Err("WINWS_BUSY:winws2.exe всё ещё работает (PID 6). Закройте zapret вручную или перезапустите fastpatch от имени администратора.".to_string())
    );
}

#[test]
fn engine_status() {
    let s = get_zapret_status(ZapretBackend::V2, true, false, "w1", "d1", "w2", "d2");
    assert!(!s.installed && s.v1_installed && !s.v2_installed);
    assert_eq!((s.winws_path.as_str(), s.zapret_dir.as_str(), s.backend.as_str()), ("w2", "d2", "v2"));
    let s = get_zapret_status(ZapretBackend::V1, true, false, "w1", "d1", "w2", "d2");
    assert!(s.installed);
    assert_eq!(s.backend, "v1");
}

#[test]
fn testing_a_strategy() {
    let p = test_plan(Some("a"), "a", true);
    assert!(p.reuse_running && !p.stop_after && !p.resume_after);
    assert_eq!(test_wait_ms(&p), 1500);
    let p = test_plan(Some("a"), "a", false);
    assert!(!p.reuse_running && !p.stop_after);
    assert_eq!(test_wait_ms(&p), 2500);
    let p = test_plan(Some("a"), "b", true);
    assert!(!p.reuse_running && p.stop_after && p.resume_after);
    let p = test_plan(None, "b", true);
    assert!(p.stop_after && p.resume_after);
}

#[test]
fn scan_progress() {
    let p = set_scan_progress(2, 10, Some("a".into()), Some("A".into()), false);
    let shown = get_scan_progress(&p, 3000);
    assert_eq!(shown.avg_ms_per_strategy, Some(1500));
    assert_eq!(shown.eta_ms, Some(12000));
    assert_eq!(shown.current_id.as_deref(), Some("a"));
    let zero = set_scan_progress(0, 10, None, None, false);
    let shown = get_scan_progress(&zero, 3000);
    assert_eq!(shown.avg_ms_per_strategy, None);
    assert_eq!(shown.eta_ms, None);
    let mut slot = Some(p);
    finish_scan_progress(&mut slot);
    let done = slot.unwrap();
    assert!(done.finished && done.current_id.is_none() && done.current_name.is_none());
    assert_eq!((done.current, done.total), (2, 10));
    let mut empty = None;
    finish_scan_progress(&mut empty);
    assert!(empty.is_none());
}

#[test]
fn autodetect_returns_the_first_passing_candidate() {
    let (mut d, step) = AutoDetect::start(vec![3, 1, 2], true);
    assert!(step.cleanup == Cleanup::Nothing);
    match step.next {
        DetectNext::Try { index, opts } => {
            assert_eq!(index, 3);
            assert!(opts.run_preamble);
            assert_eq!((opts.warmup_ms, opts.stop_wait_ms), (1500, 5000));
        }
        other => panic!("{other:?}"),
    }
    let step = d.on_event(DetectEvent::SpawnFailed);
    assert!(step.cleanup == Cleanup::StopAll { wait_ms: 3500 });
    match step.next {
        DetectNext::Try { index, opts } => {
            assert_eq!(index, 1);
            assert!(!opts.run_preamble);
            assert_eq!((opts.warmup_ms, opts.stop_wait_ms), (800, 3500));
        }
        other => panic!("{other:?}"),
    }
    let step = d.on_event(DetectEvent::Probed { passes: false });
    assert!(step.cleanup == Cleanup::StopSession);
    assert!(matches!(step.next, DetectNext::Try { index: 2, .. }));
    let step = d.on_event(DetectEvent::Probed { passes: true });
    assert!(matches!(step.next, DetectNext::Found { index: 2 }));
}

#[test]
fn autodetect_gives_up_and_resumes() {
    let (mut d, _) = AutoDetect::start(vec![0], true);
    let step = d.on_event(DetectEvent::Probed { passes: false });
    assert!(matches!(step.next, DetectNext::Exhausted { resume: true }));
    let (_, step) = AutoDetect::start(Vec::new(), false);
    assert!(matches!(step.next, DetectNext::Exhausted { resume: false }));
}

#[test]
fn scanning_all_strategies() {
    let (mut s, a) = ScanAll::start(vec!["a".into(), "b".into()]);
    assert!(matches!(a, ScanAction::Prepare { stop_wait_ms: 6000, sleep_ms: 600 }));
    assert!(matches!(s.on_event(ScanEvent::Slept { completed: true }), ScanAction::CheckCancel));
    match s.on_event(ScanEvent::Checked { cancelled: false }) {
        ScanAction::Start { index, opts, progress } => {
            assert_eq!((index, progress), (0, 0));
            assert_eq!(opts.warmup_ms, 2200);
        }
        other => panic!("{other:?}"),
    }
    assert!(matches!(
        s.on_event(ScanEvent::Spawned { result: Err("no".into()) }),
        ScanAction::Recover { wait_ms: 4000, progress: 1 }
    ));
    assert!(matches!(s.on_event(ScanEvent::Done), ScanAction::CheckCancel));
    match s.on_event(ScanEvent::Checked { cancelled: false }) {
        ScanAction::Start { index, opts, progress } => {
            assert_eq!((index, progress), (1, 1));
            assert_eq!(opts.warmup_ms, 1200);
        }
        other => panic!("{other:?}"),
    }
    assert!(matches!(
        s.on_event(ScanEvent::Spawned { result: Ok(()) }),
        ScanAction::Warmup { index: 1, sleep_ms: 1000 }
    ));
    assert!(matches!(s.on_event(ScanEvent::Slept { completed: true }), ScanAction::Probe { index: 1 }));
    let ok = TestResult {
        strategy_id: "b".into(),
        target: "youtube".into(),
        success: true,
        latency_ms: Some(10),
        error: None,
    };
    assert!(matches!(
        s.on_event(ScanEvent::Probed { results: vec![ok] }),
        ScanAction::StopAndCheck { progress: 2 }
    ));
    assert!(matches!(
        s.on_event(ScanEvent::Checked { cancelled: false }),
        ScanAction::Finish { stop_session: false }
    ));
    let r = s.into_result(true, Some("Prev".into()));
    assert_eq!(r.entries.len(), 2);
    assert_eq!(r.entries[0].strategy_id, "a");
    assert!(!r.entries[0].works);
    assert_eq!(r.entries[0].results[0].target, "spawn");
    assert_eq!(r.entries[0].results[0].error.as_deref(), Some("no"));
    assert!(r.entries[1].works);
    assert!(r.restored_previous && !r.cancelled);
    assert_eq!(r.previous_name.as_deref(), Some("Prev"));
}

#[test]
fn cancelling_a_scan() {
    let (mut s, _) = ScanAll::start(vec!["a".into()]);
    assert!(matches!(
        s.on_event(ScanEvent::Slept { completed: false }),
        ScanAction::Finish { stop_session: false }
    ));
    assert!(s.into_result(false, None).cancelled);

    let (mut s, _) = ScanAll::start(vec!["a".into()]);
    s.on_event(ScanEvent::Slept { completed: true });
    assert!(matches!(
        s.on_event(ScanEvent::Checked { cancelled: true }),
        ScanAction::Finish { stop_session: true }
    ));
    let r = s.into_result(true, None);
    assert!(r.cancelled && r.entries.is_empty());
}

#[test]
fn apex_panel() {
    let files = ApexFiles {
        v1_installed: true,
        v2_installed: false,
        list_v1: true,
        list_v2: false,
        bat_installed: true,
        preset_v2_installed: true,
    };
    let s = get_apex_status(&files, ZapretBackendPref::V1, Some(" TCP\n"));
    assert!(s.zapret_installed && s.list_installed && s.strategy_available);
    assert_eq!(s.game_filter, "tcp");
    assert!(!s.tips.is_empty());
    let s = get_apex_status(&files, ZapretBackendPref::V2, None);
    assert!(!s.zapret_installed && !s.list_installed && !s.strategy_available);
    assert_eq!(s.game_filter, "disabled");
    let (remove, msg) = setup_apex_preset(ZapretBackendPref::V1, true);
    assert!(remove);
    assert!(msg.starts_with("Пресет Apex: ALT11 APEX"));
    let (remove, msg) = setup_apex_preset(ZapretBackendPref::V2, true);
    assert!(!remove);
    assert!(msg.starts_with("Пресет Apex Legends установлен в zapret2"));
}

#[test]
fn checking_the_running_strategy() {
    assert_eq!(media_test_target(None, true), Err("Сначала запустите стратегию".to_string()));
    assert_eq!(
        media_test_target(Some("a"), false),
        Err("Обход не запущен. Перезапустите стратегию.".to_string())
    );
    assert_eq!(media_test_target(Some("a"), true), Ok("a".to_string()));
}
