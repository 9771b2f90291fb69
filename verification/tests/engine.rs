use fastpatch::app_prefs::{AppPrefs, ZapretBackendPref};
use fastpatch::commands::engine_process::{
    find_winws2_pid, find_winws2_pids, find_winws_pids, is_pid_running, pids_for_image,
    winws2_wait_step, winws_wait_step,
};
use fastpatch::commands::strategy_runner::{
    find_winws_pid, leftover_detail, not_elevated, not_started_detail, winws_busy_message,
    zapret_preamble_hooks, Launch, LaunchAction, LaunchEvent, SpawnOptions,
};
use fastpatch::commands::zapret2_runner::{
    child_exit_detail, log_path_hint, preset_needs_apex_assets, preset_windows_path, tail_log,
    warmup_ms, windivert_services, winws_start_failed_message, PresetAction, PresetEvent,
    PresetLaunch, ACTIVE_PRESET_ARG,
};
use fastpatch::commands::zapret2_runner::winws_busy_message as winws2_busy_message;
use fastpatch::commands::zapret_backend::{
    backend_from_pref, current, pref_from_backend, preflight_engine_spawn, set_current,
    ZapretBackend,
};

const LISTING: &str = "\"winws.exe\",\"1234\",\"Console\",\"1\",\"10 000 K\"\r\n\"WINWS2.EXE\",\"77\",\"Console\",\"1\",\"5 K\"\r\n\"winws.exe\",\"0\",\"Console\",\"1\",\"1 K\"\r\nINFO: No tasks are running\r\n\"winws.exe\",\"5678\",\"Console\",\"1\",\"1 K\"\r\n";

#[test]
fn pids_are_read_from_tasklist() {
    assert_eq!(pids_for_image("winws.exe", LISTING), vec![1234, 5678]);
    assert_eq!(find_winws_pids(LISTING), vec![1234, 5678]);
    assert_eq!(find_winws2_pids(LISTING), vec![77]);
    assert_eq!(find_winws2_pid(LISTING), Some(77));
    assert_eq!(find_winws2_pid("INFO: No tasks are running which match the specified criteria."), None);
    assert!(is_pid_running(5678, LISTING));
    assert!(!is_pid_running(9, LISTING));
}

#[test]
fn runner_reads_the_first_pid() {
    assert_eq!(find_winws_pid("\"winws.exe\",\"42\",\"Console\"\n"), Some(42));
    assert_eq!(find_winws_pid("\"Image Name\",\"PID\"\n\"winws.exe\",\"7\"\n"), Some(7));
    assert_eq!(find_winws_pid(""), None);
}

#[test]
fn waiting_for_an_engine_to_stop() {
    let s = winws_wait_step(true, 400, 3500).unwrap();
    assert_eq!(s.waited, 500);
    assert!(s.kill_again);
    let s = winws_wait_step(true, 100, 3500).unwrap();
    assert_eq!(s.waited, 200);
    assert!(!s.kill_again);
    assert!(winws_wait_step(false, 0, 3500).is_none());
    assert!(winws_wait_step(true, 3500, 3500).is_none());
    let s = winws2_wait_step(true, 1800, 6000).unwrap();
    assert_eq!(s.waited, 2000);
    assert!(s.kill_again);
}

#[test]
fn spawn_options() {
    let d = SpawnOptions::default();
    assert!(d.run_preamble);
    assert_eq!((d.warmup_ms, d.stop_wait_ms), (4000, 4000));
    let fast = SpawnOptions::for_scan_iteration(false);
    assert!(!fast.run_preamble);
    assert_eq!((fast.warmup_ms, fast.stop_wait_ms), (1200, 3500));
    assert_eq!(SpawnOptions::for_scan_iteration(true).warmup_ms, 2200);
    assert_eq!(
        zapret_preamble_hooks(true),
        vec!["call service.bat load_game_filter", "call service.bat load_user_lists"]
    );
    assert_eq!(zapret_preamble_hooks(false).len(), 3);
}

#[test]
fn runner_messages() {
    assert_eq!(
        winws_busy_message("x"),
        "WINWS_BUSY:winws.exe уже запущен (x). Нажмите «Снять задачу» ниже и снова подключите нужную стратегию."
    );
    assert_eq!(
        leftover_detail(12),
        "не удалось остановить процесс 12 — возможно, zapret запущен вне fastpatch"
    );
    assert_eq!(
        not_started_detail("general.bat"),
        "после general.bat процесс не появился — WinDivert может быть занят"
    );
    assert_eq!(
        not_elevated(),
        "Нет прав администратора. Запустите fastpatch от имени администратора."
    );
}

fn fail(a: LaunchAction) -> String {
    match a {
        LaunchAction::Fail(m) => m,
        other => panic!("expected a failure, got {other:?}"),
    }
}

#[test]
fn launching_a_bat_strategy() {
    let opts = SpawnOptions::default();
    let (mut l, a) = Launch::start("general.bat".into(), opts, true);
    assert!(matches!(a, LaunchAction::CheckFiles));
    let a = l.on_event(LaunchEvent::Files {
        bat_exists: true,
        bat_path: "C:\\z\\general.bat".into(),
        winws_exists: true,
        winws_path: "C:\\z\\bin\\winws.exe".into(),
    });
    assert!(matches!(a, LaunchAction::StopAll { wait_ms: 4000 }));
    assert!(matches!(l.on_event(LaunchEvent::Done), LaunchAction::CheckElevated));
    assert!(matches!(l.on_event(LaunchEvent::Elevated(true)), LaunchAction::FindPid));
    assert!(matches!(l.on_event(LaunchEvent::Pid(None)), LaunchAction::RunPreamble));
    assert!(matches!(l.on_event(LaunchEvent::Done), LaunchAction::ReadArgs));
    let a = l.on_event(LaunchEvent::Args(Ok(vec!["--a".into()])));
    assert!(matches!(a, LaunchAction::Spawn { ref argv } if argv == &vec!["--a".to_string()]));
    assert!(matches!(l.on_event(LaunchEvent::Spawned(Ok(()))), LaunchAction::Sleep { ms: 4000 }));
    assert!(matches!(l.on_event(LaunchEvent::Done), LaunchAction::FindPid));
    assert!(matches!(l.on_event(LaunchEvent::Pid(Some(99))), LaunchAction::Started { pid: 99 }));
}

#[test]
fn launch_failures() {
    let opts = SpawnOptions::for_scan_iteration(false);
    let (mut l, _) = Launch::start("g.bat".into(), opts, true);
    let a = l.on_event(LaunchEvent::Files {
        bat_exists: false,
        bat_path: "P".into(),
        winws_exists: true,
        winws_path: "W".into(),
    });
    assert_eq!(fail(a), "Файл стратегии не найден: P. Переустановите zapret.");

    let (mut l, _) = Launch::start("g.bat".into(), opts, false);
    l.on_event(LaunchEvent::Files {
        bat_exists: true,
        bat_path: "P".into(),
        winws_exists: true,
        winws_path: "W".into(),
    });
    assert_eq!(
        fail(l.on_event(LaunchEvent::Done)),
        "Запуск стратегий поддерживается только на Windows"
    );

    let (mut l, _) = Launch::start("g.bat".into(), opts, true);
    l.on_event(LaunchEvent::Files {
        bat_exists: true,
        bat_path: "P".into(),
        winws_exists: false,
        winws_path: "W".into(),
    });
    let (mut l2, _) = Launch::start("g.bat".into(), opts, true);
    l2.on_event(LaunchEvent::Files {
        bat_exists: true,
        bat_path: "P".into(),
        winws_exists: true,
        winws_path: "W".into(),
    });
    l2.on_event(LaunchEvent::Done);
    l2.on_event(LaunchEvent::Elevated(true));
    assert_eq!(
        fail(l2.on_event(LaunchEvent::Pid(Some(5)))),
        winws_busy_message("не удалось остановить процесс 5 — возможно, zapret запущен вне fastpatch")
    );
    let _ = l;

    let (mut l3, _) = Launch::start("g.bat".into(), opts, true);
    l3.on_event(LaunchEvent::Files {
        bat_exists: true,
        bat_path: "P".into(),
        winws_exists: true,
        winws_path: "W".into(),
    });
    l3.on_event(LaunchEvent::Done);
    l3.on_event(LaunchEvent::Elevated(true));
    assert!(matches!(l3.on_event(LaunchEvent::Pid(None)), LaunchAction::ReadArgs));
    assert_eq!(
        fail(l3.on_event(LaunchEvent::Args(Ok(Vec::new())))),
        "В g.bat не найдены аргументы winws.exe"
    );
}

#[test]
fn launch_start_error_with_busy_engine() {
    let opts = SpawnOptions::for_scan_iteration(false);
    let (mut l, _) = Launch::start("g.bat".into(), opts, true);
    l.on_event(LaunchEvent::Files {
        bat_exists: true,
        bat_path: "P".into(),
        winws_exists: true,
        winws_path: "W".into(),
    });
    l.on_event(LaunchEvent::Done);
    l.on_event(LaunchEvent::Elevated(true));
    l.on_event(LaunchEvent::Pid(None));
    l.on_event(LaunchEvent::Args(Ok(vec!["x".into()])));
    assert!(matches!(l.on_event(LaunchEvent::Spawned(Err("boom".into()))), LaunchAction::FindPid));
    assert_eq!(fail(l.on_event(LaunchEvent::Pid(Some(1)))), winws_busy_message("boom"));
}

fn fail2(a: PresetAction) -> String {
    match a {
        PresetAction::Fail(m) => m,
        other => panic!("expected a failure, got {other:?}"),
    }
}

fn files_ok() -> PresetEvent {
    PresetEvent::Files {
        preset_exists: true,
        preset_path: "P".into(),
        winws2_exists: true,
        winws2_path: "W".into(),
    }
}

#[test]
fn launching_a_preset() {
    let opts = SpawnOptions::default();
    let (mut l, a) = PresetLaunch::start("presets/Apex Legends.txt".into(), opts, true);
    assert!(matches!(a, PresetAction::CheckFiles));
    assert!(matches!(l.on_event(files_ok()), PresetAction::PrepareApex));
    assert!(matches!(l.on_event(PresetEvent::Prepared(Ok(()))), PresetAction::StopAll { wait_ms: 4000 }));
    assert!(matches!(l.on_event(PresetEvent::Done), PresetAction::CheckElevated));
    assert!(matches!(l.on_event(PresetEvent::Elevated(true)), PresetAction::FindPid));
    assert!(matches!(l.on_event(PresetEvent::Pid(None)), PresetAction::Activate));
    let a = l.on_event(PresetEvent::Activated(Ok(())));
    assert!(matches!(a, PresetAction::Spawn { arg } if arg == ACTIVE_PRESET_ARG));
    assert!(matches!(l.on_event(PresetEvent::SpawnOk { pid: 31 }), PresetAction::Sleep { ms: 4000 }));
    assert!(matches!(l.on_event(PresetEvent::Done), PresetAction::CheckExit));
    assert!(matches!(l.on_event(PresetEvent::Exited(None)), PresetAction::IsRunning { pid: 31 }));
    assert!(matches!(l.on_event(PresetEvent::Running(true)), PresetAction::Started { pid: 31 }));
}

#[test]
fn preset_launch_failures() {
    let opts = SpawnOptions::for_scan_iteration(false);
    let (mut l, _) = PresetLaunch::start("presets/Default v5.txt".into(), opts, true);
    let a = l.on_event(PresetEvent::Files {
        preset_exists: false,
        preset_path: "P".into(),
        winws2_exists: true,
        winws2_path: "W".into(),
    });
    assert_eq!(fail2(a), "Пресет не найден: P. Переустановите Zapret 2.");

    let (mut l, _) = PresetLaunch::start("presets/Apex.txt".into(), opts, true);
    l.on_event(files_ok());
    assert_eq!(
        fail2(l.on_event(PresetEvent::Prepared(Err("e".into())))),
        "Не удалось подготовить файлы Apex: e. Настройки → Игры → «Установить пресет»."
    );

    let (mut l, _) = PresetLaunch::start("presets/Default v5.txt".into(), opts, false);
    assert!(matches!(l.on_event(files_ok()), PresetAction::StopAll { wait_ms: 3500 }));
    assert_eq!(fail2(l.on_event(PresetEvent::Done)), "Zapret 2 поддерживается только на Windows");

    let (mut l, _) = PresetLaunch::start("presets/Default v5.txt".into(), opts, true);
    l.on_event(files_ok());
    l.on_event(PresetEvent::Done);
    l.on_event(PresetEvent::Elevated(true));
    l.on_event(PresetEvent::Pid(None));
    assert_eq!(
        fail2(l.on_event(PresetEvent::Activated(Err("denied".into())))),
        "Не удалось активировать пресет: denied"
    );

    // Started, but the process ended during the warm-up.
    let (mut l, _) = PresetLaunch::start("presets/Default v5.txt".into(), opts, true);
    l.on_event(files_ok());
    l.on_event(PresetEvent::Done);
    l.on_event(PresetEvent::Elevated(true));
    l.on_event(PresetEvent::Pid(None));
    l.on_event(PresetEvent::Activated(Ok(())));
    assert!(matches!(l.on_event(PresetEvent::SpawnOk { pid: 8 }), PresetAction::Sleep { ms: 2000 }));
    l.on_event(PresetEvent::Done);
    assert_eq!(
        fail2(l.on_event(PresetEvent::Exited(Some("d".into())))),
        winws_start_failed_message("d")
    );

    // A start error with no engine running names the log.
    let (mut l, _) = PresetLaunch::start("presets/Default v5.txt".into(), opts, true);
    l.on_event(files_ok());
    l.on_event(PresetEvent::Done);
    l.on_event(PresetEvent::Elevated(true));
    l.on_event(PresetEvent::Pid(None));
    l.on_event(PresetEvent::Activated(Ok(())));
    l.on_event(PresetEvent::SpawnErr { error: "os error".into(), log_hint: "\n\nЛог: L".into() });
    assert_eq!(
        fail2(l.on_event(PresetEvent::Pid(None))),
        winws_start_failed_message("os error\n\nЛог: L")
    );

    // The process vanished and another engine appeared.
    let (mut l, _) = PresetLaunch::start("presets/Default v5.txt".into(), opts, true);
    l.on_event(files_ok());
    l.on_event(PresetEvent::Done);
    l.on_event(PresetEvent::Elevated(true));
    l.on_event(PresetEvent::Pid(None));
    l.on_event(PresetEvent::Activated(Ok(())));
    l.on_event(PresetEvent::SpawnOk { pid: 8 });
    l.on_event(PresetEvent::Done);
    l.on_event(PresetEvent::Exited(None));
    assert!(matches!(l.on_event(PresetEvent::Running(false)), PresetAction::FindPid));
    assert_eq!(
        fail2(l.on_event(PresetEvent::Pid(Some(9)))),
        winws2_busy_message("обнаружен другой экземпляр winws2 после запуска")
    );
}

#[test]
fn zapret2_helpers() {
    assert_eq!(log_path_hint("C:\\l.log", true), "\n\nЛог: C:\\l.log");
    assert_eq!(log_path_hint("C:\\l.log", false), "");
    assert_eq!(tail_log("a\nb\nc\n", 2), Some("b\nc".to_string()));
    assert_eq!(tail_log("a\r\nb", 5), Some("a\nb".to_string()));
    assert_eq!(tail_log("", 5), None);
    assert_eq!(tail_log("a", 0), None);
    assert_eq!(
        child_exit_detail("Default v5.txt", -1, Some("x"), ""),
        "после Default v5.txt завершился с кодом -1\n\nПоследние строки лога:\nx"
    );
    assert_eq!(
        child_exit_detail("p", 3, None, "\n\nЛог: L"),
        "после p завершился с кодом 3\n\nЛог: L"
    );
    let mut o = SpawnOptions::default();
    assert_eq!(warmup_ms(&o), 4000);
    o.warmup_ms = 100;
    assert_eq!(warmup_ms(&o), 2000);
    o.warmup_ms = 0;
    assert_eq!(warmup_ms(&o), 2000);
    assert_eq!(preset_windows_path("presets/Default v5.txt"), "presets\\Default v5.txt");
    assert!(preset_needs_apex_assets("presets/Apex Legends.txt"));
    assert!(!preset_needs_apex_assets("presets/apex.txt"));
    assert_eq!(windivert_services(), vec!["WinDivert", "WinDivert14", "Monkey", "Monkey14"]);
}

#[test]
fn engine_selection() {
    assert_eq!(backend_from_pref(ZapretBackendPref::V1), ZapretBackend::V1);
    assert_eq!(pref_from_backend(ZapretBackend::V2), ZapretBackendPref::V2);
    let prefs = AppPrefs::default();
    assert_eq!(current(&prefs), ZapretBackend::V2);
    let p = set_current(prefs, ZapretBackend::V1);
    assert_eq!(current(&p), ZapretBackend::V1);
    assert_eq!(preflight_engine_spawn(ZapretBackend::V1, None), Ok(()));
    assert_eq!(
        preflight_engine_spawn(ZapretBackend::V2, Some(4)),
        Err(winws2_busy_message(
            "не удалось остановить процесс 4 — zapret, возможно, запущен вне fastpatch"
        ))
    );
    assert_eq!(
        preflight_engine_spawn(ZapretBackend::V1, Some(4)),
        Err(winws_busy_message(
            "не удалось остановить процесс 4 — zapret, возможно, запущен вне fastpatch"
        ))
    );
}
