use fastpatch::app_prefs::{
    default_auto_connect, load, set_auto_connect_on_autostart, set_last_strategy_id,
    set_zapret_backend, AppPrefs, ZapretBackendPref,
};
use fastpatch::commands::autostart_connect::{
    autostart_target, check_saved_strategy, is_autostart_session, AutostartConnect,
    ConnectAction, ConnectEvent,
};
use fastpatch::commands::updater::{
    detect_strip_prefix, find_asset_url_str, github_status_message, installed_message,
    latest_release_url, pick_zip_url, read_current_version, release_to_info,
    update_writes_entry, updated_message, verify_install, EntryHead, GithubAsset, GithubRelease,
    REPO_NAME, REPO_OWNER,
};
use fastpatch::commands::zapret2_updater;
use fastpatch::commands::Strategy;
use fastpatch::launch::{autostart_session, from_autostart, minimized};
use fastpatch::paths::{data_file_missing, ensure_current_engine, ensure_winws, ensure_winws2};
use fastpatch::win_autostart::{
    disable, enable, is_enabled, legacy_run_names, remove_legacy_run_entries, remove_run_entry,
    run_powershell_outcome, task_query_script, task_register_script,
};
use fastpatch::win_process::{
    is_elevated_output, ps_escape, relaunch_as_admin_script, relaunch_failed_message,
    spawn_failed_message, spawn_not_elevated_message,
};

fn asset(name: &str) -> GithubAsset {
    GithubAsset {
        name: name.to_string(),
        browser_download_url: format!("https://x/{name}"),
    }
}

fn release(tag: &str, assets: Vec<GithubAsset>) -> GithubRelease {
    GithubRelease {
        tag_name: tag.to_string(),
        name: None,
        body: None,
        published_at: "2025-01-01".to_string(),
        assets,
    }
}

fn args(v: &[&str]) -> Vec<String> {
    v.iter().map(|s| s.to_string()).collect()
}

#[test]
fn settings_load_and_change() {
    assert!(default_auto_connect());
    let d = AppPrefs::default();
    assert!(d.last_strategy_id.is_none() && d.auto_connect_on_autostart);
    assert_eq!(d.zapret_backend, ZapretBackendPref::V2);

    let (p, save) = load(None, None);
    assert!(!save && p.last_strategy_id.is_none());

    let legacy = set_last_strategy_id(AppPrefs::default(), "alt11");
    let (p, save) = load(None, Some(legacy.clone()));
    assert!(save);
    assert_eq!(p.last_strategy_id.as_deref(), Some("alt11"));

    let saved = set_last_strategy_id(AppPrefs::default(), "general");
    let (p, save) = load(Some(saved), Some(legacy));
    assert!(!save);
    assert_eq!(p.last_strategy_id.as_deref(), Some("general"));

    let p = set_auto_connect_on_autostart(p, false);
    assert!(!p.auto_connect_on_autostart);
    let p = set_zapret_backend(p, ZapretBackendPref::V1);
    assert_eq!(p.zapret_backend, ZapretBackendPref::V1);
    assert_eq!(p.last_strategy_id.as_deref(), Some("general"));
}

#[test]
fn launch_flags() {
    let a = args(&["fastpatch.exe", "--minimized"]);
    assert!(minimized(&a) && !from_autostart(&a) && autostart_session(&a));
    let b = args(&["fastpatch.exe", "--from-autostart"]);
    assert!(from_autostart(&b) && autostart_session(&b));
    assert!(!autostart_session(&args(&["fastpatch.exe", "--MINIMIZED"])));
    assert!(is_autostart_session(&a));
}

#[test]
fn autostart_connection() {
    let mut prefs = set_last_strategy_id(AppPrefs::default(), "alt11");
    assert_eq!(autostart_target(false, &prefs), Ok(None));
    assert_eq!(autostart_target(true, &prefs), Ok(Some("alt11".to_string())));
    prefs.auto_connect_on_autostart = false;
    assert_eq!(autostart_target(true, &prefs), Ok(None));
    let none = AppPrefs::default();
    assert!(autostart_target(true, &none).is_err());
    let list = vec![Strategy {
        id: "alt11".into(),
        name: "ALT11".into(),
        description: String::new(),
        tags: Vec::new(),
        source_bat: "general (ALT11).bat".into(),
        args: String::new(),
    }];
    assert_eq!(check_saved_strategy(&list, "alt11"), Ok(()));
    assert!(check_saved_strategy(&list, "gone").is_err());

    let (mut c, a) = AutostartConnect::start("alt11".into());
    assert!(matches!(a, ConnectAction::Attempt { wait_ms: 800 }));
    for _ in 0..5 {
        let a = c.on_event(ConnectEvent::StartFailed("busy".into()));
        assert!(matches!(a, ConnectAction::Attempt { wait_ms: 2500 }));
    }
    match c.on_event(ConnectEvent::Started { running: false }) {
        ConnectAction::GiveUp(m) => assert_eq!(
            m,
            "Не удалось подключить «alt11» после автозапуска: winws не появился после запуска стратегии"
        ),
        other => panic!("{other:?}"),
    }
    let (mut c, _) = AutostartConnect::start("alt11".into());
    c.on_event(ConnectEvent::EngineMissing("no engine".into()));
    assert!(matches!(c.on_event(ConnectEvent::Started { running: true }), ConnectAction::Connected));
}

#[test]
fn engine_paths() {
    assert_eq!(ensure_winws("C:\\z\\bin\\winws.exe", true), Ok(()));
    assert!(ensure_winws("W", false).unwrap_err().starts_with("winws.exe не найден: W."));
    assert!(ensure_winws2("W", false).unwrap_err().starts_with("winws2.exe не найден: W."));
    assert_eq!(ensure_current_engine(ZapretBackendPref::V1, "a", true, "b", false), Ok(()));
    assert!(ensure_current_engine(ZapretBackendPref::V2, "a", true, "b", false).is_err());
    assert!(data_file_missing("strategies.json", "").starts_with("Файл strategies.json не найден"));
}

#[test]
fn zapret1_releases() {
    let r = release("v1.9.8", vec![asset("notes.txt"), asset("zapret.zip"), asset("b.zip")]);
    assert_eq!(pick_zip_url(&r), Ok("https://x/zapret.zip".to_string()));
    let none = release("v1", vec![asset("a.txt"), asset("b.7z")]);
    assert_eq!(
        pick_zip_url(&none),
        Err("В релизе v1 нет .zip архива. Доступно: a.txt, b.7z".to_string())
    );
    assert_eq!(find_asset_url_str(&r.assets, ".txt"), Some("https://x/notes.txt".to_string()));
    assert_eq!(read_current_version(Some(" v1.9.7\n")), "v1.9.7");
    assert_eq!(read_current_version(None), "unknown");

    let info = release_to_info(r.clone(), "v1.9.7".into());
    assert!(info.has_update);
    assert_eq!(info.name, "v1.9.8");
    assert_eq!(info.body, "");
    assert!(!release_to_info(r.clone(), "v1.9.8".into()).has_update);
    assert!(!release_to_info(r, "unknown".into()).has_update);
    assert!(!release_to_info(none, "v0".into()).has_update);
    assert_eq!(
        latest_release_url(REPO_OWNER, REPO_NAME),
        "https://api.github.com/repos/flowseal/zapret-discord-youtube/releases/latest"
    );
}

#[test]
fn which_entries_an_update_writes() {
    assert!(update_writes_entry("C:\\z\\general.bat", "general.bat"));
    assert!(update_writes_entry("C:\\z\\bin\\winws.exe", "winws.exe"));
    assert!(update_writes_entry("C:\\z\\lists\\list-general.txt", "list-general.txt"));
    assert!(!update_writes_entry("C:\\z\\lists\\list-general-user.txt", "list-general-user.txt"));
    assert!(!update_writes_entry("C:\\z\\hosts", "hosts"));
    assert!(!update_writes_entry("C:\\z\\README.md", "README.md"));
}

#[test]
fn archive_root_folder() {
    let head = |f: Option<&str>, nested: bool| EntryHead {
        first: f.map(|s| s.to_string()),
        nested,
    };
    assert_eq!(
        detect_strip_prefix(&vec![head(Some("zapret-1.9.8"), true), head(Some("zapret-1.9.8"), true)]),
        Some("zapret-1.9.8".to_string())
    );
    assert_eq!(detect_strip_prefix(&vec![head(Some("a"), true), head(Some("b"), true)]), None);
    assert_eq!(detect_strip_prefix(&vec![head(Some("a"), true), head(Some("a"), false)]), None);
    assert_eq!(detect_strip_prefix(&vec![head(None, true)]), None);
    assert_eq!(detect_strip_prefix(&Vec::new()), None);
}

#[test]
fn update_messages() {
    assert_eq!(verify_install("W", true), Ok(()));
    assert_eq!(
        verify_install("W", false),
        Err("После установки winws.exe не найден: W. Попробуйте переустановить.".to_string())
    );
    assert_eq!(
        installed_message("v1", "C:\\z", 12),
        "Zapret 1 v1 установлен в C:\\z (12 файлов). Пресет Apex добавлен."
    );
    assert_eq!(updated_message("v1", 3), "Обновление v1 применено. Обновлено файлов: 3");
    assert_eq!(
        github_status_message("403 Forbidden"),
        "GitHub API вернул 403 Forbidden. Проверьте интернет или повторите позже."
    );
}

#[test]
fn zapret2_releases() {
    let r = release("v2.1", vec![asset("zapret2.zip"), asset("bundle.7z")]);
    assert_eq!(zapret2_updater::pick_7z_url(&r), Ok("https://x/bundle.7z".to_string()));
    assert_eq!(
        zapret2_updater::pick_7z_url(&release("v2", vec![])),
        Err("В релизе v2 нет .7z архива".to_string())
    );
    assert!(zapret2_updater::release_to_info(r, "v2.0".into()).has_update);
    assert_eq!(zapret2_updater::read_current_version(Some("v2.0 ")), "v2.0");
    assert_eq!(
        zapret2_updater::verify_install_at("W", false),
        Err("После установки winws2.exe не найден: W".to_string())
    );
    assert!(zapret2_updater::copy_from_single_folder(1, true));
    assert!(!zapret2_updater::copy_from_single_folder(2, true));
    assert_eq!(zapret2_updater::staging_name(Some("zapret2"), 7), "zapret2.staging-7");
    assert_eq!(zapret2_updater::backup_name(None, 8), "zapret2.backup-8");
    assert_eq!(
        zapret2_updater::installed_message("v2.1"),
        "Zapret 2 установлен (v2.1). Пресеты в presets/, Apex Legends добавлен."
    );
    assert_eq!(
        zapret2_updater::replace_failed_message("T", "E"),
        "Не удалось заменить Zapret 2 в T: E. Старая установка восстановлена."
    );
}

#[test]
fn powershell_scripts() {
    assert_eq!(ps_escape("it's"), "it''s");
    let text = "a'b''c'";
    let escaped = ps_escape(text);
    assert_eq!(escaped.replace("''", "'"), text);
    assert_eq!(escaped.len(), text.len() + text.matches('\'').count());
    assert_eq!(
        relaunch_as_admin_script("C:\\a'b.exe", &args(&[])),
        "Start-Process -FilePath 'C:\\a''b.exe' -Verb RunAs"
    );
    assert_eq!(
        relaunch_as_admin_script("f.exe", &args(&["--minimized", "x'y"])),
        "Start-Process -FilePath 'f.exe' -ArgumentList '--minimized','x''y' -Verb RunAs"
    );
    assert!(is_elevated_output(" True\r\n"));
    assert!(!is_elevated_output("False"));
    assert_eq!(
        spawn_not_elevated_message(),
        "Нет прав администратора. В fastpatch нажмите «Запустить от имени администратора»."
    );
    assert_eq!(spawn_failed_message("e"), "Не удалось запустить winws.exe: e");
    assert_eq!(
        relaunch_failed_message("e"),
        "Не удалось перезапустить fastpatch с правами администратора: e"
    );
}

#[test]
fn autostart_task() {
    assert_eq!(legacy_run_names(), vec!["fastpatch", "com.fastpatch.app", "Fastpatch"]);
    assert!(remove_run_entry("a'b").contains("-Name 'a''b'"));
    assert_eq!(
        task_query_script(),
        "if (Get-ScheduledTask -TaskName 'fastpatch' -ErrorAction SilentlyContinue) { 'yes' } else { 'no' }"
    );
    assert_eq!(
        disable(),
        "Unregister-ScheduledTask -TaskName 'fastpatch' -Confirm:$false -ErrorAction SilentlyContinue"
    );
    let scripts = remove_legacy_run_entries();
    assert_eq!(scripts.len(), 3);
    assert_eq!(scripts[1], remove_run_entry("com.fastpatch.app"));
    assert_eq!(enable(true, "C:\\fastpatch.exe"), Ok(task_register_script("C:\\fastpatch.exe")));
    assert!(enable(false, "x").unwrap_err().starts_with("Для включения автозапуска нужны права администратора."));
    let reg = task_register_script("C:\\fastpatch.exe");
    assert!(reg.starts_with("\n$exe = 'C:\\fastpatch.exe'\n"));
    assert!(reg.contains("-Argument '--minimized --from-autostart'"));
    assert!(is_enabled(Ok("YES".into())));
    assert!(!is_enabled(Ok("yes\n".into())));
    assert!(!is_enabled(Err("x".into())));
    assert_eq!(run_powershell_outcome(true, " ok \n", "", Some(0)), Ok("ok".to_string()));
    assert_eq!(run_powershell_outcome(false, "out", " err ", Some(1)), Err("err".to_string()));
    assert_eq!(run_powershell_outcome(false, " out ", "  ", Some(1)), Err("out".to_string()));
    assert_eq!(
        run_powershell_outcome(false, "", "", Some(-2)),
        Err("PowerShell завершился с кодом Some(-2)".to_string())
    );
    assert_eq!(
        run_powershell_outcome(false, "", "", None),
        Err("PowerShell завершился с кодом None".to_string())
    );
}
