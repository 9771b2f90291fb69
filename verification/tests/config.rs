use fastpatch::commands::hosts::{
    backup_missing_message, backup_name, hosts_path, is_backup_file_name, list_hosts_backups,
    HostsBackup,
};
use fastpatch::commands::zapret_config::{
    count_host_entries, get_zapret_settings, hosts_up_to_date_message, hosts_updated_message,
    merge_zapret_hosts_into_system, read_game_filter, read_ipset_mode, set_auto_update_check,
    set_game_filter, set_ipset_mode, zapret_hosts_marker_lines, FlagAction, HOSTS_BEGIN, HOSTS_END,
};

#[test]
fn game_filter_is_read_from_its_flag() {
    assert_eq!(
        read_game_filter(None),
        ("disabled".to_string(), "Выключен".to_string())
    );
    assert_eq!(
        read_game_filter(Some(" ALL\n")),
        ("all".to_string(), "Включён (TCP и UDP)".to_string())
    );
    assert_eq!(
        read_game_filter(Some("tcp")),
        ("tcp".to_string(), "Включён (только TCP)".to_string())
    );
    assert_eq!(
        read_game_filter(Some("udp")),
        ("udp".to_string(), "Включён (только UDP)".to_string())
    );
    assert_eq!(
        read_game_filter(Some("weird")),
        ("weird".to_string(), "Включён".to_string())
    );
}

#[test]
fn game_filter_set_then_read_gives_the_mode() {
    for mode in ["all", "TCP", "Udp"] {
        match set_game_filter(mode) {
            Ok((FlagAction::Write(c), msg)) => {
                assert_eq!(c, mode.to_lowercase());
                assert_eq!(msg, "Игровой фильтр обновлён. Перезапустите активную стратегию.");
                assert_eq!(read_game_filter(Some(&c)).0, c);
            }
            other => panic!("unexpected {other:?}"),
        }
    }
    for mode in ["disabled", "OFF", "0"] {
        match set_game_filter(mode) {
            Ok((FlagAction::Remove, msg)) => {
                assert_eq!(msg, "Игровой фильтр выключен. Перезапустите стратегию.");
                assert_eq!(read_game_filter(None).0, "disabled");
            }
            other => panic!("unexpected {other:?}"),
        }
    }
    assert!(matches!(
        set_game_filter("both"),
        Err(e) if e == "Режим: disabled, all, tcp или udp"
    ));
}

#[test]
fn auto_update_check_flag() {
    assert!(matches!(
        set_auto_update_check(true, false),
        (FlagAction::Write(c), m) if c == "ENABLED\n" && m == "Автопроверка обновлений включена"
    ));
    assert!(matches!(
        set_auto_update_check(false, true),
        (FlagAction::Remove, m) if m == "Автопроверка обновлений выключена"
    ));
    assert!(matches!(
        set_auto_update_check(false, false),
        (FlagAction::Keep, m) if m == "Автопроверка уже выключена"
    ));
}

#[test]
fn ipset_mode_is_read_from_the_list() {
    assert_eq!(
        read_ipset_mode(None),
        ("any".to_string(), "Любой (файл отсутствует)".to_string())
    );
    assert_eq!(read_ipset_mode(Some("\n  \n")), ("any".to_string(), "Любой".to_string()));
    assert_eq!(
        read_ipset_mode(Some("  203.0.113.113/32  \r\n")),
        ("none".to_string(), "Отключён".to_string())
    );
    assert_eq!(
        read_ipset_mode(Some("1.1.1.1/32\n\n2.2.2.0/24\n")),
        ("loaded".to_string(), "Загружен (2 записей)".to_string())
    );
}

#[test]
fn ipset_set_then_read_gives_the_mode() {
    let none = set_ipset_mode("NONE", true, false, false).unwrap();
    assert!(none.move_list_to_backup && !none.remove_list && !none.restore_backup);
    assert_eq!(none.write_list.as_deref(), Some("203.0.113.113/32\n"));
    assert_eq!(none.message, "IPSet фильтр отключён");
    assert_eq!(read_ipset_mode(none.write_list.as_deref()).0, "none");

    let keep_backup = set_ipset_mode("none", true, true, true).unwrap();
    assert!(!keep_backup.move_list_to_backup);

    let any = set_ipset_mode("any", true, true, true).unwrap();
    assert_eq!(any.write_list.as_deref(), Some(""));
    assert_eq!(any.message, "IPSet: режим «любой»");
    assert_eq!(read_ipset_mode(any.write_list.as_deref()).0, "any");

    let loaded = set_ipset_mode("loaded", true, true, true).unwrap();
    assert!(loaded.remove_list && loaded.restore_backup && loaded.write_list.is_none());
    assert_eq!(loaded.message, "IPSet восстановлен из резервной копии");
    assert_eq!(
        set_ipset_mode("loaded", true, false, false).err(),
        Some("Нет резервной копии. Сначала обновите список IPSet.".to_string())
    );
    assert_eq!(
        set_ipset_mode("all", false, false, false).err(),
        Some("Режим: none, any или loaded".to_string())
    );
}

#[test]
fn settings_are_gathered() {
    let s = get_zapret_settings(Some("tcp"), None, true);
    assert_eq!(s.game_filter, "tcp");
    assert_eq!(s.ipset_mode, "any");
    assert_eq!(s.ipset_label, "Любой (файл отсутствует)");
    assert!(s.auto_update_check);
}

#[test]
fn host_entries_and_markers() {
    let remote = "# zapret\n1.1.1.1 a.com\n\n  2.2.2.2 b.com  \n# end\n";
    assert_eq!(count_host_entries(remote), 2);
    assert_eq!(
        zapret_hosts_marker_lines(remote),
        Some(("1.1.1.1 a.com".to_string(), "2.2.2.2 b.com".to_string()))
    );
    assert_eq!(zapret_hosts_marker_lines("# only comments\n"), None);
}

#[test]
fn merging_appends_the_block() {
    let current = "127.0.0.1 localhost";
    let remote = "\n1.1.1.1 a.com\n2.2.2.2 b.com\n\n";
    let (text, action) = merge_zapret_hosts_into_system(current, remote).unwrap();
    assert_eq!(action, "добавлен");
    assert_eq!(
        text,
        format!("127.0.0.1 localhost\n\n{HOSTS_BEGIN}\n1.1.1.1 a.com\n2.2.2.2 b.com\n{HOSTS_END}\n")
    );
}

#[test]
fn merging_replaces_an_existing_block() {
    let current = format!("a\n\n{HOSTS_BEGIN}\nold\n{HOSTS_END}\n\nb\n");
    let (text, action) = merge_zapret_hosts_into_system(&current, "new 1").unwrap();
    assert_eq!(action, "обновлён");
    assert_eq!(text, format!("a\n\n{HOSTS_BEGIN}\nnew 1\n{HOSTS_END}\nb\n"));
    // Merging the same text again keeps the block.
    let (again, action2) = merge_zapret_hosts_into_system(&text, "new 1").unwrap();
    assert_eq!(action2, "обновлён");
    assert_eq!(again, text);
}

#[test]
fn merging_an_up_to_date_file_changes_nothing() {
    let current = "x\n1.1.1.1 a.com\n9.9.9.9 z\n2.2.2.2 b.com\n";
    let (text, action) =
        merge_zapret_hosts_into_system(current, "1.1.1.1 a.com\n2.2.2.2 b.com").unwrap();
    assert_eq!(action, "уже актуален");
    assert_eq!(text, current);
    assert_eq!(
        merge_zapret_hosts_into_system(current, "  \n "),
        Err("Файл hosts с репозитория пуст".to_string())
    );
}

#[test]
fn hosts_messages() {
    assert_eq!(
        hosts_up_to_date_message(3),
        "Системный hosts уже содержит записи zapret (3 строк в репозитории)."
    );
    assert_eq!(
        hosts_updated_message("добавлен", 12, "hosts.bak.20240101_120000"),
        "Hosts zapret добавлен: 12 записей. Резервная копия: hosts.bak.20240101_120000. Откройте раздел Hosts для просмотра."
    );
    assert_eq!(hosts_path(), "C:\\Windows\\System32\\drivers\\etc\\hosts");
    assert_eq!(backup_missing_message("x"), "Резервная копия 'x' не найдена");
}

#[test]
fn hosts_backups_newest_first() {
    assert_eq!(backup_name("20240101_120000"), "hosts.bak.20240101_120000");
    assert!(is_backup_file_name("hosts.bak.20240101_120000"));
    assert!(is_backup_file_name("old.bak"));
    assert!(!is_backup_file_name(".bak"));
    assert!(!is_backup_file_name("notes.txt"));
    let entry = |name: &str, size: u64| HostsBackup {
        filename: name.to_string(),
        created_at: "t".to_string(),
        size_bytes: size,
    };
    let listed = list_hosts_backups(vec![
        entry("hosts.bak.20240101_120000", 1),
        entry("notes.txt", 2),
        entry("hosts.bak.20250101_120000", 3),
        entry("a.bak", 4),
    ]);
    let names: Vec<&str> = listed.iter().map(|b| b.filename.as_str()).collect();
    assert_eq!(
        names,
        vec!["hosts.bak.20250101_120000", "hosts.bak.20240101_120000", "a.bak"]
    );
    assert_eq!(listed[0].size_bytes, 3);
}
