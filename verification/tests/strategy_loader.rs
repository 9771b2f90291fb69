use fastpatch::commands::strategy_loader::{
    autodetect_priority, bat_display_name, bat_key_of, bat_sort_key, bat_to_id,
    build_bat_strategy, custom_strategy_exists_message, expand_bat_variables, game_filter_ports,
    infer_tags, is_base_general_strategy, is_strategy_bat_name, load_strategies,
    load_strategies_json_fallback, parse_winws_args, sanitize_display_name, save_custom_strategy,
    scan_bat_strategies, split_command_line, strategy_from_bat, winws_argv_from_bat, BatFile,
};
use fastpatch::commands::Strategy;

const BAT: &str = "@echo off\r\nchcp 65001 > nul\r\n:: comment\r\ncd /d \"%~dp0\"\r\nstart \"zapret: general\" /min \"%BIN%winws.exe\" --wf-tcp=80,443,%GameFilterTCP% --wf-udp=443,%GameFilterUDP% ^\r\n--filter-tcp=80 --hostlist=\"%LISTS%list-general.txt\" ^\r\n--new ^\r\n--dpi-desync=fake\r\n";

fn strategy(id: &str, tags: &[&str]) -> Strategy {
    Strategy {
        id: id.to_string(),
        name: id.to_uppercase(),
        description: String::new(),
        tags: tags.iter().map(|t| t.to_string()).collect(),
        source_bat: format!("{id}.bat"),
        args: String::new(),
    }
}

#[test]
fn display_names_of_bat_files() {
    assert_eq!(bat_display_name("general.bat"), "GENERAL");
    assert_eq!(bat_display_name("general (ALT11).bat"), "ALT11");
    assert_eq!(bat_display_name("general (FAKE TLS AUTO).bat"), "FAKE TLS AUTO");
    assert_eq!(bat_display_name("general_test.bat"), "GENERAL_TEST");
}

#[test]
fn ids_of_bat_files() {
    assert_eq!(bat_to_id("general.bat"), "general");
    assert_eq!(bat_to_id("General.bat"), "general");
    assert_eq!(bat_to_id("general (ALT11).bat"), "alt11");
    assert_eq!(bat_to_id("general (FAKE TLS AUTO ALT2).bat"), "fake-tls-auto-alt2");
    assert_eq!(bat_to_id("general (A & B).bat"), "a-b");
    let id = bat_to_id("general (x__y).bat");
    assert_eq!(id, "x-y");
}

#[test]
fn tags_of_bat_files() {
    assert_eq!(
        infer_tags("general (ALT).bat", "--hostlist discord.txt youtube %GameFilter%"),
        vec!["discord", "youtube", "games", "cloudflare", "general"]
    );
    assert_eq!(
        infer_tags("general (APEX).bat", ""),
        vec!["apex", "cloudflare", "general"]
    );
    assert_eq!(
        infer_tags("other.bat", "list-apex.txt googlevideo Cloudflare"),
        vec!["apex", "youtube", "cloudflare", "general"]
    );
    assert_eq!(infer_tags("other.bat", "nothing"), vec!["general"]);
}

#[test]
fn game_filter_port_variables() {
    let twelve = ("12".to_string(), "12".to_string(), "12".to_string());
    assert_eq!(game_filter_ports(None), twelve);
    assert_eq!(game_filter_ports(Some("x")), twelve);
    assert_eq!(
        game_filter_ports(Some("all\n")),
        ("1024-65535".to_string(), "1024-65535".to_string(), "1024-65535".to_string())
    );
    assert_eq!(
        game_filter_ports(Some(" TCP ")),
        ("1024-65535".to_string(), "1024-65535".to_string(), "12".to_string())
    );
    assert_eq!(
        game_filter_ports(Some("udp")),
        ("1024-65535".to_string(), "12".to_string(), "1024-65535".to_string())
    );
}

#[test]
fn variables_are_expanded_in_order() {
    let ports = ("G".to_string(), "T".to_string(), "U".to_string());
    assert_eq!(
        expand_bat_variables("%BIN%a %LISTS%b %GameFilter% %GameFilterTCP% %GameFilterUDP%", "C:\\z\\bin", "C:\\z\\lists", &ports),
        "C:\\z\\bin\\a C:\\z\\lists\\b G T U"
    );
}

#[test]
fn winws_arguments_of_a_bat() {
    let args = parse_winws_args(BAT, "C:\\z\\bin", "C:\\z\\lists", None).unwrap();
    assert_eq!(
        args,
        " --wf-tcp=80,443,12 --wf-udp=443,12 --filter-tcp=80 --hostlist=\"C:\\z\\lists\\list-general.txt\" --new --dpi-desync=fake"
    );
    assert_eq!(
        parse_winws_args("@echo off\nexit\n", "b", "l", None),
        Err("В .bat не найдены аргументы winws.exe".to_string())
    );
    let argv = winws_argv_from_bat(BAT, "C:\\z\\bin", "C:\\z\\lists", Some("tcp")).unwrap();
    assert_eq!(
        argv,
        vec![
            "--wf-tcp=80,443,1024-65535",
            "--wf-udp=443,12",
            "--filter-tcp=80",
            "--hostlist=C:\\z\\lists\\list-general.txt",
            "--new",
            "--dpi-desync=fake",
        ]
    );
}

#[test]
fn arguments_stop_at_another_command() {
    let bat = "winws.exe --a ^\n--b\nrem note\n--c\necho done\n--d\n";
    assert_eq!(parse_winws_args(bat, "b", "l", None).unwrap(), "--a --b --c");
}

#[test]
fn continuation_caret_is_not_an_argument() {
    let bat = "\"%BIN%winws.exe\" --wf-tcp=80 ^\n--wf-udp=443\n";
    assert_eq!(
        winws_argv_from_bat(bat, "C:\\z\\bin", "C:\\z\\lists", None).unwrap(),
        vec!["--wf-tcp=80".to_string(), "--wf-udp=443".to_string()]
    );
    assert_eq!(parse_winws_args("winws.exe ^\n--x\n", "b", "l", None).unwrap(), " --x");
}

#[test]
fn command_line_is_split_as_cmd_does() {
    assert_eq!(split_command_line("  a \"b c\"\td  "), vec!["a", "b c", "d"]);
    assert_eq!(split_command_line("x\"y z\"w"), vec!["xy zw"]);
    assert!(split_command_line("   ").is_empty());
    assert_eq!(split_command_line("\"\""), Vec::<String>::new());
}

#[test]
fn custom_names_are_made_safe() {
    assert_eq!(sanitize_display_name("  My: Str*at?  "), "My Strat");
    assert_eq!(sanitize_display_name(""), "CUSTOM");
    assert_eq!(sanitize_display_name("***"), "CUSTOM");
    assert_eq!(sanitize_display_name(&"a".repeat(60)), "a".repeat(48));
}

#[test]
fn custom_strategy_checks() {
    assert_eq!(
        save_custom_strategy(true, "My", "  winws.exe --x  "),
        Ok(("general (My).bat".to_string(), "winws.exe --x".to_string()))
    );
    assert_eq!(
        save_custom_strategy(true, "", "start WINWS.EXE"),
        Ok(("general (CUSTOM).bat".to_string(), "start WINWS.EXE".to_string()))
    );
    assert_eq!(
        save_custom_strategy(false, "My", "winws.exe"),
        Err("Сначала установите zapret".to_string())
    );
    assert_eq!(
        save_custom_strategy(true, "My", "   "),
        Err("Содержимое .bat пустое".to_string())
    );
    assert_eq!(
        save_custom_strategy(true, "My", "echo hi"),
        Err("В файле должен быть вызов winws.exe".to_string())
    );
    assert_eq!(
        custom_strategy_exists_message("general (My).bat"),
        "Файл уже существует: general (My).bat"
    );
}

#[test]
fn sort_keys_of_bat_files() {
    assert_eq!(bat_sort_key("general.bat"), (0, 0, String::new()));
    assert_eq!(bat_sort_key("general (APEX).bat"), (0, 1, "APEX".to_string()));
    assert_eq!(bat_sort_key("general (apex).bat"), (0, 1, "APEX".to_string()));
    assert_eq!(bat_sort_key("general (FAKE TLS AUTO).bat"), (1, 0, "FAKE TLS AUTO".to_string()));
    assert_eq!(
        bat_sort_key("general (FAKE TLS AUTO ALT2).bat"),
        (2, 2, "FAKE TLS AUTO ALT2".to_string())
    );
    assert_eq!(bat_sort_key("general (SIMPLE FAKE).bat"), (3, 0, "SIMPLE FAKE".to_string()));
    assert_eq!(
        bat_sort_key("general (SIMPLE FAKE ALT2).bat"),
        (3, 2, "SIMPLE FAKE ALT2".to_string())
    );
    assert_eq!(bat_sort_key("general (ALT11).bat"), (4, 11, "ALT11".to_string()));
    assert_eq!(bat_sort_key("general (ALT).bat"), (4, 999, "ALT".to_string()));
    assert_eq!(bat_sort_key("general (Other).bat"), (5, 0, "OTHER".to_string()));
    assert_eq!(bat_sort_key("general_x.bat"), (9, 0, "general_x".to_string()));
    assert!(bat_key_of("general (ALT2).bat") < bat_key_of("general (ALT10).bat"));
}

#[test]
fn autodetect_tiers() {
    assert!(is_base_general_strategy("general", "x.bat"));
    assert!(is_base_general_strategy("x", "GENERAL.BAT"));
    assert!(!is_base_general_strategy("x", "general (ALT).bat"));
    assert_eq!(autodetect_priority("general", "general.bat"), (3, 0, 0, String::new()));
    assert_eq!(
        autodetect_priority("alt11", "general (ALT11).bat"),
        (0, 4, 11, "ALT11".to_string())
    );
    assert_eq!(autodetect_priority("alt10", "general (ALT10).bat").0, 1);
    assert_eq!(autodetect_priority("alt3", "general (ALT3).bat").0, 1);
    assert_eq!(autodetect_priority("alt2", "general (ALT2).bat").0, 2);
    assert_eq!(autodetect_priority("x", "general (X).bat").0, 2);
}

#[test]
fn which_files_are_strategies() {
    assert!(is_strategy_bat_name("general.bat"));
    assert!(is_strategy_bat_name("general (ALT).bat"));
    assert!(!is_strategy_bat_name("service.bat"));
    assert!(!is_strategy_bat_name("other.bat"));
    assert!(!is_strategy_bat_name("general.txt"));
}

#[test]
fn strategies_are_listed_by_sort_key() {
    let files = vec![
        BatFile { name: "general (ALT10).bat".into(), content: BAT.into() },
        BatFile { name: "service.bat".into(), content: String::new() },
        BatFile { name: "general (ALT2).bat".into(), content: String::new() },
        BatFile { name: "general.bat".into(), content: String::new() },
        BatFile { name: "general (APEX).bat".into(), content: String::new() },
        BatFile { name: "readme.txt".into(), content: String::new() },
    ];
    let list = scan_bat_strategies(&files, "b", "l", None);
    let ids: Vec<&str> = list.iter().map(|s| s.id.as_str()).collect();
    assert_eq!(ids, vec!["general", "apex", "alt2", "alt10"]);
    assert_eq!(
        list[1].description,
        "Пресет для Apex Legends (issue #6503): list-apex.txt, порты UDP 10000–10100, ipset-exclude"
    );
    assert_eq!(list[2].description, "Запуск: general (ALT2).bat");
    assert_eq!(list[2].args, "");
    assert!(list[3].args.contains("--dpi-desync=fake"));

    assert!(load_strategies(false, &files, "b", "l", None).is_none());
    assert!(load_strategies(true, &Vec::new(), "b", "l", None).is_none());
    assert_eq!(load_strategies(true, &files, "b", "l", None).unwrap().len(), 4);
}

#[test]
fn one_strategy_from_a_file() {
    let s = strategy_from_bat("general (APEX).bat", "", "b", "l", None);
    assert_eq!(s.description, "Запуск: general (APEX).bat");
    assert_eq!(s.id, "apex");
    let t = build_bat_strategy("general (APEX).bat", "", "b", "l", None, true);
    assert!(t.description.starts_with("Пресет для Apex Legends"));
}

#[test]
fn json_fallback_drops_google_tags() {
    let list = vec![strategy("a", &["google", "discord", "google"]), strategy("b", &[])];
    let out = load_strategies_json_fallback(list);
    assert_eq!(out[0].tags, vec!["discord"]);
    assert!(out[1].tags.is_empty());
}
