use fastpatch::commands::preset_loader::{
    autodetect_priority, is_preset_file_name, load_presets, preset_description, preset_from_file,
    preset_key_of, preset_name_to_id, preset_rel_path, preset_tags, push_tag, APEX_PRESET_ID,
};

#[test]
fn preset_name_to_id_normalizes_spaces_and_symbols() {
    assert_eq!(preset_name_to_id("Apex Legends"), "apex-legends");
    assert_eq!(
        preset_name_to_id("ALL TCP & UDP multisplit_sni"),
        "all-tcp-udp-multisplit-sni"
    );
}

#[test]
fn apex_preset_sorts_before_default_presets() {
    assert!(autodetect_priority(APEX_PRESET_ID) < autodetect_priority("default-v5"));
}

#[test]
fn preset_tags_classify_common_presets() {
    let default_tags = preset_tags("Default v5");
    assert!(default_tags.iter().any(|t| t == "recommended"));
    assert!(default_tags.iter().any(|t| t == "discord"));
    assert!(default_tags.iter().any(|t| t == "youtube"));

    let aggressive_tags = preset_tags("ALL TCP & UDP multisplit_sni");
    assert!(aggressive_tags.iter().any(|t| t == "aggressive"));

    let apex_tags = preset_tags("Apex Legends");
    assert!(apex_tags.iter().any(|t| t == "apex"));
    assert!(apex_tags.iter().any(|t| t == "games"));
}

#[test]
fn preset_id_of_an_id_is_itself() {
    let once = preset_name_to_id("  Default  v5 -- (new) ");
    assert_eq!(once, "default-v5-new");
    assert_eq!(preset_name_to_id(&once), once);
    assert_eq!(preset_name_to_id("---"), "");
    assert_eq!(preset_name_to_id(""), "");
}

#[test]
fn preset_id_lowercases_non_ascii_before_dropping_it() {
    // Cyrillic letters are not ASCII letters: they become separators.
    assert_eq!(preset_name_to_id("Ростелеком v2"), "v2");
}

#[test]
fn apex_comes_first_in_priority() {
    assert_eq!(autodetect_priority(APEX_PRESET_ID), (0, 0, String::new()));
    assert_eq!(autodetect_priority("default-v5"), (0, 1, String::new()));
    assert_eq!(autodetect_priority("tele2"), (0, 14, String::new()));
    assert_eq!(autodetect_priority("zzz"), (1, 0, "zzz".to_string()));
    assert!(preset_key_of(APEX_PRESET_ID) < preset_key_of("default"));
    assert!(preset_key_of("tele2") < preset_key_of("aaa"));
}

#[test]
fn push_tag_keeps_tags_unique() {
    let mut tags = vec!["a".to_string()];
    push_tag(&mut tags, "b");
    push_tag(&mut tags, "a");
    push_tag(&mut tags, "b");
    assert_eq!(tags, vec!["a".to_string(), "b".to_string()]);
}

#[test]
fn preset_tags_exact_lists() {
    assert_eq!(
        preset_tags("Default v5"),
        vec!["zapret2", "preset", "recommended", "discord", "youtube"]
    );
    assert_eq!(
        preset_tags("Apex Legends"),
        vec!["zapret2", "preset", "apex", "games", "discord", "youtube", "recommended"]
    );
    assert_eq!(preset_tags("Something"), vec!["zapret2", "preset"]);
    assert_eq!(
        preset_tags("MTS old"),
        vec!["zapret2", "preset", "legacy", "provider"]
    );
    assert_eq!(
        preset_tags("Preset X"),
        vec!["zapret2", "preset", "experimental"]
    );
}

#[test]
fn preset_descriptions() {
    let apex = preset_tags("Apex Legends");
    assert_eq!(
        preset_description("Apex Legends", &apex),
        "Apex Legends: Discord/YouTube + EA web; EAC/лобби/игровой UDP без DPI"
    );
    let plain = preset_tags("Something");
    assert_eq!(preset_description("Something", &plain), "Пресет Zapret 2 (winws2)");
    let aggressive = preset_tags("ALL TCP x");
    assert_eq!(
        preset_description("ALL TCP x", &aggressive),
        "Агрессивный профиль для сложных провайдеров; может сильнее влиять на игры и задержку."
    );
}

#[test]
fn preset_paths_and_files() {
    assert_eq!(preset_rel_path("Default v5.txt"), "presets/Default v5.txt");
    assert!(is_preset_file_name("Default v5.txt"));
    assert!(!is_preset_file_name("_hidden.txt"));
    assert!(!is_preset_file_name("readme.md"));
    let s = preset_from_file("Default v5.txt");
    assert_eq!(s.id, "default-v5");
    assert_eq!(s.name, "Default v5");
    assert_eq!(s.source_bat, "presets/Default v5.txt");
}

#[test]
fn load_presets_orders_apex_then_priority_then_id() {
    assert!(load_presets(None).is_empty());
    let names = vec![
        "zeta.txt".to_string(),
        "Default v4.txt".to_string(),
        "_skip.txt".to_string(),
        "Apex Legends.txt".to_string(),
        "alpha.txt".to_string(),
        "Default v5.txt".to_string(),
        "notes.md".to_string(),
    ];
    let ids: Vec<String> = load_presets(Some(&names)).into_iter().map(|s| s.id).collect();
    assert_eq!(
        ids,
        vec!["apex-legends", "default-v5", "default-v4", "alpha", "zeta"]
    );
}
