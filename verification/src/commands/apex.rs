//! Apex Legends helpers (zapret-discord-youtube issues #6503, #6198,
//! #9730): the files of the Apex preset, the status shown in the Apex
//! panel, and the tips. Copying files and probing are the caller's part.

use super::probe::{targets_view, Target};
use crate::app_prefs::ZapretBackendPref;
use crate::text;
use crate::text::{chars_of, string_of};
use vstd::prelude::*;

verus! {

pub const LEGACY_APEX_BAT: &'static str = "general (APEX).bat";

pub const APEX_BAT: &'static str = "general (ALT11 APEX).bat";

pub const APEX_PRESET_V2: &'static str = "Apex Legends.txt";

pub const APEX_LIST: &'static str = "list-apex.txt";

pub const APEX_LIST_EXTRA: &'static str = "list-apex-extra.txt";

pub const APEX_LIST_NODESYNC: &'static str = "list-apex-nodesync.txt";

pub const IPSET_EXCLUDE_APEX_EA: &'static str = "ipset-exclude-apex-ea.txt";

/// HTTP endpoints probed for EA / Apex (not in-game UDP).
pub open spec fn apex_targets() -> Seq<(Seq<char>, Seq<char>)> {
    seq![
        ("ea_web"@, "https://www.ea.com"@),
        ("ea_accounts"@, "https://accounts.ea.com"@),
        ("origin"@, "https://www.origin.com"@),
        ("apex_site"@, "https://www.apexlegends.com"@),
        ("ea_cdn"@, "https://eaassets-a.akamaihd.net"@),
    ]
}

pub fn apex_probe_targets() -> (res: Vec<Target>)
    ensures
        targets_view(res@) == apex_targets(),
{
    let mut v: Vec<Target> = Vec::new();
    v.push(("ea_web", "https://www.ea.com"));
    v.push(("ea_accounts", "https://accounts.ea.com"));
    v.push(("origin", "https://www.origin.com"));
    v.push(("apex_site", "https://www.apexlegends.com"));
    v.push(("ea_cdn", "https://eaassets-a.akamaihd.net"));
    assert(targets_view(v@) =~= apex_targets());
    v
}

/// The Apex lists copied into an engine's `lists/` folder, in order.
pub fn apex_list_files() -> (res: Vec<&'static str>)
    ensures
        res@.map_values(|s: &str| s@) == seq![
            APEX_LIST@,
            APEX_LIST_EXTRA@,
            IPSET_EXCLUDE_APEX_EA@,
            APEX_LIST_NODESYNC@,
        ],
{
    let mut v: Vec<&'static str> = Vec::new();
    v.push(APEX_LIST);
    v.push(APEX_LIST_EXTRA);
    v.push(IPSET_EXCLUDE_APEX_EA);
    v.push(APEX_LIST_NODESYNC);
    assert(v@.map_values(|s: &str| s@) =~= seq![
        APEX_LIST@,
        APEX_LIST_EXTRA@,
        IPSET_EXCLUDE_APEX_EA@,
        APEX_LIST_NODESYNC@,
    ]);
    v
}

/// A tip shown in the Apex panel.
#[derive(Clone, Debug)]
pub struct ApexTip {
    pub title: String,
    pub body: String,
    pub issue_url: Option<String>,
}

/// The Apex panel's status.
#[derive(Clone, Debug)]
pub struct ApexStatus {
    pub zapret_installed: bool,
    pub v1_installed: bool,
    pub v2_installed: bool,
    pub list_installed: bool,
    pub bat_installed: bool,
    pub preset_v2_installed: bool,
    pub strategy_available: bool,
    pub game_filter: String,
    pub tips: Vec<ApexTip>,
}

/// The result of one EA / Apex probe.
#[derive(Clone, Debug)]
pub struct ApexProbeResult {
    pub target: String,
    pub success: bool,
    pub latency_ms: Option<u64>,
    pub error: Option<String>,
}

/// The contents of a tip.
pub open spec fn tip_view(t: ApexTip) -> (Seq<char>, Seq<char>, Option<Seq<char>>) {
    (
        t.title@,
        t.body@,
        match t.issue_url {
            Some(u) => Some(u@),
            None => None,
        },
    )
}

/// The tips: the Apex preset, the game filter on zapret 1, `code:leaf`,
/// and returning to the lobby.
pub open spec fn tips() -> Seq<(Seq<char>, Seq<char>, Option<Seq<char>>)> {
    seq![
        (
            "Пресет Apex Legends"@,
            "Для Apex используйте только пресет Apex Legends, не Default v5. Игровой UDP и Respawn (stryder) без DPI. После «Установить пресет» переподключите стратегию."@,
            Some("https://github.com/Flowseal/zapret-discord-youtube/issues/6503"@),
        ),
        (
            "Игровой фильтр (Zapret 1)"@,
            "Для Apex на Zapret 1 держите Game Filter выключенным — иначе лобби и возврат после матча часто ломаются (#6198)."@,
            Some("https://github.com/Flowseal/zapret-discord-youtube/issues/6198"@),
        ),
        (
            "code:leaf / матч"@,
            "Порты матчмейкинга и list-apex уже в пресете. При code:leaf обновите пресет Apex и переподключите стратегию."@,
            Some("https://github.com/Flowseal/zapret-discord-youtube/issues/9730"@),
        ),
        (
            "После матча"@,
            "Если не возвращает в лобби — «Установить пресет» и снова Apex Legends / ALT11 APEX."@,
            Some("https://github.com/Flowseal/zapret-discord-youtube/issues/9529"@),
        ),
    ]
}

fn tip(title: &str, body: &str, url: &str) -> (res: ApexTip)
    ensures
        tip_view(res) == (title@, body@, Some(url@)),
{
    ApexTip { title: text::owned(title), body: text::owned(body), issue_url: Some(text::owned(url)) }
}

/// The tips shown in the Apex panel.
pub fn apex_tips() -> (res: Vec<ApexTip>)
    ensures
        res@.map_values(|t: ApexTip| tip_view(t)) == tips(),
{
    let mut v: Vec<ApexTip> = Vec::new();
    v.push(
        tip(
            "Пресет Apex Legends",
            "Для Apex используйте только пресет Apex Legends, не Default v5. Игровой UDP и Respawn (stryder) без DPI. После «Установить пресет» переподключите стратегию.",
            "https://github.com/Flowseal/zapret-discord-youtube/issues/6503",
        ),
    );
    v.push(
        tip(
            "Игровой фильтр (Zapret 1)",
            "Для Apex на Zapret 1 держите Game Filter выключенным — иначе лобби и возврат после матча часто ломаются (#6198).",
            "https://github.com/Flowseal/zapret-discord-youtube/issues/6198",
        ),
    );
    v.push(
        tip(
            "code:leaf / матч",
            "Порты матчмейкинга и list-apex уже в пресете. При code:leaf обновите пресет Apex и переподключите стратегию.",
            "https://github.com/Flowseal/zapret-discord-youtube/issues/9730",
        ),
    );
    v.push(
        tip(
            "После матча",
            "Если не возвращает в лобби — «Установить пресет» и снова Apex Legends / ALT11 APEX.",
            "https://github.com/Flowseal/zapret-discord-youtube/issues/9529",
        ),
    );
    assert(v@.map_values(|t: ApexTip| tip_view(t)) =~= tips());
    v
}

/// The game-filter mode of zapret 1: `disabled` without the flag file, else
/// its trimmed content in lower case.
pub open spec fn game_filter_mode(flag: Option<Seq<char>>) -> Seq<char> {
    match flag {
        None => "disabled"@,
        Some(c) => text::lowercase(text::trim(c)),
    }
}

pub fn read_game_filter_mode(flag: Option<&str>) -> (res: String)
    ensures
        res@ == game_filter_mode(text::opt_str(flag)),
{
    match flag {
        None => text::owned("disabled"),
        Some(c) => {
            let cc = chars_of(c);
            let t = text::trim_chars(&cc);
            let l = text::to_lower(&t);
            string_of(&l)
        },
    }
}

/// Which Apex files are installed, as found on disk.
#[derive(Clone, Debug)]
pub struct ApexFiles {
    pub v1_installed: bool,
    pub v2_installed: bool,
    pub list_v1: bool,
    pub list_v2: bool,
    pub bat_installed: bool,
    pub preset_v2_installed: bool,
}

/// The Apex panel's status: for the selected engine, whether it is
/// installed, whether its Apex list is, and whether its Apex strategy can be
/// started (the engine and its Apex `.bat` or preset are both there).
pub fn get_apex_status(files: &ApexFiles, backend: ZapretBackendPref, game_filter_flag: Option<&str>) -> (res:
    ApexStatus)
    ensures
        res.v1_installed == files.v1_installed,
        res.v2_installed == files.v2_installed,
        res.bat_installed == files.bat_installed,
        res.preset_v2_installed == files.preset_v2_installed,
        backend == ZapretBackendPref::V2 ==> res.zapret_installed == files.v2_installed
            && res.list_installed == files.list_v2 && res.strategy_available == (
        files.preset_v2_installed && files.v2_installed),
        backend == ZapretBackendPref::V1 ==> res.zapret_installed == files.v1_installed
            && res.list_installed == files.list_v1 && res.strategy_available == (
        files.bat_installed && files.v1_installed),
        res.game_filter@ == game_filter_mode(text::opt_str(game_filter_flag)),
        res.tips@.map_values(|t: ApexTip| tip_view(t)) == tips(),
{
    let (zapret_installed, list_installed, strategy_available) = match backend {
        ZapretBackendPref::V2 => (
            files.v2_installed,
            files.list_v2,
            files.preset_v2_installed && files.v2_installed,
        ),
        ZapretBackendPref::V1 => (
            files.v1_installed,
            files.list_v1,
            files.bat_installed && files.v1_installed,
        ),
    };
    ApexStatus {
        zapret_installed,
        v1_installed: files.v1_installed,
        v2_installed: files.v2_installed,
        list_installed,
        bat_installed: files.bat_installed,
        preset_v2_installed: files.preset_v2_installed,
        strategy_available,
        game_filter: read_game_filter_mode(game_filter_flag),
        tips: apex_tips(),
    }
}

/// Setting up the Apex preset: with zapret 1 selected the game filter is
/// turned off (its flag file removed when it exists); the message names the
/// selected engine's Apex strategy. The `bool` says whether to remove the
/// flag file.
pub fn setup_apex_preset(backend: ZapretBackendPref, game_filter_flag_exists: bool) -> (res: (
    bool,
    String,
))
    ensures
        res.0 == (backend == ZapretBackendPref::V1 && game_filter_flag_exists),
        backend == ZapretBackendPref::V2 ==> res.1@
            == "Пресет Apex Legends установлен в zapret2 (list-apex, ipset-exclude EA). Подключите из панели Apex или списка стратегий."@,
        backend == ZapretBackendPref::V1 ==> res.1@
            == "Пресет Apex: ALT11 APEX (list-apex, ipset-exclude EA). Игровой фильтр выключен. Подключите стратегию из панели или списка."@,
{
    match backend {
        ZapretBackendPref::V2 => (
            false,
            text::owned(
                "Пресет Apex Legends установлен в zapret2 (list-apex, ipset-exclude EA). Подключите из панели Apex или списка стратегий.",
            ),
        ),
        ZapretBackendPref::V1 => (
            game_filter_flag_exists,
            text::owned(
                "Пресет Apex: ALT11 APEX (list-apex, ipset-exclude EA). Игровой фильтр выключен. Подключите стратегию из панели или списка.",
            ),
        ),
    }
}

/// The message when a file of the Apex preset is neither beside fastpatch
/// nor built in; `hint` names the executable when known.
pub fn bundled_missing_message(relative: &str, hint: &str) -> (res: String)
    ensures
        res@ == "Встроенный файл не найден: "@ + relative@ + hint@ + ". Переустановите fastpatch."@,
{
    let a = text::cat3("Встроенный файл не найден: ", relative, hint);
    text::cat2(a.as_str(), ". Переустановите fastpatch.")
}

} // verus!
