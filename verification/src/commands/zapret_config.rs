//! zapret settings kept as files (game filter, IPSet list, update check)
//! and the zapret block of the system `hosts` file. The files are read and
//! written by the caller; this module decides what they mean and what to
//! write.

use crate::text;
use crate::text::{cat2, cat3, chars_of, concat, copy, decimal, is, opt_str, seqs, string_of};
use vstd::prelude::*;

verus! {

pub const HOSTS_BEGIN: &'static str = "# BEGIN ZAPRET (fastpatch)";

pub const HOSTS_END: &'static str = "# END ZAPRET (fastpatch)";

pub const IPSET_URL: &'static str =
    "https://raw.githubusercontent.com/Flowseal/zapret-discord-youtube/refs/heads/main/.service/ipset-service.txt";

pub const HOSTS_URL: &'static str =
    "https://raw.githubusercontent.com/Flowseal/zapret-discord-youtube/refs/heads/main/.service/hosts";

/// The zapret settings shown in the UI.
#[derive(Clone, Debug)]
pub struct ZapretSettings {
    pub game_filter: String,
    pub game_filter_label: String,
    pub ipset_mode: String,
    pub ipset_label: String,
    pub auto_update_check: bool,
}

// ---------------------------------------------------------------------------
// Game filter
// ---------------------------------------------------------------------------

/// The game-filter mode and its label, from the content of
/// `utils/game_filter.enabled` (`None` when the file is absent).
pub open spec fn game_filter_of(flag: Option<Seq<char>>) -> (Seq<char>, Seq<char>) {
    match flag {
        None => ("disabled"@, "Выключен"@),
        Some(c) => {
            let mode = text::lowercase(text::trim(c));
            (
                mode,
                if mode == "all"@ {
                    "Включён (TCP и UDP)"@
                } else if mode == "tcp"@ {
                    "Включён (только TCP)"@
                } else if mode == "udp"@ {
                    "Включён (только UDP)"@
                } else {
                    "Включён"@
                },
            )
        },
    }
}

/// Reads the game-filter mode and its label. A flag file that
/// `set_game_filter` wrote (`all`, `tcp` or `udp`) reads back as that mode.
pub fn read_game_filter(flag: Option<&str>) -> (res: (String, String))
    ensures
        (res.0@, res.1@) == game_filter_of(opt_str(flag)),
        flag matches Some(c) ==> ((c@ == "all"@ || c@ == "tcp"@ || c@ == "udp"@) ==> res.0@ == c@),
{
    match flag {
        None => (text::owned("disabled"), text::owned("Выключен")),
        Some(c) => {
            let cc = chars_of(c);
            let t = text::trim_chars(&cc);
            proof {
                reveal_strlit("all");
                reveal_strlit("tcp");
                reveal_strlit("udp");
                if c@ == "all"@ || c@ == "tcp"@ || c@ == "udp"@ {
                    text::lemma_trim_plain(c@);
                    assert(text::is_ascii(t@));
                    assert(text::ascii_lower(t@) =~= t@);
                }
            }
            let mode = text::to_lower(&t);
            let label = if is(&mode, "all") {
                text::owned("Включён (TCP и UDP)")
            } else if is(&mode, "tcp") {
                text::owned("Включён (только TCP)")
            } else if is(&mode, "udp") {
                text::owned("Включён (только UDP)")
            } else {
                text::owned("Включён")
            };
            (string_of(&mode), label)
        },
    }
}

/// What to do with `utils/game_filter.enabled` (or another flag file).
#[derive(Debug)]
pub enum FlagAction {
    /// Remove the file if it exists.
    Remove,
    /// Write this content to it.
    Write(String),
    /// Leave it as it is.
    Keep,
}

/// What setting the game filter to `mode` does: `disabled`, `off` or `0`
/// remove the flag file; `all`, `tcp` or `udp` write the mode into it; the
/// message follows; any other mode is refused. The mode is taken in lower
/// case.
pub open spec fn game_filter_change(mode: Seq<char>) -> Result<(Option<Seq<char>>, Seq<char>), Seq<char>> {
    let m = text::lowercase(mode);
    if m == "disabled"@ || m == "off"@ || m == "0"@ {
        Ok((None, "Игровой фильтр выключен. Перезапустите стратегию."@))
    } else if m == "all"@ || m == "tcp"@ || m == "udp"@ {
        Ok((Some(m), "Игровой фильтр обновлён. Перезапустите активную стратегию."@))
    } else {
        Err("Режим: disabled, all, tcp или udp"@)
    }
}

/// The flag action and message for setting the game filter, or the error.
pub fn set_game_filter(mode: &str) -> (res: Result<(FlagAction, String), String>)
    ensures
        match res {
            Ok((FlagAction::Remove, msg)) => game_filter_change(mode@) == Ok::<
                (Option<Seq<char>>, Seq<char>),
                Seq<char>,
            >((None, msg@)),
            Ok((FlagAction::Write(c), msg)) => game_filter_change(mode@) == Ok::<
                (Option<Seq<char>>, Seq<char>),
                Seq<char>,
            >((Some(c@), msg@)),
            Ok((FlagAction::Keep, _)) => false,
            Err(e) => game_filter_change(mode@) == Err::<(Option<Seq<char>>, Seq<char>), Seq<char>>(
                e@,
            ),
        },
{
    let mc = chars_of(mode);
    let m = text::to_lower(&mc);
    if is(&m, "disabled") || is(&m, "off") || is(&m, "0") {
        Ok((FlagAction::Remove, text::owned("Игровой фильтр выключен. Перезапустите стратегию.")))
    } else if is(&m, "all") || is(&m, "tcp") || is(&m, "udp") {
        Ok(
            (
                FlagAction::Write(string_of(&m)),
                text::owned("Игровой фильтр обновлён. Перезапустите активную стратегию."),
            ),
        )
    } else {
        Err(text::owned("Режим: disabled, all, tcp или udp"))
    }
}

/// Turning the automatic update check on writes `ENABLED` into its flag
/// file; turning it off removes the file when it exists.
pub fn set_auto_update_check(enabled: bool, flag_exists: bool) -> (res: (FlagAction, String))
    ensures
        enabled ==> (res.0 matches FlagAction::Write(c) && c@ == "ENABLED\n"@) && res.1@
            == "Автопроверка обновлений включена"@,
        !enabled && flag_exists ==> res.0 is Remove && res.1@
            == "Автопроверка обновлений выключена"@,
        !enabled && !flag_exists ==> res.0 is Keep && res.1@ == "Автопроверка уже выключена"@,
{
    if enabled {
        (FlagAction::Write(text::owned("ENABLED\n")), text::owned("Автопроверка обновлений включена"))
    } else if flag_exists {
        (FlagAction::Remove, text::owned("Автопроверка обновлений выключена"))
    } else {
        (FlagAction::Keep, text::owned("Автопроверка уже выключена"))
    }
}

// ---------------------------------------------------------------------------
// IPSet
// ---------------------------------------------------------------------------

/// The lines of `s` that are not blank.
pub open spec fn non_blank_lines(ls: Seq<Seq<char>>) -> Seq<Seq<char>>
    decreases ls.len(),
{
    if ls.len() == 0 {
        Seq::empty()
    } else {
        let r = non_blank_lines(ls.drop_last());
        if text::trim(ls.last()).len() > 0 {
            r.push(ls.last())
        } else {
            r
        }
    }
}

/// The address that disables the IPSet filter.
pub open spec fn ipset_none_entry() -> Seq<char> {
    "203.0.113.113/32"@
}

/// The IPSet mode and its label, from the content of `lists/ipset-all.txt`
/// (`None` when the file is absent): empty is `any`, the single reserved
/// address is `none`, anything else is `loaded` with its number of entries.
pub open spec fn ipset_mode_of(list: Option<Seq<char>>) -> (Seq<char>, Seq<char>) {
    match list {
        None => ("any"@, "Любой (файл отсутствует)"@),
        Some(c) => {
            let ls = non_blank_lines(text::lines(c));
            if ls.len() == 0 {
                ("any"@, "Любой"@)
            } else if ls.len() == 1 && text::trim(ls[0]) == ipset_none_entry() {
                ("none"@, "Отключён"@)
            } else {
                ("loaded"@, "Загружен ("@ + decimal(ls.len()) + " записей)"@)
            }
        },
    }
}

pub fn read_ipset_mode(list: Option<&str>) -> (res: (String, String))
    ensures
        (res.0@, res.1@) == ipset_mode_of(opt_str(list)),
{
    match list {
        None => (text::owned("any"), text::owned("Любой (файл отсутствует)")),
        Some(c) => {
            let cc = chars_of(c);
            let all = text::lines_of(&cc);
            let mut ls: Vec<Vec<char>> = Vec::new();
            let mut i: usize = 0;
            assert(seqs(all@).take(0) =~= Seq::<Seq<char>>::empty());
            while i < all.len()
                invariant
                    i <= all.len(),
                    seqs(all@) == text::lines(c@),
                    seqs(ls@) == non_blank_lines(seqs(all@).take(i as int)),
                    ls.len() <= i,
                decreases all.len() - i,
            {
                assert(seqs(all@).take(i + 1).drop_last() =~= seqs(all@).take(i as int));
                assert(seqs(all@).take(i + 1).last() == all@[i as int]@);
                let t = text::trim_chars(&all[i]);
                if t.len() > 0 {
                    let l = copy(&all[i]);
                    proof {
                        text::lemma_seqs_push(ls@, l);
                    }
                    ls.push(l);
                }
                i += 1;
            }
            assert(seqs(all@).take(all@.len() as int) =~= seqs(all@));
            if ls.len() == 0 {
                (text::owned("any"), text::owned("Любой"))
            } else {
                let t0 = text::trim_chars(&ls[0]);
                assert(seqs(ls@)[0] == ls@[0]@);
                if ls.len() == 1 && is(&t0, "203.0.113.113/32") {
                    (text::owned("none"), text::owned("Отключён"))
                } else {
                    let d = text::decimal_string(ls.len() as u64);
                    (text::owned("loaded"), cat3("Загружен (", d.as_str(), " записей)"))
                }
            }
        },
    }
}

/// The file operations that set the IPSet mode, in this order.
#[derive(Clone, Debug)]
pub struct IpsetPlan {
    /// Rename `ipset-all.txt` to `ipset-all.txt.backup`.
    pub move_list_to_backup: bool,
    /// Remove `ipset-all.txt` if it exists.
    pub remove_list: bool,
    /// Rename `ipset-all.txt.backup` to `ipset-all.txt`.
    pub restore_backup: bool,
    /// Write this content to `ipset-all.txt`.
    pub write_list: Option<String>,
    pub message: String,
}

/// Setting the IPSet mode: `none` keeps the current list as the backup
/// (unless there is one) and writes the reserved address; `any` writes an
/// empty list; `loaded` puts the backup back, and fails without one; the
/// mode is taken in lower case and any other is refused.
pub open spec fn ipset_change(
    mode: Seq<char>,
    list_exists: bool,
    backup_exists: bool,
    backup_is_file: bool,
) -> Result<(bool, bool, bool, Option<Seq<char>>, Seq<char>), Seq<char>> {
    let m = text::lowercase(mode);
    if m == "none"@ {
        Ok(
            (
                list_exists && !backup_exists,
                false,
                false,
                Some(ipset_none_entry() + "\n"@),
                "IPSet фильтр отключён"@,
            ),
        )
    } else if m == "any"@ {
        Ok((false, false, false, Some(Seq::empty()), "IPSet: режим «любой»"@))
    } else if m == "loaded"@ {
        if backup_is_file {
            Ok((false, list_exists, true, None, "IPSet восстановлен из резервной копии"@))
        } else {
            Err("Нет резервной копии. Сначала обновите список IPSet."@)
        }
    } else {
        Err("Режим: none, any или loaded"@)
    }
}

/// The file operations for setting the IPSet mode, or the error.
pub fn set_ipset_mode(mode: &str, list_exists: bool, backup_exists: bool, backup_is_file: bool) -> (res:
    Result<IpsetPlan, String>)
    ensures
        match res {
            Ok(p) => ipset_change(mode@, list_exists, backup_exists, backup_is_file) == Ok::<
                (bool, bool, bool, Option<Seq<char>>, Seq<char>),
                Seq<char>,
            >(
                (
                    p.move_list_to_backup,
                    p.remove_list,
                    p.restore_backup,
                    match p.write_list {
                        Some(w) => Some(w@),
                        None => None,
                    },
                    p.message@,
                ),
            ),
            Err(e) => ipset_change(mode@, list_exists, backup_exists, backup_is_file) == Err::<
                (bool, bool, bool, Option<Seq<char>>, Seq<char>),
                Seq<char>,
            >(e@),
        },
{
    let mc = chars_of(mode);
    let m = text::to_lower(&mc);
    if is(&m, "none") {
        Ok(
            IpsetPlan {
                move_list_to_backup: list_exists && !backup_exists,
                remove_list: false,
                restore_backup: false,
                write_list: Some(cat2("203.0.113.113/32", "\n")),
                message: text::owned("IPSet фильтр отключён"),
            },
        )
    } else if is(&m, "any") {
        Ok(
            IpsetPlan {
                move_list_to_backup: false,
                remove_list: false,
                restore_backup: false,
                write_list: Some(String::new()),
                message: text::owned("IPSet: режим «любой»"),
            },
        )
    } else if is(&m, "loaded") {
        if backup_is_file {
            Ok(
                IpsetPlan {
                    move_list_to_backup: false,
                    remove_list: list_exists,
                    restore_backup: true,
                    write_list: None,
                    message: text::owned("IPSet восстановлен из резервной копии"),
                },
            )
        } else {
            Err(text::owned("Нет резервной копии. Сначала обновите список IPSet."))
        }
    } else {
        Err(text::owned("Режим: none, any или loaded"))
    }
}

// ---------------------------------------------------------------------------
// The zapret block of the system hosts file
// ---------------------------------------------------------------------------

/// The entries of a hosts text: its lines trimmed, without blank lines and
/// comments.
pub open spec fn entries_of(ls: Seq<Seq<char>>) -> Seq<Seq<char>>
    decreases ls.len(),
{
    if ls.len() == 0 {
        Seq::empty()
    } else {
        let r = entries_of(ls.drop_last());
        let t = text::trim(ls.last());
        if t.len() > 0 && !text::starts_with(t, "#"@) {
            r.push(t)
        } else {
            r
        }
    }
}

/// The entries of a hosts text.
pub open spec fn host_entries(s: Seq<char>) -> Seq<Seq<char>> {
    entries_of(text::lines(s))
}

fn host_entries_exec(s: &str) -> (res: Vec<Vec<char>>)
    ensures
        seqs(res@) == host_entries(s@),
{
    let c = chars_of(s);
    let all = text::lines_of(&c);
    let mut out: Vec<Vec<char>> = Vec::new();
    let mut i: usize = 0;
    assert(seqs(all@).take(0) =~= Seq::<Seq<char>>::empty());
    while i < all.len()
        invariant
            i <= all.len(),
            seqs(all@) == text::lines(s@),
            seqs(out@) == entries_of(seqs(all@).take(i as int)),
        decreases all.len() - i,
    {
        assert(seqs(all@).take(i + 1).drop_last() =~= seqs(all@).take(i as int));
        assert(seqs(all@).take(i + 1).last() == all@[i as int]@);
        let t = text::trim_chars(&all[i]);
        if t.len() > 0 && !text::begins(&t, "#") {
            proof {
                text::lemma_seqs_push(out@, t);
            }
            out.push(t);
        }
        i += 1;
    }
    assert(seqs(all@).take(all@.len() as int) =~= seqs(all@));
    out
}

/// The number of entries in a hosts text.
pub fn count_host_entries(s: &str) -> (res: usize)
    ensures
        res == host_entries(s@).len(),
{
    let e = host_entries_exec(s);
    e.len()
}

/// The first and last entries of a hosts text, which mark that it is
/// already merged.
pub open spec fn marker_lines(remote: Seq<char>) -> Option<(Seq<char>, Seq<char>)> {
    let e = host_entries(remote);
    if e.len() == 0 {
        None
    } else {
        Some((e[0], e[e.len() - 1]))
    }
}

pub fn zapret_hosts_marker_lines(remote: &str) -> (res: Option<(String, String)>)
    ensures
        match res {
            Some((a, b)) => marker_lines(remote@) == Some((a@, b@)),
            None => marker_lines(remote@) is None,
        },
{
    let e = host_entries_exec(remote);
    if e.len() == 0 {
        None
    } else {
        assert(seqs(e@)[0] == e@[0]@);
        assert(seqs(e@)[e@.len() - 1] == e@[e.len() - 1]@);
        Some((string_of(&e[0]), string_of(&e[e.len() - 1])))
    }
}

/// The text of `s` before the first occurrence of `pat`
/// (`s.split(pat).next()`).
pub open spec fn piece_before(s: Seq<char>, pat: Seq<char>) -> Seq<char> {
    match text::find_from(s, pat, 0) {
        Some(j) => s.subrange(0, j),
        None => s,
    }
}

/// The text of `s` between the first and the second occurrence of `pat`,
/// or to the end (`s.split(pat).nth(1)`), when `pat` occurs.
pub open spec fn piece_after(s: Seq<char>, pat: Seq<char>) -> Seq<char> {
    match text::find_from(s, pat, 0) {
        Some(j) => match text::find_from(s, pat, j + pat.len()) {
            Some(k) => s.subrange(j + pat.len(), k),
            None => s.subrange(j + pat.len(), s.len() as int),
        },
        None => Seq::empty(),
    }
}

/// `s` with a newline added unless it already ends with one.
pub open spec fn with_newline(s: Seq<char>) -> Seq<char> {
    if text::ends_with(s, "\n"@) {
        s
    } else {
        s + "\n"@
    }
}

/// The zapret block: the markers around the repository's hosts text.
pub open spec fn hosts_block(remote: Seq<char>) -> Seq<char> {
    HOSTS_BEGIN@ + "\n"@ + with_newline(remote) + HOSTS_END@
}

/// The outcome of merging the repository's hosts text into the system one:
/// an existing zapret block is replaced (keeping the text before and after
/// it); a hosts file that already has the first and last entries is left
/// as it is; otherwise the block is appended after a blank line.
pub open spec fn merged_hosts(current: Seq<char>, remote_raw: Seq<char>) -> Result<
    (Seq<char>, Seq<char>),
    Seq<char>,
> {
    let remote = text::trim(remote_raw);
    if remote.len() == 0 {
        Err("Файл hosts с репозитория пуст"@)
    } else if text::contains(current, HOSTS_BEGIN@) && text::contains(current, HOSTS_END@) {
        let before = text::trim_end(piece_before(current, HOSTS_BEGIN@));
        let after = text::trim_start(piece_after(current, HOSTS_END@));
        let head = if before.len() > 0 {
            with_newline(before) + "\n"@
        } else {
            Seq::empty()
        };
        let tail = if after.len() > 0 {
            "\n"@ + with_newline(after)
        } else {
            Seq::empty()
        };
        Ok((head + hosts_block(remote) + tail, "обновлён"@))
    } else if (marker_lines(remote) matches Some((first, last)) && text::contains(current, first)
        && text::contains(current, last)) {
        Ok((current, "уже актуален"@))
    } else {
        let lead = if current.len() > 0 {
            with_newline(current)
        } else {
            current
        };
        Ok((lead + "\n"@ + hosts_block(remote) + "\n"@, "добавлен"@))
    }
}

fn with_newline_chars(s: &Vec<char>) -> (res: Vec<char>)
    ensures
        res@ == with_newline(s@),
{
    if text::finishes(s, "\n") {
        copy(s)
    } else {
        let nl = chars_of("\n");
        concat(s, &nl)
    }
}

fn hosts_block_chars(remote: &Vec<char>) -> (res: Vec<char>)
    ensures
        res@ == hosts_block(remote@),
{
    let b = chars_of(HOSTS_BEGIN);
    let nl = chars_of("\n");
    let e = chars_of(HOSTS_END);
    let r = with_newline_chars(remote);
    let x = concat(&b, &nl);
    let y = concat(&x, &r);
    concat(&y, &e)
}

/// Merges the repository's hosts text into the system hosts text; gives the
/// new text and what was done (`обновлён`, `уже актуален`, `добавлен`).
pub fn merge_zapret_hosts_into_system(current: &str, remote: &str) -> (res: Result<
    (String, &'static str),
    String,
>)
    ensures
        match res {
            Ok((t, a)) => merged_hosts(current@, remote@) == Ok::<
                (Seq<char>, Seq<char>),
                Seq<char>,
            >((t@, a@)),
            Err(e) => merged_hosts(current@, remote@) == Err::<(Seq<char>, Seq<char>), Seq<char>>(
                e@,
            ),
        },
{
    let rc = chars_of(remote);
    let r = text::trim_chars(&rc);
    if r.len() == 0 {
        return Err(text::owned("Файл hosts с репозитория пуст"));
    }
    let cur = chars_of(current);
    let begin = chars_of(HOSTS_BEGIN);
    let end = chars_of(HOSTS_END);
    let nl = chars_of("\n");
    if text::contains_chars(&cur, &begin) && text::contains_chars(&cur, &end) {
        let before_raw = match text::find_chars(&cur, &begin, 0) {
            Some(j) => {
                proof {
                    text::lemma_find_from(cur@, begin@, 0);
                }
                text::slice(&cur, 0, j)
            },
            None => copy(&cur),
        };
        let after_raw = match text::find_chars(&cur, &end, 0) {
            Some(j) => {
                proof {
                    text::lemma_find_from(cur@, end@, 0);
                    assert(text::matches_at(cur@, j as int, end@));
                    assert(j + end@.len() <= cur@.len());
                }
                let from = j + end.len();
                match text::find_chars(&cur, &end, from) {
                    Some(k) => {
                        proof {
                            text::lemma_find_from(cur@, end@, from as int);
                        }
                        text::slice(&cur, from, k)
                    },
                    None => text::slice(&cur, from, cur.len()),
                }
            },
            None => Vec::new(),
        };
        let before = text::trim_end_chars(&before_raw);
        let after = text::trim_start_chars(&after_raw);
        let head = if before.len() > 0 {
            let b = with_newline_chars(&before);
            concat(&b, &nl)
        } else {
            Vec::new()
        };
        let tail = if after.len() > 0 {
            let a = with_newline_chars(&after);
            concat(&nl, &a)
        } else {
            Vec::new()
        };
        let block = hosts_block_chars(&r);
        let x = concat(&head, &block);
        let out = concat(&x, &tail);
        assert(head@ + block@ + tail@ == out@);
        return Ok((string_of(&out), "обновлён"));
    }
    let rs = string_of(&r);
    match zapret_hosts_marker_lines(rs.as_str()) {
        Some((first, last)) => {
            let f = chars_of(first.as_str());
            let l = chars_of(last.as_str());
            if text::contains_chars(&cur, &f) && text::contains_chars(&cur, &l) {
                return Ok((text::owned(current), "уже актуален"));
            }
        },
        None => {},
    }
    let lead = if cur.len() > 0 {
        with_newline_chars(&cur)
    } else {
        copy(&cur)
    };
    let block = hosts_block_chars(&r);
    let x = concat(&lead, &nl);
    let y = concat(&x, &block);
    let out = concat(&y, &nl);
    Ok((string_of(&out), "добавлен"))
}

/// The message when the system hosts already holds the zapret entries.
pub fn hosts_up_to_date_message(entries: usize) -> (res: String)
    ensures
        res@ == "Системный hosts уже содержит записи zapret ("@ + decimal(entries as nat)
            + " строк в репозитории)."@,
{
    let d = text::decimal_string(entries as u64);
    cat3("Системный hosts уже содержит записи zapret (", d.as_str(), " строк в репозитории).")
}

/// The message after the system hosts was written.
pub fn hosts_updated_message(action: &str, entries: usize, backup_name: &str) -> (res: String)
    ensures
        res@ == "Hosts zapret "@ + action@ + ": "@ + decimal(entries as nat) + " записей. Резервная копия: "@
            + backup_name@ + ". Откройте раздел Hosts для просмотра."@,
{
    let d = text::decimal_string(entries as u64);
    let a = cat3("Hosts zapret ", action, ": ");
    let b = cat3(a.as_str(), d.as_str(), " записей. Резервная копия: ");
    cat3(b.as_str(), backup_name, ". Откройте раздел Hosts для просмотра.")
}

/// The zapret settings from the flag files' contents.
pub fn get_zapret_settings(game_filter_flag: Option<&str>, ipset_list: Option<&str>, auto_update_flag: bool) -> (res:
    ZapretSettings)
    ensures
        (res.game_filter@, res.game_filter_label@) == game_filter_of(opt_str(game_filter_flag)),
        (res.ipset_mode@, res.ipset_label@) == ipset_mode_of(opt_str(ipset_list)),
        res.auto_update_check == auto_update_flag,
{
    let (game_filter, game_filter_label) = read_game_filter(game_filter_flag);
    let (ipset_mode, ipset_label) = read_ipset_mode(ipset_list);
    ZapretSettings {
        game_filter,
        game_filter_label,
        ipset_mode,
        ipset_label,
        auto_update_check: auto_update_flag,
    }
}

/// The markers hold no line break, and the end marker does not occur in
/// the begin marker.
proof fn lemma_markers()
    ensures
        text::no_newline(HOSTS_BEGIN@),
        text::no_newline(HOSTS_END@),
        forall|k: int| !text::matches_at(HOSTS_BEGIN@, k, HOSTS_END@),
        HOSTS_BEGIN@.len() > 0,
        HOSTS_END@.len() > 0,
{
    reveal_strlit("# BEGIN ZAPRET (fastpatch)");
    reveal_strlit("# END ZAPRET (fastpatch)");
    let b = HOSTS_BEGIN@;
    let e = HOSTS_END@;
    assert(b.len() == 26);
    assert(e.len() == 24);
    assert forall|k: int| !text::matches_at(b, k, e) by {
        if text::matches_at(b, k, e) {
            assert(b.subrange(k, k + 24)[0] == e[0]);
            assert(b.subrange(k, k + 24)[2] == e[2]);
            assert(0 <= k <= 2);
            if k == 0 {
                assert(b[2] != e[2]);
            } else if k == 1 {
                assert(b[1] != e[0]);
            } else {
                assert(b[2] != e[0]);
            }
        }
    }
}

/// `b` occurs in `a + b + c`.
proof fn lemma_contains_middle(a: Seq<char>, b: Seq<char>, c: Seq<char>)
    ensures
        text::contains(a + b + c, b),
{
    let t = a + b + c;
    assert(t.subrange(a.len() as int, (a.len() + b.len()) as int) =~= b);
    assert(text::matches_at(t, a.len() as int, b));
    text::lemma_contains(t, b);
}

/// A merge writes the zapret block: after it the hosts text holds the
/// block with the repository's text, unless the hosts file already had the
/// repository's first and last entries, in which case it is left as it is.
/// Only an empty repository text is refused.
pub proof fn lemma_merge_writes_block(current: Seq<char>, remote: Seq<char>)
    ensures
        merged_hosts(current, remote) is Err <==> text::trim(remote).len() == 0,
        merged_hosts(current, remote) matches Ok((t, a)) ==> ((a == "уже актуален"@ && t == current
            && (marker_lines(text::trim(remote)) matches Some((f, l)) && text::contains(current, f)
            && text::contains(current, l))) || ((a == "обновлён"@ || a == "добавлен"@)
            && text::contains(t, hosts_block(text::trim(remote))))),
{
    let r = text::trim(remote);
    if r.len() > 0 {
        if text::contains(current, HOSTS_BEGIN@) && text::contains(current, HOSTS_END@) {
            let before = text::trim_end(piece_before(current, HOSTS_BEGIN@));
            let after = text::trim_start(piece_after(current, HOSTS_END@));
            let head = if before.len() > 0 {
                with_newline(before) + "\n"@
            } else {
                Seq::empty()
            };
            let tail = if after.len() > 0 {
                "\n"@ + with_newline(after)
            } else {
                Seq::empty()
            };
            lemma_contains_middle(head, hosts_block(r), tail);
        } else if (marker_lines(r) matches Some((first, last)) && text::contains(current, first)
            && text::contains(current, last)) {
        } else {
            let lead = if current.len() > 0 {
                with_newline(current)
            } else {
                current
            };
            lemma_contains_middle(lead + "\n"@, hosts_block(r), "\n"@);
            assert(lead + "\n"@ + hosts_block(r) + "\n"@ == (lead + "\n"@) + hosts_block(r) + "\n"@);
        }
    }
}

/// What a merge keeps before the zapret block.
pub open spec fn head_part(before: Seq<char>) -> Seq<char> {
    if before.len() > 0 {
        with_newline(before) + "\n"@
    } else {
        Seq::empty()
    }
}

/// What a merge keeps after the zapret block.
pub open spec fn tail_part(after: Seq<char>) -> Seq<char> {
    if after.len() > 0 {
        "\n"@ + with_newline(after)
    } else {
        Seq::empty()
    }
}

/// A text that does not end in whitespace gets a line break added.
proof fn lemma_with_newline_plain(s: Seq<char>)
    requires
        s.len() > 0 ==> !text::is_ws(s.last()),
    ensures
        with_newline(s) == s + "\n"@,
{
    reveal_strlit("\n");
    if text::ends_with(s, "\n"@) {
        assert(s.subrange(s.len() - 1, s.len() as int)[0] == s.last());
    }
}

/// A text with a line break added ends with one.
proof fn lemma_with_newline_twice(s: Seq<char>)
    ensures
        text::ends_with(with_newline(s), "\n"@),
        with_newline(with_newline(s)) == with_newline(s),
{
    reveal_strlit("\n");
    let w = with_newline(s);
    if !text::ends_with(s, "\n"@) {
        assert(w.subrange(w.len() - 1, w.len() as int) =~= "\n"@);
    }
}

/// A text without line breaks occurs in `head_part(before) + rest` only
/// within `before` or after the whole head.
proof fn lemma_head_matches(before: Seq<char>, rest: Seq<char>, p: Seq<char>, k: int)
    requires
        before.len() > 0 ==> !text::is_ws(before.last()),
        text::no_newline(p),
        p.len() > 0,
        text::matches_at(head_part(before) + rest, k, p),
    ensures
        (k + p.len() <= before.len() && text::matches_at(before, k, p)) || (k >= head_part(
            before,
        ).len() && text::matches_at(rest, k - head_part(before).len(), p)),
{
    reveal_strlit("\n");
    let nl = "\n"@;
    assert(nl =~= seq!['\n']);
    if before.len() > 0 {
        lemma_with_newline_plain(before);
        let y = seq!['\n'] + rest;
        assert(head_part(before) + rest =~= before + seq!['\n'] + y);
        text::lemma_match_across_newline(before, y, k, p);
        if k >= before.len() + 1 {
            assert(y =~= Seq::<char>::empty() + seq!['\n'] + rest);
            text::lemma_match_across_newline(Seq::<char>::empty(), rest, k - before.len() - 1, p);
        }
    } else {
        assert(head_part(before) + rest =~= rest);
    }
}

/// The hosts text has a zapret block: both markers occur, the first begin
/// marker before the first end marker.
pub open spec fn has_block(current: Seq<char>) -> bool {
    match (text::find_from(current, HOSTS_BEGIN@, 0), text::find_from(current, HOSTS_END@, 0)) {
        (Some(b), Some(e)) => b < e,
        _ => false,
    }
}

/// Merging again what a merge wrote changes nothing: when the hosts text
/// has a zapret block and the repository's text is not empty and holds no
/// end marker, the merge replaces the block, and merging the result with
/// the same repository text gives that result back, again as a
/// replacement.
#[verifier::rlimit(60)]
pub proof fn lemma_merge_idempotent(current: Seq<char>, remote: Seq<char>)
    requires
        text::trim(remote).len() > 0,
        !text::contains(remote, HOSTS_END@),
        has_block(current),
    ensures
        (merged_hosts(current, remote) matches Ok((merged, action)) && action == "обновлён"@
            && merged_hosts(merged, remote) == Ok::<(Seq<char>, Seq<char>), Seq<char>>(
            (merged, "обновлён"@),
        ) && text::contains(merged, hosts_block(text::trim(remote)))),
{
    reveal_strlit("\n");
    lemma_markers();
    let bm = HOSTS_BEGIN@;
    let em = HOSTS_END@;
    let nl = "\n"@;
    assert(nl =~= seq!['\n']);
    let r = text::trim(remote);
    let b = text::find_from(current, bm, 0)->0;
    let e = text::find_from(current, em, 0)->0;
    text::lemma_find_from(current, bm, 0);
    text::lemma_find_from(current, em, 0);
    text::lemma_find_before(current, bm, 0);
    text::lemma_find_before(current, em, 0);
    // The pieces the first merge keeps.
    let cb = current.subrange(0, b);
    let before = text::trim_end(cb);
    text::lemma_trim_end_prefix(cb);
    assert forall|k: int| !text::matches_at(before, k, em) by {
        if text::matches_at(before, k, em) {
            assert(before.subrange(k, k + em.len()) =~= current.subrange(k, k + em.len()));
            assert(text::matches_at(current, k, em));
        }
    }
    assert forall|k: int| !text::matches_at(before, k, bm) by {
        if text::matches_at(before, k, bm) {
            assert(before.subrange(k, k + bm.len()) =~= current.subrange(k, k + bm.len()));
            assert(text::matches_at(current, k, bm));
        }
    }
    let pa = piece_after(current, em);
    let end = match text::find_from(current, em, e + em.len()) {
        Some(k2) => k2,
        None => current.len() as int,
    };
    text::lemma_find_from(current, em, e + em.len());
    text::lemma_find_before(current, em, e + em.len());
    assert(pa == current.subrange(e + em.len(), end));
    let after = text::trim_start(pa);
    text::lemma_trim_start_suffix(pa);
    let d = pa.len() - after.len();
    assert forall|k: int| !text::matches_at(after, k, em) by {
        if text::matches_at(after, k, em) {
            let m = e + em.len() + d + k;
            assert(after.subrange(k, k + em.len()) =~= current.subrange(m, m + em.len()));
            assert(text::matches_at(current, m, em));
        }
    }
    // The repository's text.
    let ts = text::trim_start(remote);
    text::lemma_trim_start_suffix(remote);
    text::lemma_trim_end_prefix(ts);
    let off = remote.len() - ts.len();
    assert forall|k: int| !text::matches_at(r, k, em) by {
        if text::matches_at(r, k, em) {
            assert(r.subrange(k, k + em.len()) =~= remote.subrange(off + k, off + k + em.len()));
            assert(text::matches_at(remote, off + k, em));
            text::lemma_contains(remote, em);
        }
    }
    lemma_with_newline_plain(r);
    let head = head_part(before);
    let tail = tail_part(after);
    let block = hosts_block(r);
    let merged = head + block + tail;
    assert(merged_hosts(current, remote) == Ok::<(Seq<char>, Seq<char>), Seq<char>>(
        (merged, "обновлён"@),
    ));
    // The second merge finds the block's begin marker first ...
    assert(block == bm + seq!['\n'] + r + seq!['\n'] + em);
    assert forall|k: int| 0 <= k < head.len() implies !text::matches_at(merged, k, bm) by {
        assert(merged =~= head + (block + tail));
        if text::matches_at(merged, k, bm) {
            lemma_head_matches(before, block + tail, bm, k);
        }
    }
    assert(merged.subrange(head.len() as int, (head.len() + bm.len()) as int) =~= bm);
    text::lemma_find_first(merged, bm, 0, head.len() as int);
    assert(piece_before(merged, bm) =~= head);
    if before.len() > 0 {
        lemma_with_newline_plain(before);
        assert(head == before + (nl + nl));
        text::lemma_trim_end_ws_tail(before, nl + nl);
    }
    assert(text::trim_end(head) == before);
    // ... then the block's end marker ...
    let q: int = (head.len() + bm.len() + 1 + r.len() + 1) as int;
    let pre = head + bm;
    let post = r + seq!['\n'] + (em + tail);
    assert(merged =~= pre + seq!['\n'] + post);
    assert forall|k: int| 0 <= k < q implies !text::matches_at(merged, k, em) by {
        if text::matches_at(merged, k, em) {
            text::lemma_match_across_newline(pre, post, k, em);
            if k + em.len() <= pre.len() {
                assert(text::matches_at(head + bm, k, em));
                lemma_head_matches(before, bm, em, k);
            } else {
                text::lemma_match_across_newline(r, em + tail, k - pre.len() - 1, em);
            }
        }
    }
    assert(merged.subrange(q, q + em.len()) =~= em);
    text::lemma_find_first(merged, em, 0, q);
    // ... and no end marker after it.
    let lead = head + block;
    assert(merged == lead + tail);
    assert(lead.len() == q + em.len());
    assert forall|m: int| m >= q + em.len() implies !text::matches_at(merged, m, em) by {
        if text::matches_at(merged, m, em) {
            assert(merged.subrange(m, m + em.len()) =~= tail.subrange(m - lead.len(), m - lead.len() + em.len()));
            assert(text::matches_at(tail, m - lead.len(), em));
            let wa = with_newline(after);
            assert(tail =~= Seq::<char>::empty() + seq!['\n'] + wa);
            text::lemma_match_across_newline(Seq::<char>::empty(), wa, m - lead.len(), em);
            if !text::ends_with(after, nl) {
                assert(wa =~= after + seq!['\n'] + Seq::<char>::empty());
                text::lemma_match_across_newline(after, Seq::<char>::empty(), m - lead.len() - 1, em);
            }
        }
    }
    text::lemma_find_from(merged, em, q + em.len());
    assert(piece_after(merged, em) =~= tail);
    // What follows the block reads back as it was written.
    if after.len() > 0 {
        let wa = with_newline(after);
        lemma_with_newline_twice(after);
        assert(tail.drop_first() =~= wa);
        assert(wa[0] == after[0]);
        assert(tail[0] == '\n');
        assert(text::is_ws(tail[0]));
        assert(text::trim_start(tail) == text::trim_start(tail.drop_first()));
        assert(!text::is_ws(wa[0]));
        assert(text::trim_start(wa) == wa);
        assert(text::trim_start(tail) == wa);
    } else {
        assert(text::trim_start(tail) == after);
    }
    assert(tail_part(text::trim_start(piece_after(merged, em))) == tail);
    assert(text::contains(merged, bm));
    assert(text::contains(merged, em));
    assert(head_part(text::trim_end(piece_before(merged, bm))) == head);
    assert(merged_hosts(merged, remote) == Ok::<(Seq<char>, Seq<char>), Seq<char>>(
        (merged, "обновлён"@),
    ));
    lemma_contains_middle(head, block, tail);
}

/// Setting the game filter writes one of `all`, `tcp`, `udp` (which
/// `read_game_filter` reads back as that mode), or removes the flag file,
/// which reads as `disabled`.
pub proof fn lemma_game_filter_written(mode: Seq<char>)
    ensures
        game_filter_change(mode) matches Ok((w, _)) ==> match w {
            Some(c) => c == "all"@ || c == "tcp"@ || c == "udp"@,
            None => game_filter_of(None).0 == "disabled"@,
        },
{
}

/// The IPSet modes `none` and `any` read back as set: the list written for
/// them gives that mode.
pub proof fn lemma_ipset_read_back(
    mode: Seq<char>,
    list_exists: bool,
    backup_exists: bool,
    backup_is_file: bool,
)
    ensures
        ipset_change(mode, list_exists, backup_exists, backup_is_file) matches Ok(
            (_, _, _, Some(w), _),
        ) ==> ipset_mode_of(Some(w)).0 == text::lowercase(mode),
{
    reveal_strlit("none");
    reveal_strlit("any");
    reveal_strlit("203.0.113.113/32");
    reveal_strlit("\n");
    let m = text::lowercase(mode);
    if m == "none"@ {
        let e = ipset_none_entry();
        let w = e + "\n"@;
        assert(!e.contains('\n')) by {
            if e.contains('\n') {
                let i = choose|i: int| 0 <= i < e.len() && e[i] == '\n';
                assert(e[i] != '\n');
            }
        }
        text::lemma_split_no_sep(e, '\n');
        assert(w.drop_last() =~= e);
        assert(w.last() == '\n');
        assert(text::split(w, '\n') =~= seq![e, Seq::<char>::empty()]);
        assert(text::strip_cr(e) == e);
        let ls = text::lines(w);
        assert(ls =~= seq![e]);
        text::lemma_trim_plain(e);
        assert(ls.drop_last() =~= Seq::<Seq<char>>::empty());
        assert(ls.last() == e);
        assert(non_blank_lines(ls.drop_last()) =~= Seq::<Seq<char>>::empty());
        assert(text::trim(ls.last()).len() > 0);
        assert(non_blank_lines(ls) =~= seq![e]);
    } else if m == "any"@ {
        let w = Seq::<char>::empty();
        assert(text::lines(w) =~= Seq::<Seq<char>>::empty());
    }
}

} // verus!
