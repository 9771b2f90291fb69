//! Zapret 1 strategies: `general*.bat` files in the zapret folder.
//!
//! Reading the folder is the caller's part; this module decides which files
//! are strategies, what each one is called, tagged and started with, and in
//! which order they are listed and tried.

use super::{has_tag, strategy_views, Strategy, StrategyView};
use crate::order::{keys_view, lemma_sorted_map, sort_by_keys, sorted_by_keys};
use crate::text;
use crate::text::{
    chars_of, concat, copy, eq_ignore_ascii_case_str, is, mentions, lemma_seqs_push, opt_str, res_str,
    same, seqs, string_of, strings_of, strs,
};
use vstd::prelude::*;

verus! {

// ---------------------------------------------------------------------------
// File names
// ---------------------------------------------------------------------------

/// The file name without its `.bat` endings.
pub open spec fn bat_stem(filename: Seq<char>) -> Seq<char> {
    text::trim_end_matches(filename, ".bat"@)
}

/// `INNER` when `stem` reads `general (INNER)`.
pub open spec fn general_inner(stem: Seq<char>) -> Option<Seq<char>> {
    match text::strip_prefix(stem, "general ("@) {
        Some(rest) => text::strip_suffix(rest, ")"@),
        None => None,
    }
}

/// The name shown for a `.bat` strategy.
pub open spec fn display_name_of_bat(filename: Seq<char>) -> Seq<char> {
    let stem = bat_stem(filename);
    if stem == "general"@ {
        "GENERAL"@
    } else {
        match general_inner(stem) {
            Some(inner) => inner,
            None => text::uppercase(stem),
        }
    }
}

/// `s` with every character that is not an ASCII letter or digit made a `-`.
pub open spec fn dash_non_alnum(s: Seq<char>) -> Seq<char> {
    s.map_values(|c: char| if text::is_ascii_alnum(c) { c } else { '-' })
}

/// The runs of ASCII letters and digits of `s`, joined by `-`.
pub open spec fn slug(s: Seq<char>) -> Seq<char> {
    text::join(text::nonempty(text::split(dash_non_alnum(s), '-')), "-"@)
}

/// Normalizing is stable: an id is made of ASCII letters, digits and
/// dashes, and normalizing it again gives it back.
pub proof fn lemma_slug_normal(s: Seq<char>)
    ensures
        forall|i: int| 0 <= i < slug(s).len() ==> text::is_ascii_alnum(#[trigger] slug(s)[i])
            || slug(s)[i] == '-',
        slug(slug(s)) == slug(s),
{
    reveal_strlit("-");
    let dash = "-"@;
    assert(dash =~= seq!['-']);
    let t = dash_non_alnum(s);
    let sp = text::split(t, '-');
    let parts = text::nonempty(sp);
    let j = slug(s);
    text::lemma_split_pieces(t, '-');
    text::lemma_nonempty_props(sp);
    assert forall|k: int, i: int| 0 <= k < parts.len() && 0 <= i < parts[k].len() implies
        text::is_ascii_alnum(#[trigger] parts[k][i]) by {
        let w = choose|w: int| 0 <= w < sp.len() && sp[w] == parts[k];
        assert(sp[w][i] == parts[k][i]);
        assert(sp[w][i] != '-');
        let x = sp[w][i];
        let m = choose|m: int| 0 <= m < t.len() && t[m] == x;
        assert(t[m] == if text::is_ascii_alnum(s[m]) { s[m] } else { '-' });
    }
    let p = |c: char| text::is_ascii_alnum(c) || c == '-';
    text::lemma_join_chars(parts, dash, p);
    assert(dash_non_alnum(j) =~= j);
    if parts.len() > 0 {
        assert forall|k: int| 0 <= k < parts.len() implies !(#[trigger] parts[k]).contains('-') by {
            if parts[k].contains('-') {
                let i = choose|i: int| 0 <= i < parts[k].len() && parts[k][i] == '-';
                assert(text::is_ascii_alnum(parts[k][i]));
            }
        }
        text::lemma_split_join(parts, '-');
        assert(text::join(parts, seq!['-']) == j);
        assert(text::split(dash_non_alnum(j), '-') == parts);
        text::lemma_nonempty_props(parts);
        assert(text::nonempty(parts) == parts);
    } else {
        assert(j =~= Seq::<char>::empty());
        let e = text::split(Seq::<char>::empty(), '-');
        assert(e =~= seq![Seq::<char>::empty()]);
        assert(e.drop_last() =~= Seq::<Seq<char>>::empty());
        assert(text::nonempty(Seq::<Seq<char>>::empty()) =~= Seq::<Seq<char>>::empty());
        assert(e.last().len() == 0);
        assert(text::nonempty(e) =~= Seq::<Seq<char>>::empty());
    }
}

/// The id of a `.bat` strategy.
pub open spec fn id_of_bat(filename: Seq<char>) -> Seq<char> {
    let id = text::lowercase(bat_stem(filename));
    if id == "general"@ {
        "general"@
    } else {
        slug(
            match general_inner(id) {
                Some(inner) => inner,
                None => id,
            },
        )
    }
}

fn general_inner_chars(stem: &Vec<char>) -> (res: Option<Vec<char>>)
    ensures
        text::opt_chars(res) == general_inner(stem@),
{
    match text::strip_prefix_chars(stem, "general (") {
        Some(rest) => text::strip_suffix_chars(&rest, ")"),
        None => None,
    }
}

/// The name shown for a `.bat` strategy: `general.bat` is `GENERAL`,
/// `general (X).bat` is `X`, any other name is its stem in upper case.
pub fn bat_display_name(filename: &str) -> (res: String)
    ensures
        res@ == display_name_of_bat(filename@),
{
    let f = chars_of(filename);
    let stem = text::trim_end_matches_chars(&f, ".bat");
    if is(&stem, "general") {
        return text::owned("GENERAL");
    }
    match general_inner_chars(&stem) {
        Some(inner) => string_of(&inner),
        None => {
            let u = text::to_upper(&stem);
            string_of(&u)
        },
    }
}

/// The runs of ASCII letters and digits of `s`, joined by `-`.
pub fn slugify(s: &Vec<char>) -> (res: Vec<char>)
    ensures
        res@ == slug(s@),
{
    let mut d: Vec<char> = Vec::new();
    let mut i: usize = 0;
    while i < s.len()
        invariant
            i <= s.len(),
            d@ == dash_non_alnum(s@).take(i as int),
        decreases s.len() - i,
    {
        let c = s[i];
        if text::is_ascii_alnum_char(c) {
            d.push(c);
        } else {
            d.push('-');
        }
        i += 1;
        assert(d@ =~= dash_non_alnum(s@).take(i as int));
    }
    assert(dash_non_alnum(s@).take(s@.len() as int) =~= dash_non_alnum(s@));
    let parts = text::split_chars(&d, '-');
    let kept = text::nonempty_parts(&parts);
    let sep = chars_of("-");
    text::join_chars(&kept, &sep)
}

/// The id of a `.bat` strategy: the stem in lower case, `general (X)` taken
/// as `X`, then reduced to ASCII letters and digits joined by `-`.
pub fn bat_to_id(filename: &str) -> (res: String)
    ensures
        res@ == id_of_bat(filename@),
{
    let f = chars_of(filename);
    let stem = text::trim_end_matches_chars(&f, ".bat");
    let id = text::to_lower(&stem);
    if is(&id, "general") {
        return text::owned("general");
    }
    let base = match general_inner_chars(&id) {
        Some(inner) => inner,
        None => id,
    };
    let s = slugify(&base);
    string_of(&s)
}

// ---------------------------------------------------------------------------
// Tags
// ---------------------------------------------------------------------------

/// `tags` with `tag` added at the end when `cond` holds.
pub open spec fn push_if(tags: Seq<Seq<char>>, cond: bool, tag: Seq<char>) -> Seq<Seq<char>> {
    if cond {
        tags.push(tag)
    } else {
        tags
    }
}

/// The tags of a `.bat` strategy, from its file name and its text.
pub open spec fn tags_of_bat(filename: Seq<char>, content: Seq<char>) -> Seq<Seq<char>> {
    let lower = text::lowercase(filename + " "@ + content);
    let t1 = push_if(
        Seq::empty(),
        text::contains(text::uppercase(filename), "APEX"@) || text::contains(
            lower,
            "list-apex.txt"@,
        ),
        "apex"@,
    );
    let t2 = push_if(t1, text::contains(lower, "discord"@), "discord"@);
    let t3 = push_if(
        t2,
        text::contains(lower, "youtube"@) || text::contains(lower, "googlevideo"@),
        "youtube"@,
    );
    let t4 = push_if(t3, text::contains(lower, "gamefilter"@), "games"@);
    let t5 = push_if(
        t4,
        text::contains(lower, "cloudflare"@) || text::starts_with(
            text::lowercase(filename),
            "general"@,
        ),
        "cloudflare"@,
    );
    t5.push("general"@)
}

fn push_tag_if(tags: &mut Vec<Vec<char>>, cond: bool, tag: &str)
    ensures
        seqs(final(tags)@) == push_if(seqs(old(tags)@), cond, tag@),
{
    if cond {
        let t = chars_of(tag);
        proof {
            lemma_seqs_push(tags@, t);
        }
        tags.push(t);
    }
}

/// The tags of a `.bat` strategy: `apex`, `discord`, `youtube`, `games`,
/// `cloudflare` as its name and text mention them, then always `general`.
pub fn infer_tags(filename: &str, content: &str) -> (res: Vec<String>)
    ensures
        strs(res@) == tags_of_bat(filename@, content@),
{
    let f = chars_of(filename);
    let c = chars_of(content);
    let space = chars_of(" ");
    let a = concat(&f, &space);
    let joined = concat(&a, &c);
    let lower = text::to_lower(&joined);
    let upper_name = text::to_upper(&f);
    let lower_name = text::to_lower(&f);
    let mut tags: Vec<Vec<char>> = Vec::new();
    assert(seqs(tags@) =~= Seq::<Seq<char>>::empty());
    let apex = mentions(&upper_name, "APEX") || mentions(&lower, "list-apex.txt");
    push_tag_if(&mut tags, apex, "apex");
    let discord = mentions(&lower, "discord");
    push_tag_if(&mut tags, discord, "discord");
    let youtube = mentions(&lower, "youtube") || mentions(&lower, "googlevideo");
    push_tag_if(&mut tags, youtube, "youtube");
    let games = mentions(&lower, "gamefilter");
    push_tag_if(&mut tags, games, "games");
    let cloudflare = mentions(&lower, "cloudflare") || text::begins(&lower_name, "general");
    push_tag_if(&mut tags, cloudflare, "cloudflare");
    push_tag_if(&mut tags, true, "general");
    strings_of(&tags)
}

// ---------------------------------------------------------------------------
// Game filter and `%VAR%` expansion
// ---------------------------------------------------------------------------

/// The ports `(%GameFilter%, %GameFilterTCP%, %GameFilterUDP%)` for the
/// content of `utils/game_filter.enabled`, or `None` when there is no such
/// file.
pub open spec fn ports_for(flag: Option<Seq<char>>) -> (Seq<char>, Seq<char>, Seq<char>) {
    match flag {
        None => ("12"@, "12"@, "12"@),
        Some(content) => {
            let mode = text::lowercase(text::trim(content));
            if mode == "all"@ {
                ("1024-65535"@, "1024-65535"@, "1024-65535"@)
            } else if mode == "tcp"@ {
                ("1024-65535"@, "1024-65535"@, "12"@)
            } else if mode == "udp"@ {
                ("1024-65535"@, "12"@, "1024-65535"@)
            } else {
                ("12"@, "12"@, "12"@)
            }
        },
    }
}

/// The ports for the game filter, given the content of
/// `utils/game_filter.enabled` (`None` when the file is absent).
pub fn game_filter_ports(flag: Option<&str>) -> (res: (String, String, String))
    ensures
        (res.0@, res.1@, res.2@) == ports_for(opt_str(flag)),
{
    match flag {
        None => (text::owned("12"), text::owned("12"), text::owned("12")),
        Some(content) => {
            let c = chars_of(content);
            let t = text::trim_chars(&c);
            let mode = text::to_lower(&t);
            if is(&mode, "all") {
                (text::owned("1024-65535"), text::owned("1024-65535"), text::owned("1024-65535"))
            } else if is(&mode, "tcp") {
                (text::owned("1024-65535"), text::owned("1024-65535"), text::owned("12"))
            } else if is(&mode, "udp") {
                (text::owned("1024-65535"), text::owned("12"), text::owned("1024-65535"))
            } else {
                (text::owned("12"), text::owned("12"), text::owned("12"))
            }
        },
    }
}

/// `raw` with `%BIN%`, `%LISTS%` and the game-filter variables replaced, in
/// that order; `bin` and `lists` are the folders as displayed, to which a
/// backslash is added.
pub open spec fn expand_vars(
    raw: Seq<char>,
    bin: Seq<char>,
    lists: Seq<char>,
    ports: (Seq<char>, Seq<char>, Seq<char>),
) -> Seq<char> {
    let s1 = text::replace(raw, "%BIN%"@, bin + "\\"@);
    let s2 = text::replace(s1, "%LISTS%"@, lists + "\\"@);
    let s3 = text::replace(s2, "%GameFilterTCP%"@, ports.1);
    let s4 = text::replace(s3, "%GameFilterUDP%"@, ports.2);
    text::replace(s4, "%GameFilter%"@, ports.0)
}

/// Replaces the variables of a `.bat` in `raw`.
pub fn expand_bat_variables(
    raw: &str,
    bin: &str,
    lists: &str,
    ports: &(String, String, String),
) -> (res: String)
    ensures
        res@ == expand_vars(raw@, bin@, lists@, (ports.0@, ports.1@, ports.2@)),
{
    proof {
        reveal_strlit("%BIN%");
        reveal_strlit("%LISTS%");
        reveal_strlit("%GameFilterTCP%");
        reveal_strlit("%GameFilterUDP%");
        reveal_strlit("%GameFilter%");
    }
    let r = chars_of(raw);
    let bs = chars_of("\\");
    let b0 = chars_of(bin);
    let l0 = chars_of(lists);
    let b = concat(&b0, &bs);
    let l = concat(&l0, &bs);
    let gf = chars_of(ports.0.as_str());
    let tcp = chars_of(ports.1.as_str());
    let udp = chars_of(ports.2.as_str());
    let f1 = chars_of("%BIN%");
    let s1 = text::replace_chars(&r, &f1, &b);
    let f2 = chars_of("%LISTS%");
    let s2 = text::replace_chars(&s1, &f2, &l);
    let f3 = chars_of("%GameFilterTCP%");
    let s3 = text::replace_chars(&s2, &f3, &tcp);
    let f4 = chars_of("%GameFilterUDP%");
    let s4 = text::replace_chars(&s3, &f4, &udp);
    let f5 = chars_of("%GameFilter%");
    let s5 = text::replace_chars(&s4, &f5, &gf);
    string_of(&s5)
}

// ---------------------------------------------------------------------------
// The `winws.exe` command line of a `.bat`
// ---------------------------------------------------------------------------

/// The state while reading a `.bat`: the arguments gathered so far, whether
/// the `winws.exe` line has been seen, and whether reading has stopped.
pub type ArgScan = (Seq<char>, bool, bool);

/// One line of a `.bat`: comments and blank lines are skipped; the line that
/// calls `winws.exe` starts the arguments (without the `^` that continues it
/// on the next line, which cmd consumes); after it, continuation lines
/// (`^`) and `--` lines add to them, `start ...` lines are passed over, and
/// any other line ends the command.
pub open spec fn scan_line(st: ArgScan, line: Seq<char>) -> ArgScan {
    let t = text::trim(line);
    if st.2 {
        st
    } else if t.len() == 0 || text::starts_with(t, "::"@) || text::starts_with(t, "rem "@) {
        st
    } else if text::contains(t, "winws.exe"@) {
        let pos = text::find_from(t, "winws.exe"@, 0)->0;
        let after = text::trim(t.subrange(pos + 9, t.len() as int));
        let after2 = match text::strip_prefix(after, "\""@) {
            Some(a) => a,
            None => after,
        };
        (st.0 + text::trim_end(text::trim_end_matches(after2, "^"@)), true, false)
    } else if st.1 {
        if t == "^"@ || text::ends_with(t, "^"@) {
            let part = text::trim(text::trim_end_matches(t, "^"@));
            if part.len() > 0 {
                (st.0 + " "@ + part, true, false)
            } else {
                st
            }
        } else if text::starts_with(t, "--"@) {
            (st.0 + " "@ + text::trim(text::trim_end_matches(t, "^"@)), true, false)
        } else if !text::starts_with(t, "start "@) {
            (st.0, true, true)
        } else {
            st
        }
    } else {
        st
    }
}

/// The state after reading `ls` in order.
pub open spec fn scan_lines(ls: Seq<Seq<char>>) -> ArgScan
    decreases ls.len(),
{
    if ls.len() == 0 {
        (Seq::empty(), false, false)
    } else {
        scan_line(scan_lines(ls.drop_last()), ls.last())
    }
}

/// The raw `winws.exe` arguments written in a `.bat`.
pub open spec fn winws_chunk(content: Seq<char>) -> Seq<char> {
    scan_lines(text::lines(content)).0
}

/// The message when a `.bat` holds no `winws.exe` arguments.
pub open spec fn no_args_message() -> Seq<char> {
    "В .bat не найдены аргументы winws.exe"@
}

/// The expanded `winws.exe` arguments of a `.bat`, or the error.
pub open spec fn parsed_args(
    content: Seq<char>,
    bin: Seq<char>,
    lists: Seq<char>,
    flag: Option<Seq<char>>,
) -> Result<Seq<char>, Seq<char>> {
    let chunk = winws_chunk(content);
    if chunk.len() == 0 {
        Err(no_args_message())
    } else {
        Ok(expand_vars(chunk, bin, lists, ports_for(flag)))
    }
}

proof fn lemma_scan_stopped(ls: Seq<Seq<char>>, i: int)
    requires
        0 <= i <= ls.len(),
        scan_lines(ls.take(i)).2,
    ensures
        scan_lines(ls) == scan_lines(ls.take(i)),
    decreases ls.len() - i,
{
    if i < ls.len() {
        assert(ls.take(i + 1).drop_last() =~= ls.take(i));
        lemma_scan_stopped(ls, i + 1);
    } else {
        assert(ls.take(i) =~= ls);
    }
}

/// Reads one trimmed line into the gathered arguments.
fn scan_one(chunk: &mut Vec<char>, capturing: &mut bool, line: &Vec<char>) -> (stop: bool)
    ensures
        (final(chunk)@, *final(capturing), stop) == scan_line(
            (old(chunk)@, *old(capturing), false),
            line@,
        ),
{
    proof {
        reveal_strlit("winws.exe");
        reveal_strlit("^");
        reveal_strlit("\"");
    }
    let t = text::trim_chars(line);
    if t.len() == 0 || text::begins(&t, "::") || text::begins(&t, "rem ") {
        return false;
    }
    let w = chars_of("winws.exe");
    match text::find_chars(&t, &w, 0) {
        Some(pos) => {
            proof {
                text::lemma_find_from(t@, w@, 0);
            }
            let rest = text::slice(&t, pos + 9, t.len());
            let after = text::trim_chars(&rest);
            let after2 = match text::strip_prefix_chars(&after, "\"") {
                Some(a) => a,
                None => after,
            };
            let stripped = text::trim_end_matches_chars(&after2, "^");
            let part = text::trim_end_chars(&stripped);
            let joined = concat(chunk, &part);
            *chunk = joined;
            *capturing = true;
            return false;
        },
        None => {},
    }
    if !*capturing {
        return false;
    }
    if is(&t, "^") || text::finishes(&t, "^") {
        let stripped = text::trim_end_matches_chars(&t, "^");
        let part = text::trim_chars(&stripped);
        if part.len() > 0 {
            let sp = chars_of(" ");
            let a = concat(chunk, &sp);
            *chunk = concat(&a, &part);
        }
        return false;
    }
    if text::begins(&t, "--") {
        let stripped = text::trim_end_matches_chars(&t, "^");
        let part = text::trim_chars(&stripped);
        let sp = chars_of(" ");
        let a = concat(chunk, &sp);
        *chunk = concat(&a, &part);
        return false;
    }
    !text::begins(&t, "start ")
}

/// The raw `winws.exe` arguments written in a `.bat` text.
pub fn winws_chunk_of(content: &str) -> (res: Vec<char>)
    ensures
        res@ == winws_chunk(content@),
{
    let c = chars_of(content);
    let ls = text::lines_of(&c);
    let mut chunk: Vec<char> = Vec::new();
    let mut capturing = false;
    let mut i: usize = 0;
    assert(seqs(ls@).take(0) =~= Seq::<Seq<char>>::empty());
    while i < ls.len()
        invariant
            i <= ls.len(),
            seqs(ls@) == text::lines(content@),
            (chunk@, capturing, false) == scan_lines(seqs(ls@).take(i as int)),
        decreases ls.len() - i,
    {
        assert(seqs(ls@).take(i + 1).drop_last() =~= seqs(ls@).take(i as int));
        assert(seqs(ls@).take(i + 1).last() == ls@[i as int]@);
        let stop = scan_one(&mut chunk, &mut capturing, &ls[i]);
        i += 1;
        if stop {
            proof {
                lemma_scan_stopped(seqs(ls@), i as int);
            }
            return chunk;
        }
    }
    assert(seqs(ls@).take(ls@.len() as int) =~= seqs(ls@));
    chunk
}

/// The `winws.exe` arguments of a `.bat` with its variables expanded: `bin`
/// and `lists` are the zapret `bin` and `lists` folders as displayed, `flag`
/// the content of `utils/game_filter.enabled` if that file exists.
pub fn parse_winws_args(content: &str, bin: &str, lists: &str, flag: Option<&str>) -> (res: Result<
    String,
    String,
>)
    ensures
        res_str(res) == parsed_args(content@, bin@, lists@, opt_str(flag)),
{
    let chunk = winws_chunk_of(content);
    if chunk.len() == 0 {
        return Err(text::owned("В .bat не найдены аргументы winws.exe"));
    }
    let ports = game_filter_ports(flag);
    let raw = string_of(&chunk);
    Ok(expand_bat_variables(raw.as_str(), bin, lists, &ports))
}

// ---------------------------------------------------------------------------
// Splitting a command line (`cmd` quoting)
// ---------------------------------------------------------------------------

/// The state while splitting: finished arguments, the current one, and
/// whether a quote is open.
pub type CmdScan = (Seq<Seq<char>>, Seq<char>, bool);

/// One character: a quote toggles quoting and is dropped; a space or tab
/// outside quotes ends a non-empty argument; anything else is kept.
pub open spec fn cmd_step(st: CmdScan, ch: char) -> CmdScan {
    if ch == '"' {
        (st.0, st.1, !st.2)
    } else if (ch == ' ' || ch == '\t') && !st.2 {
        if st.1.len() > 0 {
            (st.0.push(st.1), Seq::empty(), st.2)
        } else {
            st
        }
    } else {
        (st.0, st.1.push(ch), st.2)
    }
}

pub open spec fn cmd_scan(s: Seq<char>) -> CmdScan
    decreases s.len(),
{
    if s.len() == 0 {
        (Seq::empty(), Seq::empty(), false)
    } else {
        cmd_step(cmd_scan(s.drop_last()), s.last())
    }
}

/// The arguments of a command line.
pub open spec fn command_line_args(s: Seq<char>) -> Seq<Seq<char>> {
    let st = cmd_scan(s);
    if st.1.len() > 0 {
        st.0.push(st.1)
    } else {
        st.0
    }
}

/// Splits a `winws` argument string as `cmd` does: spaces and tabs outside
/// double quotes separate arguments, quotes are dropped.
pub fn split_command_line(line: &str) -> (res: Vec<String>)
    ensures
        strs(res@) == command_line_args(line@),
{
    let s = chars_of(line);
    let mut args: Vec<Vec<char>> = Vec::new();
    let mut current: Vec<char> = Vec::new();
    let mut in_quotes = false;
    let mut i: usize = 0;
    while i < s.len()
        invariant
            i <= s.len(),
            s@ == line@,
            (seqs(args@), current@, in_quotes) == cmd_scan(s@.take(i as int)),
        decreases s.len() - i,
    {
        assert(s@.take(i + 1).drop_last() =~= s@.take(i as int));
        let ch = s[i];
        if ch == '"' {
            in_quotes = !in_quotes;
        } else if (ch == ' ' || ch == '\t') && !in_quotes {
            if current.len() > 0 {
                let done = copy(&current);
                proof {
                    lemma_seqs_push(args@, done);
                }
                args.push(done);
                current = Vec::new();
            }
        } else {
            current.push(ch);
        }
        i += 1;
        assert((seqs(args@), current@, in_quotes) =~= cmd_scan(s@.take(i as int)));
    }
    assert(s@.take(s@.len() as int) =~= s@);
    if current.len() > 0 {
        proof {
            lemma_seqs_push(args@, current);
        }
        args.push(current);
    }
    strings_of(&args)
}

// ---------------------------------------------------------------------------
// Names of custom strategies
// ---------------------------------------------------------------------------

/// Characters a Windows file name cannot hold.
pub open spec fn forbidden_in_name(c: char) -> bool {
    c == '\\' || c == '/' || c == ':' || c == '*' || c == '?' || c == '"' || c == '<' || c == '>'
        || c == '|'
}

/// `s` without the characters a file name cannot hold.
pub open spec fn drop_forbidden(s: Seq<char>) -> Seq<char>
    decreases s.len(),
{
    if s.len() == 0 {
        Seq::empty()
    } else {
        let r = drop_forbidden(s.drop_last());
        if forbidden_in_name(s.last()) {
            r
        } else {
            r.push(s.last())
        }
    }
}

/// The name under which a custom strategy is saved: the trimmed name (or
/// `CUSTOM`), cut to 48 characters, without characters a file name cannot
/// hold, trimmed again, and `CUSTOM` if nothing is left.
pub open spec fn sanitized_name(name: Seq<char>) -> Seq<char> {
    let t = text::trim(name);
    let base = if t.len() == 0 {
        "CUSTOM"@
    } else {
        t
    };
    let cut = if base.len() <= 48 {
        base
    } else {
        base.take(48)
    };
    let out = text::trim(drop_forbidden(cut));
    if out.len() == 0 {
        "CUSTOM"@
    } else {
        out
    }
}

/// A character a Windows file name can hold: none of `\ / : * ? " < > |`.
pub open spec fn file_name_char(c: char) -> bool {
    !(c == '\\' || c == '/' || c == ':' || c == '*' || c == '?' || c == '"' || c == '<' || c == '>'
        || c == '|')
}

/// The test for characters a file name can hold, as a predicate.
pub open spec fn allowed_in_name() -> spec_fn(char) -> bool {
    |c: char| file_name_char(c)
}

/// The name a custom strategy is saved under, before dropping characters:
/// the trimmed name (or `CUSTOM`), cut to 48 characters.
pub open spec fn cut_name(name: Seq<char>) -> Seq<char> {
    let t = text::trim(name);
    let base = if t.len() == 0 {
        "CUSTOM"@
    } else {
        t
    };
    base.take(if base.len() <= 48 {
        base.len() as int
    } else {
        48
    })
}

proof fn lemma_drop_forbidden_filter(s: Seq<char>)
    ensures
        drop_forbidden(s) == s.filter(allowed_in_name()),
    decreases s.len(),
{
    reveal(Seq::filter);
    if s.len() > 0 {
        lemma_drop_forbidden_filter(s.drop_last());
        let p = allowed_in_name();
        assert(p(s.last()) == !forbidden_in_name(s.last()));
        let sub = s.drop_last().filter(p);
        assert(s.filter(p) == if p(s.last()) {
            sub.push(s.last())
        } else {
            sub
        });
    } else {
        assert(s.filter(allowed_in_name()) =~= Seq::<char>::empty());
    }
}

/// The name a custom strategy is saved under holds only characters a file
/// name can hold, at most 48 of them and at least one: the characters of
/// the cut name that a file name can hold, in order and trimmed, or
/// `CUSTOM` when none is left.
pub proof fn lemma_sanitized_name(name: Seq<char>)
    ensures
        forall|i: int| 0 <= i < sanitized_name(name).len() ==> file_name_char(#[trigger] sanitized_name(name)[i]),
        0 < sanitized_name(name).len() <= 48,
        text::trim(cut_name(name).filter(allowed_in_name())).len() > 0 ==> sanitized_name(name)
            == text::trim(cut_name(name).filter(allowed_in_name())),
        text::trim(cut_name(name).filter(allowed_in_name())).len() == 0 ==> sanitized_name(name)
            == "CUSTOM"@,
{
    reveal_strlit("CUSTOM");
    let t = text::trim(name);
    let base = if t.len() == 0 {
        "CUSTOM"@
    } else {
        t
    };
    let cut = if base.len() <= 48 {
        base
    } else {
        base.take(48)
    };
    assert(cut == cut_name(name));
    lemma_drop_forbidden_filter(cut);
    let f = cut.filter(allowed_in_name());
    cut.lemma_filter_len(allowed_in_name());
    assert forall|i: int| 0 <= i < f.len() implies file_name_char(#[trigger] f[i]) by {
        cut.lemma_filter_pred(allowed_in_name(), i);
    }
    let ts = text::trim_start(f);
    text::lemma_trim_start_suffix(f);
    text::lemma_trim_end_prefix(ts);
    let o = text::trim(f);
    let d = f.len() - ts.len();
    assert forall|i: int| 0 <= i < o.len() implies file_name_char(#[trigger] o[i]) by {
        assert(o[i] == ts[i]);
        assert(ts[i] == f[d + i]);
    }
    let c = "CUSTOM"@;
    assert(c =~= seq!['C', 'U', 'S', 'T', 'O', 'M']);
}

pub fn sanitize_display_name(name: &str) -> (res: String)
    ensures
        res@ == sanitized_name(name@),
{
    let n = chars_of(name);
    let t = text::trim_chars(&n);
    let base = if t.len() == 0 {
        chars_of("CUSTOM")
    } else {
        t
    };
    let end: usize = if base.len() <= 48 { base.len() } else { 48 };
    let cut = text::slice(&base, 0, end);
    assert(cut@ =~= (if base@.len() <= 48 { base@ } else { base@.take(48) }));
    let mut out: Vec<char> = Vec::new();
    let mut i: usize = 0;
    while i < cut.len()
        invariant
            i <= cut.len(),
            out@ == drop_forbidden(cut@.take(i as int)),
        decreases cut.len() - i,
    {
        assert(cut@.take(i + 1).drop_last() =~= cut@.take(i as int));
        let c = cut[i];
        if !(c == '\\' || c == '/' || c == ':' || c == '*' || c == '?' || c == '"' || c == '<' || c
            == '>' || c == '|') {
            out.push(c);
        }
        i += 1;
    }
    assert(cut@.take(cut@.len() as int) =~= cut@);
    let o = text::trim_chars(&out);
    if o.len() == 0 {
        text::owned("CUSTOM")
    } else {
        string_of(&o)
    }
}

// ---------------------------------------------------------------------------
// Ordering
// ---------------------------------------------------------------------------

/// `value` when present, else `default` (`Option::unwrap_or`).
pub open spec fn or_default(o: Option<u32>, default: u32) -> u32 {
    match o {
        Some(v) => v,
        None => default,
    }
}

/// The number after `prefix` in `upper`, or `default` when there is none.
pub open spec fn number_after(upper: Seq<char>, prefix: Seq<char>, default: u32) -> u32 {
    or_default(text::parse_u32(text::trim(text::trim_start_matches(upper, prefix))), default)
}

/// The listing order of a `.bat` strategy: GENERAL first, then FAKE TLS
/// AUTO, its ALT variants, SIMPLE FAKE, the ALT variants by number, other
/// `general (X)` files, and other names last.
pub open spec fn sort_key_of_bat(filename: Seq<char>) -> (u8, u32, Seq<char>) {
    let stem = bat_stem(filename);
    if stem == "general"@ {
        (0, 0, Seq::empty())
    } else if text::eq_ignore_ascii_case(stem, "general (APEX)"@) {
        (0, 1, "APEX"@)
    } else {
        match general_inner(stem) {
            Some(inner) => {
                let upper = text::uppercase(inner);
                if upper == "FAKE TLS AUTO"@ {
                    (1, 0, upper)
                } else if text::starts_with(upper, "FAKE TLS AUTO ALT"@) {
                    (2, number_after(upper, "FAKE TLS AUTO ALT"@, 0), upper)
                } else if text::starts_with(upper, "SIMPLE FAKE"@) {
                    (
                        3,
                        if upper == "SIMPLE FAKE"@ {
                            0
                        } else {
                            number_after(upper, "SIMPLE FAKE ALT"@, 99)
                        },
                        upper,
                    )
                } else if text::starts_with(upper, "ALT"@) {
                    (4, number_after(upper, "ALT"@, 999), upper)
                } else {
                    (5, 0, upper)
                }
            },
            None => (9, 0, stem),
        }
    }
}

fn number_after_chars(upper: &Vec<char>, prefix: &str, default: u32) -> (res: u32)
    ensures
        res == number_after(upper@, prefix@, default),
{
    let rest = text::trim_start_matches_chars(upper, prefix);
    let t = text::trim_chars(&rest);
    match text::parse_u32_chars(&t) {
        Some(n) => n,
        None => default,
    }
}

/// The listing order of a `.bat` strategy (compared as a tuple).
pub fn bat_sort_key(filename: &str) -> (res: (u8, u32, String))
    ensures
        (res.0, res.1, res.2@) == sort_key_of_bat(filename@),
{
    let f = chars_of(filename);
    let stem = text::trim_end_matches_chars(&f, ".bat");
    if is(&stem, "general") {
        return (0, 0, String::new());
    }
    if eq_ignore_ascii_case_str(&stem, "general (APEX)") {
        return (0, 1, text::owned("APEX"));
    }
    match general_inner_chars(&stem) {
        Some(inner) => {
            let upper = text::to_upper(&inner);
            let u = string_of(&upper);
            if is(&upper, "FAKE TLS AUTO") {
                (1, 0, u)
            } else if text::begins(&upper, "FAKE TLS AUTO ALT") {
                (2, number_after_chars(&upper, "FAKE TLS AUTO ALT", 0), u)
            } else if text::begins(&upper, "SIMPLE FAKE") {
                let n = if is(&upper, "SIMPLE FAKE") {
                    0
                } else {
                    number_after_chars(&upper, "SIMPLE FAKE ALT", 99)
                };
                (3, n, u)
            } else if text::begins(&upper, "ALT") {
                (4, number_after_chars(&upper, "ALT", 999), u)
            } else {
                (5, 0, u)
            }
        },
        None => (9, 0, string_of(&stem)),
    }
}

/// The base `general.bat` strategy.
pub open spec fn is_base_general(id: Seq<char>, source_bat: Seq<char>) -> bool {
    id == "general"@ || text::eq_ignore_ascii_case(source_bat, "general.bat"@)
}

pub fn is_base_general_strategy(id: &str, source_bat: &str) -> (res: bool)
    ensures
        res == is_base_general(id@, source_bat@),
{
    let i = chars_of(id);
    let s = chars_of(source_bat);
    is(&i, "general") || eq_ignore_ascii_case_str(&s, "general.bat")
}

/// The group in which a strategy is tried by auto-detection: ALT9 and ALT11
/// first, then ALT10 and ALT3, then the others, and the base GENERAL last.
pub open spec fn autodetect_tier(id: Seq<char>, source_bat: Seq<char>) -> u8 {
    let upper = text::uppercase(source_bat);
    if is_base_general(id, source_bat) {
        3
    } else if text::contains(upper, "ALT9"@) || text::contains(upper, "ALT11"@) {
        0
    } else if text::contains(upper, "ALT10"@) || text::contains(upper, "ALT3"@) {
        1
    } else {
        2
    }
}

/// The order in which auto-detection tries zapret 1 strategies.
pub open spec fn autodetect_priority_of(id: Seq<char>, source_bat: Seq<char>) -> (
    u8,
    u8,
    u32,
    Seq<char>,
) {
    let k = sort_key_of_bat(source_bat);
    (autodetect_tier(id, source_bat), k.0, k.1, k.2)
}

/// The order in which auto-detection tries zapret 1 strategies: popular
/// ALT9/ALT11 first, GENERAL last, the listing order within a group.
pub fn autodetect_priority(id: &str, source_bat: &str) -> (res: (u8, u8, u32, String))
    ensures
        (res.0, res.1, res.2, res.3@) == autodetect_priority_of(id@, source_bat@),
{
    let s = chars_of(source_bat);
    let upper = text::to_upper(&s);
    let tier: u8 = if is_base_general_strategy(id, source_bat) {
        3
    } else if mentions(&upper, "ALT9") || mentions(&upper, "ALT11") {
        0
    } else if mentions(&upper, "ALT10") || mentions(&upper, "ALT3") {
        1
    } else {
        2
    };
    let (a, b, c) = bat_sort_key(source_bat);
    (tier, a, b, c)
}

/// A tuple key as a sequence of numbers compared lexicographically.
pub open spec fn key_of(parts: Seq<u32>, s: Seq<char>) -> Seq<u32> {
    parts + s.map_values(|c: char| c as u32)
}

/// `parts` followed by the code points of `s`.
pub fn make_key(parts: Vec<u32>, s: &Vec<char>) -> (res: Vec<u32>)
    ensures
        res@ == key_of(parts@, s@),
{
    let mut out = parts;
    let ghost start = out@;
    let mut i: usize = 0;
    while i < s.len()
        invariant
            i <= s.len(),
            out@ == start + s@.take(i as int).map_values(|c: char| c as u32),
        decreases s.len() - i,
    {
        out.push(s[i] as u32);
        i += 1;
        assert(out@ =~= start + s@.take(i as int).map_values(|c: char| c as u32));
    }
    assert(s@.take(s@.len() as int) =~= s@);
    out
}

/// The listing key of a `.bat` strategy as a number sequence.
pub open spec fn bat_key(filename: Seq<char>) -> Seq<u32> {
    let k = sort_key_of_bat(filename);
    key_of(seq![k.0 as u32, k.1], k.2)
}

pub fn bat_key_of(filename: &str) -> (res: Vec<u32>)
    ensures
        res@ == bat_key(filename@),
{
    let (a, b, c) = bat_sort_key(filename);
    let mut parts: Vec<u32> = Vec::new();
    parts.push(a as u32);
    parts.push(b);
    assert(parts@ =~= seq![a as u32, b]);
    let cs = chars_of(c.as_str());
    make_key(parts, &cs)
}

// ---------------------------------------------------------------------------
// Listing the strategies of a zapret folder
// ---------------------------------------------------------------------------

/// A `.bat` file of the zapret folder: its name and its text (empty when it
/// could not be read).
#[derive(Clone, Debug)]
pub struct BatFile {
    pub name: String,
    pub content: String,
}

/// `name` has the extension `ext` (`Path::extension`, for a name without
/// separators and an extension without dots): a dot that is not the first
/// character, followed by `ext` at the end.
pub open spec fn has_extension(name: Seq<char>, ext: Seq<char>) -> bool {
    name.len() > ext.len() + 1 && text::ends_with(name, seq!['.'] + ext)
}

/// The `.bat` files of the zapret folder that are strategies:
/// `general*.bat`, but not `service.bat`.
pub open spec fn is_strategy_bat(name: Seq<char>) -> bool {
    &&& has_extension(name, "bat"@)
    &&& !text::eq_ignore_ascii_case(name, "service.bat"@)
    &&& text::starts_with(name, "general"@)
}

/// The description of a `.bat` strategy.
pub open spec fn bat_description(name: Seq<char>, tags: Seq<Seq<char>>) -> Seq<char> {
    if has_tag(tags, "apex"@) {
        "Пресет для Apex Legends (issue #6503): list-apex.txt, порты UDP 10000–10100, ipset-exclude"@
    } else {
        "Запуск: "@ + name
    }
}

/// The strategy for a `.bat` file, with the given description rule.
pub open spec fn strategy_of_bat(
    name: Seq<char>,
    content: Seq<char>,
    bin: Seq<char>,
    lists: Seq<char>,
    flag: Option<Seq<char>>,
    description: Seq<char>,
) -> StrategyView {
    StrategyView {
        id: id_of_bat(name),
        name: display_name_of_bat(name),
        description,
        tags: tags_of_bat(name, content),
        source_bat: name,
        args: match parsed_args(content, bin, lists, flag) {
            Ok(a) => a,
            Err(_) => Seq::empty(),
        },
    }
}

/// The strategy listed for a `.bat` file of the zapret folder.
pub open spec fn listed_bat_strategy(
    name: Seq<char>,
    content: Seq<char>,
    bin: Seq<char>,
    lists: Seq<char>,
    flag: Option<Seq<char>>,
) -> StrategyView {
    strategy_of_bat(
        name,
        content,
        bin,
        lists,
        flag,
        bat_description(name, tags_of_bat(name, content)),
    )
}

/// The views of the files given.
pub open spec fn bat_files(files: Seq<BatFile>) -> Seq<(Seq<char>, Seq<char>)> {
    files.map_values(|f: BatFile| (f.name@, f.content@))
}

/// The strategy files among `files`, in the order given.
pub open spec fn strategy_files(files: Seq<(Seq<char>, Seq<char>)>) -> Seq<(Seq<char>, Seq<char>)>
    decreases files.len(),
{
    if files.len() == 0 {
        Seq::empty()
    } else {
        let r = strategy_files(files.drop_last());
        if is_strategy_bat(files.last().0) {
            r.push(files.last())
        } else {
            r
        }
    }
}

/// The strategies of the strategy files, before ordering.
pub open spec fn unsorted_bat_strategies(
    files: Seq<(Seq<char>, Seq<char>)>,
    bin: Seq<char>,
    lists: Seq<char>,
    flag: Option<Seq<char>>,
) -> Seq<StrategyView> {
    strategy_files(files).map_values(
        |f: (Seq<char>, Seq<char>)| listed_bat_strategy(f.0, f.1, bin, lists, flag),
    )
}

/// The listing keys of the strategy files.
pub open spec fn bat_keys(files: Seq<(Seq<char>, Seq<char>)>) -> Seq<Seq<u32>> {
    strategy_files(files).map_values(|f: (Seq<char>, Seq<char>)| bat_key(f.0))
}

/// The strategies of a zapret folder, in listing order.
pub open spec fn bat_strategies(
    files: Seq<(Seq<char>, Seq<char>)>,
    bin: Seq<char>,
    lists: Seq<char>,
    flag: Option<Seq<char>>,
) -> Seq<StrategyView> {
    sorted_by_keys(unsorted_bat_strategies(files, bin, lists, flag), bat_keys(files))
}

pub fn is_strategy_bat_name(name: &str) -> (res: bool)
    ensures
        res == is_strategy_bat(name@),
{
    let n = chars_of(name);
    let dot_bat = chars_of(".bat");
    proof {
        reveal_strlit(".bat");
        reveal_strlit("bat");
        assert(dot_bat@ =~= seq!['.'] + "bat"@);
    }
    n.len() > 4 && text::ends_with_chars(&n, &dot_bat) && !eq_ignore_ascii_case_str(
        &n,
        "service.bat",
    ) && text::begins(&n, "general")
}

/// The strategy for one `.bat`, with the given description.
pub fn build_bat_strategy(
    name: &str,
    content: &str,
    bin: &str,
    lists: &str,
    flag: Option<&str>,
    apex_description: bool,
) -> (res: Strategy)
    ensures
        res@ == strategy_of_bat(
            name@,
            content@,
            bin@,
            lists@,
            opt_str(flag),
            if apex_description {
                bat_description(name@, tags_of_bat(name@, content@))
            } else {
                "Запуск: "@ + name@
            },
        ),
{
    let args = match parse_winws_args(content, bin, lists, flag) {
        Ok(a) => a,
        Err(_) => String::new(),
    };
    let display_name = bat_display_name(name);
    let id = bat_to_id(name);
    let tags = infer_tags(name, content);
    let prefix = chars_of("Запуск: ");
    let n = chars_of(name);
    let plain = concat(&prefix, &n);
    let description = if apex_description && super::any_tag(&tags, "apex") {
        text::owned(
            "Пресет для Apex Legends (issue #6503): list-apex.txt, порты UDP 10000–10100, ipset-exclude",
        )
    } else {
        string_of(&plain)
    };
    Strategy {
        id,
        name: display_name,
        description,
        tags,
        source_bat: text::owned(name),
        args,
    }
}

/// The strategies of a zapret folder: each `general*.bat` other than
/// `service.bat` among `files` (the folder's `.bat`-named entries and their
/// texts), in listing order.
pub fn scan_bat_strategies(files: &Vec<BatFile>, bin: &str, lists: &str, flag: Option<&str>) -> (res:
    Vec<Strategy>)
    ensures
        strategy_views(res@) == bat_strategies(bat_files(files@), bin@, lists@, opt_str(flag)),
{
    let ghost all = bat_files(files@);
    let mut found: Vec<Strategy> = Vec::new();
    let mut keys: Vec<Vec<u32>> = Vec::new();
    let mut i: usize = 0;
    while i < files.len()
        invariant
            i <= files.len(),
            all == bat_files(files@),
            found.len() == keys.len(),
            strategy_views(found@) == unsorted_bat_strategies(all.take(i as int), bin@, lists@, opt_str(flag)),
            keys_view(keys@) == bat_keys(all.take(i as int)),
        decreases files.len() - i,
    {
        let f = &files[i];
        assert(all.take(i + 1).drop_last() =~= all.take(i as int));
        assert(all.take(i + 1).last() == (f.name@, f.content@));
        if is_strategy_bat_name(f.name.as_str()) {
            let s = build_bat_strategy(f.name.as_str(), f.content.as_str(), bin, lists, flag, true);
            let k = bat_key_of(f.name.as_str());
            let ghost prev = found@;
            let ghost prev_keys = keys@;
            found.push(s);
            keys.push(k);
            assert(strategy_views(found@) =~= strategy_views(prev).push(s@));
            assert(keys_view(keys@) =~= keys_view(prev_keys).push(k@));
            assert(strategy_files(all.take(i + 1)) == strategy_files(all.take(i as int)).push((f.name@, f.content@)));
        }
        i += 1;
        assert(strategy_views(found@) =~= unsorted_bat_strategies(all.take(i as int), bin@, lists@, opt_str(flag)));
        assert(keys_view(keys@) =~= bat_keys(all.take(i as int)));
    }
    assert(all.take(files.len() as int) =~= all);
    let ghost unsorted = found@;
    let sorted = sort_by_keys(found, &keys);
    proof {
        lemma_sorted_map(unsorted, keys_view(keys@), |s: Strategy| s@);
    }
    sorted
}

/// The strategies of the zapret folder, or `None` when the JSON list must be
/// used instead: when `winws.exe` is not installed, or when no `.bat`
/// strategy was found.
pub fn load_strategies(
    winws_installed: bool,
    files: &Vec<BatFile>,
    bin: &str,
    lists: &str,
    flag: Option<&str>,
) -> (res: Option<Vec<Strategy>>)
    ensures
        match res {
            None => !winws_installed || bat_strategies(
                bat_files(files@),
                bin@,
                lists@,
                opt_str(flag),
            ).len() == 0,
            Some(v) => winws_installed && strategy_views(v@) == bat_strategies(
                bat_files(files@),
                bin@,
                lists@,
                opt_str(flag),
            ) && v@.len() > 0,
        },
{
    if !winws_installed {
        return None;
    }
    let list = scan_bat_strategies(files, bin, lists, flag);
    if list.len() == 0 {
        None
    } else {
        Some(list)
    }
}

/// `tags` without any tag equal to `tag`.
pub open spec fn without_tag(tags: Seq<Seq<char>>, tag: Seq<char>) -> Seq<Seq<char>>
    decreases tags.len(),
{
    if tags.len() == 0 {
        Seq::empty()
    } else {
        let r = without_tag(tags.drop_last(), tag);
        if tags.last() == tag {
            r
        } else {
            r.push(tags.last())
        }
    }
}

/// A strategy of the bundled JSON list, without the retired `google` tag.
pub open spec fn json_strategy(s: StrategyView) -> StrategyView {
    StrategyView { tags: without_tag(s.tags, "google"@), ..s }
}

/// `tags` without `google`.
fn drop_google(tags: Vec<String>) -> (res: Vec<String>)
    ensures
        strs(res@) == without_tag(strs(tags@), "google"@),
{
    let g = chars_of("google");
    let mut out: Vec<String> = Vec::new();
    let mut i: usize = 0;
    assert(strs(tags@).take(0) =~= Seq::<Seq<char>>::empty());
    while i < tags.len()
        invariant
            i <= tags.len(),
            g@ == "google"@,
            strs(out@) == without_tag(strs(tags@).take(i as int), "google"@),
        decreases tags.len() - i,
    {
        assert(strs(tags@).take(i + 1).drop_last() =~= strs(tags@).take(i as int));
        assert(strs(tags@).take(i + 1).last() == tags@[i as int]@);
        let c = chars_of(tags[i].as_str());
        if !same(&c, &g) {
            let t = string_of(&c);
            let ghost prev = out@;
            out.push(t);
            assert(strs(out@) =~= strs(prev).push(t@));
        }
        i += 1;
    }
    assert(strs(tags@).take(tags@.len() as int) =~= strs(tags@));
    out
}

/// The strategies read from the bundled JSON list (used when zapret has no
/// `.bat` strategies), each without the `google` tag.
pub fn load_strategies_json_fallback(list: Vec<Strategy>) -> (res: Vec<Strategy>)
    ensures
        strategy_views(res@) == strategy_views(list@).map_values(|s: StrategyView| json_strategy(s)),
{
    let ghost all = list@;
    let n = list.len();
    let mut out: Vec<Strategy> = Vec::new();
    let mut i: usize = 0;
    assert(all.take(0) =~= Seq::<Strategy>::empty());
    for s in it: list.into_iter()
        invariant
            it.seq() == all,
            n == all.len(),
            i == it.index(),
            strategy_views(out@) == strategy_views(all.take(i as int)).map_values(
                |s: StrategyView| json_strategy(s),
            ),
    {
        let ghost prev = out@;
        assert(all.take(i + 1).last() == s);
        assert(all.take(i + 1).drop_last() =~= all.take(i as int));
        let Strategy { id, name, description, tags, source_bat, args } = s;
        let tags = drop_google(tags);
        let t = Strategy { id, name, description, tags, source_bat, args };
        assert(t@ == json_strategy(s@));
        out.push(t);
        assert(strategy_views(out@) =~= strategy_views(prev).push(t@));
        assert(strategy_views(all.take(i + 1)).map_values(|s: StrategyView| json_strategy(s))
            =~= strategy_views(all.take(i as int)).map_values(|s: StrategyView| json_strategy(s)).push(json_strategy(all.take(i + 1).last()@)));
        i += 1;
        assert(strategy_views(out@) =~= strategy_views(all.take(i as int)).map_values(
            |s: StrategyView| json_strategy(s),
        ));
    }
    assert(all.take(all.len() as int) =~= all);
    out
}

// ---------------------------------------------------------------------------
// Custom strategies
// ---------------------------------------------------------------------------

/// What a custom strategy is saved as, `(file name, text)`, or why it is
/// refused: zapret must be installed, the text must not be blank and must
/// call `winws.exe`.
pub open spec fn custom_strategy_file(
    winws_installed: bool,
    display_name: Seq<char>,
    content: Seq<char>,
) -> Result<(Seq<char>, Seq<char>), Seq<char>> {
    let t = text::trim(content);
    if !winws_installed {
        Err("Сначала установите zapret"@)
    } else if t.len() == 0 {
        Err("Содержимое .bat пустое"@)
    } else if !text::contains(text::lowercase(t), "winws.exe"@) {
        Err("В файле должен быть вызов winws.exe"@)
    } else {
        Ok(("general ("@ + sanitized_name(display_name) + ").bat"@, t))
    }
}

/// Checks a custom strategy and gives the file name and text to write:
/// `general (NAME).bat` with the name made safe for a file name.
pub fn save_custom_strategy(winws_installed: bool, display_name: &str, content: &str) -> (res:
    Result<(String, String), String>)
    ensures
        match res {
            Ok((f, t)) => custom_strategy_file(winws_installed, display_name@, content@) == Ok::<
                (Seq<char>, Seq<char>),
                Seq<char>,
            >((f@, t@)),
            Err(e) => custom_strategy_file(winws_installed, display_name@, content@) == Err::<
                (Seq<char>, Seq<char>),
                Seq<char>,
            >(e@),
        },
{
    if !winws_installed {
        return Err(text::owned("Сначала установите zapret"));
    }
    let c = chars_of(content);
    let t = text::trim_chars(&c);
    if t.len() == 0 {
        return Err(text::owned("Содержимое .bat пустое"));
    }
    let lower = text::to_lower(&t);
    if !mentions(&lower, "winws.exe") {
        return Err(text::owned("В файле должен быть вызов winws.exe"));
    }
    let safe = sanitize_display_name(display_name);
    let open = chars_of("general (");
    let close = chars_of(").bat");
    let sc = chars_of(safe.as_str());
    let a = concat(&open, &sc);
    let filename = concat(&a, &close);
    Ok((string_of(&filename), string_of(&t)))
}

/// The error when the custom strategy's file already exists.
pub fn custom_strategy_exists_message(filename: &str) -> (res: String)
    ensures
        res@ == "Файл уже существует: "@ + filename@,
{
    let p = chars_of("Файл уже существует: ");
    let f = chars_of(filename);
    let r = concat(&p, &f);
    string_of(&r)
}

/// The strategy for a `.bat` the user just added.
pub fn strategy_from_bat(name: &str, content: &str, bin: &str, lists: &str, flag: Option<&str>) -> (res:
    Strategy)
    ensures
        res@ == strategy_of_bat(name@, content@, bin@, lists@, opt_str(flag), "Запуск: "@ + name@),
{
    build_bat_strategy(name, content, bin, lists, flag, false)
}

/// The `winws.exe` arguments of a `.bat`, split for spawning.
pub open spec fn winws_argv(
    content: Seq<char>,
    bin: Seq<char>,
    lists: Seq<char>,
    flag: Option<Seq<char>>,
) -> Result<Seq<Seq<char>>, Seq<char>> {
    match parsed_args(content, bin, lists, flag) {
        Ok(a) => Ok(command_line_args(a)),
        Err(e) => Err(e),
    }
}

/// The `winws.exe` arguments of a `.bat`, expanded and split.
pub fn winws_argv_from_bat(content: &str, bin: &str, lists: &str, flag: Option<&str>) -> (res: Result<
    Vec<String>,
    String,
>)
    ensures
        match res {
            Ok(v) => winws_argv(content@, bin@, lists@, opt_str(flag)) == Ok::<
                Seq<Seq<char>>,
                Seq<char>,
            >(strs(v@)),
            Err(e) => winws_argv(content@, bin@, lists@, opt_str(flag)) == Err::<
                Seq<Seq<char>>,
                Seq<char>,
            >(e@),
        },
{
    match parse_winws_args(content, bin, lists, flag) {
        Ok(a) => Ok(split_command_line(a.as_str())),
        Err(e) => Err(e),
    }
}

} // verus!
