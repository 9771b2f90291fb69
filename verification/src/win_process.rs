//! Windows processes: quoting for PowerShell and the script that restarts
//! fastpatch with administrator rights. Running PowerShell is the caller's
//! part.

use crate::text;
use crate::text::{cat2, cat3, chars_of, concat, seqs, string_of, strs};
use vstd::prelude::*;

verus! {

/// `s` as the inside of a single-quoted PowerShell string: each `'`
/// doubled.
pub open spec fn ps_escaped(s: Seq<char>) -> Seq<char> {
    text::replace(s, "'"@, "''"@)
}

/// The number of `c` in `s`.
pub open spec fn count_char(s: Seq<char>, c: char) -> nat
    decreases s.len(),
{
    if s.len() == 0 {
        0
    } else {
        (if s[0] == c {
            1nat
        } else {
            0nat
        }) + count_char(s.drop_first(), c)
    }
}

proof fn lemma_escape_from(s: Seq<char>, i: int)
    requires
        0 <= i <= s.len(),
    ensures
        text::replace_from(text::replace_from(s, "'"@, "''"@, i), "''"@, "'"@, 0) == s.subrange(
            i,
            s.len() as int,
        ),
        text::replace_from(s, "'"@, "''"@, i).len() == (s.len() - i) + count_char(
            s.subrange(i, s.len() as int),
            '\'',
        ),
    decreases s.len() - i,
{
    reveal_strlit("'");
    reveal_strlit("''");
    let q = "'"@;
    let qq = "''"@;
    let e = text::replace_from(s, q, qq, i);
    let t = s.subrange(i, s.len() as int);
    assert(q =~= seq!['\'']);
    assert(qq =~= seq!['\'', '\'']);
    if i == s.len() {
        assert(text::find_from(s, q, i) is None);
        assert(e =~= Seq::<char>::empty());
        assert(text::find_from(e, qq, 0) is None);
        assert(t =~= Seq::<char>::empty());
    } else {
        lemma_escape_from(s, i + 1);
        let e1 = text::replace_from(s, q, qq, i + 1);
        assert(t.drop_first() =~= s.subrange(i + 1, s.len() as int));
        assert(s.subrange(i, i + 1) =~= seq![s[i]]);
        if s[i] == '\'' {
            assert(s.subrange(i, i + 1) =~= q);
            text::lemma_replace_hit(s, q, qq, i);
            assert(e == qq + e1);
            assert((qq + e1).subrange(0, 2) =~= qq);
            assert(text::matches_at(e, 0, qq));
            text::lemma_replace_hit(e, qq, q, 0);
            text::lemma_replace_shift(qq, e1, qq, q, 0);
            assert(q + s.subrange(i + 1, s.len() as int) =~= t);
        } else {
            assert(s.subrange(i, i + 1)[0] != q[0]);
            text::lemma_replace_keep(s, q, qq, i);
            assert(e == seq![s[i]] + e1);
            assert(e[0] == s[i]);
            assert(!text::matches_at(e, 0, qq)) by {
                if text::matches_at(e, 0, qq) {
                    assert(e.subrange(0, 2)[0] == qq[0]);
                }
            }
            text::lemma_replace_keep(e, qq, q, 0);
            text::lemma_replace_shift(seq![s[i]], e1, qq, q, 0);
            assert(seq![s[i]] + s.subrange(i + 1, s.len() as int) =~= t);
        }
    }
}

/// Escaping for PowerShell can be undone: replacing each `''` of the
/// escaped text by `'` gives the text back; and escaping adds one
/// character for each `'` of the text.
pub proof fn lemma_ps_escape_roundtrip(s: Seq<char>)
    ensures
        text::replace(ps_escaped(s), "''"@, "'"@) == s,
        ps_escaped(s).len() == s.len() + count_char(s, '\''),
{
    lemma_escape_from(s, 0);
    assert(s.subrange(0, s.len() as int) =~= s);
}

pub fn ps_escape(s: &str) -> (res: String)
    ensures
        res@ == ps_escaped(s@),
{
    proof {
        reveal_strlit("'");
    }
    let c = chars_of(s);
    let r = text::replace_str(&c, "'", "''");
    string_of(&r)
}

/// The script that checks for administrator rights.
pub fn elevation_check_script() -> (res: &'static str)
    ensures
        res@
            == "([Security.Principal.WindowsPrincipal][Security.Principal.WindowsIdentity]::GetCurrent()).IsInRole([Security.Principal.WindowsBuiltInRole]::Administrator)"@,
{
    "([Security.Principal.WindowsPrincipal][Security.Principal.WindowsIdentity]::GetCurrent()).IsInRole([Security.Principal.WindowsBuiltInRole]::Administrator)"
}

/// The elevation check's output means "elevated".
pub fn is_elevated_output(stdout: &str) -> (res: bool)
    ensures
        res == text::eq_ignore_ascii_case(text::trim(stdout@), "true"@),
{
    let c = chars_of(stdout);
    let t = text::trim_chars(&c);
    text::eq_ignore_ascii_case_str(&t, "true")
}

/// The arguments as a PowerShell list: each quoted, joined by commas.
pub open spec fn ps_arg_list(args: Seq<Seq<char>>) -> Seq<char> {
    text::join(args.map_values(|a: Seq<char>| "'"@ + ps_escaped(a) + "'"@), ","@)
}

/// The script that starts fastpatch again with administrator rights, with
/// the same arguments.
pub open spec fn relaunch_script(exe: Seq<char>, args: Seq<Seq<char>>) -> Seq<char> {
    let list = ps_arg_list(args);
    if list.len() == 0 {
        "Start-Process -FilePath '"@ + ps_escaped(exe) + "' -Verb RunAs"@
    } else {
        "Start-Process -FilePath '"@ + ps_escaped(exe) + "' -ArgumentList "@ + list
            + " -Verb RunAs"@
    }
}

pub fn relaunch_as_admin_script(exe: &str, args: &Vec<String>) -> (res: String)
    ensures
        res@ == relaunch_script(exe@, strs(args@)),
{
    let mut quoted: Vec<Vec<char>> = Vec::new();
    let mut i: usize = 0;
    while i < args.len()
        invariant
            i <= args.len(),
            quoted.len() == i,
            forall|k: int| 0 <= k < i ==> #[trigger] quoted@[k]@ == "'"@ + ps_escaped(args@[k]@)
                + "'"@,
        decreases args.len() - i,
    {
        let e = ps_escape(args[i].as_str());
        let q = cat3("'", e.as_str(), "'");
        quoted.push(chars_of(q.as_str()));
        i += 1;
    }
    assert(seqs(quoted@) =~= strs(args@).map_values(|a: Seq<char>| "'"@ + ps_escaped(a) + "'"@));
    let comma = chars_of(",");
    let list = text::join_chars(&quoted, &comma);
    let exe_s = ps_escape(exe);
    if list.len() == 0 {
        cat3("Start-Process -FilePath '", exe_s.as_str(), "' -Verb RunAs")
    } else {
        let a = cat3("Start-Process -FilePath '", exe_s.as_str(), "' -ArgumentList ");
        let ls = string_of(&list);
        cat3(a.as_str(), ls.as_str(), " -Verb RunAs")
    }
}

/// The message when `winws.exe` cannot be started without rights.
pub fn spawn_not_elevated_message() -> (res: String)
    ensures
        res@ == "Нет прав администратора. В fastpatch нажмите «Запустить от имени администратора»."@,
{
    text::owned("Нет прав администратора. В fastpatch нажмите «Запустить от имени администратора».")
}

/// The message when `winws.exe` could not be started.
pub fn spawn_failed_message(error: &str) -> (res: String)
    ensures
        res@ == "Не удалось запустить winws.exe: "@ + error@,
{
    cat2("Не удалось запустить winws.exe: ", error)
}

/// The message when fastpatch could not be restarted elevated.
pub fn relaunch_failed_message(error: &str) -> (res: String)
    ensures
        res@ == "Не удалось перезапустить fastpatch с правами администратора: "@ + error@,
{
    cat2("Не удалось перезапустить fastpatch с правами администратора: ", error)
}

} // verus!
