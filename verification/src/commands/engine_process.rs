//! Process ids of `winws.exe` / `winws2.exe`, read from the CSV output of
//! `tasklist /FO CSV /NH` (which the caller runs).

use crate::text;
use crate::text::{chars_of, eq_ignore_ascii_case_str, seqs};
use vstd::prelude::*;

verus! {

/// `s` without leading and trailing double quotes (`str::trim_matches('"')`).
pub open spec fn unquote(s: Seq<char>) -> Seq<char> {
    text::trim_end_matches(text::trim_start_matches(s, "\""@), "\""@)
}

pub fn unquote_chars(s: &Vec<char>) -> (res: Vec<char>)
    ensures
        res@ == unquote(s@),
{
    let a = text::trim_start_matches_chars(s, "\"");
    text::trim_end_matches_chars(&a, "\"")
}

/// The process id on one line of `tasklist` output for `image`: a CSV line
/// whose first field is the image name (ignoring ASCII case) and whose
/// second field is a positive number.
pub open spec fn pid_on_line(line: Seq<char>, image: Seq<char>) -> Option<u32> {
    let t = text::trim(line);
    let parts = text::split(t, ',');
    if t.len() == 0 || text::starts_with(t, "INFO:"@) || parts.len() < 2 {
        None
    } else if !text::eq_ignore_ascii_case(unquote(text::trim(parts[0])), image) {
        None
    } else {
        match text::parse_u32(unquote(text::trim(parts[1]))) {
            Some(pid) => if pid > 0 {
                Some(pid)
            } else {
                None
            },
            None => None,
        }
    }
}

/// The process ids for `image` found on `lines`, in order.
pub open spec fn pids_on_lines(lines: Seq<Seq<char>>, image: Seq<char>) -> Seq<u32>
    decreases lines.len(),
{
    if lines.len() == 0 {
        Seq::empty()
    } else {
        let r = pids_on_lines(lines.drop_last(), image);
        match pid_on_line(lines.last(), image) {
            Some(p) => r.push(p),
            None => r,
        }
    }
}

/// The process ids for `image` in a `tasklist` listing.
pub open spec fn pids_in_listing(listing: Seq<char>, image: Seq<char>) -> Seq<u32> {
    pids_on_lines(text::lines(listing), image)
}

fn pid_on_line_exec(line: &Vec<char>, image: &str) -> (res: Option<u32>)
    ensures
        res == pid_on_line(line@, image@),
{
    let t = text::trim_chars(line);
    let parts = text::split_chars(&t, ',');
    if t.len() == 0 || text::begins(&t, "INFO:") || parts.len() < 2 {
        return None;
    }
    let p0 = text::trim_chars(&parts[0]);
    let name = unquote_chars(&p0);
    if !eq_ignore_ascii_case_str(&name, image) {
        return None;
    }
    let p1 = text::trim_chars(&parts[1]);
    let num = unquote_chars(&p1);
    match text::parse_u32_chars(&num) {
        Some(pid) => if pid > 0 {
            Some(pid)
        } else {
            None
        },
        None => None,
    }
}

/// The process ids of `image` in the output of `tasklist /FO CSV /NH`.
pub fn pids_for_image(image: &str, listing: &str) -> (res: Vec<u32>)
    ensures
        res@ == pids_in_listing(listing@, image@),
{
    let c = chars_of(listing);
    let ls = text::lines_of(&c);
    let mut out: Vec<u32> = Vec::new();
    let mut i: usize = 0;
    assert(seqs(ls@).take(0) =~= Seq::<Seq<char>>::empty());
    while i < ls.len()
        invariant
            i <= ls.len(),
            seqs(ls@) == text::lines(listing@),
            out@ == pids_on_lines(seqs(ls@).take(i as int), image@),
        decreases ls.len() - i,
    {
        assert(seqs(ls@).take(i + 1).drop_last() =~= seqs(ls@).take(i as int));
        assert(seqs(ls@).take(i + 1).last() == ls@[i as int]@);
        match pid_on_line_exec(&ls[i], image) {
            Some(p) => out.push(p),
            None => {},
        }
        i += 1;
    }
    assert(seqs(ls@).take(ls@.len() as int) =~= seqs(ls@));
    out
}

/// The process ids of `winws.exe` in a `tasklist` listing.
pub fn find_winws_pids(listing: &str) -> (res: Vec<u32>)
    ensures
        res@ == pids_in_listing(listing@, "winws.exe"@),
{
    pids_for_image("winws.exe", listing)
}

/// The process ids of `winws2.exe` in a `tasklist` listing.
pub fn find_winws2_pids(listing: &str) -> (res: Vec<u32>)
    ensures
        res@ == pids_in_listing(listing@, "winws2.exe"@),
{
    pids_for_image("winws2.exe", listing)
}

/// The first element of `s`, if any.
pub open spec fn first_of(s: Seq<u32>) -> Option<u32> {
    if s.len() > 0 {
        Some(s[0])
    } else {
        None
    }
}

/// The first `winws.exe` process id in a `tasklist` listing.
pub fn find_winws_pid(listing: &str) -> (res: Option<u32>)
    ensures
        res == first_of(pids_in_listing(listing@, "winws.exe"@)),
{
    let v = find_winws_pids(listing);
    if v.len() > 0 {
        Some(v[0])
    } else {
        None
    }
}

/// The first `winws2.exe` process id in a `tasklist` listing.
pub fn find_winws2_pid(listing: &str) -> (res: Option<u32>)
    ensures
        res == first_of(pids_in_listing(listing@, "winws2.exe"@)),
{
    let v = find_winws2_pids(listing);
    if v.len() > 0 {
        Some(v[0])
    } else {
        None
    }
}

/// The process id in the second field of a `tasklist` line, whatever the
/// image (used for the `PID eq` filter).
pub open spec fn any_pid_on_line(line: Seq<char>) -> Option<u32> {
    let t = text::trim(line);
    let parts = text::split(t, ',');
    if t.len() == 0 || text::starts_with(t, "INFO:"@) || parts.len() < 2 {
        None
    } else {
        text::parse_u32(unquote(text::trim(parts[1])))
    }
}

/// Some line of `lines` names process `pid`.
pub open spec fn listing_has_pid(lines: Seq<Seq<char>>, pid: u32) -> bool {
    exists|i: int| 0 <= i < lines.len() && any_pid_on_line(lines[i]) == Some(pid)
}

/// The process `pid` appears in the output of `tasklist /FI "PID eq <pid>"`.
pub fn is_pid_running(pid: u32, listing: &str) -> (res: bool)
    ensures
        res == (pid != 0 && listing_has_pid(text::lines(listing@), pid)),
{
    if pid == 0 {
        return false;
    }
    let c = chars_of(listing);
    let ls = text::lines_of(&c);
    let mut i: usize = 0;
    while i < ls.len()
        invariant
            i <= ls.len(),
            seqs(ls@) == text::lines(listing@),
            pid != 0,
            forall|j: int| 0 <= j < i ==> any_pid_on_line(seqs(ls@)[j]) != Some(pid),
        decreases ls.len() - i,
    {
        assert(seqs(ls@)[i as int] == ls@[i as int]@);
        let t = text::trim_chars(&ls[i]);
        let parts = text::split_chars(&t, ',');
        if !(t.len() == 0 || text::begins(&t, "INFO:") || parts.len() < 2) {
            let p1 = text::trim_chars(&parts[1]);
            let num = unquote_chars(&p1);
            match text::parse_u32_chars(&num) {
                Some(p) => {
                    if p == pid {
                        assert(any_pid_on_line(seqs(ls@)[i as int]) == Some(pid));
                        assert(listing_has_pid(text::lines(listing@), pid));
                        return true;
                    }
                },
                None => {},
            }
        }
        i += 1;
    }
    false
}

/// One step of waiting for an engine to stop: wait `step` more
/// milliseconds, and kill the engine again when the time waited reaches a
/// multiple of `every`.
#[derive(Clone, Debug)]
pub struct WaitStep {
    pub waited: u64,
    pub kill_again: bool,
}

/// Whether to keep waiting for an engine to stop: while it still runs and
/// less than `max_wait_ms` has passed, the next step; otherwise `None`.
pub fn wait_step(running: bool, waited: u64, max_wait_ms: u64, step: u64, every: u64) -> (res:
    Option<WaitStep>)
    requires
        every > 0,
        running && waited < max_wait_ms ==> waited + step <= u64::MAX,
    ensures
        match res {
            Some(s) => running && waited < max_wait_ms && s.waited == waited + step
                && s.kill_again == ((waited + step) % (every as int) == 0),
            None => !(running && waited < max_wait_ms),
        },
{
    if running && waited < max_wait_ms {
        let w = waited + step;
        Some(WaitStep { waited: w, kill_again: w % every == 0 })
    } else {
        None
    }
}

/// Waiting for `winws.exe` to stop: steps of 100 ms, killing again every
/// 500 ms.
pub fn winws_wait_step(running: bool, waited: u64, max_wait_ms: u64) -> (res: Option<WaitStep>)
    requires
        running && waited < max_wait_ms ==> waited + 100 <= u64::MAX,
    ensures
        match res {
            Some(s) => running && waited < max_wait_ms && s.waited == waited + 100
                && s.kill_again == ((waited + 100) % 500 == 0),
            None => !(running && waited < max_wait_ms),
        },
{
    wait_step(running, waited, max_wait_ms, 100, 500)
}

/// Waiting for `winws2.exe` to stop: steps of 200 ms, killing again every
/// 2 s.
pub fn winws2_wait_step(running: bool, waited: u64, max_wait_ms: u64) -> (res: Option<WaitStep>)
    requires
        running && waited < max_wait_ms ==> waited + 200 <= u64::MAX,
    ensures
        match res {
            Some(s) => running && waited < max_wait_ms && s.waited == waited + 200
                && s.kill_again == ((waited + 200) % 2000 == 0),
            None => !(running && waited < max_wait_ms),
        },
{
    wait_step(running, waited, max_wait_ms, 200, 2000)
}

} // verus!
