//! Reading a release archive and planning its extraction into the zapret
//! folder: which entries become which directories and files, with the
//! folder that wraps the whole archive stripped.

use super::updater::{
    detect_strip_prefix, head_view, heads_view, opt_string, shared_root, update_keeps_entry,
    update_writes_entry, EntryHead,
};
use crate::text::{cat2, chars_of, concat, slice, string_of};
use vstd::prelude::*;

verus! {

// ---------------------------------------------------------------------------
// The archive's entries
// ---------------------------------------------------------------------------

#[verifier::external_type_specification]
#[verifier::external_body]
#[verifier::reject_recursive_types(T)]
pub struct ExCursor<T>(std::io::Cursor<T>);

#[verifier::external_type_specification]
#[verifier::external_body]
#[verifier::reject_recursive_types(R)]
pub struct ExZipArchive<R>(zip::ZipArchive<R>);

/// An archive entry as read: its safe name (`None` when the archive gives
/// it none), whether it is a directory, and its content or the message of
/// the error met while decompressing it.
pub struct ZipEntry {
    pub name: Option<String>,
    pub is_dir: bool,
    pub content: Result<Vec<u8>, String>,
}

/// An entry as plain values: name, directory or not, content or error.
pub type EntryView = (Option<Seq<char>>, bool, Result<Seq<u8>, Seq<char>>);

pub open spec fn entry_view(e: ZipEntry) -> EntryView {
    (
        opt_string(e.name),
        e.is_dir,
        match e.content {
            Ok(c) => Ok(c@),
            Err(m) => Err(m@),
        },
    )
}

/// An entry, or the message of the error met looking it up.
pub open spec fn item_view(r: Result<ZipEntry, String>) -> Result<EntryView, Seq<char>> {
    match r {
        Ok(e) => Ok(entry_view(e)),
        Err(m) => Err(m@),
    }
}

pub open spec fn items_view(v: Seq<Result<ZipEntry, String>>) -> Seq<Result<EntryView, Seq<char>>> {
    v.map_values(|r: Result<ZipEntry, String>| item_view(r))
}

/// What the archive in `bytes` holds, entry by entry in its order, or the
/// message of the error met opening it.
pub uninterp spec fn zip_entries_of(bytes: Seq<u8>) -> Result<
    Seq<Result<(Option<Seq<char>>, bool, Result<Seq<u8>, Seq<char>>), Seq<char>>>,
    Seq<char>,
>;

/// What an opened archive holds, entry by entry in its order.
pub uninterp spec fn archive_entries(a: zip::ZipArchive<std::io::Cursor<Vec<u8>>>) -> Seq<
    Result<(Option<Seq<char>>, bool, Result<Seq<u8>, Seq<char>>), Seq<char>>,
>;

/// `zip::ZipArchive::new` over a copy of the bytes. The contract claims that
/// the archive it opens holds the entries that `zip_entries_of` names for
/// those bytes, or that it fails with the message of that error.
#[verifier::external_body]
fn open_zip(bytes: &Vec<u8>) -> (res: Result<zip::ZipArchive<std::io::Cursor<Vec<u8>>>, String>)
    ensures
        match res {
            Ok(a) => zip_entries_of(bytes@) == Ok::<Seq<Result<EntryView, Seq<char>>>, Seq<char>>(
                archive_entries(a),
            ),
            Err(m) => zip_entries_of(bytes@) == Err::<Seq<Result<EntryView, Seq<char>>>, Seq<char>>(
                m@,
            ),
        },
{
    zip::ZipArchive::new(std::io::Cursor::new(bytes.clone())).map_err(|e| e.to_string())
}

/// `zip::ZipArchive::len`: the claim is that it counts the entries.
#[verifier::external_body]
fn zip_len(a: &zip::ZipArchive<std::io::Cursor<Vec<u8>>>) -> (n: usize)
    ensures
        n == archive_entries(*a).len(),
{
    a.len()
}

/// `zip::ZipArchive::by_index`, then the entry's `enclosed_name` (as text),
/// `is_dir` and `read_to_end`. The contract claims that this gives entry
/// `i` as `archive_entries` has it (the lookup's error message in place of
/// the entry when `by_index` fails), and that the archive's entries stay
/// what they were.
#[verifier::external_body]
fn zip_entry(a: &mut zip::ZipArchive<std::io::Cursor<Vec<u8>>>, i: usize) -> (res: Result<ZipEntry, String>)
    requires
        i < archive_entries(*old(a)).len(),
    ensures
        archive_entries(*final(a)) == archive_entries(*old(a)),
        item_view(res) == archive_entries(*old(a))[i as int],
{
    let mut f = a.by_index(i).map_err(|e| e.to_string())?;
    let mut content = Vec::new();
    let read = std::io::Read::read_to_end(&mut f, &mut content).map(|_| content).map_err(|e| e.to_string());
    let name = f.enclosed_name().map(|p| p.to_string_lossy().into_owned());
    Ok(ZipEntry { name, is_dir: f.is_dir(), content: read })
}

/// What reading an archive gives, as plain values.
pub open spec fn read_view(res: Result<Vec<Result<ZipEntry, String>>, String>) -> Result<
    Seq<Result<EntryView, Seq<char>>>,
    Seq<char>,
> {
    match res {
        Ok(v) => Ok(items_view(v@)),
        Err(m) => Err(m@),
    }
}

/// The entries of the archive in `bytes`, in order, or the message of the
/// error met opening it.
pub fn read_zip(bytes: &Vec<u8>) -> (res: Result<Vec<Result<ZipEntry, String>>, String>)
    ensures
        read_view(res) == zip_entries_of(bytes@),
{
    let mut archive = match open_zip(bytes) {
        Ok(a) => a,
        Err(m) => return Err(m),
    };
    let ghost all = archive_entries(archive);
    let n = zip_len(&archive);
    let mut out: Vec<Result<ZipEntry, String>> = Vec::new();
    let mut i: usize = 0;
    while i < n
        invariant
            i <= n,
            n == all.len(),
            archive_entries(archive) == all,
            zip_entries_of(bytes@) == Ok::<Seq<Result<EntryView, Seq<char>>>, Seq<char>>(all),
            items_view(out@) =~= all.take(i as int),
        decreases n - i,
    {
        let e = zip_entry(&mut archive, i);
        let ghost before = out@;
        assert(item_view(e) == all[i as int]);
        out.push(e);
        proof {
            assert(out@ == before.push(e));
            assert(items_view(out@) =~= items_view(before).push(item_view(e)));
            assert(all.take(i + 1) =~= all.take(i as int).push(all[i as int]));
        }
        i += 1;
    }
    assert(all.take(n as int) =~= all);
    Ok(out)
}

// ---------------------------------------------------------------------------
// Entry names as Windows paths
// ---------------------------------------------------------------------------

/// A path separator: `/` or `\`.
pub open spec fn is_sep(c: char) -> bool {
    c == '/' || c == '\\'
}

fn is_sep_char(c: char) -> (res: bool)
    ensures
        res == is_sep(c),
{
    c == '/' || c == '\\'
}

/// A lone `.` piece of `s` at `i`: `.` followed by a separator or the end.
pub open spec fn dot_piece_at(s: Seq<char>, i: int) -> bool {
    0 <= i < s.len() && s[i] == '.' && (i + 1 == s.len() || is_sep(s[i + 1]))
}

/// The first position at or after `i` that is neither a separator nor part
/// of a lone `.` piece: where the next component starts.
pub open spec fn skip_left(s: Seq<char>, i: int) -> int
    decreases s.len() - i,
{
    if 0 <= i < s.len() && (is_sep(s[i]) || dot_piece_at(s, i)) {
        skip_left(s, i + 1)
    } else {
        i
    }
}

/// The end of the piece that starts at `i`: the next separator, or the end.
pub open spec fn piece_end(s: Seq<char>, i: int) -> int
    decreases s.len() - i,
{
    if 0 <= i < s.len() && !is_sep(s[i]) {
        piece_end(s, i + 1)
    } else {
        i
    }
}

/// The end of `s[lo..e]` once trailing separators and lone `.` pieces are
/// dropped.
pub open spec fn trim_back(s: Seq<char>, lo: int, e: int) -> int
    decreases e - lo,
{
    if lo < e <= s.len() && (is_sep(s[e - 1]) || (s[e - 1] == '.' && (e - 1 == lo || is_sep(
        s[e - 2],
    )))) {
        trim_back(s, lo, e - 1)
    } else {
        e
    }
}

/// The start of the piece that ends at `e`: just after the separator before
/// it, or the start.
pub open spec fn piece_begin(s: Seq<char>, e: int) -> int
    decreases e,
{
    if 0 < e <= s.len() && !is_sep(s[e - 1]) {
        piece_begin(s, e - 1)
    } else {
        e
    }
}

/// A path that starts with the current directory (`.` then a separator or
/// the end).
pub open spec fn cur_dir_lead(s: Seq<char>) -> bool {
    dot_piece_at(s, 0)
}

/// The first component of a relative path when it is a plain name (`None`
/// for a path that starts at a root or at `.`, has no component, or starts
/// with `..`).
pub open spec fn first_component(s: Seq<char>) -> Option<Seq<char>> {
    if (s.len() > 0 && is_sep(s[0])) || cur_dir_lead(s) {
        None
    } else {
        let i = skip_left(s, 0);
        if i >= s.len() {
            None
        } else {
            let p = s.subrange(i, piece_end(s, i));
            if p == ".."@ {
                None
            } else {
                Some(p)
            }
        }
    }
}

/// A second component follows the first.
pub open spec fn has_nested(s: Seq<char>) -> bool {
    if cur_dir_lead(s) {
        skip_left(s, 1) < s.len()
    } else {
        let i = skip_left(s, 0);
        i < s.len() && skip_left(s, piece_end(s, i)) < s.len()
    }
}

/// The path `s` relative to the folder `root` it starts with
/// (`Path::strip_prefix`): what follows that first component, without
/// leading or trailing separators; `s` itself when it does not start with
/// `root`.
pub open spec fn relative_to(s: Seq<char>, root: Seq<char>) -> Seq<char> {
    if first_component(s) == Some(root) {
        let a = skip_left(s, piece_end(s, skip_left(s, 0)));
        s.subrange(a, trim_back(s, a, s.len() as int))
    } else {
        s
    }
}

/// `dir` joined with the relative path `rel` (`Path::join` on Windows): a
/// `\` between them unless `dir` is empty or already ends with a separator.
pub open spec fn join_path(dir: Seq<char>, rel: Seq<char>) -> Seq<char> {
    if dir.len() > 0 && !is_sep(dir.last()) {
        dir + "\\"@ + rel
    } else {
        dir + rel
    }
}

/// The last component of a path below a drive's root, when it is a plain
/// name (`Path::file_name`); empty when there is none.
pub open spec fn last_name(s: Seq<char>) -> Seq<char> {
    let e = trim_back(s, 0, s.len() as int);
    let p = s.subrange(piece_begin(s, e), e);
    if p == ".."@ {
        Seq::empty()
    } else {
        p
    }
}

fn skip_left_exec(s: &Vec<char>, i: usize) -> (r: usize)
    requires
        i <= s.len(),
    ensures
        r as int == skip_left(s@, i as int),
        i <= r <= s.len(),
{
    let mut k = i;
    while k < s.len() && (is_sep_char(s[k]) || (s[k] == '.' && (k + 1 == s.len() || is_sep_char(
        s[k + 1],
    ))))
        invariant
            i <= k <= s.len(),
            skip_left(s@, k as int) == skip_left(s@, i as int),
        decreases s.len() - k,
    {
        k += 1;
    }
    k
}

fn piece_end_exec(s: &Vec<char>, i: usize) -> (r: usize)
    requires
        i <= s.len(),
    ensures
        r as int == piece_end(s@, i as int),
        i <= r <= s.len(),
{
    let mut k = i;
    while k < s.len() && !is_sep_char(s[k])
        invariant
            i <= k <= s.len(),
            piece_end(s@, k as int) == piece_end(s@, i as int),
        decreases s.len() - k,
    {
        k += 1;
    }
    k
}

fn trim_back_exec(s: &Vec<char>, lo: usize, e: usize) -> (r: usize)
    requires
        lo <= e <= s.len(),
    ensures
        r as int == trim_back(s@, lo as int, e as int),
        lo <= r <= e,
{
    let mut k = e;
    while lo < k && (is_sep_char(s[k - 1]) || (s[k - 1] == '.' && (k - 1 == lo || is_sep_char(
        s[k - 2],
    ))))
        invariant
            lo <= k <= e,
            e <= s.len(),
            trim_back(s@, lo as int, k as int) == trim_back(s@, lo as int, e as int),
        decreases k,
    {
        k -= 1;
    }
    k
}

fn piece_begin_exec(s: &Vec<char>, e: usize) -> (r: usize)
    requires
        e <= s.len(),
    ensures
        r as int == piece_begin(s@, e as int),
        r <= e,
{
    let mut k = e;
    while 0 < k && !is_sep_char(s[k - 1])
        invariant
            k <= e,
            e <= s.len(),
            piece_begin(s@, k as int) == piece_begin(s@, e as int),
        decreases k,
    {
        k -= 1;
    }
    k
}

fn is_dot_piece(s: &Vec<char>, i: usize) -> (res: bool)
    ensures
        res == dot_piece_at(s@, i as int),
{
    i < s.len() && s[i] == '.' && (i + 1 == s.len() || is_sep_char(s[i + 1]))
}

/// The first component of a relative path when it is a plain name.
pub fn first_component_of(s: &Vec<char>) -> (res: Option<Vec<char>>)
    ensures
        match res {
            Some(p) => first_component(s@) == Some(p@),
            None => first_component(s@) is None,
        },
{
    proof {
        reveal_strlit("..");
    }
    if (s.len() > 0 && is_sep_char(s[0])) || is_dot_piece(s, 0) {
        return None;
    }
    let i = skip_left_exec(s, 0);
    if i >= s.len() {
        return None;
    }
    let j = piece_end_exec(s, i);
    let p = slice(s, i, j);
    if crate::text::is(&p, "..") {
        None
    } else {
        Some(p)
    }
}

/// Whether a second component follows the first.
pub fn has_nested_of(s: &Vec<char>) -> (res: bool)
    ensures
        res == has_nested(s@),
{
    if is_dot_piece(s, 0) {
        let k = skip_left_exec(s, 1);
        return k < s.len();
    }
    let i = skip_left_exec(s, 0);
    if i >= s.len() {
        return false;
    }
    let j = piece_end_exec(s, i);
    skip_left_exec(s, j) < s.len()
}

/// The path relative to the folder it starts with.
pub fn relative_to_of(s: &Vec<char>, root: &Vec<char>) -> (res: Vec<char>)
    ensures
        res@ == relative_to(s@, root@),
{
    let starts = match first_component_of(s) {
        Some(f) => crate::text::same(&f, root),
        None => false,
    };
    if !starts {
        return crate::text::copy(s);
    }
    let i = skip_left_exec(s, 0);
    let j = piece_end_exec(s, i);
    let a = skip_left_exec(s, j);
    let b = trim_back_exec(s, a, s.len());
    slice(s, a, b)
}

/// A directory joined with a relative path.
pub fn join_path_of(dir: &Vec<char>, rel: &Vec<char>) -> (res: Vec<char>)
    ensures
        res@ == join_path(dir@, rel@),
{
    if dir.len() > 0 && !is_sep_char(dir[dir.len() - 1]) {
        let sep = chars_of("\\");
        let a = concat(dir, &sep);
        concat(&a, rel)
    } else {
        concat(dir, rel)
    }
}

/// The last component of a path, when it is a plain name.
pub fn last_name_of(s: &Vec<char>) -> (res: Vec<char>)
    ensures
        res@ == last_name(s@),
{
    proof {
        reveal_strlit("..");
    }
    let e = trim_back_exec(s, 0, s.len());
    let b = piece_begin_exec(s, e);
    let p = slice(s, b, e);
    if crate::text::is(&p, "..") {
        Vec::new()
    } else {
        p
    }
}

// ---------------------------------------------------------------------------
// The extraction plan
// ---------------------------------------------------------------------------

/// The start of an entry's path, as the wrapping folder is looked for:
/// nothing for an entry that could not be looked up or has no safe name.
pub open spec fn head_of(item: Result<EntryView, Seq<char>>) -> (Option<Seq<char>>, bool) {
    match item {
        Ok(e) => match e.0 {
            Some(n) => (first_component(n), has_nested(n)),
            None => (None, false),
        },
        Err(_) => (None, false),
    }
}

/// The folder that wraps every entry of the archive, if one does.
pub open spec fn archive_root(items: Seq<Result<EntryView, Seq<char>>>) -> Option<Seq<char>> {
    shared_root(items.map_values(|it: Result<EntryView, Seq<char>>| head_of(it)))
}

/// Where an entry named `name` goes in `target`, with the wrapping folder
/// `root` (if any) stripped.
pub open spec fn entry_path(name: Seq<char>, root: Option<Seq<char>>, target: Seq<char>) -> Seq<
    char,
> {
    join_path(
        target,
        match root {
            Some(r) => relative_to(name, r),
            None => name,
        },
    )
}

/// One step of an extraction: the path to create (a directory) or to write
/// (a file, with the content of the entry at the index).
pub type StepView = (Seq<char>, bool, int);

/// The steps to take, in order, and the error to stop with after them.
pub type PlanView = (Seq<StepView>, Option<Seq<char>>);

/// The plan after entry `i` (`item`): once stopped it stays as it is; an
/// entry that cannot be looked up stops it; one without a safe name is
/// skipped, and so, in an update, is one that an update does not replace;
/// a directory is created; a file is written, or stops the plan when its
/// content cannot be read.
pub open spec fn plan_step(
    p: PlanView,
    item: Result<EntryView, Seq<char>>,
    i: int,
    root: Option<Seq<char>>,
    target: Seq<char>,
    full: bool,
) -> PlanView {
    if p.1 is Some {
        p
    } else {
        match item {
            Err(m) => (p.0, Some("Ошибка чтения файла в архиве: "@ + m)),
            Ok(e) => match e.0 {
                None => p,
                Some(name) => {
                    let out = entry_path(name, root, target);
                    if !full && !update_keeps_entry(out, last_name(out)) {
                        p
                    } else if e.1 {
                        (p.0.push((out, true, i)), None)
                    } else {
                        match e.2 {
                            Ok(_) => (p.0.push((out, false, i)), None),
                            Err(m) => (p.0, Some("Ошибка чтения содержимого файла: "@ + m)),
                        }
                    }
                },
            },
        }
    }
}

/// The plan after the first `n` entries.
pub open spec fn plan_upto(
    items: Seq<Result<EntryView, Seq<char>>>,
    root: Option<Seq<char>>,
    target: Seq<char>,
    full: bool,
    n: int,
) -> PlanView
    decreases n,
{
    if n <= 0 {
        (Seq::empty(), None)
    } else {
        plan_step(plan_upto(items, root, target, full, n - 1), items[n - 1], n - 1, root, target, full)
    }
}

/// The plan for extracting the archive's entries into `target` (all of
/// them for a full install, only those an update replaces otherwise).
pub open spec fn extraction_plan_of(
    items: Seq<Result<EntryView, Seq<char>>>,
    target: Seq<char>,
    full: bool,
) -> PlanView {
    plan_upto(items, archive_root(items), target, full, items.len() as int)
}

pub open spec fn plan_view(steps: Seq<(String, bool, usize)>, error: Option<String>) -> PlanView {
    (
        steps.map_values(|st: (String, bool, usize)| (st.0@, st.1, st.2 as int)),
        opt_string(error),
    )
}

proof fn lemma_plan_stopped(
    items: Seq<Result<EntryView, Seq<char>>>,
    root: Option<Seq<char>>,
    target: Seq<char>,
    full: bool,
    k: int,
    n: int,
)
    requires
        0 <= k <= n,
        plan_upto(items, root, target, full, k).1 is Some,
    ensures
        plan_upto(items, root, target, full, n) == plan_upto(items, root, target, full, k),
    decreases n - k,
{
    if k < n {
        lemma_plan_stopped(items, root, target, full, k, n - 1);
    }
}

fn head_exec(item: &Result<ZipEntry, String>) -> (h: EntryHead)
    ensures
        head_view(h) == head_of(item_view(*item)),
{
    match item {
        Ok(e) => match &e.name {
            Some(n) => {
                let c = chars_of(n.as_str());
                let first = match first_component_of(&c) {
                    Some(f) => Some(string_of(&f)),
                    None => None,
                };
                EntryHead { first, nested: has_nested_of(&c) }
            },
            None => EntryHead { first: None, nested: false },
        },
        Err(_) => EntryHead { first: None, nested: false },
    }
}

/// The folder that wraps every entry of the archive, if one does.
pub fn archive_root_of(items: &Vec<Result<ZipEntry, String>>) -> (res: Option<String>)
    ensures
        opt_string(res) == archive_root(items_view(items@)),
{
    let ghost iv = items_view(items@);
    let mut heads: Vec<EntryHead> = Vec::new();
    let mut i: usize = 0;
    while i < items.len()
        invariant
            i <= items.len(),
            iv == items_view(items@),
            heads.len() == i,
            forall|k: int| 0 <= k < i ==> #[trigger] heads_view(heads@)[k] == head_of(iv[k]),
        decreases items.len() - i,
    {
        let h = head_exec(&items[i]);
        let ghost before = heads@;
        heads.push(h);
        proof {
            assert(heads@ == before.push(h));
            assert forall|k: int| 0 <= k < i + 1 implies #[trigger] heads_view(heads@)[k] == head_of(
                iv[k],
            ) by {
                if k < i {
                    assert(heads_view(heads@)[k] == head_view(before[k]));
                    assert(heads_view(before)[k] == head_view(before[k]));
                }
            }
        }
        i += 1;
    }
    assert(heads_view(heads@) =~= iv.map_values(|it: Result<EntryView, Seq<char>>| head_of(it)));
    detect_strip_prefix(&heads)
}

/// The plan for extracting the archive's entries into `target`: the steps
/// in order, and the error to stop with after them.
pub fn extraction_plan(items: &Vec<Result<ZipEntry, String>>, target: &str, full_install: bool) -> (res: (
    Vec<(String, bool, usize)>,
    Option<String>,
))
    ensures
        plan_view(res.0@, res.1) == extraction_plan_of(items_view(items@), target@, full_install),
{
    let ghost iv = items_view(items@);
    let root = archive_root_of(items);
    let ghost gr = archive_root(iv);
    let root_chars: Option<Vec<char>> = match &root {
        Some(r) => Some(chars_of(r.as_str())),
        None => None,
    };
    let t = chars_of(target);
    let mut steps: Vec<(String, bool, usize)> = Vec::new();
    let mut i: usize = 0;
    while i < items.len()
        invariant
            i <= items.len(),
            iv == items_view(items@),
            gr == archive_root(iv),
            t@ == target@,
            match root_chars {
                Some(r) => gr == Some(r@),
                None => gr is None,
            },
            plan_view(steps@, None) == plan_upto(iv, gr, target@, full_install, i as int),
        decreases items.len() - i,
    {
        let ghost before = steps@;
        let ghost p = plan_upto(iv, gr, target@, full_install, i as int);
        assert(iv[i as int] == item_view(items@[i as int]));
        match &items[i] {
            Err(m) => {
                let msg = cat2("Ошибка чтения файла в архиве: ", m.as_str());
                proof {
                    assert(plan_upto(iv, gr, target@, full_install, i + 1) == plan_step(
                        p,
                        iv[i as int],
                        i as int,
                        gr,
                        target@,
                        full_install,
                    ));
                    assert(plan_view(steps@, Some(msg)) == plan_upto(
                        iv,
                        gr,
                        target@,
                        full_install,
                        i + 1,
                    ));
                    lemma_plan_stopped(iv, gr, target@, full_install, i + 1, iv.len() as int);
                }
                return (steps, Some(msg));
            },
            Ok(e) => match &e.name {
                None => {},
                Some(n) => {
                    let c = chars_of(n.as_str());
                    let rel = match &root_chars {
                        Some(r) => relative_to_of(&c, r),
                        None => c,
                    };
                    let out = join_path_of(&t, &rel);
                    let name = last_name_of(&out);
                    let out_s = string_of(&out);
                    let keep = full_install || update_writes_entry(out_s.as_str(), string_of(&name).as_str());
                    if keep {
                        if e.is_dir {
                            steps.push((out_s, true, i));
                            proof {
                                assert(plan_view(steps@, None).0 =~= p.0.push((out@, true, i as int)));
                            }
                        } else {
                            match &e.content {
                                Ok(_) => {
                                    steps.push((out_s, false, i));
                                    proof {
                                        assert(plan_view(steps@, None).0 =~= p.0.push(
                                            (out@, false, i as int),
                                        ));
                                    }
                                },
                                Err(m) => {
                                    let msg = cat2("Ошибка чтения содержимого файла: ", m.as_str());
                                    proof {
                                        assert(plan_upto(iv, gr, target@, full_install, i + 1) == plan_step(
                        p,
                        iv[i as int],
                        i as int,
                        gr,
                        target@,
                        full_install,
                    ));
                                        assert(plan_view(steps@, Some(msg)) == plan_upto(
                        iv,
                        gr,
                        target@,
                        full_install,
                        i + 1,
                    ));
                                        lemma_plan_stopped(
                                            iv,
                                            gr,
                                            target@,
                                            full_install,
                                            i + 1,
                                            iv.len() as int,
                                        );
                                    }
                                    return (steps, Some(msg));
                                },
                            }
                        }
                    }
                },
            },
        }
        i += 1;
    }
    (steps, None)
}

/// An archive opened for extraction: its entries, the steps to take, in
/// order, and the error to stop with after them.
pub struct Extraction {
    pub entries: Vec<Result<ZipEntry, String>>,
    pub steps: Vec<(String, bool, usize)>,
    pub error: Option<String>,
}

/// Opens the archive in `bytes` and plans its extraction into `target`
/// (every entry for a full install, only those an update replaces
/// otherwise); an archive that cannot be opened is an error.
pub fn extract_zip(bytes: &Vec<u8>, target: &str, full_install: bool) -> (res: Result<Extraction, String>)
    ensures
        match zip_entries_of(bytes@) {
            Ok(items) => res matches Ok(x) && items_view(x.entries@) == items && plan_view(
                x.steps@,
                x.error,
            ) == extraction_plan_of(items, target@, full_install),
            Err(m) => res matches Err(e) && e@ == "Ошибка открытия архива: "@ + m,
        },
{
    match read_zip(bytes) {
        Ok(entries) => {
            let (steps, error) = extraction_plan(&entries, target, full_install);
            Ok(Extraction { entries, steps, error })
        },
        Err(m) => Err(cat2("Ошибка открытия архива: ", m.as_str())),
    }
}

} // verus!
