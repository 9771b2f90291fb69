//! Character-level helpers shared by the parsers, each with the meaning of
//! the corresponding `str` operation stated over `Seq<char>`.

use vstd::prelude::*;

verus! {

// ---------------------------------------------------------------------------
// Conversions between `str`/`String` and `Vec<char>`
// ---------------------------------------------------------------------------

/// The characters of `s`, in order.
pub fn chars_of(s: &str) -> (res: Vec<char>)
    ensures
        res@ == s@,
{
    let mut out: Vec<char> = Vec::new();
    for c in it: s.chars()
        invariant
            out@ == it.seq().take(it.index() as int),
            it.seq() == s@,
    {
        out.push(c);
    }
    out
}

/// `String::push` (std), which vstd leaves without a specification: the
/// contract claims that afterwards the string holds its old characters
/// followed by `c`, as the documentation says ("appends the given char to
/// the end of this String").
#[verifier::external_body]
fn push_char(s: &mut String, c: char)
    ensures
        final(s)@ == old(s)@.push(c),
{
    s.push(c);
}

/// The string made of the characters of `v`.
pub fn string_of(v: &Vec<char>) -> (res: String)
    ensures
        res@ == v@,
{
    let mut out = String::new();
    let mut i: usize = 0;
    while i < v.len()
        invariant
            i <= v.len(),
            out@ == v@.take(i as int),
        decreases v.len() - i,
    {
        push_char(&mut out, v[i]);
        i += 1;
        assert(out@ == v@.take(i as int));
    }
    assert(v@.take(v@.len() as int) == v@);
    out
}

/// The characters of a string literal or other `&str`, as an owned `String`.
pub fn owned(s: &str) -> (res: String)
    ensures
        res@ == s@,
{
    s.to_owned()
}

/// `a`, `b` and `c` one after the other.
pub fn cat3(a: &str, b: &str, c: &str) -> (res: String)
    ensures
        res@ == a@ + b@ + c@,
{
    let x = chars_of(a);
    let y = chars_of(b);
    let z = chars_of(c);
    let xy = concat(&x, &y);
    let r = concat(&xy, &z);
    string_of(&r)
}

/// `a` and `b` one after the other.
pub fn cat2(a: &str, b: &str) -> (res: String)
    ensures
        res@ == a@ + b@,
{
    let x = chars_of(a);
    let y = chars_of(b);
    let r = concat(&x, &y);
    string_of(&r)
}

/// The view of an optional string.
pub open spec fn opt_str(o: Option<&str>) -> Option<Seq<char>> {
    match o {
        Some(s) => Some(s@),
        None => None,
    }
}

/// The view of an optional character vector.
pub open spec fn opt_chars(o: Option<Vec<char>>) -> Option<Seq<char>> {
    match o {
        Some(v) => Some(v@),
        None => None,
    }
}

/// The view of a result whose both sides are strings.
pub open spec fn res_str(r: Result<String, String>) -> Result<Seq<char>, Seq<char>> {
    match r {
        Ok(s) => Ok(s@),
        Err(e) => Err(e@),
    }
}

/// The views of a sequence of strings.
pub open spec fn strs(v: Seq<String>) -> Seq<Seq<char>> {
    v.map_values(|s: String| s@)
}

/// The views of a sequence of character vectors.
pub open spec fn seqs(v: Seq<Vec<char>>) -> Seq<Seq<char>> {
    v.map_values(|s: Vec<char>| s@)
}

/// Converts each character vector into a `String`.
pub fn strings_of(v: &Vec<Vec<char>>) -> (res: Vec<String>)
    ensures
        strs(res@) == seqs(v@),
{
    let mut out: Vec<String> = Vec::new();
    let mut i: usize = 0;
    while i < v.len()
        invariant
            i <= v.len(),
            out.len() == i,
            forall|k: int| 0 <= k < i ==> #[trigger] out@[k]@ == v@[k]@,
        decreases v.len() - i,
    {
        let s = string_of(&v[i]);
        out.push(s);
        i += 1;
    }
    assert(strs(out@) =~= seqs(v@));
    out
}

/// A copy of `s[from..to]`.
pub fn slice(s: &Vec<char>, from: usize, to: usize) -> (res: Vec<char>)
    requires
        from <= to <= s.len(),
    ensures
        res@ == s@.subrange(from as int, to as int),
{
    let mut out: Vec<char> = Vec::new();
    let mut i = from;
    while i < to
        invariant
            from <= i <= to <= s.len(),
            out@ == s@.subrange(from as int, i as int),
        decreases to - i,
    {
        out.push(s[i]);
        i += 1;
        assert(out@ == s@.subrange(from as int, i as int));
    }
    out
}

/// A copy of `s`.
pub fn copy(s: &Vec<char>) -> (res: Vec<char>)
    ensures
        res@ == s@,
{
    let r = slice(s, 0, s.len());
    assert(s@.subrange(0, s@.len() as int) =~= s@);
    r
}

/// `a` followed by `b`.
pub fn concat(a: &Vec<char>, b: &Vec<char>) -> (res: Vec<char>)
    ensures
        res@ == a@ + b@,
{
    let mut out = slice(a, 0, a.len());
    let mut i: usize = 0;
    while i < b.len()
        invariant
            i <= b.len(),
            out@ == a@ + b@.take(i as int),
        decreases b.len() - i,
    {
        out.push(b[i]);
        i += 1;
        assert(out@ == a@ + b@.take(i as int));
    }
    assert(b@.take(b@.len() as int) == b@);
    out
}

/// Whether two character vectors are equal.
pub fn same(a: &Vec<char>, b: &Vec<char>) -> (res: bool)
    ensures
        res == (a@ == b@),
{
    if a.len() != b.len() {
        return false;
    }
    let mut i: usize = 0;
    while i < a.len()
        invariant
            a.len() == b.len(),
            i <= a.len(),
            forall|j: int| 0 <= j < i ==> a@[j] == b@[j],
        decreases a.len() - i,
    {
        if a[i] != b[i] {
            return false;
        }
        i += 1;
    }
    assert(a@ =~= b@);
    true
}

/// Whether `s` equals the string `lit`.
pub fn is(s: &Vec<char>, lit: &str) -> (res: bool)
    ensures
        res == (s@ == lit@),
{
    let l = chars_of(lit);
    same(s, &l)
}

// ---------------------------------------------------------------------------
// Whitespace and trimming (`str::trim`, `str::trim_start`, `str::trim_end`)
// ---------------------------------------------------------------------------

/// The Unicode `White_Space` property, which `char::is_whitespace` tests.
pub open spec fn is_ws(c: char) -> bool {
    let u = c as u32;
    ||| 0x09 <= u <= 0x0D
    ||| u == 0x20
    ||| u == 0x85
    ||| u == 0xA0
    ||| u == 0x1680
    ||| 0x2000 <= u <= 0x200A
    ||| u == 0x2028
    ||| u == 0x2029
    ||| u == 0x202F
    ||| u == 0x205F
    ||| u == 0x3000
}

pub fn is_ws_char(c: char) -> (res: bool)
    ensures
        res == is_ws(c),
{
    let u = c as u32;
    (0x09 <= u && u <= 0x0D) || u == 0x20 || u == 0x85 || u == 0xA0 || u == 0x1680 || (0x2000
        <= u && u <= 0x200A) || u == 0x2028 || u == 0x2029 || u == 0x202F || u == 0x205F || u
        == 0x3000
}

/// `s` without its leading whitespace.
pub open spec fn trim_start(s: Seq<char>) -> Seq<char>
    decreases s.len(),
{
    if s.len() > 0 && is_ws(s[0]) {
        trim_start(s.drop_first())
    } else {
        s
    }
}

/// `s` without its trailing whitespace.
pub open spec fn trim_end(s: Seq<char>) -> Seq<char>
    decreases s.len(),
{
    if s.len() > 0 && is_ws(s.last()) {
        trim_end(s.drop_last())
    } else {
        s
    }
}

/// `s` without leading and trailing whitespace.
pub open spec fn trim(s: Seq<char>) -> Seq<char> {
    trim_end(trim_start(s))
}

/// A text with no whitespace at either end is its own trim.
pub proof fn lemma_trim_plain(s: Seq<char>)
    requires
        s.len() > 0,
        !is_ws(s[0]),
        !is_ws(s.last()),
    ensures
        trim(s) == s,
{
}

pub fn trim_start_chars(s: &Vec<char>) -> (res: Vec<char>)
    ensures
        res@ == trim_start(s@),
{
    let mut a: usize = 0;
    assert(s@.subrange(0, s@.len() as int) =~= s@);
    while a < s.len() && is_ws_char(s[a])
        invariant
            a <= s.len(),
            trim_start(s@) == trim_start(s@.subrange(a as int, s@.len() as int)),
        decreases s.len() - a,
    {
        assert(s@.subrange(a as int, s@.len() as int).drop_first() =~= s@.subrange(
            a + 1,
            s@.len() as int,
        ));
        a += 1;
    }
    slice(s, a, s.len())
}

pub fn trim_end_chars(s: &Vec<char>) -> (res: Vec<char>)
    ensures
        res@ == trim_end(s@),
{
    let mut b: usize = s.len();
    assert(s@.subrange(0, b as int) =~= s@);
    while b > 0 && is_ws_char(s[b - 1])
        invariant
            b <= s.len(),
            trim_end(s@) == trim_end(s@.subrange(0, b as int)),
        decreases b,
    {
        assert(s@.subrange(0, b as int).drop_last() =~= s@.subrange(0, b - 1));
        b -= 1;
    }
    slice(s, 0, b)
}

pub fn trim_chars(s: &Vec<char>) -> (res: Vec<char>)
    ensures
        res@ == trim(s@),
{
    let t = trim_start_chars(s);
    trim_end_chars(&t)
}

// ---------------------------------------------------------------------------
// Substring search
// ---------------------------------------------------------------------------

/// `pat` occurs in `s` at position `i`.
pub open spec fn matches_at(s: Seq<char>, i: int, pat: Seq<char>) -> bool {
    0 <= i && i + pat.len() <= s.len() && s.subrange(i, i + pat.len()) == pat
}

/// The first position at or after `i` where `pat` occurs in `s`.
pub open spec fn find_from(s: Seq<char>, pat: Seq<char>, i: int) -> Option<int>
    decreases s.len() + 1 - i,
{
    if i < 0 || i > s.len() || i + pat.len() > s.len() {
        None
    } else if matches_at(s, i, pat) {
        Some(i)
    } else {
        find_from(s, pat, i + 1)
    }
}

/// `s` contains `pat` (`str::contains`).
pub open spec fn contains(s: Seq<char>, pat: Seq<char>) -> bool {
    find_from(s, pat, 0) is Some
}

/// `s` begins with `p` (`str::starts_with`).
pub open spec fn starts_with(s: Seq<char>, p: Seq<char>) -> bool {
    p.len() <= s.len() && s.subrange(0, p.len() as int) == p
}

/// `s` ends with `p` (`str::ends_with`).
pub open spec fn ends_with(s: Seq<char>, p: Seq<char>) -> bool {
    p.len() <= s.len() && s.subrange(s.len() - p.len(), s.len() as int) == p
}

pub proof fn lemma_find_from(s: Seq<char>, pat: Seq<char>, i: int)
    requires
        0 <= i,
    ensures
        find_from(s, pat, i) matches Some(j) ==> i <= j && matches_at(s, j, pat),
        find_from(s, pat, i) is None ==> forall|j: int| i <= j ==> !matches_at(s, j, pat),
    decreases s.len() + 1 - i,
{
    if i > s.len() || i + pat.len() > s.len() {
    } else if matches_at(s, i, pat) {
    } else {
        lemma_find_from(s, pat, i + 1);
        assert forall|j: int| i <= j && find_from(s, pat, i) is None implies !matches_at(
            s,
            j,
            pat,
        ) by {
            if j == i {
            }
        }
    }
}

/// The first occurrence of `pat` at or after `i` is at `j` when it occurs
/// there and nowhere between.
pub proof fn lemma_find_first(s: Seq<char>, pat: Seq<char>, i: int, j: int)
    requires
        0 <= i <= j,
        matches_at(s, j, pat),
        forall|k: int| i <= k < j ==> !matches_at(s, k, pat),
    ensures
        find_from(s, pat, i) == Some(j),
    decreases j - i,
{
    if i < j {
        lemma_find_first(s, pat, i + 1, j);
    }
}

/// `pat` does not occur between `i` and its first occurrence after `i`.
pub proof fn lemma_find_before(s: Seq<char>, pat: Seq<char>, i: int)
    requires
        0 <= i,
    ensures
        find_from(s, pat, i) matches Some(j) ==> forall|k: int| i <= k < j ==> !matches_at(s, k, pat),
    decreases s.len() + 1 - i,
{
    if i > s.len() || i + pat.len() > s.len() {
    } else if matches_at(s, i, pat) {
    } else {
        lemma_find_before(s, pat, i + 1);
    }
}

/// An occurrence in `x` is one in `x + y`.
pub proof fn lemma_match_left(x: Seq<char>, y: Seq<char>, k: int, p: Seq<char>)
    requires
        matches_at(x, k, p),
    ensures
        matches_at(x + y, k, p),
{
    assert((x + y).subrange(k, k + p.len()) =~= x.subrange(k, k + p.len()));
}

/// An occurrence in `y` is one in `x + y`, shifted by `x`.
pub proof fn lemma_match_right(x: Seq<char>, y: Seq<char>, k: int, p: Seq<char>)
    requires
        matches_at(y, k, p),
    ensures
        matches_at(x + y, x.len() + k, p),
{
    assert((x + y).subrange(x.len() + k, x.len() + k + p.len()) =~= y.subrange(k, k + p.len()));
}

/// `p` holds no line break.
pub open spec fn no_newline(p: Seq<char>) -> bool {
    forall|m: int| 0 <= m < p.len() ==> #[trigger] p[m] != '\n'
}

/// An occurrence of a text without line breaks in `x`, a line break, then
/// `y`, lies within `x` or within `y`.
pub proof fn lemma_match_across_newline(x: Seq<char>, y: Seq<char>, k: int, p: Seq<char>)
    requires
        matches_at(x + seq!['\n'] + y, k, p),
        no_newline(p),
    ensures
        (k + p.len() <= x.len() && matches_at(x, k, p)) || (k >= x.len() + 1 && matches_at(
            y,
            k - x.len() - 1,
            p,
        )),
{
    let s = x + seq!['\n'] + y;
    if k + p.len() <= x.len() {
        assert(s.subrange(k, k + p.len()) =~= x.subrange(k, k + p.len()));
    } else if k >= x.len() + 1 {
        assert(s.subrange(k, k + p.len()) =~= y.subrange(k - x.len() - 1, k - x.len() - 1 + p.len()));
    } else {
        assert(s.subrange(k, k + p.len())[x.len() - k] == s[x.len() as int]);
        assert(p[x.len() - k] != '\n');
    }
}

/// `trim_end(s)` is a prefix of `s` that does not end in whitespace.
pub proof fn lemma_trim_end_prefix(s: Seq<char>)
    ensures
        trim_end(s).len() <= s.len(),
        trim_end(s) == s.subrange(0, trim_end(s).len() as int),
        trim_end(s).len() > 0 ==> !is_ws(trim_end(s).last()),
        trim_end(trim_end(s)) == trim_end(s),
    decreases s.len(),
{
    if s.len() > 0 && is_ws(s.last()) {
        lemma_trim_end_prefix(s.drop_last());
        let t = trim_end(s.drop_last());
        assert(s.drop_last().subrange(0, t.len() as int) =~= s.subrange(0, t.len() as int));
    } else {
        assert(s.subrange(0, s.len() as int) =~= s);
    }
}

/// `trim_start(s)` is a suffix of `s` that does not start with whitespace.
pub proof fn lemma_trim_start_suffix(s: Seq<char>)
    ensures
        trim_start(s).len() <= s.len(),
        trim_start(s) == s.subrange(s.len() - trim_start(s).len(), s.len() as int),
        trim_start(s).len() > 0 ==> !is_ws(trim_start(s)[0]),
        trim_start(trim_start(s)) == trim_start(s),
    decreases s.len(),
{
    if s.len() > 0 && is_ws(s[0]) {
        lemma_trim_start_suffix(s.drop_first());
        let t = trim_start(s.drop_first());
        assert(s.drop_first().subrange(s.len() - 1 - t.len(), s.len() - 1) =~= s.subrange(
            s.len() - t.len(),
            s.len() as int,
        ));
    } else {
        assert(s.subrange(0, s.len() as int) =~= s);
    }
}

/// Whitespace after `x` does not change `trim_end`.
pub proof fn lemma_trim_end_ws_tail(x: Seq<char>, w: Seq<char>)
    requires
        forall|m: int| 0 <= m < w.len() ==> is_ws(#[trigger] w[m]),
    ensures
        trim_end(x + w) == trim_end(x),
    decreases w.len(),
{
    if w.len() == 0 {
        assert(x + w =~= x);
    } else {
        assert((x + w).last() == w[w.len() - 1]);
        assert((x + w).drop_last() =~= x + w.drop_last());
        lemma_trim_end_ws_tail(x, w.drop_last());
    }
}

/// `contains` holds exactly when `pat` occurs at some position.
pub proof fn lemma_contains(s: Seq<char>, pat: Seq<char>)
    ensures
        contains(s, pat) <==> exists|j: int| matches_at(s, j, pat),
{
    lemma_find_from(s, pat, 0);
    if let Some(j) = find_from(s, pat, 0) {
        assert(matches_at(s, j, pat));
    }
}

/// Whether `pat` occurs in `s` at position `i`.
pub fn matches_here(s: &Vec<char>, i: usize, pat: &Vec<char>) -> (res: bool)
    ensures
        res == matches_at(s@, i as int, pat@),
{
    if i > s.len() || pat.len() > s.len() - i {
        return false;
    }
    let mut k: usize = 0;
    while k < pat.len()
        invariant
            i + pat.len() <= s.len(),
            k <= pat.len(),
            forall|j: int| 0 <= j < k ==> s@[i + j] == pat@[j],
        decreases pat.len() - k,
    {
        if s[i + k] != pat[k] {
            assert(s@.subrange(i as int, i + pat.len())[k as int] != pat@[k as int]);
            return false;
        }
        k += 1;
    }
    assert(s@.subrange(i as int, i + pat.len()) =~= pat@);
    true
}

/// The first position at or after `from` where `pat` occurs in `s`.
pub fn find_chars(s: &Vec<char>, pat: &Vec<char>, from: usize) -> (res: Option<usize>)
    ensures
        match res {
            Some(j) => find_from(s@, pat@, from as int) == Some(j as int),
            None => find_from(s@, pat@, from as int) is None,
        },
{
    if pat.len() > s.len() || from > s.len() - pat.len() {
        return None;
    }
    let mut k = from;
    while k <= s.len() - pat.len()
        invariant
            from <= k,
            pat.len() <= s.len(),
            find_from(s@, pat@, from as int) == find_from(s@, pat@, k as int),
        decreases s.len() + 1 - k,
    {
        if matches_here(s, k, pat) {
            return Some(k);
        }
        if k == s.len() - pat.len() {
            assert(find_from(s@, pat@, k + 1) is None);
            return None;
        }
        k += 1;
    }
    None
}

pub fn contains_chars(s: &Vec<char>, pat: &Vec<char>) -> (res: bool)
    ensures
        res == contains(s@, pat@),
{
    find_chars(s, pat, 0).is_some()
}

/// Whether `s` contains the string `lit`.
pub fn mentions(s: &Vec<char>, lit: &str) -> (res: bool)
    ensures
        res == contains(s@, lit@),
{
    let l = chars_of(lit);
    contains_chars(s, &l)
}

pub fn starts_with_chars(s: &Vec<char>, p: &Vec<char>) -> (res: bool)
    ensures
        res == starts_with(s@, p@),
{
    matches_here(s, 0, p)
}

pub fn ends_with_chars(s: &Vec<char>, p: &Vec<char>) -> (res: bool)
    ensures
        res == ends_with(s@, p@),
{
    if p.len() > s.len() {
        false
    } else {
        matches_here(s, s.len() - p.len(), p)
    }
}

/// Whether `s` begins with the string `lit`.
pub fn begins(s: &Vec<char>, lit: &str) -> (res: bool)
    ensures
        res == starts_with(s@, lit@),
{
    let l = chars_of(lit);
    starts_with_chars(s, &l)
}

/// Whether `s` ends with the string `lit`.
pub fn finishes(s: &Vec<char>, lit: &str) -> (res: bool)
    ensures
        res == ends_with(s@, lit@),
{
    let l = chars_of(lit);
    ends_with_chars(s, &l)
}

// ---------------------------------------------------------------------------
// Prefixes and suffixes
// ---------------------------------------------------------------------------

/// `s` without the prefix `p` (`str::strip_prefix`).
pub open spec fn strip_prefix(s: Seq<char>, p: Seq<char>) -> Option<Seq<char>> {
    if starts_with(s, p) {
        Some(s.subrange(p.len() as int, s.len() as int))
    } else {
        None
    }
}

/// `s` without the suffix `p` (`str::strip_suffix`).
pub open spec fn strip_suffix(s: Seq<char>, p: Seq<char>) -> Option<Seq<char>> {
    if ends_with(s, p) {
        Some(s.subrange(0, s.len() - p.len()))
    } else {
        None
    }
}

/// `s` with every trailing repetition of `p` removed (`str::trim_end_matches`).
pub open spec fn trim_end_matches(s: Seq<char>, p: Seq<char>) -> Seq<char>
    decreases s.len(),
{
    if p.len() > 0 && ends_with(s, p) {
        trim_end_matches(s.subrange(0, s.len() - p.len()), p)
    } else {
        s
    }
}

/// `s` with every leading repetition of `p` removed (`str::trim_start_matches`).
pub open spec fn trim_start_matches(s: Seq<char>, p: Seq<char>) -> Seq<char>
    decreases s.len(),
{
    if p.len() > 0 && starts_with(s, p) {
        trim_start_matches(s.subrange(p.len() as int, s.len() as int), p)
    } else {
        s
    }
}

pub fn strip_prefix_chars(s: &Vec<char>, lit: &str) -> (res: Option<Vec<char>>)
    ensures
        match res {
            Some(r) => strip_prefix(s@, lit@) == Some(r@),
            None => strip_prefix(s@, lit@) is None,
        },
{
    let p = chars_of(lit);
    if starts_with_chars(s, &p) {
        Some(slice(s, p.len(), s.len()))
    } else {
        None
    }
}

pub fn strip_suffix_chars(s: &Vec<char>, lit: &str) -> (res: Option<Vec<char>>)
    ensures
        match res {
            Some(r) => strip_suffix(s@, lit@) == Some(r@),
            None => strip_suffix(s@, lit@) is None,
        },
{
    let p = chars_of(lit);
    if ends_with_chars(s, &p) {
        Some(slice(s, 0, s.len() - p.len()))
    } else {
        None
    }
}

pub fn trim_end_matches_chars(s: &Vec<char>, lit: &str) -> (res: Vec<char>)
    ensures
        res@ == trim_end_matches(s@, lit@),
{
    let p = chars_of(lit);
    let mut b: usize = s.len();
    assert(s@.subrange(0, b as int) =~= s@);
    if p.len() == 0 {
        return slice(s, 0, b);
    }
    loop
        invariant
            p@ == lit@,
            p.len() > 0,
            b <= s.len(),
            trim_end_matches(s@, p@) == trim_end_matches(s@.subrange(0, b as int), p@),
        decreases b,
    {
        let cur = slice(s, 0, b);
        if !ends_with_chars(&cur, &p) {
            return cur;
        }
        assert(cur@.subrange(0, cur@.len() - p@.len()) =~= s@.subrange(0, b - p.len()));
        b = b - p.len();
    }
}

pub fn trim_start_matches_chars(s: &Vec<char>, lit: &str) -> (res: Vec<char>)
    ensures
        res@ == trim_start_matches(s@, lit@),
{
    let p = chars_of(lit);
    let mut a: usize = 0;
    assert(s@.subrange(0, s@.len() as int) =~= s@);
    if p.len() == 0 {
        return slice(s, 0, s.len());
    }
    loop
        invariant
            p@ == lit@,
            p.len() > 0,
            a <= s.len(),
            trim_start_matches(s@, p@) == trim_start_matches(
                s@.subrange(a as int, s@.len() as int),
                p@,
            ),
        decreases s.len() - a,
    {
        let cur = slice(s, a, s.len());
        if !starts_with_chars(&cur, &p) {
            return cur;
        }
        assert(cur@.subrange(p@.len() as int, cur@.len() as int) =~= s@.subrange(
            a + p.len(),
            s@.len() as int,
        ));
        a = a + p.len();
    }
}

// ---------------------------------------------------------------------------
// Replacement (`str::replace`)
// ---------------------------------------------------------------------------

/// `s[i..]` with each non-overlapping occurrence of `from`, left to right,
/// replaced by `to`.
pub open spec fn replace_from(s: Seq<char>, from: Seq<char>, to: Seq<char>, i: int) -> Seq<char>
    decreases s.len() + 1 - i,
{
    if from.len() == 0 || i < 0 || i > s.len() {
        s.subrange(i, s.len() as int)
    } else {
        match find_from(s, from, i) {
            None => s.subrange(i, s.len() as int),
            Some(j) => if i <= j && j + from.len() <= s.len() {
                s.subrange(i, j) + to + replace_from(s, from, to, j + from.len())
            } else {
                s.subrange(i, s.len() as int)
            },
        }
    }
}

/// `s` with each non-overlapping occurrence of `from` replaced by `to`.
pub open spec fn replace(s: Seq<char>, from: Seq<char>, to: Seq<char>) -> Seq<char> {
    replace_from(s, from, to, 0)
}

pub fn replace_chars(s: &Vec<char>, from: &Vec<char>, to: &Vec<char>) -> (res: Vec<char>)
    requires
        from.len() > 0,
    ensures
        res@ == replace(s@, from@, to@),
{
    let mut out: Vec<char> = Vec::new();
    let mut i: usize = 0;
    loop
        invariant
            from.len() > 0,
            i <= s.len(),
            out@ + replace_from(s@, from@, to@, i as int) == replace(s@, from@, to@),
        decreases s.len() - i,
    {
        match find_chars(s, from, i) {
            None => {
                let rest = slice(s, i, s.len());
                return concat(&out, &rest);
            },
            Some(j) => {
                proof {
                    lemma_find_from(s@, from@, i as int);
                }
                let piece = slice(s, i, j);
                let a = concat(&out, &piece);
                out = concat(&a, to);
                assert(out@ + replace_from(s@, from@, to@, j + from@.len()) =~= replace(
                    s@,
                    from@,
                    to@,
                ));
                i = j + from.len();
            },
        }
    }
}

/// `s` with each occurrence of the string `from` replaced by the string `to`.
pub fn replace_str(s: &Vec<char>, from: &str, to: &str) -> (res: Vec<char>)
    requires
        from@.len() > 0,
    ensures
        res@ == replace(s@, from@, to@),
{
    let f = chars_of(from);
    let t = chars_of(to);
    replace_chars(s, &f, &t)
}

/// Where `from` does not occur at `i`, replacing from `i` keeps `s[i]` and
/// goes on from `i + 1`.
pub proof fn lemma_replace_keep(s: Seq<char>, from: Seq<char>, to: Seq<char>, i: int)
    requires
        from.len() > 0,
        0 <= i < s.len(),
        !matches_at(s, i, from),
    ensures
        replace_from(s, from, to, i) == seq![s[i]] + replace_from(s, from, to, i + 1),
{
    lemma_find_from(s, from, i + 1);
    assert(find_from(s, from, i) == find_from(s, from, i + 1));
    match find_from(s, from, i + 1) {
        Some(j) => {
            assert(s.subrange(i, j) =~= seq![s[i]] + s.subrange(i + 1, j));
        },
        None => {
            assert(s.subrange(i, s.len() as int) =~= seq![s[i]] + s.subrange(i + 1, s.len() as int));
        },
    }
}

/// Where `from` occurs at `i`, replacing from `i` gives `to` and goes on
/// after the occurrence.
pub proof fn lemma_replace_hit(s: Seq<char>, from: Seq<char>, to: Seq<char>, i: int)
    requires
        from.len() > 0,
        matches_at(s, i, from),
    ensures
        replace_from(s, from, to, i) == to + replace_from(s, from, to, i + from.len()),
{
    assert(find_from(s, from, i) == Some(i));
    assert(s.subrange(i, i) =~= Seq::<char>::empty());
    assert(Seq::<char>::empty() + to =~= to);
}

/// Replacing in `p + t` from a position inside `t` is replacing in `t`.
pub proof fn lemma_replace_shift(p: Seq<char>, t: Seq<char>, from: Seq<char>, to: Seq<char>, k: int)
    requires
        from.len() > 0,
        0 <= k <= t.len(),
    ensures
        replace_from(p + t, from, to, p.len() + k) == replace_from(t, from, to, k),
    decreases t.len() - k,
{
    let s = p + t;
    if k == t.len() {
        assert(find_from(s, from, p.len() + k) is None);
        assert(find_from(t, from, k) is None);
        assert(s.subrange(p.len() + k, s.len() as int) =~= t.subrange(k, t.len() as int));
    } else {
        let hit = matches_at(t, k, from);
        if k + from.len() <= t.len() {
            assert(s.subrange(p.len() + k, p.len() + k + from.len()) =~= t.subrange(
                k,
                k + from.len(),
            ));
        }
        assert(matches_at(s, p.len() + k, from) == hit);
        if hit {
            lemma_replace_hit(s, from, to, p.len() + k);
            lemma_replace_hit(t, from, to, k);
            lemma_replace_shift(p, t, from, to, k + from.len());
            assert(p.len() + k + from.len() == p.len() + (k + from.len()));
        } else {
            lemma_replace_keep(s, from, to, p.len() + k);
            lemma_replace_keep(t, from, to, k);
            lemma_replace_shift(p, t, from, to, k + 1);
            assert(s[p.len() + k] == t[k]);
        }
    }
}

// ---------------------------------------------------------------------------
// Splitting and joining
// ---------------------------------------------------------------------------

/// The pieces of `s` between occurrences of `c` (`str::split` on a `char`):
/// always at least one piece, empty pieces included.
pub open spec fn split(s: Seq<char>, c: char) -> Seq<Seq<char>>
    decreases s.len(),
{
    if s.len() == 0 {
        seq![Seq::empty()]
    } else {
        let p = split(s.drop_last(), c);
        if s.last() == c {
            p.push(Seq::empty())
        } else {
            p.update(p.len() - 1, p.last().push(s.last()))
        }
    }
}

/// A text without `c` is a single piece.
pub proof fn lemma_split_no_sep(s: Seq<char>, c: char)
    requires
        !s.contains(c),
    ensures
        split(s, c) == seq![s],
    decreases s.len(),
{
    if s.len() == 0 {
        assert(s =~= Seq::<char>::empty());
    } else {
        assert(!s.drop_last().contains(c)) by {
            if s.drop_last().contains(c) {
                let i = choose|i: int| 0 <= i < s.drop_last().len() && s.drop_last()[i] == c;
                assert(s[i] == c);
            }
        }
        lemma_split_no_sep(s.drop_last(), c);
        assert(s.last() != c);
        assert(s.drop_last().push(s.last()) =~= s);
    }
}

pub proof fn lemma_split_nonempty(s: Seq<char>, c: char)
    ensures
        split(s, c).len() >= 1,
    decreases s.len(),
{
    if s.len() > 0 {
        lemma_split_nonempty(s.drop_last(), c);
    }
}

/// The pieces of `parts` that are not empty, in order.
pub open spec fn nonempty(parts: Seq<Seq<char>>) -> Seq<Seq<char>>
    decreases parts.len(),
{
    if parts.len() == 0 {
        Seq::empty()
    } else {
        let r = nonempty(parts.drop_last());
        if parts.last().len() > 0 {
            r.push(parts.last())
        } else {
            r
        }
    }
}

/// The pieces of `parts` with `sep` between consecutive pieces (`join`).
pub open spec fn join(parts: Seq<Seq<char>>, sep: Seq<char>) -> Seq<char>
    decreases parts.len(),
{
    if parts.len() == 0 {
        Seq::empty()
    } else if parts.len() == 1 {
        parts[0]
    } else {
        join(parts.drop_last(), sep) + sep + parts.last()
    }
}

/// Every character of every piece of `split(s, c)` is a character of `s`
/// other than `c`.
pub proof fn lemma_split_pieces(s: Seq<char>, c: char)
    ensures
        forall|k: int, i: int|
            0 <= k < split(s, c).len() && 0 <= i < split(s, c)[k].len() ==> #[trigger] split(
                s,
                c,
            )[k][i] != c && s.contains(split(s, c)[k][i]),
    decreases s.len(),
{
    lemma_split_nonempty(s, c);
    if s.len() > 0 {
        let t = s.drop_last();
        lemma_split_pieces(t, c);
        lemma_split_nonempty(t, c);
        let p = split(t, c);
        assert forall|k: int, i: int|
            0 <= k < split(s, c).len() && 0 <= i < split(s, c)[k].len() implies #[trigger] split(
            s,
            c,
        )[k][i] != c && s.contains(split(s, c)[k][i]) by {
            let x = split(s, c)[k][i];
            if s.last() == c {
                assert(k < p.len());
                assert(x == p[k][i]);
                let j = choose|j: int| 0 <= j < t.len() && t[j] == x;
                assert(s[j] == x);
            } else if k < p.len() - 1 || i < p.last().len() {
                assert(x == p[k][i]);
                let j = choose|j: int| 0 <= j < t.len() && t[j] == x;
                assert(s[j] == x);
            } else {
                assert(x == s.last());
                assert(s[s.len() - 1] == x);
            }
        }
    }
}

/// Appending text without `c` extends the last piece.
pub proof fn lemma_split_append(x: Seq<char>, b: Seq<char>, c: char)
    requires
        !b.contains(c),
    ensures
        split(x + b, c) == split(x, c).update(
            split(x, c).len() - 1,
            split(x, c).last() + b,
        ),
    decreases b.len(),
{
    lemma_split_nonempty(x, c);
    if b.len() == 0 {
        assert(x + b =~= x);
        assert(split(x, c).last() + b =~= split(x, c).last());
        assert(split(x, c).update(split(x, c).len() - 1, split(x, c).last()) =~= split(x, c));
    } else {
        let bd = b.drop_last();
        assert(!bd.contains(c)) by {
            if bd.contains(c) {
                let i = choose|i: int| 0 <= i < bd.len() && bd[i] == c;
                assert(b[i] == c);
            }
        }
        lemma_split_append(x, bd, c);
        assert((x + b).drop_last() =~= x + bd);
        assert((x + b).last() == b.last());
        assert(b.last() != c) by {
            assert(b[b.len() - 1] == b.last());
        }
        let q = split(x, c);
        let p = split(x + bd, c);
        assert(p.len() == q.len());
        assert(p.last() == q.last() + bd);
        assert(p.last().push(b.last()) =~= q.last() + b);
        assert(p.update(p.len() - 1, p.last().push(b.last())) =~= q.update(
            q.len() - 1,
            q.last() + b,
        ));
    }
}

/// Splitting pieces joined by `c` gives the pieces back, when none holds
/// `c`.
pub proof fn lemma_split_join(parts: Seq<Seq<char>>, c: char)
    requires
        parts.len() > 0,
        forall|k: int| 0 <= k < parts.len() ==> !(#[trigger] parts[k]).contains(c),
    ensures
        split(join(parts, seq![c]), c) == parts,
    decreases parts.len(),
{
    if parts.len() == 1 {
        lemma_split_no_sep(parts[0], c);
        assert(seq![parts[0]] =~= parts);
    } else {
        let prev = parts.drop_last();
        assert(forall|k: int| 0 <= k < prev.len() ==> prev[k] == parts[k]);
        lemma_split_join(prev, c);
        let j = join(prev, seq![c]);
        assert(j + seq![c] =~= j.push(c));
        assert((j + seq![c]).drop_last() =~= j);
        assert(split(j + seq![c], c) =~= prev.push(Seq::<char>::empty()));
        assert(!parts.last().contains(c)) by {
            assert(parts[parts.len() - 1] == parts.last());
        }
        lemma_split_append(j + seq![c], parts.last(), c);
        assert(Seq::<char>::empty() + parts.last() =~= parts.last());
        assert(prev.push(Seq::<char>::empty()).update(prev.len() as int, parts.last()) =~= parts);
    }
}

/// The non-empty pieces of `parts`: each is non-empty and one of `parts`.
pub proof fn lemma_nonempty_props(parts: Seq<Seq<char>>)
    ensures
        forall|k: int| 0 <= k < nonempty(parts).len() ==> (#[trigger] nonempty(parts)[k]).len() > 0
            && parts.contains(nonempty(parts)[k]),
        (forall|k: int| 0 <= k < parts.len() ==> (#[trigger] parts[k]).len() > 0) ==> nonempty(
            parts,
        ) == parts,
    decreases parts.len(),
{
    if parts.len() > 0 {
        let prev = parts.drop_last();
        lemma_nonempty_props(prev);
        assert forall|k: int| 0 <= k < nonempty(parts).len() implies (#[trigger] nonempty(
            parts,
        )[k]).len() > 0 && parts.contains(nonempty(parts)[k]) by {
            let r = nonempty(prev);
            if k < r.len() {
                assert(nonempty(parts)[k] == r[k]);
                let w = choose|w: int| 0 <= w < prev.len() && prev[w] == r[k];
                assert(parts[w] == r[k]);
            } else {
                assert(nonempty(parts)[k] == parts.last());
                assert(parts[parts.len() - 1] == parts.last());
            }
        }
        if forall|k: int| 0 <= k < parts.len() ==> (#[trigger] parts[k]).len() > 0 {
            assert(forall|k: int| 0 <= k < prev.len() ==> prev[k] == parts[k]);
            assert(parts[parts.len() - 1].len() > 0);
            assert(prev.push(parts.last()) =~= parts);
        }
    }
}

/// Every character of `join(parts, sep)` is a character of a piece or of
/// `sep`.
pub proof fn lemma_join_chars(parts: Seq<Seq<char>>, sep: Seq<char>, p: spec_fn(char) -> bool)
    requires
        forall|k: int, i: int| 0 <= k < parts.len() && 0 <= i < parts[k].len() ==> p(
            #[trigger] parts[k][i],
        ),
        forall|i: int| 0 <= i < sep.len() ==> p(#[trigger] sep[i]),
    ensures
        forall|i: int| 0 <= i < join(parts, sep).len() ==> p(#[trigger] join(parts, sep)[i]),
    decreases parts.len(),
{
    if parts.len() == 1 {
        assert(forall|i: int| 0 <= i < parts[0].len() ==> p(#[trigger] parts[0][i]));
    } else if parts.len() > 1 {
        let prev = parts.drop_last();
        assert(forall|k: int| 0 <= k < prev.len() ==> prev[k] == parts[k]);
        lemma_join_chars(prev, sep, p);
        let j = join(prev, sep);
        let l = parts.last();
        assert(forall|i: int| 0 <= i < l.len() ==> p(#[trigger] l[i])) by {
            assert(parts[parts.len() - 1] == l);
        }
        assert forall|i: int| 0 <= i < join(parts, sep).len() implies p(
            #[trigger] join(parts, sep)[i],
        ) by {
            if i < j.len() {
                assert(join(parts, sep)[i] == j[i]);
            } else if i < j.len() + sep.len() {
                assert(join(parts, sep)[i] == sep[i - j.len()]);
            } else {
                assert(join(parts, sep)[i] == l[i - j.len() - sep.len()]);
            }
        }
    }
}

pub proof fn lemma_seqs_push(v: Seq<Vec<char>>, x: Vec<char>)
    ensures
        seqs(v.push(x)) == seqs(v).push(x@),
{
    assert(seqs(v.push(x)) =~= seqs(v).push(x@));
}

pub fn split_chars(s: &Vec<char>, c: char) -> (res: Vec<Vec<char>>)
    ensures
        seqs(res@) == split(s@, c),
{
    let mut done: Vec<Vec<char>> = Vec::new();
    let mut cur: Vec<char> = Vec::new();
    let mut i: usize = 0;
    while i < s.len()
        invariant
            i <= s.len(),
            seqs(done@).push(cur@) == split(s@.take(i as int), c),
        decreases s.len() - i,
    {
        let ghost before = s@.take(i as int);
        proof {
            lemma_split_nonempty(before, c);
        }
        assert(s@.take(i + 1).drop_last() =~= before);
        if s[i] == c {
            let finished = cur;
            done.push(finished);
            cur = Vec::new();
            assert(seqs(done@) =~= split(before, c));
        } else {
            cur.push(s[i]);
        }
        i += 1;
        assert(seqs(done@).push(cur@) =~= split(s@.take(i as int), c));
    }
    assert(s@.take(s@.len() as int) =~= s@);
    done.push(cur);
    assert(seqs(done@) =~= split(s@, c));
    done
}

pub fn nonempty_parts(parts: &Vec<Vec<char>>) -> (res: Vec<Vec<char>>)
    ensures
        seqs(res@) == nonempty(seqs(parts@)),
{
    let mut out: Vec<Vec<char>> = Vec::new();
    let mut i: usize = 0;
    while i < parts.len()
        invariant
            i <= parts.len(),
            seqs(out@) == nonempty(seqs(parts@).take(i as int)),
        decreases parts.len() - i,
    {
        assert(seqs(parts@).take(i + 1).drop_last() =~= seqs(parts@).take(i as int));
        assert(seqs(parts@).take(i + 1).last() == parts@[i as int]@);
        if parts[i].len() > 0 {
            let piece = copy(&parts[i]);
            proof {
                lemma_seqs_push(out@, piece);
            }
            out.push(piece);
        }
        i += 1;
        assert(seqs(out@) =~= nonempty(seqs(parts@).take(i as int)));
    }
    assert(seqs(parts@).take(parts@.len() as int) =~= seqs(parts@));
    out
}

pub fn join_chars(parts: &Vec<Vec<char>>, sep: &Vec<char>) -> (res: Vec<char>)
    ensures
        res@ == join(seqs(parts@), sep@),
{
    if parts.len() == 0 {
        return Vec::new();
    }
    let mut out = copy(&parts[0]);
    let mut i: usize = 1;
    assert(seqs(parts@).take(1) =~= seq![parts@[0]@]);
    while i < parts.len()
        invariant
            1 <= i <= parts.len(),
            out@ == join(seqs(parts@).take(i as int), sep@),
        decreases parts.len() - i,
    {
        assert(seqs(parts@).take(i + 1).drop_last() =~= seqs(parts@).take(i as int));
        let a = concat(&out, sep);
        out = concat(&a, &parts[i]);
        i += 1;
    }
    assert(seqs(parts@).take(parts@.len() as int) =~= seqs(parts@));
    out
}

// ---------------------------------------------------------------------------
// Lines (`str::lines`)
// ---------------------------------------------------------------------------

/// `l` without one trailing carriage return.
pub open spec fn strip_cr(l: Seq<char>) -> Seq<char> {
    if l.len() > 0 && l.last() == '\r' {
        l.drop_last()
    } else {
        l
    }
}

/// The lines of `s`: split at `\n`, a `\r` before a `\n` dropped, and no
/// empty line after a final line ending.
pub open spec fn lines(s: Seq<char>) -> Seq<Seq<char>> {
    let p = split(s, '\n');
    let body = p.drop_last().map_values(|l: Seq<char>| strip_cr(l));
    if p.last().len() == 0 {
        body
    } else {
        body.push(p.last())
    }
}

pub fn lines_of(s: &Vec<char>) -> (res: Vec<Vec<char>>)
    ensures
        seqs(res@) == lines(s@),
{
    let p = split_chars(s, '\n');
    proof {
        lemma_split_nonempty(s@, '\n');
    }
    let n = p.len();
    let mut out: Vec<Vec<char>> = Vec::new();
    let mut i: usize = 0;
    while i + 1 < n
        invariant
            n == p.len(),
            n >= 1,
            i + 1 <= n,
            seqs(p@) == split(s@, '\n'),
            seqs(out@) == seqs(p@).drop_last().take(i as int).map_values(
                |l: Seq<char>| strip_cr(l),
            ),
        decreases n - i,
    {
        let l = &p[i];
        let line = if l.len() > 0 && l[l.len() - 1] == '\r' {
            slice(l, 0, l.len() - 1)
        } else {
            copy(l)
        };
        proof {
            lemma_seqs_push(out@, line);
            assert(seqs(p@)[i as int] == p@[i as int]@);
            assert(seqs(p@).drop_last().take(i + 1).map_values(|l: Seq<char>| strip_cr(l))
                =~= seqs(p@).drop_last().take(i as int).map_values(|l: Seq<char>| strip_cr(l)).push(
                strip_cr(seqs(p@)[i as int]),
            ));
        }
        out.push(line);
        i += 1;
        assert(seqs(out@) =~= seqs(p@).drop_last().take(i as int).map_values(
            |l: Seq<char>| strip_cr(l),
        ));
    }
    assert(seqs(p@).drop_last().take(i as int) =~= seqs(p@).drop_last());
    let last = &p[n - 1];
    assert(seqs(p@).last() == last@);
    if last.len() > 0 {
        let l = copy(last);
        proof {
            lemma_seqs_push(out@, l);
        }
        out.push(l);
        assert(seqs(out@) =~= lines(s@));
    }
    out
}

// ---------------------------------------------------------------------------
// ASCII classes and case
// ---------------------------------------------------------------------------

/// `char::is_ascii_alphanumeric`.
pub open spec fn is_ascii_alnum(c: char) -> bool {
    ('0' <= c && c <= '9') || ('a' <= c && c <= 'z') || ('A' <= c && c <= 'Z')
}

pub fn is_ascii_alnum_char(c: char) -> (res: bool)
    ensures
        res == is_ascii_alnum(c),
{
    ('0' <= c && c <= '9') || ('a' <= c && c <= 'z') || ('A' <= c && c <= 'Z')
}

/// The code of `c` with ASCII upper-case letters mapped to lower case.
pub open spec fn ascii_fold(c: char) -> int {
    if 'A' <= c && c <= 'Z' {
        (c as u32) + 32
    } else {
        c as u32 as int
    }
}

/// `str::eq_ignore_ascii_case`.
pub open spec fn eq_ignore_ascii_case(a: Seq<char>, b: Seq<char>) -> bool {
    a.len() == b.len() && forall|i: int| 0 <= i < a.len() ==> ascii_fold(a[i]) == ascii_fold(b[i])
}

pub fn eq_ignore_ascii_case_str(a: &Vec<char>, lit: &str) -> (res: bool)
    ensures
        res == eq_ignore_ascii_case(a@, lit@),
{
    let b = chars_of(lit);
    if a.len() != b.len() {
        return false;
    }
    let mut i: usize = 0;
    while i < a.len()
        invariant
            b@ == lit@,
            a.len() == b.len(),
            i <= a.len(),
            forall|j: int| 0 <= j < i ==> ascii_fold(a@[j]) == ascii_fold(b@[j]),
        decreases a.len() - i,
    {
        let x = a[i];
        let y = b[i];
        let fx: u32 = if 'A' <= x && x <= 'Z' { (x as u32) + 32 } else { x as u32 };
        let fy: u32 = if 'A' <= y && y <= 'Z' { (y as u32) + 32 } else { y as u32 };
        if fx != fy {
            return false;
        }
        i += 1;
    }
    true
}

/// What `str::to_lowercase` returns for a string with these characters
/// (Unicode case mapping).
pub uninterp spec fn lowercase(s: Seq<char>) -> Seq<char>;

/// What `str::to_uppercase` returns for a string with these characters
/// (Unicode case mapping).
pub uninterp spec fn uppercase(s: Seq<char>) -> Seq<char>;

/// All characters of `s` are ASCII.
pub open spec fn is_ascii(s: Seq<char>) -> bool {
    forall|i: int| 0 <= i < s.len() ==> (s[i] as u32) < 128
}

/// `c` with `A`..`Z` mapped to `a`..`z`.
pub open spec fn ascii_lower_char(c: char) -> char {
    if 'A' <= c && c <= 'Z' {
        ((c as u32) + 32) as char
    } else {
        c
    }
}

/// `c` with `a`..`z` mapped to `A`..`Z`.
pub open spec fn ascii_upper_char(c: char) -> char {
    if 'a' <= c && c <= 'z' {
        ((c as u32) - 32) as char
    } else {
        c
    }
}

pub open spec fn ascii_lower(s: Seq<char>) -> Seq<char> {
    s.map_values(|c: char| ascii_lower_char(c))
}

pub open spec fn ascii_upper(s: Seq<char>) -> Seq<char> {
    s.map_values(|c: char| ascii_upper_char(c))
}

/// `str::to_lowercase`: the Unicode lower-case mapping of `s`. Its result is
/// a function of `s` alone; it is named, not spelled out. On ASCII text the
/// Unicode mapping is the ASCII one, `A`..`Z` to `a`..`z` (as the
/// documentation's examples show); that much is stated.
#[verifier::external_body]
fn str_to_lowercase(s: &str) -> (res: String)
    ensures
        res@ == lowercase(s@),
        is_ascii(s@) ==> res@ == ascii_lower(s@),
{
    s.to_lowercase()
}

/// `str::to_uppercase`: the Unicode upper-case mapping of `s`. Its result is
/// a function of `s` alone; it is named, not spelled out. On ASCII text it
/// is the ASCII mapping, `a`..`z` to `A`..`Z`; that much is stated.
#[verifier::external_body]
fn str_to_uppercase(s: &str) -> (res: String)
    ensures
        res@ == uppercase(s@),
        is_ascii(s@) ==> res@ == ascii_upper(s@),
{
    s.to_uppercase()
}

pub fn to_lower(s: &Vec<char>) -> (res: Vec<char>)
    ensures
        res@ == lowercase(s@),
        is_ascii(s@) ==> res@ == ascii_lower(s@),
{
    let t = string_of(s);
    let l = str_to_lowercase(t.as_str());
    chars_of(l.as_str())
}

pub fn to_upper(s: &Vec<char>) -> (res: Vec<char>)
    ensures
        res@ == uppercase(s@),
        is_ascii(s@) ==> res@ == ascii_upper(s@),
{
    let t = string_of(s);
    let u = str_to_uppercase(t.as_str());
    chars_of(u.as_str())
}

// ---------------------------------------------------------------------------
// Integers (`str::parse::<u32>`)
// ---------------------------------------------------------------------------

pub open spec fn is_digit(c: char) -> bool {
    '0' <= c && c <= '9'
}

pub open spec fn all_digits(s: Seq<char>) -> bool {
    forall|i: int| 0 <= i < s.len() ==> is_digit(s[i])
}

/// The decimal value of a string of digits.
pub open spec fn digits_value(s: Seq<char>) -> nat
    decreases s.len(),
{
    if s.len() == 0 {
        0
    } else {
        digits_value(s.drop_last()) * 10 + ((s.last() as u32) - ('0' as u32)) as nat
    }
}

/// What `str::parse::<u32>` gives: an optional `+`, then at least one
/// decimal digit, and a value that fits in `u32`.
pub open spec fn parse_u32(s: Seq<char>) -> Option<u32> {
    let d = if s.len() > 0 && s[0] == '+' {
        s.drop_first()
    } else {
        s
    };
    if d.len() > 0 && all_digits(d) && digits_value(d) <= u32::MAX {
        Some(digits_value(d) as u32)
    } else {
        None
    }
}

proof fn lemma_digits_value_grows(s: Seq<char>, k: int)
    requires
        0 <= k <= s.len(),
        all_digits(s),
    ensures
        digits_value(s.take(k)) <= digits_value(s),
    decreases s.len() - k,
{
    if k < s.len() {
        assert(s.take(k + 1).drop_last() =~= s.take(k));
        lemma_digits_value_grows(s, k + 1);
    } else {
        assert(s.take(k) =~= s);
    }
}

pub fn parse_u32_chars(s: &Vec<char>) -> (res: Option<u32>)
    ensures
        res == parse_u32(s@),
{
    let start: usize = if s.len() > 0 && s[0] == '+' { 1 } else { 0 };
    let ghost d = if s@.len() > 0 && s@[0] == '+' { s@.drop_first() } else { s@ };
    assert(d =~= s@.subrange(start as int, s@.len() as int));
    if start >= s.len() {
        return None;
    }
    let mut v: u64 = 0;
    let mut i = start;
    while i < s.len()
        invariant
            start <= i <= s.len(),
            d =~= s@.subrange(start as int, s@.len() as int),
            d == (if s@.len() > 0 && s@[0] == '+' { s@.drop_first() } else { s@ }),
            all_digits(d.take(i - start)),
            v == digits_value(d.take(i - start)),
            v <= u32::MAX,
        decreases s.len() - i,
    {
        let c = s[i];
        if !('0' <= c && c <= '9') {
            assert(!is_digit(d[i - start]));
            assert(!all_digits(d));
            return None;
        }
        let dig: u64 = ((c as u32) - ('0' as u32)) as u64;
        assert(d.take(i - start + 1).drop_last() =~= d.take(i - start));
        let nv = v * 10 + dig;
        if nv > 0xFFFF_FFFF {
            proof {
                assert(all_digits(d.take(i - start + 1)));
                assert(d.take(i - start + 1).last() == c);
                assert(digits_value(d.take(i - start + 1)) == v * 10 + dig);
                if all_digits(d) {
                    lemma_digits_value_grows(d, i - start + 1);
                }
            }
            return None;
        }
        v = nv;
        i += 1;
        assert(all_digits(d.take(i - start)));
    }
    assert(d.take(i - start) =~= d);
    Some(v as u32)
}

// ---------------------------------------------------------------------------
// Decimal numbers (`Display` for unsigned integers)
// ---------------------------------------------------------------------------

/// The decimal digit for `d < 10`.
pub open spec fn digit_char(d: nat) -> char {
    (('0' as u32) + d) as char
}

/// The decimal representation of `n`, without leading zeros.
pub open spec fn decimal(n: nat) -> Seq<char>
    decreases n,
{
    if n < 10 {
        seq![digit_char(n)]
    } else {
        decimal(n / 10).push(digit_char(n % 10))
    }
}

/// The decimal representation of `n`.
pub fn decimal_chars(n: u64) -> (res: Vec<char>)
    ensures
        res@ == decimal(n as nat),
    decreases n,
{
    let d = (n % 10) as u32;
    let c = char_of_digit(d);
    if n < 10 {
        let mut v: Vec<char> = Vec::new();
        v.push(c);
        assert(v@ =~= seq![digit_char(n as nat)]);
        v
    } else {
        let mut v = decimal_chars(n / 10);
        v.push(c);
        v
    }
}

fn char_of_digit(d: u32) -> (c: char)
    requires
        d < 10,
    ensures
        c == digit_char(d as nat),
{
    if d == 0 { '0' } else if d == 1 { '1' } else if d == 2 { '2' } else if d == 3 { '3' } else if d
        == 4 { '4' } else if d == 5 { '5' } else if d == 6 { '6' } else if d == 7 { '7' } else if d
        == 8 { '8' } else { '9' }
}

/// The decimal representation of a signed `n`.
pub open spec fn signed_decimal(n: int) -> Seq<char> {
    if n < 0 {
        seq!['-'] + decimal((-n) as nat)
    } else {
        decimal(n as nat)
    }
}

/// The decimal representation of a signed `n` as a string.
pub fn signed_decimal_string(n: i32) -> (res: String)
    ensures
        res@ == signed_decimal(n as int),
{
    let wide = n as i64;
    if wide < 0 {
        let m = (-wide) as u64;
        let d = decimal_chars(m);
        let mut v: Vec<char> = Vec::new();
        v.push('-');
        let r = concat(&v, &d);
        assert(v@ =~= seq!['-']);
        string_of(&r)
    } else {
        decimal_string(wide as u64)
    }
}

/// The decimal representation of `n` as a string.
pub fn decimal_string(n: u64) -> (res: String)
    ensures
        res@ == decimal(n as nat),
{
    let v = decimal_chars(n);
    string_of(&v)
}

} // verus!
