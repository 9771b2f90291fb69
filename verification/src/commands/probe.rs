//! Connectivity checks: which hosts are probed, when a probe counts as
//! answered, and how a set of probes scores a strategy. The HTTP requests
//! themselves are made by the caller.

use crate::text;
use crate::text::{chars_of, concat, decimal, is, string_of};
use vstd::prelude::*;

verus! {

pub const PROBE_TIMEOUT_SECS: u64 = 5;

pub const PROBE_TIMEOUT_MS: u64 = 5000;

/// Faster than the full test on a strategy card.
pub const AUTODETECT_TIMEOUT_SECS: u64 = 3;

pub const AUTODETECT_TIMEOUT_MS: u64 = 3000;

/// A probe target: a tag and a URL.
pub type Target = (&'static str, &'static str);

/// The views of a list of targets.
pub open spec fn targets_view(v: Seq<Target>) -> Seq<(Seq<char>, Seq<char>)> {
    v.map_values(|t: Target| (t.0@, t.1@))
}

/// Auto-detection probes Discord and YouTube only.
pub open spec fn autodetect_targets() -> Seq<(Seq<char>, Seq<char>)> {
    seq![
        ("discord_gw"@, "https://gateway.discord.gg"@),
        ("discord_upd"@, "https://updates.discord.com"@),
        ("discord"@, "https://discord.com"@),
        ("youtube"@, "https://www.youtube.com"@),
        ("youtube_gen"@, "https://www.youtube.com/generate_204"@),
    ]
}

/// The targets of zapret's `utils/targets.txt` for Discord.
pub open spec fn discord_targets() -> Seq<(Seq<char>, Seq<char>)> {
    seq![
        ("discord"@, "https://discord.com"@),
        ("discord_gw"@, "https://gateway.discord.gg"@),
        ("discord_cdn"@, "https://cdn.discordapp.com"@),
        ("discord_upd"@, "https://updates.discord.com"@),
    ]
}

/// The general targets (YouTube and Cloudflare).
pub open spec fn general_targets() -> Seq<(Seq<char>, Seq<char>)> {
    seq![
        ("youtube"@, "https://www.youtube.com"@),
        ("youtube_gen"@, "https://www.youtube.com/generate_204"@),
        ("cloudflare"@, "https://www.cloudflare.com"@),
    ]
}

/// Auto-detection probes Discord and YouTube only.
pub fn autodetect_probe_targets() -> (res: Vec<Target>)
    ensures
        targets_view(res@) == autodetect_targets(),
{
    let mut v: Vec<Target> = Vec::new();
    v.push(("discord_gw", "https://gateway.discord.gg"));
    v.push(("discord_upd", "https://updates.discord.com"));
    v.push(("discord", "https://discord.com"));
    v.push(("youtube", "https://www.youtube.com"));
    v.push(("youtube_gen", "https://www.youtube.com/generate_204"));
    assert(targets_view(v@) =~= autodetect_targets());
    v
}

/// The Discord targets of zapret's `utils/targets.txt`.
pub fn discord_probe_targets() -> (res: Vec<Target>)
    ensures
        targets_view(res@) == discord_targets(),
{
    let mut v: Vec<Target> = Vec::new();
    v.push(("discord", "https://discord.com"));
    v.push(("discord_gw", "https://gateway.discord.gg"));
    v.push(("discord_cdn", "https://cdn.discordapp.com"));
    v.push(("discord_upd", "https://updates.discord.com"));
    assert(targets_view(v@) =~= discord_targets());
    v
}

/// The general targets.
pub fn general_probe_targets() -> (res: Vec<Target>)
    ensures
        targets_view(res@) == general_targets(),
{
    let mut v: Vec<Target> = Vec::new();
    v.push(("youtube", "https://www.youtube.com"));
    v.push(("youtube_gen", "https://www.youtube.com/generate_204"));
    v.push(("cloudflare", "https://www.cloudflare.com"));
    assert(targets_view(v@) =~= general_targets());
    v
}

/// A probe counts as answered only when a response arrived in time.
pub open spec fn probe_ok(reachable: bool, latency_ms: Option<u64>, max_ms: u64) -> bool {
    reachable && (latency_ms matches Some(ms) && ms < max_ms)
}

/// A probe counts as answered only when the HTTP response arrived before
/// `max_ms` (latency strictly below the limit).
pub fn probe_is_ok_with_limit(reachable: bool, latency_ms: Option<u64>, max_ms: u64) -> (res: bool)
    ensures
        res == probe_ok(reachable, latency_ms, max_ms),
{
    reachable && match latency_ms {
        Some(ms) => ms < max_ms,
        None => false,
    }
}

/// An HTTP status that means the host answered normally.
pub open spec fn http_status_ok(code: u16) -> bool {
    (200 <= code && code < 400) || code == 204
}

/// The error shown for an HTTP response: none for a normal status, else
/// `HTTP <code>`.
pub fn http_status_error(code: u16) -> (res: Option<String>)
    ensures
        match res {
            None => http_status_ok(code),
            Some(e) => !http_status_ok(code) && e@ == "HTTP "@ + decimal(code as nat),
        },
{
    if (200 <= code && code < 400) || code == 204 {
        None
    } else {
        let p = chars_of("HTTP ");
        let d = text::decimal_chars(code as u64);
        let r = concat(&p, &d);
        Some(string_of(&r))
    }
}

/// The error shown when a probe timed out.
pub fn timeout_message(timeout_secs: u64) -> (res: String)
    ensures
        res@ == "таймаут (>"@ + decimal(timeout_secs as nat) + " с)"@,
{
    let p = chars_of("таймаут (>");
    let d = text::decimal_chars(timeout_secs);
    let s = chars_of(" с)");
    let a = concat(&p, &d);
    let r = concat(&a, &s);
    string_of(&r)
}

/// The targets probed: the Discord targets when `discord`, then the general
/// targets, then `extra`.
pub open spec fn merged_targets(discord: bool, extra: Seq<(Seq<char>, Seq<char>)>) -> Seq<
    (Seq<char>, Seq<char>),
> {
    (if discord {
        discord_targets()
    } else {
        Seq::empty()
    }) + general_targets() + extra
}

fn append_targets(out: &mut Vec<Target>, more: &Vec<Target>)
    ensures
        targets_view(final(out)@) == targets_view(old(out)@) + targets_view(more@),
{
    let mut i: usize = 0;
    let ghost start = out@;
    while i < more.len()
        invariant
            i <= more.len(),
            out@ == start + more@.take(i as int),
        decreases more.len() - i,
    {
        out.push(more[i]);
        i += 1;
        assert(out@ =~= start + more@.take(i as int));
    }
    assert(more@.take(more@.len() as int) =~= more@);
    assert(targets_view(out@) =~= targets_view(start) + targets_view(more@));
}

/// The targets probed for a strategy: Discord's when asked, the general
/// ones, and `extra`.
pub fn merge_probe_targets(discord: bool, extra: &Vec<Target>) -> (res: Vec<Target>)
    ensures
        targets_view(res@) == merged_targets(discord, targets_view(extra@)),
{
    let mut out: Vec<Target> = Vec::new();
    if discord {
        let d = discord_probe_targets();
        append_targets(&mut out, &d);
    }
    let g = general_probe_targets();
    append_targets(&mut out, &g);
    append_targets(&mut out, extra);
    assert(targets_view(Seq::<Target>::empty()) =~= Seq::<(Seq<char>, Seq<char>)>::empty());
    out
}

/// The result of one probe.
#[derive(Clone, Debug)]
pub struct ProbeHit {
    pub tag: String,
    pub ok: bool,
    pub latency_ms: Option<u64>,
}

/// How a strategy did on the auto-detection probes.
#[derive(Clone, Debug)]
pub struct StrategyProbeScore {
    pub discord_required_ok: bool,
    pub discord_ok: usize,
    pub youtube_ok: bool,
    pub avg_latency_ms: u64,
}

/// The Discord targets without which the client often does not start.
pub open spec fn is_required_target(tag: Seq<char>) -> bool {
    tag == "discord_gw"@ || tag == "discord_upd"@
}

/// The Discord targets without which the client often does not start.
pub fn discord_required_targets() -> (res: Vec<&'static str>)
    ensures
        res@.map_values(|t: &str| t@) == seq!["discord_gw"@, "discord_upd"@],
{
    let mut v: Vec<&'static str> = Vec::new();
    v.push("discord_gw");
    v.push("discord_upd");
    assert(v@.map_values(|t: &str| t@) =~= seq!["discord_gw"@, "discord_upd"@]);
    v
}

/// Running totals while scoring: answered Discord probes, sum and count of
/// latencies of answered probes, whether every required target answered,
/// and whether `youtube` and `youtube_gen` answered.
pub type ScoreAcc = (nat, nat, nat, bool, bool, bool);

/// One probe added to the totals.
pub open spec fn score_step(acc: ScoreAcc, tag: Seq<char>, ok: bool, latency: Option<u64>) -> ScoreAcc {
    let a = if ok {
        (
            acc.0 + if text::starts_with(tag, "discord"@) {
                1nat
            } else {
                0nat
            },
            acc.1 + match latency {
                Some(ms) => ms as nat,
                None => 0nat,
            },
            acc.2 + if latency is Some {
                1nat
            } else {
                0nat
            },
            acc.3,
            acc.4 || tag == "youtube"@,
            acc.5 || tag == "youtube_gen"@,
        )
    } else {
        acc
    };
    if is_required_target(tag) && !ok {
        (a.0, a.1, a.2, false, a.4, a.5)
    } else {
        a
    }
}

/// The totals over `hits` in order.
pub open spec fn score_totals(hits: Seq<ProbeHit>) -> ScoreAcc
    decreases hits.len(),
{
    if hits.len() == 0 {
        (0, 0, 0, true, false, false)
    } else {
        let h = hits.last();
        score_step(score_totals(hits.drop_last()), h.tag@, h.ok, h.latency_ms)
    }
}

/// The score of a set of probes: every required Discord target answered,
/// the number of answered Discord targets, YouTube answered on both its
/// targets, and the mean latency of answered probes (the timeout when none
/// answered with a latency).
pub open spec fn score_of(hits: Seq<ProbeHit>, timeout_ms: u64) -> (bool, nat, bool, nat) {
    let t = score_totals(hits);
    (t.3, t.0, t.4 && t.5, if t.2 > 0 {
        t.1 / t.2
    } else {
        timeout_ms as nat
    })
}

proof fn lemma_totals_bounds(hits: Seq<ProbeHit>)
    ensures
        score_totals(hits).0 <= hits.len(),
        score_totals(hits).2 <= hits.len(),
    decreases hits.len(),
{
    if hits.len() > 0 {
        lemma_totals_bounds(hits.drop_last());
    }
}

/// Scores a set of probe results; `requires` rules out a sum of latencies
/// beyond `u64`, where the sum overflows.
pub fn score_probe_hits_with_timeout(hits: &Vec<ProbeHit>, timeout_ms: u64) -> (res:
    StrategyProbeScore)
    requires
        score_totals(hits@).1 <= u64::MAX,
    ensures
        (res.discord_required_ok, res.discord_ok as nat, res.youtube_ok, res.avg_latency_ms as nat)
            == score_of(hits@, timeout_ms),
{
    let mut discord_ok: usize = 0;
    let mut lat_sum: u64 = 0;
    let mut lat_n: u64 = 0;
    let mut required_ok = true;
    let mut youtube_ok = false;
    let mut youtube_gen_ok = false;
    let mut i: usize = 0;
    proof {
        lemma_totals_bounds(hits@);
    }
    while i < hits.len()
        invariant
            i <= hits.len(),
            score_totals(hits@).1 <= u64::MAX,
            (discord_ok as nat, lat_sum as nat, lat_n as nat, required_ok, youtube_ok, youtube_gen_ok)
                == score_totals(hits@.take(i as int)),
        decreases hits.len() - i,
    {
        assert(hits@.take(i + 1).drop_last() =~= hits@.take(i as int));
        assert(hits@.take(i + 1).last() == hits@[i as int]);
        proof {
            lemma_totals_bounds(hits@.take(i + 1));
            lemma_totals_prefix(hits@, i + 1);
        }
        let h = &hits[i];
        let tag = chars_of(h.tag.as_str());
        if h.ok {
            if let Some(ms) = h.latency_ms {
                lat_sum = lat_sum + ms;
                lat_n = lat_n + 1;
            }
            if text::begins(&tag, "discord") {
                discord_ok = discord_ok + 1;
            }
            if is(&tag, "youtube") {
                youtube_ok = true;
            }
            if is(&tag, "youtube_gen") {
                youtube_gen_ok = true;
            }
        }
        if (is(&tag, "discord_gw") || is(&tag, "discord_upd")) && !h.ok {
            required_ok = false;
        }
        i += 1;
    }
    assert(hits@.take(hits@.len() as int) =~= hits@);
    StrategyProbeScore {
        discord_required_ok: required_ok,
        discord_ok,
        youtube_ok: youtube_ok && youtube_gen_ok,
        avg_latency_ms: if lat_n > 0 {
            lat_sum / lat_n
        } else {
            timeout_ms
        },
    }
}

proof fn lemma_totals_prefix(hits: Seq<ProbeHit>, k: int)
    requires
        0 <= k <= hits.len(),
    ensures
        score_totals(hits.take(k)).1 <= score_totals(hits).1,
    decreases hits.len() - k,
{
    if k < hits.len() {
        assert(hits.take(k + 1).drop_last() =~= hits.take(k));
        lemma_totals_prefix(hits, k + 1);
    } else {
        assert(hits.take(k) =~= hits);
    }
}

/// Discord (gateway and updates) and YouTube answered: enough for
/// auto-detection.
pub open spec fn passes(discord_required_ok: bool, discord_ok: nat, youtube_ok: bool) -> bool {
    discord_required_ok && discord_ok >= 2 && youtube_ok
}

impl StrategyProbeScore {
    /// Discord (gateway and updates) and YouTube answered.
    pub fn passes_autodetect(&self) -> (res: bool)
        ensures
            res == passes(self.discord_required_ok, self.discord_ok as nat, self.youtube_ok),
    {
        self.discord_required_ok && self.discord_ok >= 2 && self.youtube_ok
    }
}

/// A probe with tag `tag` answered.
pub open spec fn answered(hits: Seq<ProbeHit>, tag: Seq<char>) -> bool {
    exists|i: int| 0 <= i < hits.len() && #[trigger] hits[i].ok && hits[i].tag@ == tag
}

proof fn lemma_totals_meaning(hits: Seq<ProbeHit>)
    ensures
        score_totals(hits).3 <==> (forall|i: int|
            0 <= i < hits.len() && is_required_target(#[trigger] hits[i].tag@) ==> hits[i].ok),
        score_totals(hits).4 <==> answered(hits, "youtube"@),
        score_totals(hits).5 <==> answered(hits, "youtube_gen"@),
    decreases hits.len(),
{
    if hits.len() > 0 {
        let prev = hits.drop_last();
        lemma_totals_meaning(prev);
        let h = hits.last();
        assert(forall|i: int| 0 <= i < prev.len() ==> prev[i] == hits[i]);
        assert(hits[hits.len() - 1] == h);
        let t = score_totals(prev);
        if t.4 {
            let w = choose|i: int| 0 <= i < prev.len() && #[trigger] prev[i].ok && prev[i].tag@ == "youtube"@;
            assert(hits[w].ok && hits[w].tag@ == "youtube"@);
        }
        if t.5 {
            let w = choose|j: int| 0 <= j < prev.len() && #[trigger] prev[j].ok && prev[j].tag@ == "youtube_gen"@;
            assert(hits[w].ok && hits[w].tag@ == "youtube_gen"@);
        }
        if answered(hits, "youtube"@) {
            let w = choose|i: int| 0 <= i < hits.len() && #[trigger] hits[i].ok && hits[i].tag@ == "youtube"@;
            if w < prev.len() {
                assert(prev[w].ok && prev[w].tag@ == "youtube"@);
            }
        }
        if answered(hits, "youtube_gen"@) {
            let w = choose|j: int| 0 <= j < hits.len() && #[trigger] hits[j].ok && hits[j].tag@ == "youtube_gen"@;
            if w < prev.len() {
                assert(prev[w].ok && prev[w].tag@ == "youtube_gen"@);
            }
        }
        if !t.3 {
            let w = choose|i: int| !(0 <= i < prev.len() && is_required_target(#[trigger] prev[i].tag@) ==> prev[i].ok);
            assert(hits[w] == prev[w]);
        }
    }
}

/// The latencies of the probes that answered, in order.
pub open spec fn answered_latencies(hits: Seq<ProbeHit>) -> Seq<u64> {
    hits.filter_map(|h: ProbeHit| if h.ok { h.latency_ms } else { None })
}

/// The sum of `xs`.
pub open spec fn total(xs: Seq<u64>) -> int {
    xs.fold_left(0int, |acc: int, x: u64| acc + x)
}

proof fn lemma_totals_latency(hits: Seq<ProbeHit>)
    ensures
        score_totals(hits).1 == total(answered_latencies(hits)),
        score_totals(hits).2 == answered_latencies(hits).len(),
    decreases hits.len(),
{
    if hits.len() > 0 {
        let prev = hits.drop_last();
        lemma_totals_latency(prev);
        let h = hits.last();
        let a = answered_latencies(prev);
        if h.ok && h.latency_ms is Some {
            let x = h.latency_ms->0;
            assert(answered_latencies(hits) == a + seq![x]);
            assert((a + seq![x]).drop_last() =~= a);
            assert((a + seq![x]).last() == x);
        } else {
            assert(answered_latencies(hits) == a);
        }
    }
}

/// The mean latency of a score is the sum of the latencies of the probes
/// that answered, divided by their number (the timeout when none answered
/// with a latency): a probe that did not answer counts for nothing, however
/// long it took.
pub proof fn lemma_average_of_answered(hits: Seq<ProbeHit>, timeout_ms: u64)
    ensures
        score_of(hits, timeout_ms).3 == if answered_latencies(hits).len() > 0 {
            (total(answered_latencies(hits)) / (answered_latencies(hits).len() as int)) as nat
        } else {
            timeout_ms as nat
        },
{
    lemma_totals_latency(hits);
}

/// A probe that did not answer leaves the mean latency as it was.
pub proof fn lemma_failed_probe_ignored(hits: Seq<ProbeHit>, h: ProbeHit, timeout_ms: u64)
    requires
        !h.ok,
    ensures
        score_of(hits.push(h), timeout_ms).3 == score_of(hits, timeout_ms).3,
{
    assert(hits.push(h).drop_last() =~= hits);
}

/// What the score says of the probes: every required Discord target that
/// was probed answered; YouTube answered on `youtube` and on `youtube_gen`;
/// so a strategy passes auto-detection exactly when, besides at least two
/// answering Discord targets, both hold.
pub proof fn lemma_score_meaning(hits: Seq<ProbeHit>, timeout_ms: u64)
    ensures
        score_of(hits, timeout_ms).0 <==> (forall|i: int|
            0 <= i < hits.len() && is_required_target(#[trigger] hits[i].tag@) ==> hits[i].ok),
        score_of(hits, timeout_ms).2 <==> answered(hits, "youtube"@) && answered(hits, "youtube_gen"@),
        passes(score_of(hits, timeout_ms).0, score_of(hits, timeout_ms).1, score_of(hits, timeout_ms).2)
            <==> (forall|i: int|
            0 <= i < hits.len() && is_required_target(#[trigger] hits[i].tag@) ==> hits[i].ok)
            && score_of(hits, timeout_ms).1 >= 2 && answered(hits, "youtube"@) && answered(
            hits,
            "youtube_gen"@,
        ),
{
    lemma_totals_meaning(hits);
}

} // verus!
