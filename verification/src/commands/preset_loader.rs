//! Zapret 2 presets (`presets/*.txt`).
//!
//! Listing the folder is the caller's part; this module decides which files
//! are presets and how each one is named, tagged, described and ordered.

use super::strategy_loader::{has_extension, key_of, make_key, slug, slugify};
use super::{has_tag, strategy_views, Strategy, StrategyView};
use crate::order::{keys_view, lemma_sorted_map, lex_lt, sort_by_keys, sorted_by_keys};
use crate::text;
use crate::text::{chars_of, concat, is, lemma_seqs_push, mentions, same, seqs, string_of, strings_of, strs};
use vstd::prelude::*;

verus! {

/// The preset tried first when auto-detecting for Apex Legends.
pub const APEX_PRESET_ID: &'static str = "apex-legends";

/// The presets tried first by auto-detection, in order.
pub open spec fn priority_list() -> Seq<Seq<char>> {
    seq![
        "default-v5"@,
        "default-v4"@,
        "default-v3"@,
        "default-v2"@,
        "default"@,
        "general"@,
        "discord-youtube"@,
        "youtube-discord"@,
        "yandex"@,
        "rostelecom"@,
        "megafon"@,
        "mts"@,
        "beeline"@,
        "tele2"@,
    ]
}

/// The presets tried first by auto-detection, in order.
pub fn autodetect_priority_names() -> (res: Vec<String>)
    ensures
        strs(res@) == priority_list(),
{
    let mut v: Vec<String> = Vec::new();
    v.push(text::owned("default-v5"));
    v.push(text::owned("default-v4"));
    v.push(text::owned("default-v3"));
    v.push(text::owned("default-v2"));
    v.push(text::owned("default"));
    v.push(text::owned("general"));
    v.push(text::owned("discord-youtube"));
    v.push(text::owned("youtube-discord"));
    v.push(text::owned("yandex"));
    v.push(text::owned("rostelecom"));
    v.push(text::owned("megafon"));
    v.push(text::owned("mts"));
    v.push(text::owned("beeline"));
    v.push(text::owned("tele2"));
    assert(strs(v@) =~= priority_list());
    v
}

/// The id of a preset: its name in lower case, reduced to ASCII letters and
/// digits joined by `-`.
pub open spec fn preset_id(name: Seq<char>) -> Seq<char> {
    slug(text::lowercase(name))
}

/// The id of a preset named `name` (`Apex Legends` is `apex-legends`).
pub fn preset_name_to_id(name: &str) -> (res: String)
    ensures
        res@ == preset_id(name@),
{
    let n = chars_of(name);
    let lower = text::to_lower(&n);
    let s = slugify(&lower);
    string_of(&s)
}

/// The path of a preset file relative to the zapret 2 folder.
pub fn preset_rel_path(filename: &str) -> (res: String)
    ensures
        res@ == "presets/"@ + filename@,
{
    let p = chars_of("presets/");
    let f = chars_of(filename);
    let r = concat(&p, &f);
    string_of(&r)
}

/// `tags` with `tag` added at the end unless it is already there.
pub open spec fn add_tag(tags: Seq<Seq<char>>, tag: Seq<char>) -> Seq<Seq<char>> {
    if has_tag(tags, tag) {
        tags
    } else {
        tags.push(tag)
    }
}

/// Adds `tag` unless it is already there.
pub fn push_tag(tags: &mut Vec<String>, tag: &str)
    ensures
        strs(final(tags)@) == add_tag(strs(old(tags)@), tag@),
{
    if !super::any_tag(tags, tag) {
        let t = text::owned(tag);
        let ghost prev = tags@;
        tags.push(t);
        assert(strs(tags@) =~= strs(prev).push(tag@));
    }
}

/// `add_tag` when `cond` holds.
pub open spec fn add_tag_if(tags: Seq<Seq<char>>, cond: bool, tag: Seq<char>) -> Seq<Seq<char>> {
    if cond {
        add_tag(tags, tag)
    } else {
        tags
    }
}

/// The tags of a preset, from its name: `zapret2` and `preset`, then
/// `recommended`, `apex`, `games`, `discord`, `youtube`, `aggressive`,
/// `legacy`, `provider`, `experimental` as the name suggests them, each
/// once, in the order first suggested.
pub open spec fn tags_of_preset(name: Seq<char>) -> Seq<Seq<char>> {
    let l = text::lowercase(name);
    let t0 = seq!["zapret2"@, "preset"@];
    let t1 = add_tag_if(t0, text::contains(l, "default v5"@), "recommended"@);
    let apex = text::contains(l, "apex"@);
    let t2 = add_tag_if(
        add_tag_if(
            add_tag_if(
                add_tag_if(add_tag_if(t1, apex, "apex"@), apex, "games"@),
                apex,
                "discord"@,
            ),
            apex,
            "youtube"@,
        ),
        apex,
        "recommended"@,
    );
    let t3 = add_tag_if(
        t2,
        text::contains(l, "discord"@) || text::contains(l, "default"@) || text::contains(
            l,
            "general"@,
        ),
        "discord"@,
    );
    let t4 = add_tag_if(
        t3,
        text::contains(l, "youtube"@) || text::contains(l, "default"@) || text::contains(
            l,
            "general"@,
        ),
        "youtube"@,
    );
    let t5 = add_tag_if(
        t4,
        text::contains(l, "game filter"@) || text::contains(l, "gaming"@) || text::contains(
            l,
            "dead by daylight"@,
        ) || text::contains(l, "valorant"@) || text::contains(l, "riot"@),
        "games"@,
    );
    let t6 = add_tag_if(
        t5,
        text::contains(l, "all tcp"@) || text::contains(l, "complex"@) || text::contains(
            l,
            "multidisorder"@,
        ),
        "aggressive"@,
    );
    let t7 = add_tag_if(
        t6,
        text::contains(l, "old"@) || text::contains(l, "legacy"@) || text::contains(
            l,
            "general alt"@,
        ),
        "legacy"@,
    );
    let t8 = add_tag_if(
        t7,
        text::contains(l, "ростелеком"@) || text::contains(l, "mts"@) || text::contains(
            l,
            "megafon"@,
        ) || text::contains(l, "beeline"@) || text::contains(l, "tele2"@) || text::contains(
            l,
            "rostelecom"@,
        ),
        "provider"@,
    );
    add_tag_if(
        t8,
        text::contains(l, "preset x"@) || text::contains(l, "preset xy"@),
        "experimental"@,
    )
}

fn push_tag_when(tags: &mut Vec<String>, cond: bool, tag: &str)
    ensures
        strs(final(tags)@) == add_tag_if(strs(old(tags)@), cond, tag@),
{
    if cond {
        push_tag(tags, tag);
    }
}

/// The tags of a preset named `display_name`.
pub fn preset_tags(display_name: &str) -> (res: Vec<String>)
    ensures
        strs(res@) == tags_of_preset(display_name@),
{
    let n = chars_of(display_name);
    let l = text::to_lower(&n);
    let mut tags: Vec<String> = Vec::new();
    tags.push(text::owned("zapret2"));
    tags.push(text::owned("preset"));
    assert(strs(tags@) =~= seq!["zapret2"@, "preset"@]);
    let c = mentions(&l, "default v5");
    push_tag_when(&mut tags, c, "recommended");
    let apex = mentions(&l, "apex");
    push_tag_when(&mut tags, apex, "apex");
    push_tag_when(&mut tags, apex, "games");
    push_tag_when(&mut tags, apex, "discord");
    push_tag_when(&mut tags, apex, "youtube");
    push_tag_when(&mut tags, apex, "recommended");
    let c = mentions(&l, "discord") || mentions(&l, "default") || mentions(&l, "general");
    push_tag_when(&mut tags, c, "discord");
    let c = mentions(&l, "youtube") || mentions(&l, "default") || mentions(&l, "general");
    push_tag_when(&mut tags, c, "youtube");
    let c = mentions(&l, "game filter") || mentions(&l, "gaming") || mentions(&l, "dead by daylight")
        || mentions(&l, "valorant") || mentions(&l, "riot");
    push_tag_when(&mut tags, c, "games");
    let c = mentions(&l, "all tcp") || mentions(&l, "complex") || mentions(&l, "multidisorder");
    push_tag_when(&mut tags, c, "aggressive");
    let c = mentions(&l, "old") || mentions(&l, "legacy") || mentions(&l, "general alt");
    push_tag_when(&mut tags, c, "legacy");
    let c = mentions(&l, "ростелеком") || mentions(&l, "mts") || mentions(&l, "megafon") || mentions(
        &l,
        "beeline",
    ) || mentions(&l, "tele2") || mentions(&l, "rostelecom");
    push_tag_when(&mut tags, c, "provider");
    let c = mentions(&l, "preset x") || mentions(&l, "preset xy");
    push_tag_when(&mut tags, c, "experimental");
    tags
}

/// The description of a preset, from its name and tags.
pub open spec fn description_of_preset(name: Seq<char>, tags: Seq<Seq<char>>) -> Seq<char> {
    if has_tag(tags, "apex"@) {
        "Apex Legends: Discord/YouTube + EA web; EAC/лобби/игровой UDP без DPI"@
    } else if text::contains(text::lowercase(name), "default v5"@) {
        "Рекомендуемый универсальный пресет для Discord/YouTube. Для Apex используйте отдельный профиль."@
    } else if has_tag(tags, "aggressive"@) {
        "Агрессивный профиль для сложных провайдеров; может сильнее влиять на игры и задержку."@
    } else if has_tag(tags, "games"@) {
        "Игровой профиль с game filter; тестируйте в конкретной игре."@
    } else if has_tag(tags, "provider"@) {
        "Профиль под конкретного провайдера."@
    } else if has_tag(tags, "legacy"@) {
        "Legacy/ALT-вариант для ручного подбора, если Default не сработал."@
    } else {
        "Пресет Zapret 2 (winws2)"@
    }
}

/// The description of a preset.
pub fn preset_description(display_name: &str, tags: &Vec<String>) -> (res: String)
    ensures
        res@ == description_of_preset(display_name@, strs(tags@)),
{
    let n = chars_of(display_name);
    let l = text::to_lower(&n);
    if super::any_tag(tags, "apex") {
        text::owned("Apex Legends: Discord/YouTube + EA web; EAC/лобби/игровой UDP без DPI")
    } else if mentions(&l, "default v5") {
        text::owned(
            "Рекомендуемый универсальный пресет для Discord/YouTube. Для Apex используйте отдельный профиль.",
        )
    } else if super::any_tag(tags, "aggressive") {
        text::owned(
            "Агрессивный профиль для сложных провайдеров; может сильнее влиять на игры и задержку.",
        )
    } else if super::any_tag(tags, "games") {
        text::owned("Игровой профиль с game filter; тестируйте в конкретной игре.")
    } else if super::any_tag(tags, "provider") {
        text::owned("Профиль под конкретного провайдера.")
    } else if super::any_tag(tags, "legacy") {
        text::owned("Legacy/ALT-вариант для ручного подбора, если Default не сработал.")
    } else {
        text::owned("Пресет Zapret 2 (winws2)")
    }
}

/// The first position of `id` in `names`, if any.
pub open spec fn position_of(names: Seq<Seq<char>>, id: Seq<char>) -> Option<int>
    decreases names.len(),
{
    if names.len() == 0 {
        None
    } else {
        match position_of(names.drop_last(), id) {
            Some(p) => Some(p),
            None => if names.last() == id {
                Some(names.len() - 1)
            } else {
                None
            },
        }
    }
}

/// The order of a preset: Apex Legends first, then the preferred presets in
/// their order, then the others by id.
pub open spec fn sort_key_of_preset(id: Seq<char>) -> (u8, u32, Seq<char>) {
    if id == APEX_PRESET_ID@ {
        (0, 0, Seq::empty())
    } else {
        match position_of(priority_list(), id) {
            Some(p) => (0, (p + 1) as u32, Seq::empty()),
            None => (1, 0, id),
        }
    }
}

/// The order of a preset (compared as a tuple).
pub fn preset_sort_key(id: &str) -> (res: (u8, u32, String))
    ensures
        (res.0, res.1, res.2@) == sort_key_of_preset(id@),
{
    let i = chars_of(id);
    if is(&i, APEX_PRESET_ID) {
        return (0, 0, String::new());
    }
    let names = autodetect_priority_names();
    assert(priority_list().len() == 14);
    assert(strs(names@).len() == names@.len());
    let mut k: usize = 0;
    assert(strs(names@).take(0) =~= Seq::<Seq<char>>::empty());
    while k < names.len()
        invariant
            k <= names.len(),
            names.len() == 14,
            i@ == id@,
            id@ != APEX_PRESET_ID@,
            strs(names@) == priority_list(),
            position_of(strs(names@).take(k as int), id@) is None,
        decreases names.len() - k,
    {
        assert(strs(names@).take(k + 1).drop_last() =~= strs(names@).take(k as int));
        assert(strs(names@).take(k + 1).last() == names@[k as int]@);
        let c = chars_of(names[k].as_str());
        if same(&c, &i) {
            proof {
                lemma_position_prefix(strs(names@), id@, k as int + 1);
            }
            return (0, (k + 1) as u32, String::new());
        }
        k += 1;
    }
    assert(strs(names@).take(14) =~= strs(names@));
    (1, 0, text::owned(id))
}

proof fn lemma_position_prefix(names: Seq<Seq<char>>, id: Seq<char>, k: int)
    requires
        0 <= k <= names.len(),
        position_of(names.take(k), id) is Some,
    ensures
        position_of(names, id) == position_of(names.take(k), id),
    decreases names.len() - k,
{
    if k < names.len() {
        assert(names.take(k + 1).drop_last() =~= names.take(k));
        lemma_position_prefix(names, id, k + 1);
    } else {
        assert(names.take(k) =~= names);
    }
}

/// The order in which auto-detection tries presets (the listing order).
pub fn autodetect_priority(id: &str) -> (res: (u8, u32, String))
    ensures
        (res.0, res.1, res.2@) == sort_key_of_preset(id@),
{
    preset_sort_key(id)
}

/// The order of a preset as a number sequence.
pub open spec fn preset_key(id: Seq<char>) -> Seq<u32> {
    let k = sort_key_of_preset(id);
    key_of(seq![k.0 as u32, k.1], k.2)
}

pub fn preset_key_of(id: &str) -> (res: Vec<u32>)
    ensures
        res@ == preset_key(id@),
{
    let (a, b, c) = preset_sort_key(id);
    let mut parts: Vec<u32> = Vec::new();
    parts.push(a as u32);
    parts.push(b);
    assert(parts@ =~= seq![a as u32, b]);
    let cs = chars_of(c.as_str());
    make_key(parts, &cs)
}

// ---------------------------------------------------------------------------
// Listing presets
// ---------------------------------------------------------------------------

/// The files of `presets/` that are presets: `*.txt` not starting with `_`.
pub open spec fn is_preset_file(filename: Seq<char>) -> bool {
    has_extension(filename, "txt"@) && !text::starts_with(filename, "_"@)
}

/// The preset listed for a file of `presets/`.
pub open spec fn preset_of_file(filename: Seq<char>) -> StrategyView {
    let name = text::trim_end_matches(filename, ".txt"@);
    let tags = tags_of_preset(name);
    StrategyView {
        id: preset_id(name),
        name,
        description: description_of_preset(name, tags),
        tags,
        source_bat: "presets/"@ + filename,
        args: Seq::empty(),
    }
}

/// The preset files among `names`, in the order given.
pub open spec fn preset_files(names: Seq<Seq<char>>) -> Seq<Seq<char>>
    decreases names.len(),
{
    if names.len() == 0 {
        Seq::empty()
    } else {
        let r = preset_files(names.drop_last());
        if is_preset_file(names.last()) {
            r.push(names.last())
        } else {
            r
        }
    }
}

/// The presets of a `presets/` folder whose file names are `names`, in
/// listing order.
pub open spec fn presets_of(names: Seq<Seq<char>>) -> Seq<StrategyView> {
    let files = preset_files(names);
    sorted_by_keys(
        files.map_values(|f: Seq<char>| preset_of_file(f)),
        files.map_values(|f: Seq<char>| preset_key(preset_of_file(f).id)),
    )
}

pub fn is_preset_file_name(filename: &str) -> (res: bool)
    ensures
        res == is_preset_file(filename@),
{
    let f = chars_of(filename);
    let dot_txt = chars_of(".txt");
    proof {
        reveal_strlit(".txt");
        reveal_strlit("txt");
        assert(dot_txt@ =~= seq!['.'] + "txt"@);
    }
    f.len() > 4 && text::ends_with_chars(&f, &dot_txt) && !text::begins(&f, "_")
}

/// The preset for one file of `presets/`.
pub fn preset_from_file(filename: &str) -> (res: Strategy)
    ensures
        res@ == preset_of_file(filename@),
{
    let f = chars_of(filename);
    let name_chars = text::trim_end_matches_chars(&f, ".txt");
    let display_name = string_of(&name_chars);
    let id = preset_name_to_id(display_name.as_str());
    let rel = preset_rel_path(filename);
    let tags = preset_tags(display_name.as_str());
    let description = preset_description(display_name.as_str(), &tags);
    Strategy { id, name: display_name, description, tags, source_bat: rel, args: String::new() }
}

/// The presets of zapret 2: the `*.txt` files of `presets/` not starting
/// with `_`, given as the folder's file names (`None` when there is no
/// `presets/` folder), in listing order.
pub fn load_presets(names: Option<&Vec<String>>) -> (res: Vec<Strategy>)
    ensures
        match names {
            None => res@.len() == 0,
            Some(n) => strategy_views(res@) == presets_of(strs(n@)),
        },
{
    let names = match names {
        None => return Vec::new(),
        Some(n) => n,
    };
    let ghost all = strs(names@);
    let mut found: Vec<Strategy> = Vec::new();
    let mut keys: Vec<Vec<u32>> = Vec::new();
    let mut i: usize = 0;
    assert(all.take(0) =~= Seq::<Seq<char>>::empty());
    while i < names.len()
        invariant
            i <= names.len(),
            all == strs(names@),
            found.len() == keys.len(),
            strategy_views(found@) == preset_files(all.take(i as int)).map_values(
                |f: Seq<char>| preset_of_file(f),
            ),
            keys_view(keys@) == preset_files(all.take(i as int)).map_values(
                |f: Seq<char>| preset_key(preset_of_file(f).id),
            ),
        decreases names.len() - i,
    {
        assert(all.take(i + 1).drop_last() =~= all.take(i as int));
        assert(all.take(i + 1).last() == names@[i as int]@);
        if is_preset_file_name(names[i].as_str()) {
            let s = preset_from_file(names[i].as_str());
            let k = preset_key_of(s.id.as_str());
            let ghost prev = found@;
            let ghost prev_keys = keys@;
            found.push(s);
            keys.push(k);
            assert(strategy_views(found@) =~= strategy_views(prev).push(s@));
            assert(keys_view(keys@) =~= keys_view(prev_keys).push(k@));
        }
        i += 1;
        assert(strategy_views(found@) =~= preset_files(all.take(i as int)).map_values(
            |f: Seq<char>| preset_of_file(f),
        ));
        assert(keys_view(keys@) =~= preset_files(all.take(i as int)).map_values(
            |f: Seq<char>| preset_key(preset_of_file(f).id),
        ));
    }
    assert(all.take(names.len() as int) =~= all);
    let ghost unsorted = found@;
    let sorted = sort_by_keys(found, &keys);
    proof {
        lemma_sorted_map(unsorted, keys_view(keys@), |s: Strategy| s@);
    }
    sorted
}

proof fn lemma_position_in_range(names: Seq<Seq<char>>, id: Seq<char>)
    ensures
        position_of(names, id) matches Some(p) ==> 0 <= p < names.len(),
    decreases names.len(),
{
    if names.len() > 0 {
        lemma_position_in_range(names.drop_last(), id);
    }
}

/// After a conditional add, a tag is there exactly when it was before, or
/// when it was added; the tags already there keep their places.
proof fn lemma_add_tag_if_has(tags: Seq<Seq<char>>, cond: bool, tag: Seq<char>, x: Seq<char>)
    ensures
        has_tag(add_tag_if(tags, cond, tag), x) <==> has_tag(tags, x) || (cond && x == tag),
        add_tag_if(tags, cond, tag).len() >= tags.len(),
        forall|k: int| 0 <= k < tags.len() ==> #[trigger] add_tag_if(tags, cond, tag)[k] == tags[k],
{
    if cond && !has_tag(tags, tag) {
        let t = tags.push(tag);
        assert(t[tags.len() as int] == tag);
        if has_tag(tags, x) {
            let w = choose|i: int| 0 <= i < tags.len() && tags[i] == x;
            assert(t[w] == x);
        }
        if has_tag(t, x) && x != tag {
            let w = choose|i: int| 0 <= i < t.len() && t[i] == x;
            assert(tags[w] == x);
        }
    }
}

/// The preset's name, in lower case, holds `w`.
pub open spec fn name_says(name: Seq<char>, w: Seq<char>) -> bool {
    text::contains(text::lowercase(name), w)
}

proof fn lemma_tag_names_differ()
    ensures
        "zapret2"@ != "apex"@ && "zapret2"@ != "recommended"@ && "zapret2"@ != "games"@ && "zapret2"@
            != "discord"@ && "zapret2"@ != "youtube"@ && "zapret2"@ != "aggressive"@ && "zapret2"@
            != "legacy"@ && "zapret2"@ != "provider"@ && "zapret2"@ != "experimental"@,
        "preset"@ != "apex"@ && "preset"@ != "recommended"@ && "preset"@ != "games"@ && "preset"@
            != "discord"@ && "preset"@ != "youtube"@ && "preset"@ != "aggressive"@ && "preset"@
            != "legacy"@ && "preset"@ != "provider"@ && "preset"@ != "experimental"@,
        "apex"@ != "recommended"@ && "apex"@ != "games"@ && "apex"@ != "discord"@ && "apex"@
            != "youtube"@ && "apex"@ != "aggressive"@ && "apex"@ != "legacy"@ && "apex"@
            != "provider"@ && "apex"@ != "experimental"@,
        "recommended"@ != "games"@ && "recommended"@ != "discord"@ && "recommended"@ != "youtube"@
            && "recommended"@ != "aggressive"@ && "recommended"@ != "legacy"@ && "recommended"@
            != "provider"@ && "recommended"@ != "experimental"@,
        "games"@ != "discord"@ && "games"@ != "youtube"@ && "games"@ != "aggressive"@ && "games"@
            != "legacy"@ && "games"@ != "provider"@ && "games"@ != "experimental"@,
        "discord"@ != "youtube"@ && "discord"@ != "aggressive"@ && "discord"@ != "legacy"@
            && "discord"@ != "provider"@ && "discord"@ != "experimental"@,
        "youtube"@ != "aggressive"@ && "youtube"@ != "legacy"@ && "youtube"@ != "provider"@
            && "youtube"@ != "experimental"@,
        "aggressive"@ != "legacy"@ && "aggressive"@ != "provider"@ && "aggressive"@
            != "experimental"@,
        "legacy"@ != "provider"@ && "legacy"@ != "experimental"@,
        "provider"@ != "experimental"@,
{
    reveal_strlit("zapret2");
    reveal_strlit("preset");
    reveal_strlit("apex");
    reveal_strlit("recommended");
    reveal_strlit("games");
    reveal_strlit("discord");
    reveal_strlit("youtube");
    reveal_strlit("aggressive");
    reveal_strlit("legacy");
    reveal_strlit("provider");
    reveal_strlit("experimental");
    assert("zapret2"@.len() == 7 && "preset"@.len() == 6 && "apex"@.len() == 4);
    assert("recommended"@.len() == 11 && "games"@.len() == 5 && "discord"@.len() == 7);
    assert("youtube"@.len() == 7 && "aggressive"@.len() == 10 && "legacy"@.len() == 6);
    assert("provider"@.len() == 8 && "experimental"@.len() == 12);
    assert("zapret2"@[0] != "discord"@[0]);
    assert("zapret2"@[0] != "youtube"@[0]);
    assert("discord"@[0] != "youtube"@[0]);
    assert("preset"@[0] != "legacy"@[0]);
}

/// The tags added in turn, given which of the name's hints hold.
pub open spec fn tag_chain(
    c1: bool,
    ap: bool,
    c3: bool,
    c4: bool,
    c5: bool,
    c6: bool,
    c7: bool,
    c8: bool,
    c9: bool,
) -> Seq<Seq<char>> {
    let t1 = add_tag_if(seq!["zapret2"@, "preset"@], c1, "recommended"@);
    let t2 = add_tag_if(
        add_tag_if(
            add_tag_if(add_tag_if(add_tag_if(t1, ap, "apex"@), ap, "games"@), ap, "discord"@),
            ap,
            "youtube"@,
        ),
        ap,
        "recommended"@,
    );
    add_tag_if(
        add_tag_if(
            add_tag_if(
                add_tag_if(
                    add_tag_if(add_tag_if(add_tag_if(t2, c3, "discord"@), c4, "youtube"@), c5, "games"@),
                    c6,
                    "aggressive"@,
                ),
                c7,
                "legacy"@,
            ),
            c8,
            "provider"@,
        ),
        c9,
        "experimental"@,
    )
}

proof fn lemma_chain_has(
    c1: bool,
    ap: bool,
    c3: bool,
    c4: bool,
    c5: bool,
    c6: bool,
    c7: bool,
    c8: bool,
    c9: bool,
    x: Seq<char>,
)
    ensures
        has_tag(tag_chain(c1, ap, c3, c4, c5, c6, c7, c8, c9), x) <==> (x == "zapret2"@ || x
            == "preset"@ || (c1 && x == "recommended"@) || (ap && (x == "apex"@ || x == "games"@
            || x == "discord"@ || x == "youtube"@ || x == "recommended"@)) || (c3 && x == "discord"@)
            || (c4 && x == "youtube"@) || (c5 && x == "games"@) || (c6 && x == "aggressive"@) || (c7
            && x == "legacy"@) || (c8 && x == "provider"@) || (c9 && x == "experimental"@)),
        tag_chain(c1, ap, c3, c4, c5, c6, c7, c8, c9).len() >= 2,
        tag_chain(c1, ap, c3, c4, c5, c6, c7, c8, c9)[0] == "zapret2"@,
        tag_chain(c1, ap, c3, c4, c5, c6, c7, c8, c9)[1] == "preset"@,
{
    let t0 = seq!["zapret2"@, "preset"@];
    let t1 = add_tag_if(t0, c1, "recommended"@);
    let a1 = add_tag_if(t1, ap, "apex"@);
    let a2 = add_tag_if(a1, ap, "games"@);
    let a3 = add_tag_if(a2, ap, "discord"@);
    let a4 = add_tag_if(a3, ap, "youtube"@);
    let t2 = add_tag_if(a4, ap, "recommended"@);
    let t3 = add_tag_if(t2, c3, "discord"@);
    let t4 = add_tag_if(t3, c4, "youtube"@);
    let t5 = add_tag_if(t4, c5, "games"@);
    let t6 = add_tag_if(t5, c6, "aggressive"@);
    let t7 = add_tag_if(t6, c7, "legacy"@);
    let t8 = add_tag_if(t7, c8, "provider"@);
    let t9 = add_tag_if(t8, c9, "experimental"@);
    assert(tag_chain(c1, ap, c3, c4, c5, c6, c7, c8, c9) == t9);
    lemma_add_tag_if_has(t0, c1, "recommended"@, x);
    lemma_add_tag_if_has(t1, ap, "apex"@, x);
    lemma_add_tag_if_has(a1, ap, "games"@, x);
    lemma_add_tag_if_has(a2, ap, "discord"@, x);
    lemma_add_tag_if_has(a3, ap, "youtube"@, x);
    lemma_add_tag_if_has(a4, ap, "recommended"@, x);
    lemma_add_tag_if_has(t2, c3, "discord"@, x);
    lemma_add_tag_if_has(t3, c4, "youtube"@, x);
    lemma_add_tag_if_has(t4, c5, "games"@, x);
    lemma_add_tag_if_has(t5, c6, "aggressive"@, x);
    lemma_add_tag_if_has(t6, c7, "legacy"@, x);
    lemma_add_tag_if_has(t7, c8, "provider"@, x);
    lemma_add_tag_if_has(t8, c9, "experimental"@, x);
    if has_tag(t0, x) {
        let w = choose|i: int| 0 <= i < t0.len() && t0[i] == x;
        assert(w == 0 || w == 1);
    }
    if x == "zapret2"@ {
        assert(t0[0] == x);
    }
    if x == "preset"@ {
        assert(t0[1] == x);
    }
}

/// The tags a preset's name gives: first `zapret2` and `preset`; `apex`
/// for Apex Legends; `recommended` for Default v5 and Apex; `games` for
/// Apex, a game filter, gaming, Dead by Daylight, Valorant or Riot;
/// `discord` and `youtube` for Apex, a default or general preset, or one
/// naming the service; `aggressive` for all TCP, complex or multidisorder;
/// `legacy` for old, legacy or general alt; `provider` for a provider's
/// name; `experimental` for Preset X. Letter case does not matter.
pub proof fn lemma_preset_tag_meaning(name: Seq<char>)
    ensures
        tags_of_preset(name).len() >= 2,
        tags_of_preset(name)[0] == "zapret2"@,
        tags_of_preset(name)[1] == "preset"@,
        has_tag(tags_of_preset(name), "apex"@) <==> name_says(name, "apex"@),
        has_tag(tags_of_preset(name), "recommended"@) <==> (name_says(name, "default v5"@)
            || name_says(name, "apex"@)),
        has_tag(tags_of_preset(name), "games"@) <==> (name_says(name, "apex"@) || name_says(
            name,
            "game filter"@,
        ) || name_says(name, "gaming"@) || name_says(name, "dead by daylight"@) || name_says(
            name,
            "valorant"@,
        ) || name_says(name, "riot"@)),
        has_tag(tags_of_preset(name), "discord"@) <==> (name_says(name, "apex"@) || name_says(
            name,
            "discord"@,
        ) || name_says(name, "default"@) || name_says(name, "general"@)),
        has_tag(tags_of_preset(name), "youtube"@) <==> (name_says(name, "apex"@) || name_says(
            name,
            "youtube"@,
        ) || name_says(name, "default"@) || name_says(name, "general"@)),
        has_tag(tags_of_preset(name), "aggressive"@) <==> (name_says(name, "all tcp"@) || name_says(
            name,
            "complex"@,
        ) || name_says(name, "multidisorder"@)),
        has_tag(tags_of_preset(name), "legacy"@) <==> (name_says(name, "old"@) || name_says(
            name,
            "legacy"@,
        ) || name_says(name, "general alt"@)),
        has_tag(tags_of_preset(name), "provider"@) <==> (name_says(name, "ростелеком"@) || name_says(
            name,
            "mts"@,
        ) || name_says(name, "megafon"@) || name_says(name, "beeline"@) || name_says(name, "tele2"@)
            || name_says(name, "rostelecom"@)),
        has_tag(tags_of_preset(name), "experimental"@) <==> (name_says(name, "preset x"@)
            || name_says(name, "preset xy"@)),
{
    lemma_tag_names_differ();
    let l = text::lowercase(name);
    let c1 = text::contains(l, "default v5"@);
    let ap = text::contains(l, "apex"@);
    let c3 = text::contains(l, "discord"@) || text::contains(l, "default"@) || text::contains(l, "general"@);
    let c4 = text::contains(l, "youtube"@) || text::contains(l, "default"@) || text::contains(l, "general"@);
    let c5 = text::contains(l, "game filter"@) || text::contains(l, "gaming"@) || text::contains(
        l,
        "dead by daylight"@,
    ) || text::contains(l, "valorant"@) || text::contains(l, "riot"@);
    let c6 = text::contains(l, "all tcp"@) || text::contains(l, "complex"@) || text::contains(
        l,
        "multidisorder"@,
    );
    let c7 = text::contains(l, "old"@) || text::contains(l, "legacy"@) || text::contains(l, "general alt"@);
    let c8 = text::contains(l, "ростелеком"@) || text::contains(l, "mts"@) || text::contains(l, "megafon"@)
        || text::contains(l, "beeline"@) || text::contains(l, "tele2"@) || text::contains(l, "rostelecom"@);
    let c9 = text::contains(l, "preset x"@) || text::contains(l, "preset xy"@);
    assert(tags_of_preset(name) == tag_chain(c1, ap, c3, c4, c5, c6, c7, c8, c9));
    lemma_chain_has(c1, ap, c3, c4, c5, c6, c7, c8, c9, "apex"@);
    lemma_chain_has(c1, ap, c3, c4, c5, c6, c7, c8, c9, "recommended"@);
    lemma_chain_has(c1, ap, c3, c4, c5, c6, c7, c8, c9, "games"@);
    lemma_chain_has(c1, ap, c3, c4, c5, c6, c7, c8, c9, "discord"@);
    lemma_chain_has(c1, ap, c3, c4, c5, c6, c7, c8, c9, "youtube"@);
    lemma_chain_has(c1, ap, c3, c4, c5, c6, c7, c8, c9, "aggressive"@);
    lemma_chain_has(c1, ap, c3, c4, c5, c6, c7, c8, c9, "legacy"@);
    lemma_chain_has(c1, ap, c3, c4, c5, c6, c7, c8, c9, "provider"@);
    lemma_chain_has(c1, ap, c3, c4, c5, c6, c7, c8, c9, "experimental"@);
}

/// Apex Legends is tried first: its key comes before the key of every other
/// preset.
pub proof fn lemma_apex_first(id: Seq<char>)
    requires
        id != APEX_PRESET_ID@,
    ensures
        sort_key_of_preset(APEX_PRESET_ID@) == (0u8, 0u32, Seq::<char>::empty()),
        sort_key_of_preset(id).0 > 0 || sort_key_of_preset(id).1 > 0,
        lex_lt(preset_key(APEX_PRESET_ID@), preset_key(id)),
{
    lemma_position_in_range(priority_list(), id);
    let a = preset_key(APEX_PRESET_ID@);
    let b = preset_key(id);
    assert(a =~= seq![0u32, 0u32]);
    let k = sort_key_of_preset(id);
    assert(b =~= seq![k.0 as u32, k.1] + k.2.map_values(|c: char| c as u32));
    assert(b[0] == k.0 as u32 && b[1] == k.1);
    if k.0 == 0 {
        assert(a.drop_first() =~= seq![0u32]);
        assert(b.drop_first()[0] == k.1);
        assert(lex_lt(a.drop_first(), b.drop_first()));
    }
}

} // verus!
