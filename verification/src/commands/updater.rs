//! Updates of zapret 1 from GitHub releases: which asset is downloaded,
//! whether an update is offered, which archive entries an update replaces,
//! and the messages. The HTTP requests, JSON parsing and archive extraction
//! are the caller's part.

use super::strategy_loader::has_extension;
use crate::text;
use crate::text::{cat2, cat3, chars_of, concat, decimal, seqs, string_of, strs};
use vstd::prelude::*;

verus! {

pub const REPO_OWNER: &'static str = "flowseal";

pub const REPO_NAME: &'static str = "zapret-discord-youtube";

pub const VERSION_FILE: &'static str = "zapret_version.txt";

/// What the UI shows about the latest release.
#[derive(Clone, Debug)]
pub struct ReleaseInfo {
    pub tag_name: String,
    pub name: String,
    pub body: String,
    pub published_at: String,
    pub download_url: String,
    pub current_version: String,
    pub has_update: bool,
}

/// A release as GitHub describes it.
#[derive(Clone, Debug)]
pub struct GithubRelease {
    pub tag_name: String,
    pub name: Option<String>,
    pub body: Option<String>,
    pub published_at: String,
    pub assets: Vec<GithubAsset>,
}

/// A file attached to a release.
#[derive(Clone, Debug)]
pub struct GithubAsset {
    pub name: String,
    pub browser_download_url: String,
}

/// The names and URLs of a release's assets.
pub open spec fn assets_view(a: Seq<GithubAsset>) -> Seq<(Seq<char>, Seq<char>)> {
    a.map_values(|x: GithubAsset| (x.name@, x.browser_download_url@))
}

/// The URL of the first asset whose name ends with `suffix`.
pub open spec fn first_asset_url(assets: Seq<(Seq<char>, Seq<char>)>, suffix: Seq<char>) -> Option<
    Seq<char>,
>
    decreases assets.len(),
{
    if assets.len() == 0 {
        None
    } else if text::ends_with(assets[0].0, suffix) {
        Some(assets[0].1)
    } else {
        first_asset_url(assets.drop_first(), suffix)
    }
}

/// The asset names joined by `, `.
pub open spec fn asset_names(assets: Seq<(Seq<char>, Seq<char>)>) -> Seq<char> {
    text::join(assets.map_values(|a: (Seq<char>, Seq<char>)| a.0), ", "@)
}

/// The download URL of a zapret 1 release: its first `.zip` asset, or an
/// error listing the assets.
pub open spec fn zip_url(tag: Seq<char>, assets: Seq<(Seq<char>, Seq<char>)>) -> Result<
    Seq<char>,
    Seq<char>,
> {
    match first_asset_url(assets, ".zip"@) {
        Some(u) => Ok(u),
        None => Err(
            "В релизе "@ + tag + " нет .zip архива. Доступно: "@ + asset_names(assets),
        ),
    }
}

fn asset_names_exec(assets: &Vec<GithubAsset>) -> (res: Vec<char>)
    ensures
        res@ == asset_names(assets_view(assets@)),
{
    let mut names: Vec<Vec<char>> = Vec::new();
    let mut i: usize = 0;
    while i < assets.len()
        invariant
            i <= assets.len(),
            names.len() == i,
            forall|k: int| 0 <= k < i ==> #[trigger] names@[k]@ == assets@[k].name@,
        decreases assets.len() - i,
    {
        names.push(chars_of(assets[i].name.as_str()));
        i += 1;
    }
    assert(seqs(names@) =~= assets_view(assets@).map_values(|a: (Seq<char>, Seq<char>)| a.0));
    let sep = chars_of(", ");
    text::join_chars(&names, &sep)
}

/// The `.zip` download URL of a release.
pub fn pick_zip_url(release: &GithubRelease) -> (res: Result<String, String>)
    ensures
        text::res_str(res) == zip_url(release.tag_name@, assets_view(release.assets@)),
{
    match find_asset_url_str(&release.assets, ".zip") {
        Some(u) => Ok(u),
        None => {
            let a = cat3("В релизе ", release.tag_name.as_str(), " нет .zip архива. Доступно: ");
            let ac = chars_of(a.as_str());
            let names = asset_names_exec(&release.assets);
            let r = concat(&ac, &names);
            Err(string_of(&r))
        },
    }
}

/// The URL of the first asset whose name ends with `suffix`.
pub fn find_asset_url_str(assets: &Vec<GithubAsset>, suffix: &str) -> (res: Option<String>)
    ensures
        match res {
            Some(s) => first_asset_url(assets_view(assets@), suffix@) == Some(s@),
            None => first_asset_url(assets_view(assets@), suffix@) is None,
        },
{
    let sfx = chars_of(suffix);
    let mut i: usize = 0;
    assert(assets_view(assets@).subrange(0, assets@.len() as int) =~= assets_view(assets@));
    while i < assets.len()
        invariant
            i <= assets.len(),
            sfx@ == suffix@,
            first_asset_url(assets_view(assets@), suffix@) == first_asset_url(
                assets_view(assets@).subrange(i as int, assets@.len() as int),
                suffix@,
            ),
        decreases assets.len() - i,
    {
        let ghost rest = assets_view(assets@).subrange(i as int, assets@.len() as int);
        assert(rest[0] == (assets@[i as int].name@, assets@[i as int].browser_download_url@));
        assert(rest.drop_first() =~= assets_view(assets@).subrange(i + 1, assets@.len() as int));
        let n = chars_of(assets[i].name.as_str());
        if text::ends_with_chars(&n, &sfx) {
            return Some(assets[i].browser_download_url.clone());
        }
        i += 1;
    }
    None
}

/// The installed version: the trimmed content of the version file, or
/// `unknown` when it could not be read.
pub open spec fn version_of(content: Option<Seq<char>>) -> Seq<char> {
    match content {
        Some(c) => text::trim(c),
        None => "unknown"@,
    }
}

pub fn read_current_version(content: Option<&str>) -> (res: String)
    ensures
        res@ == version_of(text::opt_str(content)),
{
    match content {
        Some(c) => {
            let cc = chars_of(c);
            let t = text::trim_chars(&cc);
            string_of(&t)
        },
        None => text::owned("unknown"),
    }
}

/// What the UI shows for a release: an update is offered when the installed
/// version is known, differs from the release's tag, and the release has a
/// download.
pub open spec fn info_of(
    tag: Seq<char>,
    name: Option<Seq<char>>,
    body: Option<Seq<char>>,
    published_at: Seq<char>,
    download_url: Seq<char>,
    current_version: Seq<char>,
) -> (Seq<char>, Seq<char>, Seq<char>, Seq<char>, Seq<char>, Seq<char>, bool) {
    (
        tag,
        match name {
            Some(n) => n,
            None => tag,
        },
        match body {
            Some(b) => b,
            None => Seq::empty(),
        },
        published_at,
        download_url,
        current_version,
        current_version != "unknown"@ && current_version != tag && download_url.len() > 0,
    )
}

/// The contents of a [`ReleaseInfo`].
pub open spec fn release_info_view(r: ReleaseInfo) -> (
    Seq<char>,
    Seq<char>,
    Seq<char>,
    Seq<char>,
    Seq<char>,
    Seq<char>,
    bool,
) {
    (
        r.tag_name@,
        r.name@,
        r.body@,
        r.published_at@,
        r.download_url@,
        r.current_version@,
        r.has_update,
    )
}

/// The view of an optional string.
pub open spec fn opt_string(o: Option<String>) -> Option<Seq<char>> {
    match o {
        Some(s) => Some(s@),
        None => None,
    }
}

/// What the UI shows for a release, given its download URL (empty when it
/// has none) and the installed version.
pub fn make_release_info(release: GithubRelease, download_url: String, current_version: String) -> (res:
    ReleaseInfo)
    ensures
        release_info_view(res) == info_of(
            release.tag_name@,
            opt_string(release.name),
            opt_string(release.body),
            release.published_at@,
            download_url@,
            current_version@,
        ),
{
    let cv = chars_of(current_version.as_str());
    let tag = chars_of(release.tag_name.as_str());
    let du = chars_of(download_url.as_str());
    let has_update = !text::is(&cv, "unknown") && !text::same(&cv, &tag) && du.len() > 0;
    let name = match release.name {
        Some(n) => n,
        None => release.tag_name.clone(),
    };
    let body = match release.body {
        Some(b) => b,
        None => String::new(),
    };
    ReleaseInfo {
        tag_name: release.tag_name,
        name,
        body,
        published_at: release.published_at,
        download_url,
        current_version,
        has_update,
    }
}

/// What the UI shows for a zapret 1 release, given the installed version.
pub fn release_to_info(release: GithubRelease, current_version: String) -> (res: ReleaseInfo)
    ensures
        release_info_view(res) == info_of(
            release.tag_name@,
            opt_string(release.name),
            opt_string(release.body),
            release.published_at@,
            match zip_url(release.tag_name@, assets_view(release.assets@)) {
                Ok(u) => u,
                Err(_) => Seq::empty(),
            },
            current_version@,
        ),
{
    let url = match pick_zip_url(&release) {
        Ok(u) => u,
        Err(_) => String::new(),
    };
    make_release_info(release, url, current_version)
}

/// The GitHub API address of a repository's latest release.
pub fn latest_release_url(owner: &str, repo: &str) -> (res: String)
    ensures
        res@ == "https://api.github.com/repos/"@ + owner@ + "/"@ + repo@ + "/releases/latest"@,
{
    let a = cat3("https://api.github.com/repos/", owner, "/");
    cat3(a.as_str(), repo, "/releases/latest")
}

/// An update (not a full install) replaces only `.bat` files, files under
/// `bin`, and `.txt` lists, and never the user's own lists or `hosts`.
pub open spec fn update_keeps_entry(outpath: Seq<char>, filename: Seq<char>) -> bool {
    &&& !(text::contains(filename, "-user"@) || filename == "hosts"@)
    &&& (has_extension(filename, "bat"@) || text::contains(outpath, "bin\\"@) || text::contains(
        outpath,
        "bin/"@,
    ) || has_extension(filename, "txt"@))
}

/// Whether an update writes the archive entry at `outpath` (whose file name
/// is `filename`, empty when it has none).
pub fn update_writes_entry(outpath: &str, filename: &str) -> (res: bool)
    ensures
        res == update_keeps_entry(outpath@, filename@),
{
    proof {
        reveal_strlit("bat");
        reveal_strlit("txt");
        reveal_strlit(".bat");
        reveal_strlit(".txt");
    }
    let o = chars_of(outpath);
    let f = chars_of(filename);
    if text::mentions(&f, "-user") || text::is(&f, "hosts") {
        return false;
    }
    let dot_bat = chars_of(".bat");
    let dot_txt = chars_of(".txt");
    assert(dot_bat@ =~= seq!['.'] + "bat"@);
    assert(dot_txt@ =~= seq!['.'] + "txt"@);
    let is_bat = f.len() > 4 && text::ends_with_chars(&f, &dot_bat);
    let is_list = f.len() > 4 && text::ends_with_chars(&f, &dot_txt);
    let is_bin = text::mentions(&o, "bin\\") || text::mentions(&o, "bin/");
    is_bat || is_bin || is_list
}

/// The check after installing: `winws.exe` must exist.
pub fn verify_install(winws_path: &str, winws_exists: bool) -> (res: Result<(), String>)
    ensures
        winws_exists <==> res is Ok,
        res matches Err(e) ==> e@ == "После установки winws.exe не найден: "@ + winws_path@
            + ". Попробуйте переустановить."@,
{
    if winws_exists {
        Ok(())
    } else {
        Err(cat3("После установки winws.exe не найден: ", winws_path, ". Попробуйте переустановить."))
    }
}

/// The message after a full install.
pub fn installed_message(tag: &str, dir: &str, written: usize) -> (res: String)
    ensures
        res@ == "Zapret 1 "@ + tag@ + " установлен в "@ + dir@ + " ("@ + decimal(written as nat)
            + " файлов). Пресет Apex добавлен."@,
{
    let a = cat3("Zapret 1 ", tag, " установлен в ");
    let b = cat3(a.as_str(), dir, " (");
    let d = text::decimal_string(written as u64);
    cat3(b.as_str(), d.as_str(), " файлов). Пресет Apex добавлен.")
}

/// The message after an update.
pub fn updated_message(tag: &str, written: usize) -> (res: String)
    ensures
        res@ == "Обновление "@ + tag@ + " применено. Обновлено файлов: "@ + decimal(written as nat),
{
    let a = cat3("Обновление ", tag, " применено. Обновлено файлов: ");
    let d = text::decimal_string(written as u64);
    cat2(a.as_str(), d.as_str())
}

/// The message when GitHub answered with an error status.
pub fn github_status_message(status: &str) -> (res: String)
    ensures
        res@ == "GitHub API вернул "@ + status@ + ". Проверьте интернет или повторите позже."@,
{
    cat3("GitHub API вернул ", status, ". Проверьте интернет или повторите позже.")
}

// ---------------------------------------------------------------------------
// The folder an archive wraps its files in
// ---------------------------------------------------------------------------

/// The start of an archive entry's path: its first component when that is
/// a plain name (`None` when the entry has no safe name or starts with a
/// root, a prefix or `..`), and whether more components follow it.
#[derive(Clone, Debug)]
pub struct EntryHead {
    pub first: Option<String>,
    pub nested: bool,
}

pub open spec fn head_view(h: EntryHead) -> (Option<Seq<char>>, bool) {
    (
        match h.first {
            Some(f) => Some(f@),
            None => None,
        },
        h.nested,
    )
}

pub open spec fn heads_view(v: Seq<EntryHead>) -> Seq<(Option<Seq<char>>, bool)> {
    v.map_values(|h: EntryHead| head_view(h))
}

/// The folder that every entry of an archive lies in (such as
/// `zapret-1.9.8c/`), stripped on extraction: there is one when the
/// archive has entries, each is nested, and all share the same first plain
/// component.
pub open spec fn shared_root(heads: Seq<(Option<Seq<char>>, bool)>) -> Option<Seq<char>> {
    if heads.len() > 0 && heads[0].0 is Some && (forall|i: int|
        0 <= i < heads.len() ==> (#[trigger] heads[i]).1 && heads[i].0 == heads[0].0) {
        heads[0].0
    } else {
        None
    }
}

/// The folder shared by all entries, from the start of each entry's path.
pub fn detect_strip_prefix(heads: &Vec<EntryHead>) -> (res: Option<String>)
    ensures
        match res {
            Some(r) => shared_root(heads_view(heads@)) == Some(r@),
            None => shared_root(heads_view(heads@)) is None,
        },
{
    let ghost hv = heads_view(heads@);
    let mut root: Option<Vec<char>> = None;
    let mut i: usize = 0;
    while i < heads.len()
        invariant
            i <= heads.len(),
            hv == heads_view(heads@),
            hv.len() == heads.len(),
            i == 0 <==> root is None,
            root matches Some(r) ==> hv[0].0 == Some(r@),
            forall|j: int| 0 <= j < i ==> (#[trigger] hv[j]).1 && hv[j].0 == hv[0].0,
        decreases heads.len() - i,
    {
        let h = &heads[i];
        assert(hv[i as int] == head_view(*h));
        let first = match &h.first {
            Some(f) => chars_of(f.as_str()),
            None => {
                return None;
            },
        };
        if !h.nested {
            return None;
        }
        match &root {
            None => {
                root = Some(first);
            },
            Some(r) => {
                if !text::same(r, &first) {
                    return None;
                }
            },
        }
        i += 1;
    }
    match root {
        Some(r) => Some(string_of(&r)),
        None => None,
    }
}

} // verus!
