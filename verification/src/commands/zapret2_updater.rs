//! Installs and updates of the zapret 2 bundle from GitHub releases: the
//! asset, the offered update, the layout of the extracted archive and the
//! names of the staging and backup folders. Downloading, unpacking and
//! moving folders is the caller's part.

use super::updater::{
    assets_view, find_asset_url_str, first_asset_url, info_of, make_release_info, opt_string,
    release_info_view, GithubRelease, ReleaseInfo,
};
use crate::text;
use crate::text::{cat2, cat3, chars_of};
use vstd::prelude::*;

verus! {

pub const REPO_OWNER: &'static str = "periayellowish469";

pub const REPO_NAME: &'static str = "zapret2-youtube-discord";

pub const VERSION_FILE: &'static str = "zapret2_version.txt";

/// The download URL of a zapret 2 release: its first `.7z` asset.
pub open spec fn sevenz_url(tag: Seq<char>, assets: Seq<(Seq<char>, Seq<char>)>) -> Result<
    Seq<char>,
    Seq<char>,
> {
    match first_asset_url(assets, ".7z"@) {
        Some(u) => Ok(u),
        None => Err("В релизе "@ + tag + " нет .7z архива"@),
    }
}

/// The `.7z` download URL of a release.
pub fn pick_7z_url(release: &GithubRelease) -> (res: Result<String, String>)
    ensures
        text::res_str(res) == sevenz_url(release.tag_name@, assets_view(release.assets@)),
{
    match find_asset_url_str(&release.assets, ".7z") {
        Some(u) => Ok(u),
        None => Err(cat3("В релизе ", release.tag_name.as_str(), " нет .7z архива")),
    }
}

/// What the UI shows for a zapret 2 release, given the installed version.
pub fn release_to_info(release: GithubRelease, current_version: String) -> (res: ReleaseInfo)
    ensures
        release_info_view(res) == info_of(
            release.tag_name@,
            opt_string(release.name),
            opt_string(release.body),
            release.published_at@,
            match sevenz_url(release.tag_name@, assets_view(release.assets@)) {
                Ok(u) => u,
                Err(_) => Seq::empty(),
            },
            current_version@,
        ),
{
    let url = match pick_7z_url(&release) {
        Ok(u) => u,
        Err(_) => String::new(),
    };
    make_release_info(release, url, current_version)
}

/// The installed zapret 2 version (see the zapret 1 rule).
pub fn read_current_version(content: Option<&str>) -> (res: String)
    ensures
        res@ == super::updater::version_of(text::opt_str(content)),
{
    super::updater::read_current_version(content)
}

/// The check of a zapret 2 install: `exe/winws2.exe` must exist.
pub fn verify_install_at(winws2_path: &str, winws2_exists: bool) -> (res: Result<(), String>)
    ensures
        winws2_exists <==> res is Ok,
        res matches Err(e) ==> e@ == "После установки winws2.exe не найден: "@ + winws2_path@,
{
    if winws2_exists {
        Ok(())
    } else {
        Err(cat2("После установки winws2.exe не найден: ", winws2_path))
    }
}

/// Whether the extracted archive's only entry, a folder, is the bundle root
/// (otherwise the extraction folder itself is).
pub fn copy_from_single_folder(entry_count: usize, only_entry_is_dir: bool) -> (res: bool)
    ensures
        res == (entry_count == 1 && only_entry_is_dir),
{
    entry_count == 1 && only_entry_is_dir
}

/// The name of the folder the new bundle is unpacked into, beside the
/// install folder `name` (`zapret2` when it has no name).
pub fn staging_name(name: Option<&str>, pid: u32) -> (res: String)
    ensures
        res@ == (match text::opt_str(name) {
            Some(n) => n,
            None => "zapret2"@,
        }) + ".staging-"@ + text::decimal(pid as nat),
{
    let n = match name {
        Some(n) => n,
        None => "zapret2",
    };
    let d = text::decimal_string(pid as u64);
    cat3(n, ".staging-", d.as_str())
}

/// The name of the folder the old bundle is kept in during a replacement.
pub fn backup_name(name: Option<&str>, pid: u32) -> (res: String)
    ensures
        res@ == (match text::opt_str(name) {
            Some(n) => n,
            None => "zapret2"@,
        }) + ".backup-"@ + text::decimal(pid as nat),
{
    let n = match name {
        Some(n) => n,
        None => "zapret2",
    };
    let d = text::decimal_string(pid as u64);
    cat3(n, ".backup-", d.as_str())
}

/// The message after installing zapret 2.
pub fn installed_message(tag: &str) -> (res: String)
    ensures
        res@ == "Zapret 2 установлен ("@ + tag@ + "). Пресеты в presets/, Apex Legends добавлен."@,
{
    cat3("Zapret 2 установлен (", tag, "). Пресеты в presets/, Apex Legends добавлен.")
}

/// The message when replacing the install failed and the old one was put back.
pub fn replace_failed_message(target: &str, error: &str) -> (res: String)
    ensures
        res@ == "Не удалось заменить Zapret 2 в "@ + target@ + ": "@ + error@
            + ". Старая установка восстановлена."@,
{
    let a = cat3("Не удалось заменить Zapret 2 в ", target, ": ");
    cat3(a.as_str(), error, ". Старая установка восстановлена.")
}

/// The message when GitHub answered the zapret 2 release request with an
/// error status.
pub fn github_status_message(status: &str) -> (res: String)
    ensures
        res@ == "GitHub API вернул "@ + status@,
{
    cat2("GitHub API вернул ", status)
}

} // verus!
