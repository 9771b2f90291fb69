//! Where the engines are expected, and the messages when they are missing.
//! Locating folders on disk is the caller's part.

use crate::app_prefs::ZapretBackendPref;
use crate::text;
use crate::text::{cat3};
use vstd::prelude::*;

verus! {

/// The message when `winws.exe` is missing.
pub open spec fn winws_missing(path: Seq<char>) -> Seq<char> {
    "winws.exe не найден: "@ + path
        + ".\n\nУстановите zapret: на главной нажмите «Подключить» или положите папку zapret (с bin/winws.exe) рядом с fastpatch.exe."@
}

/// The message when `winws2.exe` is missing.
pub open spec fn winws2_missing(path: Seq<char>) -> Seq<char> {
    "winws2.exe не найден: "@ + path
        + ".\n\nНажмите «Подключить» на главной — fastpatch установит Zapret 2."@
}

/// Zapret 1 is ready when `winws.exe` exists at `path`.
pub fn ensure_winws(path: &str, exists: bool) -> (res: Result<(), String>)
    ensures
        exists <==> res is Ok,
        res matches Err(e) ==> e@ == winws_missing(path@),
{
    if exists {
        Ok(())
    } else {
        Err(
            cat3(
                "winws.exe не найден: ",
                path,
                ".\n\nУстановите zapret: на главной нажмите «Подключить» или положите папку zapret (с bin/winws.exe) рядом с fastpatch.exe.",
            ),
        )
    }
}

/// Zapret 2 is ready when `winws2.exe` exists at `path`.
pub fn ensure_winws2(path: &str, exists: bool) -> (res: Result<(), String>)
    ensures
        exists <==> res is Ok,
        res matches Err(e) ==> e@ == winws2_missing(path@),
{
    if exists {
        Ok(())
    } else {
        Err(
            cat3(
                "winws2.exe не найден: ",
                path,
                ".\n\nНажмите «Подключить» на главной — fastpatch установит Zapret 2.",
            ),
        )
    }
}

/// The selected engine is ready: its executable (at `v1_path` or `v2_path`)
/// exists.
pub fn ensure_current_engine(
    backend: ZapretBackendPref,
    v1_path: &str,
    v1_exists: bool,
    v2_path: &str,
    v2_exists: bool,
) -> (res: Result<(), String>)
    ensures
        backend == ZapretBackendPref::V1 ==> (v1_exists <==> res is Ok) && (res matches Err(e)
            ==> e@ == winws_missing(v1_path@)),
        backend == ZapretBackendPref::V2 ==> (v2_exists <==> res is Ok) && (res matches Err(e)
            ==> e@ == winws2_missing(v2_path@)),
{
    match backend {
        ZapretBackendPref::V2 => ensure_winws2(v2_path, v2_exists),
        ZapretBackendPref::V1 => ensure_winws(v1_path, v1_exists),
    }
}

/// The message when a data file could not be found.
pub fn data_file_missing(filename: &str, hint: &str) -> (res: String)
    ensures
        res@ == "Файл "@ + filename@ + " не найден"@ + hint@
            + ". Положите его рядом с fastpatch.exe или в корень проекта."@,
{
    let a = cat3("Файл ", filename, " не найден");
    cat3(a.as_str(), hint, ". Положите его рядом с fastpatch.exe или в корень проекта.")
}

} // verus!
