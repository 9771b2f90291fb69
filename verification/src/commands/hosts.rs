//! Backups of the system `hosts` file: their names, which files count as
//! backups, and the order in which they are listed. Reading, copying and
//! removing files is the caller's part.

use super::strategy_loader::{has_extension, key_of, make_key};
use crate::order::{keys_view, lemma_sorted_desc_map, sort_desc_by_keys, sorted_desc_by_keys};
use crate::text;
use crate::text::{cat2, cat3, chars_of};
use vstd::prelude::*;

verus! {

/// The system hosts file.
pub fn hosts_path() -> (res: &'static str)
    ensures
        res@ == "C:\\Windows\\System32\\drivers\\etc\\hosts"@,
{
    "C:\\Windows\\System32\\drivers\\etc\\hosts"
}

/// Marker type for the hosts commands' state.
#[derive(Clone, Debug)]
pub struct HostsState;

/// A backup of the hosts file.
#[derive(Clone, Debug)]
pub struct HostsBackup {
    pub filename: String,
    pub created_at: String,
    pub size_bytes: u64,
}

/// The contents of a [`HostsBackup`].
pub open spec fn backup_view(b: HostsBackup) -> (Seq<char>, Seq<char>, u64) {
    (b.filename@, b.created_at@, b.size_bytes)
}

/// The name of a backup made at `timestamp` (`%Y%m%d_%H%M%S`).
pub fn backup_name(timestamp: &str) -> (res: String)
    ensures
        res@ == "hosts.bak."@ + timestamp@,
{
    cat2("hosts.bak.", timestamp)
}

/// The files of the backup folder that are backups.
pub open spec fn is_backup_file(name: Seq<char>) -> bool {
    has_extension(name, "bak"@) || text::starts_with(name, "hosts.bak"@)
}

pub fn is_backup_file_name(name: &str) -> (res: bool)
    ensures
        res == is_backup_file(name@),
{
    let n = chars_of(name);
    let dot_bak = chars_of(".bak");
    proof {
        reveal_strlit(".bak");
        reveal_strlit("bak");
        assert(dot_bak@ =~= seq!['.'] + "bak"@);
    }
    (n.len() > 4 && text::ends_with_chars(&n, &dot_bak)) || text::begins(&n, "hosts.bak")
}

/// The backups among `entries`, in the order given.
pub open spec fn backups_among(entries: Seq<HostsBackup>) -> Seq<HostsBackup>
    decreases entries.len(),
{
    if entries.len() == 0 {
        Seq::empty()
    } else {
        let r = backups_among(entries.drop_last());
        if is_backup_file(entries.last().filename@) {
            r.push(entries.last())
        } else {
            r
        }
    }
}

/// The backups listed: those among `entries`, newest name first.
pub open spec fn listed_backups(entries: Seq<HostsBackup>) -> Seq<(Seq<char>, Seq<char>, u64)> {
    let b = backups_among(entries);
    sorted_desc_by_keys(
        b.map_values(|x: HostsBackup| backup_view(x)),
        b.map_values(|x: HostsBackup| key_of(Seq::empty(), x.filename@)),
    )
}

/// The backups of the backup folder, given all its entries (file name,
/// modification time as shown, size), sorted by file name in descending
/// order (newest first).
pub fn list_hosts_backups(entries: Vec<HostsBackup>) -> (res: Vec<HostsBackup>)
    ensures
        res@.map_values(|x: HostsBackup| backup_view(x)) == listed_backups(entries@),
{
    let ghost all = entries@;
    let n = entries.len();
    let mut found: Vec<HostsBackup> = Vec::new();
    let mut keys: Vec<Vec<u32>> = Vec::new();
    let mut i: usize = 0;
    assert(all.take(0) =~= Seq::<HostsBackup>::empty());
    for e in it: entries.into_iter()
        invariant
            it.seq() == all,
            n == all.len(),
            i == it.index(),
            found.len() == keys.len(),
            found@ == backups_among(all.take(i as int)),
            keys_view(keys@) == backups_among(all.take(i as int)).map_values(
                |x: HostsBackup| key_of(Seq::empty(), x.filename@),
            ),
    {
        assert(all.take(i + 1).drop_last() =~= all.take(i as int));
        assert(all.take(i + 1).last() == e);
        if is_backup_file_name(e.filename.as_str()) {
            let fc = chars_of(e.filename.as_str());
            let k = make_key(Vec::new(), &fc);
            let ghost prev_keys = keys@;
            keys.push(k);
            found.push(e);
            assert(keys_view(keys@) =~= keys_view(prev_keys).push(k@));
        }
        i += 1;
        assert(keys_view(keys@) =~= backups_among(all.take(i as int)).map_values(
            |x: HostsBackup| key_of(Seq::empty(), x.filename@),
        ));
    }
    assert(all.take(n as int) =~= all);
    let ghost unsorted = found@;
    let sorted = sort_desc_by_keys(found, &keys);
    proof {
        lemma_sorted_desc_map(unsorted, keys_view(keys@), |x: HostsBackup| backup_view(x));
    }
    sorted
}

/// The message when a backup to restore does not exist.
pub fn backup_missing_message(filename: &str) -> (res: String)
    ensures
        res@ == "Резервная копия '"@ + filename@ + "' не найдена"@,
{
    cat3("Резервная копия '", filename, "' не найдена")
}

} // verus!
