//! The files that make up a graph database on disk, which a complete erase
//! removes together: the database with its journals, and the backups that
//! earlier migrations left beside it.

use vstd::prelude::*;

use crate::text::{chars_of, joined_text, starts_with, vec_starts_with};

verus! {

/// The database file and its write-ahead log, shared-memory index and
/// rollback journal.
pub open spec fn family_paths(database: Seq<char>) -> Seq<Seq<char>> {
    seq![database, database + "-wal"@, database + "-shm"@, database + "-journal"@]
}

/// The files of the database at `database`, in the order they are removed.
pub fn graph_family_paths(database: &str) -> (paths: Vec<String>)
    ensures
        paths@.len() == 4,
        forall|i: int| 0 <= i < 4 ==> (#[trigger] paths@[i])@ == family_paths(database@)[i],
{
    let mut paths: Vec<String> = Vec::new();
    paths.push(database.to_owned());
    paths.push(joined_text(database, "-wal"));
    paths.push(joined_text(database, "-shm"));
    paths.push(joined_text(database, "-journal"));
    paths
}

pub open spec fn ends_with(s: Seq<char>, suffix: Seq<char>) -> bool {
    s.len() >= suffix.len() && s.subrange(s.len() - suffix.len(), s.len() as int) == suffix
}

/// A migration backup of the database whose file stem is `stem`: a file
/// named `<stem>.pre-rust-v…` that ends in `.sqlite` or `.sqlite.tmp`.
pub open spec fn is_migration_backup(stem: Seq<char>, name: Seq<char>) -> bool {
    starts_with(name, stem + ".pre-rust-v"@) && (ends_with(name, ".sqlite"@) || ends_with(name, ".sqlite.tmp"@))
}

fn vec_ends_with(v: &Vec<char>, suffix: &Vec<char>) -> (r: bool)
    ensures
        r == ends_with(v@, suffix@),
{
    if v.len() < suffix.len() {
        return false;
    }
    let start = v.len() - suffix.len();
    let mut i: usize = 0;
    while i < suffix.len()
        invariant
            start + suffix@.len() == v@.len(),
            v@.len() == v.len(),
            i <= suffix@.len(),
            forall|k: int| 0 <= k < i ==> v@[start + k] == suffix@[k],
        decreases suffix@.len() - i,
    {
        if v[start + i] != suffix[i] {
            assert(v@.subrange(start as int, v@.len() as int)[i as int] != suffix@[i as int]);
            return false;
        }
        i = i + 1;
    }
    assert(v@.subrange(start as int, v@.len() as int) =~= suffix@);
    true
}

/// Whether the file `name`, beside the database whose stem is `stem`, is
/// one of its migration backups.
pub fn migration_backup(stem: &str, name: &str) -> (r: bool)
    ensures
        r == is_migration_backup(stem@, name@),
{
    let prefix = joined_text(stem, ".pre-rust-v");
    let name_chars = chars_of(name);
    let prefix_chars = chars_of(prefix.as_str());
    if !vec_starts_with(&name_chars, &prefix_chars) {
        return false;
    }
    vec_ends_with(&name_chars, &chars_of(".sqlite")) || vec_ends_with(&name_chars, &chars_of(".sqlite.tmp"))
}

} // verus!
