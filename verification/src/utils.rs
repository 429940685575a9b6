//! Discovery of replay directories: a replay directory is a directory
//! named `Multiplayer` whose parent is named `Replays`, anywhere under
//! the game's `Accounts` tree (one per account).

use crate::config::document_dir;
use crate::paths::{
    join_path, name_start, spec_contains, spec_contains_at, spec_file_name, spec_name_start,
    str_eq,
};
use vstd::prelude::*;

verus! {

/// One entry of a directory walk: its path and whether it is a
/// directory.
pub struct WalkEntry {
    pub path: String,
    pub is_dir: bool,
}

/// Relies on walkdir::WalkDir: walking `root` yields every entry between
/// one and `max_depth` levels below it, each entry's path being `root`
/// joined with the entry's path below it; entries that could not be read
/// are skipped.
#[verifier::external_body]
fn walk_entries(root: &str, max_depth: usize) -> (r: Vec<WalkEntry>)
    ensures
        forall|k: int|
            0 <= k < r@.len() ==> r@[k].path@.len() > root@.len() && r@[k].path@.subrange(
                0,
                root@.len() as int,
            ) == root@,
{
    let mut v = Vec::new();
    for entry in walkdir::WalkDir::new(root).min_depth(1).max_depth(max_depth) {
        if let Ok(e) = entry {
            let is_dir = e.file_type().is_dir();
            let path = e.path().to_string_lossy().into_owned();
            v.push(WalkEntry { path, is_dir });
        }
    }
    v
}

/// The path names a `Multiplayer` component directly under a `Replays`
/// component.
pub open spec fn spec_is_multiplayer_replay_dir(p: Seq<char>) -> bool {
    let k = spec_name_start(p);
    &&& spec_file_name(p) == "Multiplayer"@
    &&& k > 0
    &&& spec_file_name(p.subrange(0, k - 1)) == "Replays"@
}

/// The path names a `Multiplayer` component directly under a `Replays`
/// component.
pub fn is_multiplayer_replay_dir(p: &str) -> (r: bool)
    ensures
        r == spec_is_multiplayer_replay_dir(p@),
{
    let k = name_start(p);
    let len = p.unicode_len();
    let name = p.substring_char(k, len);
    if !str_eq(name, "Multiplayer") {
        return false;
    }
    if k == 0 {
        return false;
    }
    let parent = p.substring_char(0, k - 1);
    let k2 = name_start(parent);
    let plen = parent.unicode_len();
    let pname = parent.substring_char(k2, plen);
    str_eq(pname, "Replays")
}

/// The first replay directory the walk of `base_dir` turns up, if any:
/// a found path lies under `base_dir` and names `Replays/Multiplayer`.
fn scan_replay_dir_recursize(base_dir: &str) -> (r: Option<String>)
    ensures
        r matches Some(p) ==> ({
            &&& spec_is_multiplayer_replay_dir(p@)
            &&& p@.len() > base_dir@.len()
            &&& p@.subrange(0, base_dir@.len() as int) == base_dir@
        }),
{
    let entries = walk_entries(base_dir, 10);
    let n = entries.len();
    let mut i: usize = 0;
    while i < n
        invariant
            i <= n,
            n == entries@.len(),
            forall|k: int|
                0 <= k < entries@.len() ==> entries@[k].path@.len() > base_dir@.len()
                    && entries@[k].path@.subrange(0, base_dir@.len() as int) == base_dir@,
        decreases n - i,
    {
        if entries[i].is_dir && is_multiplayer_replay_dir(entries[i].path.as_str()) {
            let found = entries[i].path.clone();
            return Option::Some(found);
        }
        i = i + 1;
    }
    Option::None
}

/// Every replay directory the walk of `base_dir` turns up: each found
/// path lies under `base_dir` and names `Replays/Multiplayer`.
fn scan_all_replay_dirs(base_dir: &str) -> (r: Vec<String>)
    ensures
        forall|k: int|
            0 <= k < r@.len() ==> spec_is_multiplayer_replay_dir(r@[k]@) && r@[k]@.len()
                > base_dir@.len() && r@[k]@.subrange(0, base_dir@.len() as int) == base_dir@,
{
    let entries = walk_entries(base_dir, 10);
    let mut found: Vec<String> = Vec::new();
    let n = entries.len();
    let mut i: usize = 0;
    while i < n
        invariant
            i <= n,
            n == entries@.len(),
            forall|k: int|
                0 <= k < entries@.len() ==> entries@[k].path@.len() > base_dir@.len()
                    && entries@[k].path@.subrange(0, base_dir@.len() as int) == base_dir@,
            forall|k: int|
                0 <= k < found@.len() ==> spec_is_multiplayer_replay_dir(found@[k]@)
                    && found@[k]@.len() > base_dir@.len() && found@[k]@.subrange(
                    0,
                    base_dir@.len() as int,
                ) == base_dir@,
        decreases n - i,
    {
        if entries[i].is_dir && is_multiplayer_replay_dir(entries[i].path.as_str()) {
            let p = entries[i].path.clone();
            found.push(p);
        }
        i = i + 1;
    }
    found
}

/// The first replay directory found under the game's `Accounts` tree in
/// the user's documents, if the platform has a documents directory and
/// the tree holds one.
pub fn find_sc2_replay_dir() -> (r: Option<String>)
    ensures
        r matches Some(p) ==> spec_is_multiplayer_replay_dir(p@) && spec_contains(
            p@,
            "StarCraft II"@,
        ),
{
    match document_dir() {
        Option::None => Option::None,
        Option::Some(doc) => {
            let game = join_path(doc.as_str(), "StarCraft II");
            let base = join_path(game.as_str(), "Accounts");
            let ghost lit = "StarCraft II"@;
            let ghost pos = game@.len() - lit.len();
            proof {
                reveal_strlit("StarCraft II");
                reveal_strlit("/");
                assert(game@.subrange(pos as int, game@.len() as int) =~= lit);
                assert(game@[game@.len() - 1] == 'I');
                assert(base@.subrange(0, game@.len() as int) =~= game@);
            }
            match scan_replay_dir_recursize(base.as_str()) {
                Option::None => Option::None,
                Option::Some(p) => {
                    proof {
                        assert(p@.subrange(pos as int, pos + lit.len()) =~= lit) by {
                            assert(forall|j: int|
                                0 <= j < base@.len() ==> p@[j] == #[trigger] base@[j]);
                        };
                        assert(spec_contains_at(p@, lit, pos as int));
                    }
                    Option::Some(p)
                },
            }
        },
    }
}

/// Every replay directory found under the game's `Accounts` tree in the
/// user's documents; empty when the platform has no documents directory.
pub fn find_all_replay_dirs() -> (r: Vec<String>)
    ensures
        forall|k: int| 0 <= k < r@.len() ==> spec_is_multiplayer_replay_dir(r@[k]@),
{
    match document_dir() {
        Option::None => Vec::new(),
        Option::Some(doc) => {
            let game = join_path(doc.as_str(), "StarCraft II");
            let base = join_path(game.as_str(), "Accounts");
            scan_all_replay_dirs(base.as_str())
        },
    }
}

} // verus!
