//! Cursor-based, single-step directory enumeration: each call hands out the
//! entry that follows the cursor, and the entry's identifier is the next
//! cursor.

use vstd::prelude::*;
use crate::entry::{same_entry, FileSystemInfo};

verus! {

/// The cursor that starts an enumeration.
pub const START_CURSOR: u64 = 0;

/// One step of an enumeration.
#[derive(Clone, Debug)]
pub enum DirStep {
    /// The next entry, and the cursor to resume after it (its identifier).
    Entry(FileSystemInfo, u64),
    /// No entry follows the cursor.
    Exhausted,
}

/// The identifiers of `entries`, in order.
pub open spec fn inos_of(entries: Seq<FileSystemInfo>) -> Seq<u64> {
    entries.map_values(|e: FileSystemInfo| e.ino)
}

/// `i` is the first position of `ino` in `inos`.
pub open spec fn is_first_position(inos: Seq<u64>, ino: u64, i: int) -> bool {
    &&& 0 <= i < inos.len()
    &&& inos[i] == ino
    &&& forall|j: int| 0 <= j < i ==> inos[j] != ino
}

/// The position of the entry that follows `cursor` in a listing with
/// identifiers `inos`: the first entry for the start cursor; otherwise the
/// one after the first entry whose identifier is the cursor. `None` when no
/// entry follows, or when no entry has the cursor's identifier.
pub open spec fn next_index(inos: Seq<u64>, cursor: u64) -> Option<int> {
    if cursor == START_CURSOR {
        if inos.len() > 0 {
            Some(0)
        } else {
            None
        }
    } else if exists|i: int| is_first_position(inos, cursor, i) {
        let i = choose|i: int| is_first_position(inos, cursor, i);
        if i + 1 < inos.len() {
            Some(i + 1)
        } else {
            None
        }
    } else {
        None
    }
}

/// The entry of `entries` that follows `cursor` (see [`next_index`]), with
/// its identifier as the cursor to resume from.
pub fn next_dir_entry(entries: &Vec<FileSystemInfo>, cursor: u64) -> (r: DirStep)
    ensures
        match next_index(inos_of(entries@), cursor) {
            Some(i) => match r {
                DirStep::Entry(e, c) => same_entry(e, entries@[i]) && c == entries@[i].ino,
                DirStep::Exhausted => false,
            },
            None => r is Exhausted,
        },
{
    let ghost inos = inos_of(entries@);
    let n = entries.len();
    let mut next: bool = cursor == START_CURSOR;
    let mut i: usize = 0;
    while i < n
        invariant
            n == entries@.len(),
            inos == inos_of(entries@),
            i <= n,
            cursor == START_CURSOR ==> next && i == 0,
            cursor != START_CURSOR ==> (next <==> i > 0 && is_first_position(inos, cursor, i - 1)),
            cursor != START_CURSOR && !next ==> forall|j: int| 0 <= j < i ==> inos[j] != cursor,
        decreases n - i,
    {
        if next {
            let e = entries[i].duplicate();
            let c = e.ino;
            proof {
                if cursor != START_CURSOR {
                    assert(exists|k: int| is_first_position(inos, cursor, k));
                    let k = choose|k: int| is_first_position(inos, cursor, k);
                    assert(k == i - 1);
                }
            }
            return DirStep::Entry(e, c);
        }
        if entries[i].ino == cursor {
            next = true;
            assert(is_first_position(inos, cursor, i as int));
        }
        i = i + 1;
    }
    proof {
        if cursor != START_CURSOR && next {
            assert(exists|k: int| is_first_position(inos, cursor, k));
            let k = choose|k: int| is_first_position(inos, cursor, k);
            assert(k == n - 1);
        }
    }
    DirStep::Exhausted
}

/// Where the identifiers of a listing are distinct and none is the start
/// cursor, enumeration from the start cursor visits every entry once, in
/// order: the start cursor yields the first entry, the identifier of each
/// entry yields the entry after it, and that of the last entry yields none.
pub proof fn lemma_cursor_visits_each_once(inos: Seq<u64>)
    requires
        forall|i: int, j: int| 0 <= i < j < inos.len() ==> inos[i] != inos[j],
        forall|i: int| 0 <= i < inos.len() ==> inos[i] != START_CURSOR,
    ensures
        next_index(inos, START_CURSOR) == (if inos.len() > 0 { Some(0int) } else { None }),
        forall|i: int|
            0 <= i < inos.len() ==> next_index(inos, #[trigger] inos[i]) == (if i + 1 < inos.len() {
                Some(i + 1)
            } else {
                None
            }),
{
    assert forall|i: int| 0 <= i < inos.len() implies next_index(inos, #[trigger] inos[i]) == (if i + 1
        < inos.len() {
        Some(i + 1)
    } else {
        None
    }) by {
        assert(is_first_position(inos, inos[i], i));
        let k = choose|k: int| is_first_position(inos, inos[i], k);
        assert(k == i);
    }
}

} // verus!
