//! The content index: a dense zero-based sequence of page paths for
//! positional enumeration. A view over the content store, not a source of
//! truth: it may name paths the store no longer holds. Rebuilt wholesale in
//! two steps, clear then populate, each durable on its own.

use crate::backing::{
    index_map_clear, index_map_entries, index_map_get, index_map_insert, index_map_of, IndexMap,
};
use crate::ContentPath;
use vstd::prelude::*;

verus! {

/// A durable map refused to grow to take a write.
#[derive(Clone, Copy, PartialEq, Eq, Structural, Debug)]
pub enum StorageError {
    GrowFailed,
}

/// The views of a path vector's entries, in order.
pub open spec fn paths_view(paths: Seq<String>) -> Seq<Seq<char>> {
    paths.map_values(|p: String| p@)
}

/// The ordinal index. Its view is the dense sequence of paths; ordinals are
/// contiguous from zero with no gaps.
pub struct ContentIndex {
    map: IndexMap,
    count: u64,
}

impl View for ContentIndex {
    type V = Seq<Seq<char>>;

    closed spec fn view(&self) -> Seq<Seq<char>> {
        Seq::new(self.count as nat, |i: int| index_map_of(self.map)[i as u64])
    }
}

impl ContentIndex {
    /// Recorded ordinals are exactly those below the count.
    pub closed spec fn wf(self) -> bool {
        forall|i: u64| #[trigger] index_map_of(self.map).contains_key(i) <==> i < self.count
    }

    /// Reopens the index from what its durable map holds, restoring the
    /// documented invariant on load: when the held ordinals run contiguously
    /// from zero the sequence is kept, and otherwise the index is cleared —
    /// it is a view, rebuilt wholesale by the next replace. Either way every
    /// kept ordinal holds exactly what the map held for it.
    pub(crate) fn open(map: IndexMap) -> (r: ContentIndex)
        ensures
            r.wf(),
            r@.len() == 0 || forall|j: int| #![auto]
                0 <= j < r@.len() ==> index_map_of(map).contains_key(j as u64) && r@[j]
                    == index_map_of(map)[j as u64],
    {
        let entries = index_map_entries(&map);
        let n = entries.len();
        let mut dense = true;
        let mut j: usize = 0;
        while j < n
            invariant
                n == entries.len(),
                0 <= j <= n,
                dense ==> forall|k: int| #![auto] 0 <= k < j ==> entries@[k].0 == k as u64,
            decreases n - j,
        {
            if entries[j].0 != j as u64 {
                dense = false;
            }
            j += 1;
        }
        if dense {
            let r = ContentIndex { map, count: n as u64 };
            proof {
                assert forall|i: u64| #[trigger]
                    index_map_of(r.map).contains_key(i) implies i < r.count by {
                    let k = choose|k: int| 0 <= k < entries@.len() && entries@[k].0 == i;
                    assert(entries@[k].0 == k as u64);
                }
                assert forall|i: u64| i < r.count implies #[trigger] index_map_of(
                    r.map,
                ).contains_key(i) by {
                    assert(entries@[i as int].0 == i);
                }
                assert forall|j2: int| 0 <= j2 < r@.len() implies index_map_of(
                    r.map,
                ).contains_key(j2 as u64) && r@[j2] == index_map_of(r.map)[j2 as u64] by {
                    assert(entries@[j2].0 == j2 as u64);
                }
            }
            r
        } else {
            let mut cleared = map;
            index_map_clear(&mut cleared);
            let r = ContentIndex { map: cleared, count: 0 };
            proof {
                assert(r@ =~= Seq::<Seq<char>>::empty());
            }
            r
        }
    }
}

/// The clear step of the wholesale rebuild: commits an empty index.
fn content_index_flush(ix: &mut ContentIndex)
    ensures
        final(ix).wf(),
        final(ix)@ == Seq::<Seq<char>>::empty(),
{
    index_map_clear(&mut ix.map);
    ix.count = 0;
    proof {
        assert(ix@ =~= Seq::<Seq<char>>::empty());
    }
}

/// The populate step of the wholesale rebuild: inserts `paths[i]` at ordinal
/// `i`, in order, onto an empty index.
fn content_index_populate(ix: &mut ContentIndex, paths: &Vec<ContentPath>) -> (r: Result<
    (),
    StorageError,
>)
    requires
        old(ix).wf(),
        old(ix)@.len() == 0,
    ensures
        final(ix).wf(),
        final(ix)@ == paths_view(paths@),
        r is Ok,
{
    let mut i: usize = 0;
    while i < paths.len()
        invariant
            0 <= i <= paths.len(),
            ix.count == i,
            ix.wf(),
            forall|j: int| #![auto] 0 <= j < i ==> index_map_of(ix.map)[j as u64] == paths@[j]@,
        decreases paths.len() - i,
    {
        index_map_insert(&mut ix.map, i as u64, paths[i].clone());
        i += 1;
        ix.count = i as u64;
    }
    proof {
        assert(ix@ =~= paths_view(paths@));
    }
    Ok(())
}

/// Replaces the whole index: clears every ordinal, then installs `paths[i]`
/// at ordinal `i`. Two-phase: the clear commits before population begins, so
/// a reader between the steps sees an empty or partially rebuilt index.
pub fn content_index_set(ix: &mut ContentIndex, paths: &Vec<ContentPath>) -> (r: Result<
    (),
    StorageError,
>)
    requires
        old(ix).wf(),
    ensures
        final(ix).wf(),
        final(ix)@ == paths_view(paths@),
        r is Ok,
{
    content_index_flush(ix);
    content_index_populate(ix, paths)
}

/// Looks an ordinal up. Succeeds exactly on ordinals below the index's
/// length; otherwise reports the greatest valid ordinal, or nothing when the
/// index is empty (the explicit convention for the empty edge case: no
/// underflow).
pub fn content_index_lookup(ix: &ContentIndex, index: u64) -> (r: Result<ContentPath, Option<u64>>)
    requires
        ix.wf(),
    ensures
        index < ix@.len() <==> r is Ok,
        match r {
            Ok(p) => index < ix@.len() && p@ == ix@[index as int],
            Err(max) => index >= ix@.len() && max == (if ix@.len() == 0 {
                Option::<u64>::None
            } else {
                Option::Some((ix@.len() - 1) as u64)
            }),
        },
{
    match index_map_get(&ix.map, index) {
        Some(p) => Ok(p),
        None => {
            if ix.count == 0 {
                Err(None)
            } else {
                Err(Some(ix.count - 1))
            }
        },
    }
}

} // verus!
