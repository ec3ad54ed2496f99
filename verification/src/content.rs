//! The content store: a durable ordered map from page path to page content.
//! No access check happens here; the access decision engine rules first and
//! the excluded request layer gates the call.

use crate::backing::{
    content_map_entries, content_map_get, content_map_insert, content_map_of, content_map_remove,
    ContentMap,
};
use crate::{Content, ContentPath, UserId};
use vstd::prelude::*;

verus! {

/// The durable store of pages. Its view is the map from path to content.
pub struct ContentStore {
    map: ContentMap,
}

impl View for ContentStore {
    type V = Map<Seq<char>, Seq<char>>;

    closed spec fn view(&self) -> Map<Seq<char>, Seq<char>> {
        content_map_of(self.map)
    }
}

impl ContentStore {
    /// Wraps the reopened durable map: the store holds whatever the map's
    /// memory already held.
    pub(crate) fn from_map(map: ContentMap) -> ContentStore {
        ContentStore { map }
    }
}

/// Returns the content stored under `path`, or nothing when the path was
/// never set (or has been deleted).
pub fn page_get(store: &ContentStore, path: ContentPath) -> (r: Option<Content>)
    ensures
        match r {
            Some(c) => store@.contains_key(path@) && c@ == store@[path@],
            None => !store@.contains_key(path@),
        },
{
    content_map_get(&store.map, &path)
}

/// Inserts or overwrites the page at `path` and returns the previous content
/// if the path was already set.
pub fn page_set(store: &mut ContentStore, path: ContentPath, content: Content) -> (r: Option<
    Content,
>)
    ensures
        final(store)@ == old(store)@.insert(path@, content@),
        match r {
            Some(prev) => old(store)@.contains_key(path@) && prev@ == old(store)@[path@],
            None => !old(store)@.contains_key(path@),
        },
{
    content_map_insert(&mut store.map, path, content)
}

/// Removes the page at `path` and returns the removed content, or nothing
/// when the path was absent.
pub fn page_delete(store: &mut ContentStore, path: ContentPath) -> (r: Option<Content>)
    ensures
        final(store)@ == old(store)@.remove(path@),
        match r {
            Some(prev) => old(store)@.contains_key(path@) && prev@ == old(store)@[path@],
            None => !old(store)@.contains_key(path@),
        },
{
    content_map_remove(&mut store.map, &path)
}

/// `ps` lists exactly the entries of `m`: every pair is stored, paths are
/// pairwise distinct, and every stored path appears.
pub open spec fn snapshot_of(ps: Seq<(String, String)>, m: Map<Seq<char>, Seq<char>>) -> bool {
    &&& forall|i: int| #![auto]
        0 <= i < ps.len() ==> m.contains_key(ps[i].0@) && ps[i].1@ == m[ps[i].0@]
    &&& forall|i: int, j: int| 0 <= i < j < ps.len() ==> ps[i].0@ != ps[j].0@
    &&& forall|k: Seq<char>| #![auto]
        m.contains_key(k) ==> exists|i: int| 0 <= i < ps.len() && ps[i].0@ == k
}

/// A full snapshot of the store, handed out only to the controller identity:
/// it bypasses the per-path access checks entirely. Every stored page appears
/// exactly once; any other caller is refused.
pub fn pages_get(store: &ContentStore, caller: &UserId, controller: &UserId) -> (r: Option<
    Vec<(ContentPath, Content)>,
>)
    ensures
        r is Some <==> caller@ == controller@,
        match r {
            Some(pages) => snapshot_of(pages@, store@),
            None => caller@ != controller@,
        },
{
    if caller.same_as(controller) {
        let pages = content_map_entries(&store.map);
        proof {
            assert(forall|i: int| #![auto]
                0 <= i < pages@.len() ==> store@.contains_key(pages@[i].0@) && pages@[i].1@
                    == store@[pages@[i].0@]);
            assert(forall|i: int, j: int|
                0 <= i < j < pages@.len() ==> pages@[i].0@ != pages@[j].0@);
            assert(forall|k: Seq<char>| #![auto]
                store@.contains_key(k) ==> exists|i: int|
                    0 <= i < pages@.len() && pages@[i].0@ == k);
        }
        Some(pages)
    } else {
        None
    }
}

} // verus!
