//! The trusted boundary around the durable ordered maps of
//! `ic_stable_structures`. The three maps live in disjoint regions of one
//! backing memory, carved out by the memory manager under distinct memory
//! ids, and are opened together, once per process: each map's region is then
//! exclusively its own, which every contract below assumes. Each map is held
//! in a struct that Verus does not look into; what it holds is named by an
//! uninterpreted contents function, and every method the logic calls goes
//! through a wrapper whose contract states what the crate's source shows.

use ic_stable_structures::memory_manager::{MemoryId, MemoryManager, VirtualMemory};
use ic_stable_structures::{DefaultMemoryImpl, StableBTreeMap};
use vstd::prelude::*;

verus! {

/// Durable ordered map from page path to page content.
#[verifier::external_body]
pub struct ContentMap {
    inner: StableBTreeMap<String, String, VirtualMemory<DefaultMemoryImpl>>,
}

/// The entries the content map currently holds.
pub uninterp spec fn content_map_of(m: ContentMap) -> Map<Seq<char>, Seq<char>>;

impl View for ContentMap {
    type V = Map<Seq<char>, Seq<char>>;

    open spec fn view(&self) -> Map<Seq<char>, Seq<char>> {
        content_map_of(*self)
    }
}

/// Relies on StableBTreeMap::get: returns the value stored under the key, if
/// there is one.
#[verifier::external_body]
pub(crate) fn content_map_get(m: &ContentMap, path: &String) -> (r: Option<String>)
    ensures
        match r {
            Some(c) => content_map_of(*m).contains_key(path@) && c@ == content_map_of(*m)[path@],
            None => !content_map_of(*m).contains_key(path@),
        },
{
    m.inner.get(path)
}

/// Relies on StableBTreeMap::insert: stores the pair and returns the value
/// previously under the key, if any. Aborts only if the backing memory cannot
/// grow to take the write.
#[verifier::external_body]
pub(crate) fn content_map_insert(m: &mut ContentMap, path: String, content: String) -> (r: Option<
    String,
>)
    ensures
        content_map_of(*final(m)) == content_map_of(*old(m)).insert(path@, content@),
        match r {
            Some(prev) => content_map_of(*old(m)).contains_key(path@) && prev@ == content_map_of(
                *old(m),
            )[path@],
            None => !content_map_of(*old(m)).contains_key(path@),
        },
{
    m.inner.insert(path, content)
}

/// Relies on StableBTreeMap::remove: takes the entry out and returns its
/// value, if the key was present.
#[verifier::external_body]
pub(crate) fn content_map_remove(m: &mut ContentMap, path: &String) -> (r: Option<String>)
    ensures
        content_map_of(*final(m)) == content_map_of(*old(m)).remove(path@),
        match r {
            Some(prev) => content_map_of(*old(m)).contains_key(path@) && prev@ == content_map_of(
                *old(m),
            )[path@],
            None => !content_map_of(*old(m)).contains_key(path@),
        },
{
    m.inner.remove(path)
}

/// Relies on StableBTreeMap::iter: visits every entry exactly once, keys
/// distinct.
#[verifier::external_body]
pub(crate) fn content_map_entries(m: &ContentMap) -> (r: Vec<(String, String)>)
    ensures
        forall|i: int| #![auto]
            0 <= i < r@.len() ==> content_map_of(*m).contains_key(r@[i].0@) && r@[i].1@
                == content_map_of(*m)[r@[i].0@],
        forall|i: int, j: int| 0 <= i < j < r@.len() ==> r@[i].0@ != r@[j].0@,
        forall|k: Seq<char>| #![auto]
            content_map_of(*m).contains_key(k) ==> exists|i: int|
                0 <= i < r@.len() && r@[i].0@ == k,
{
    let mut out = Vec::new();
    for e in m.inner.iter() {
        out.push(e.into_pair());
    }
    out
}

/// Durable ordered map from a user's identity bytes to that user's encoded
/// access-control table.
#[verifier::external_body]
pub struct UsersMap {
    inner: StableBTreeMap<Vec<u8>, Vec<u8>, VirtualMemory<DefaultMemoryImpl>>,
}

/// The entries the users map currently holds.
pub uninterp spec fn users_map_of(m: UsersMap) -> Map<Seq<u8>, Seq<u8>>;

impl View for UsersMap {
    type V = Map<Seq<u8>, Seq<u8>>;

    open spec fn view(&self) -> Map<Seq<u8>, Seq<u8>> {
        users_map_of(*self)
    }
}

/// Relies on StableBTreeMap::get: returns the value stored under the key, if
/// there is one.
#[verifier::external_body]
pub(crate) fn users_map_get(m: &UsersMap, user: &Vec<u8>) -> (r: Option<Vec<u8>>)
    ensures
        match r {
            Some(b) => users_map_of(*m).contains_key(user@) && b@ == users_map_of(*m)[user@],
            None => !users_map_of(*m).contains_key(user@),
        },
{
    m.inner.get(user)
}

/// Relies on StableBTreeMap::insert: stores the pair and returns the value
/// previously under the key, if any. Aborts only if the backing memory cannot
/// grow to take the write.
#[verifier::external_body]
pub(crate) fn users_map_insert(m: &mut UsersMap, user: Vec<u8>, bytes: Vec<u8>) -> (r: Option<
    Vec<u8>,
>)
    ensures
        users_map_of(*final(m)) == users_map_of(*old(m)).insert(user@, bytes@),
        match r {
            Some(prev) => users_map_of(*old(m)).contains_key(user@) && prev@ == users_map_of(
                *old(m),
            )[user@],
            None => !users_map_of(*old(m)).contains_key(user@),
        },
{
    m.inner.insert(user, bytes)
}

/// Durable ordered map from a dense ordinal to a page path.
#[verifier::external_body]
pub struct IndexMap {
    inner: StableBTreeMap<u64, String, VirtualMemory<DefaultMemoryImpl>>,
}

/// The entries the index map currently holds.
pub uninterp spec fn index_map_of(m: IndexMap) -> Map<u64, Seq<char>>;

impl View for IndexMap {
    type V = Map<u64, Seq<char>>;

    open spec fn view(&self) -> Map<u64, Seq<char>> {
        index_map_of(*self)
    }
}

/// The empty ordinal-to-path map.
pub open spec fn index_map_empty() -> Map<u64, Seq<char>> {
    Map::empty()
}

/// Relies on StableBTreeMap::get: returns the value stored under the key, if
/// there is one.
#[verifier::external_body]
pub(crate) fn index_map_get(m: &IndexMap, ordinal: u64) -> (r: Option<String>)
    ensures
        match r {
            Some(p) => index_map_of(*m).contains_key(ordinal) && p@ == index_map_of(*m)[ordinal],
            None => !index_map_of(*m).contains_key(ordinal),
        },
{
    m.inner.get(&ordinal)
}

/// Relies on StableBTreeMap::insert: stores the pair and returns the value
/// previously under the key, if any. Aborts only if the backing memory cannot
/// grow to take the write.
#[verifier::external_body]
pub(crate) fn index_map_insert(m: &mut IndexMap, ordinal: u64, path: String) -> (r: Option<String>)
    ensures
        index_map_of(*final(m)) == index_map_of(*old(m)).insert(ordinal, path@),
        match r {
            Some(prev) => index_map_of(*old(m)).contains_key(ordinal) && prev@ == index_map_of(
                *old(m),
            )[ordinal],
            None => !index_map_of(*old(m)).contains_key(ordinal),
        },
{
    m.inner.insert(ordinal, path)
}

/// Relies on StableBTreeMap::clear_new: removes every entry.
#[verifier::external_body]
pub(crate) fn index_map_clear(m: &mut IndexMap)
    ensures
        index_map_of(*final(m)) == index_map_empty(),
{
    m.inner.clear_new()
}

/// Opens the three maps over one backing memory: on the hosting platform the
/// process's single durable memory, elsewhere a fresh transient one. What
/// each map then holds is whatever its region already held, so nothing can
/// be promised of the contents.
///
/// Relies on MemoryManager::init and MemoryManager::get: the manager
/// partitions the backing memory into disjoint virtual memories, one per
/// memory id (here 0, 1 and 2, one per map), loading the partition a
/// previous process left behind. Relies on StableBTreeMap::init: each map
/// loads what its own virtual memory holds, or starts empty on a blank one.
/// To keep each region exclusive to its map, this must be the only opener of
/// the process's memory: open the maps once and keep them.
#[verifier::external_body]
pub(crate) fn maps_open() -> (r: (ContentMap, UsersMap, IndexMap))
{
    let mm = MemoryManager::init(DefaultMemoryImpl::default());
    let content = StableBTreeMap::init(mm.get(MemoryId::new(0)));
    let users = StableBTreeMap::init(mm.get(MemoryId::new(1)));
    let index = StableBTreeMap::init(mm.get(MemoryId::new(2)));
    (ContentMap { inner: content }, UsersMap { inner: users }, IndexMap { inner: index })
}

/// Relies on StableBTreeMap::iter: visits every entry exactly once, keys
/// distinct.
#[verifier::external_body]
pub(crate) fn index_map_entries(m: &IndexMap) -> (r: Vec<(u64, String)>)
    ensures
        forall|i: int| #![auto]
            0 <= i < r@.len() ==> index_map_of(*m).contains_key(r@[i].0) && r@[i].1@
                == index_map_of(*m)[r@[i].0],
        forall|i: int, j: int| 0 <= i < j < r@.len() ==> r@[i].0 != r@[j].0,
        forall|k: u64| #![auto]
            index_map_of(*m).contains_key(k) ==> exists|i: int| 0 <= i < r@.len() && r@[i].0 == k,
{
    let mut out = Vec::new();
    for e in m.inner.iter() {
        out.push(e.into_pair());
    }
    out
}

} // verus!
