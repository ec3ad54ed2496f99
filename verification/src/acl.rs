//! The access-control store and the access decision engine. Per user the
//! store keeps a table from page path to access level, embedded as one
//! encoded blob in a durable map keyed by the user's identity bytes. Absent
//! users have the empty table; absent paths have no access.

use crate::backing::{users_map_get, users_map_insert, users_map_of, UsersMap};
use crate::codec::{cbor_decode_entries, cbor_encode_entries, table_entries_of};
use crate::{ContentPath, UserAccess, UserId};
use vstd::prelude::*;

verus! {

/// The access level a stored one-byte code stands for; an unknown code counts
/// as no access.
pub open spec fn level_of_code(c: u8) -> UserAccess {
    if c == 1 {
        UserAccess::Read
    } else if c == 2 {
        UserAccess::ReadWrite
    } else {
        UserAccess::NoAccess
    }
}

/// The one-byte code an access level is stored as.
pub open spec fn code_of_level(l: UserAccess) -> u8 {
    match l {
        UserAccess::NoAccess => 0,
        UserAccess::Read => 1,
        UserAccess::ReadWrite => 2,
    }
}

/// The table a sequence of entries stands for; a later entry for a path
/// overrides an earlier one.
pub open spec fn entries_view(e: Seq<(String, u8)>) -> Map<Seq<char>, UserAccess>
    decreases e.len(),
{
    if e.len() == 0 {
        Map::empty()
    } else {
        entries_view(e.drop_last()).insert(e.last().0@, level_of_code(e.last().1))
    }
}

/// Entry paths are pairwise distinct.
pub open spec fn entries_distinct(e: Seq<(String, u8)>) -> bool {
    forall|i: int, j: int| 0 <= i < j < e.len() ==> e[i].0@ != e[j].0@
}

/// The paths of the entries that grant some access, in entry order.
pub open spec fn granted_paths(e: Seq<(String, u8)>) -> Seq<String>
    decreases e.len(),
{
    if e.len() == 0 {
        Seq::empty()
    } else if level_of_code(e.last().1) == UserAccess::NoAccess {
        granted_paths(e.drop_last())
    } else {
        granted_paths(e.drop_last()).push(e.last().0)
    }
}

/// With distinct paths, the granted paths are exactly the table's keys with a
/// level other than `NoAccess`, each exactly once.
proof fn lemma_granted_paths(e: Seq<(String, u8)>)
    requires
        entries_distinct(e),
    ensures
        forall|j: int| #![auto]
            0 <= j < granted_paths(e).len() ==> entries_view(e).contains_key(granted_paths(e)[j]@)
                && entries_view(e)[granted_paths(e)[j]@] != UserAccess::NoAccess,
        forall|p: Seq<char>| #![auto]
            entries_view(e).contains_key(p) && entries_view(e)[p] != UserAccess::NoAccess
                ==> exists|j: int| 0 <= j < granted_paths(e).len() && granted_paths(e)[j]@ == p,
        forall|j1: int, j2: int|
            0 <= j1 < j2 < granted_paths(e).len() ==> granted_paths(e)[j1]@ != granted_paths(
                e,
            )[j2]@,
    decreases e.len(),
{
    if e.len() == 0 {
    } else {
        let e2 = e.drop_last();
        let g = granted_paths(e);
        let g2 = granted_paths(e2);
        let lastp = e.last().0@;
        let lvl = level_of_code(e.last().1);
        assert(entries_distinct(e2)) by {
            assert(forall|x: int, y: int| #![auto] 0 <= x < y < e2.len() ==> e[x].0@ != e[y].0@);
        }
        lemma_granted_paths(e2);
        assert(entries_view(e) == entries_view(e2).insert(lastp, lvl));
        assert forall|j: int| 0 <= j < g2.len() implies (#[trigger] g2[j])@ != lastp by {
            lemma_entries_view_dom(e2, g2[j]@);
            let k = choose|k: int| 0 <= k < e2.len() && e2[k].0@ == g2[j]@;
            assert(e[k] == e2[k]);
            assert(e[k].0@ != e[e.len() - 1].0@);
        }
        if lvl == UserAccess::NoAccess {
            assert(g == g2);
            assert forall|j: int|
                0 <= j < g.len() implies entries_view(e).contains_key((#[trigger] g[j])@)
                && entries_view(e)[g[j]@] != UserAccess::NoAccess by {
                assert(g[j] == g2[j]);
                assert(g2[j]@ != lastp);
            }
            assert forall|p: Seq<char>| #![auto]
                entries_view(e).contains_key(p) && entries_view(e)[p]
                    != UserAccess::NoAccess implies exists|j: int|
                0 <= j < g.len() && g[j]@ == p by {
                assert(p != lastp);
                assert(entries_view(e2).contains_key(p) && entries_view(e2)[p] == entries_view(
                    e,
                )[p]);
                let j = choose|j: int| 0 <= j < g2.len() && g2[j]@ == p;
                assert(g[j]@ == p);
            }
        } else {
            assert(g == g2.push(e.last().0));
            assert forall|j: int|
                0 <= j < g.len() implies entries_view(e).contains_key((#[trigger] g[j])@)
                && entries_view(e)[g[j]@] != UserAccess::NoAccess by {
                if j < g.len() - 1 {
                    assert(g[j] == g2[j]);
                    assert(g2[j]@ != lastp);
                } else {
                    assert(g[j] == e.last().0);
                }
            }
            assert forall|p: Seq<char>| #![auto]
                entries_view(e).contains_key(p) && entries_view(e)[p]
                    != UserAccess::NoAccess implies exists|j: int|
                0 <= j < g.len() && g[j]@ == p by {
                if p == lastp {
                    assert(g[g.len() - 1]@ == p);
                } else {
                    assert(entries_view(e2).contains_key(p) && entries_view(e2)[p]
                        == entries_view(e)[p]);
                    let j = choose|j: int| 0 <= j < g2.len() && g2[j]@ == p;
                    assert(g[j] == g2[j]);
                    assert(g[j]@ == p);
                }
            }
            assert forall|j1: int, j2: int|
                0 <= j1 < j2 < g.len() implies (#[trigger] g[j1])@ != (#[trigger] g[j2])@ by {
                if j2 < g.len() - 1 {
                    assert(g[j1] == g2[j1] && g[j2] == g2[j2]);
                } else {
                    assert(g[j1] == g2[j1]);
                    assert(g2[j1]@ != lastp);
                    assert(g[j2] == e.last().0);
                }
            }
        }
    }
}

/// A path is in the table exactly when some entry carries it.
proof fn lemma_entries_view_dom(e: Seq<(String, u8)>, p: Seq<char>)
    ensures
        entries_view(e).contains_key(p) <==> exists|i: int| 0 <= i < e.len() && e[i].0@ == p,
    decreases e.len(),
{
    if e.len() > 0 {
        lemma_entries_view_dom(e.drop_last(), p);
        if e.last().0@ == p {
            assert(e[e.len() - 1].0@ == p);
        } else if entries_view(e).contains_key(p) {
            let i = choose|i: int| 0 <= i < e.drop_last().len() && e.drop_last()[i].0@ == p;
            assert(e[i].0@ == p);
        } else if exists|i: int| 0 <= i < e.len() && e[i].0@ == p {
            let i = choose|i: int| 0 <= i < e.len() && e[i].0@ == p;
            assert(e.drop_last()[i].0@ == p);
        }
    }
}

/// With distinct paths, the table's level for an entry's path is that entry's
/// level.
proof fn lemma_entries_view_at(e: Seq<(String, u8)>, i: int)
    requires
        entries_distinct(e),
        0 <= i < e.len(),
    ensures
        entries_view(e).contains_key(e[i].0@),
        entries_view(e)[e[i].0@] == level_of_code(e[i].1),
    decreases e.len(),
{
    if i == e.len() - 1 {
    } else {
        assert(entries_distinct(e.drop_last())) by {
            assert(forall|x: int, y: int|
                0 <= x < y < e.drop_last().len() ==> e.drop_last()[x].0@ != e.drop_last()[y].0@);
        }
        lemma_entries_view_at(e.drop_last(), i);
        assert(e.drop_last()[i] == e[i]);
        assert(e.last().0@ != e[i].0@);
    }
}

/// The entries with every occurrence of one path taken out, order kept.
spec fn drop_path(e: Seq<(String, u8)>, p: Seq<char>) -> Seq<(String, u8)>
    decreases e.len(),
{
    if e.len() == 0 {
        e
    } else if e.last().0@ == p {
        drop_path(e.drop_last(), p)
    } else {
        drop_path(e.drop_last(), p).push(e.last())
    }
}

/// Taking a path out removes exactly that key from the table, keeps every
/// kept entry one of the given entries, and keeps paths distinct.
proof fn lemma_drop_path(e: Seq<(String, u8)>, p: Seq<char>)
    ensures
        entries_view(drop_path(e, p)) == entries_view(e).remove(p),
        forall|i: int| 0 <= i < drop_path(e, p).len() ==> (#[trigger] drop_path(e, p)[i]).0@ != p,
        forall|i: int| 0 <= i < drop_path(e, p).len() ==> e.contains(#[trigger] drop_path(e, p)[i]),
        entries_distinct(e) ==> entries_distinct(drop_path(e, p)),
    decreases e.len(),
{
    if e.len() == 0 {
        assert(entries_view(drop_path(e, p)) =~= entries_view(e).remove(p));
    } else {
        let e2 = e.drop_last();
        let d = drop_path(e, p);
        let d2 = drop_path(e2, p);
        lemma_drop_path(e2, p);
        if entries_distinct(e) {
            assert(entries_distinct(e2)) by {
                assert(forall|x: int, y: int| #![auto]
                    0 <= x < y < e2.len() ==> e[x].0@ != e[y].0@);
            }
        }
        assert forall|i: int| 0 <= i < d2.len() implies e.contains(#[trigger] d2[i]) by {
            assert(e2.contains(d2[i]));
            let j = choose|j: int| 0 <= j < e2.len() && e2[j] == d2[i];
            assert(e[j] == d2[i]);
        }
        if e.last().0@ == p {
            assert(d == d2);
            assert(entries_view(e) == entries_view(e2).insert(e.last().0@, level_of_code(
                e.last().1,
            )));
            assert(entries_view(e2).remove(p) =~= entries_view(e2).insert(p, level_of_code(
                e.last().1,
            )).remove(p));
            assert(entries_view(d) == entries_view(e2).remove(p));
        } else {
            assert(d == d2.push(e.last()));
            assert(d.drop_last() =~= d2);
            assert(d.last() == e.last());
            assert(entries_view(d) == entries_view(d2).insert(e.last().0@, level_of_code(
                e.last().1,
            )));
            assert(entries_view(e) == entries_view(e2).insert(e.last().0@, level_of_code(
                e.last().1,
            )));
            assert(entries_view(e2).remove(p).insert(e.last().0@, level_of_code(e.last().1)) =~=
            entries_view(e2).insert(e.last().0@, level_of_code(e.last().1)).remove(p));
            assert forall|i: int| 0 <= i < d.len() implies e.contains(#[trigger] d[i]) by {
                if i < d.len() - 1 {
                    assert(d[i] == d2[i]);
                } else {
                    assert(d[i] == e[e.len() - 1]);
                }
            }
            if entries_distinct(e) {
                assert forall|x: int, y: int| 0 <= x < y < d.len() implies (
                #[trigger] d[x]).0@ != (#[trigger] d[y]).0@ by {
                    if y < d.len() - 1 {
                        assert(d[x] == d2[x] && d[y] == d2[y]);
                    } else {
                        assert(d[x] == d2[x]);
                        assert(e2.contains(d2[x]));
                        let j = choose|j: int| 0 <= j < e2.len() && e2[j] == d2[x];
                        assert(e[j] == e2[j]);
                        assert(e[j].0@ != e[e.len() - 1].0@);
                        assert(d[y] == e[e.len() - 1]);
                    }
                }
            }
        }
    }
}

/// A per-user access-control table: page path to access level. A value copy;
/// changing it does not touch stored state until it is written back.
pub struct AclTable {
    entries: Vec<(ContentPath, u8)>,
}

impl View for AclTable {
    type V = Map<Seq<char>, UserAccess>;

    closed spec fn view(&self) -> Map<Seq<char>, UserAccess> {
        entries_view(self.entries@)
    }
}

impl AclTable {
    /// The table's paths are pairwise distinct.
    pub closed spec fn wf(self) -> bool {
        entries_distinct(self.entries@)
    }

    /// The empty table: no access for any path.
    pub fn new() -> (r: AclTable)
        ensures
            r.wf(),
            r@ == Map::<Seq<char>, UserAccess>::empty(),
    {
        AclTable { entries: Vec::new() }
    }

    /// The recorded level for `path`, or `NoAccess` when none is recorded:
    /// the tombstone default lives here, not at the call sites.
    pub fn level_for(&self, path: &ContentPath) -> (r: UserAccess)
        requires
            self.wf(),
        ensures
            r == (if self@.contains_key(path@) {
                self@[path@]
            } else {
                UserAccess::NoAccess
            }),
    {
        let mut i: usize = 0;
        while i < self.entries.len()
            invariant
                self.wf(),
                0 <= i <= self.entries.len(),
                forall|j: int| 0 <= j < i ==> self.entries@[j].0@ != path@,
            decreases self.entries.len() - i,
        {
            if self.entries[i].0 == *path {
                proof {
                    lemma_entries_view_at(self.entries@, i as int);
                }
                return code_to_level(self.entries[i].1);
            }
            i += 1;
        }
        proof {
            lemma_entries_view_dom(self.entries@, path@);
        }
        UserAccess::NoAccess
    }

    /// Merges one (path, level) pair into the table, overwriting any recorded
    /// level for that exact path.
    pub fn insert(&mut self, path: &ContentPath, level: UserAccess)
        requires
            old(self).wf(),
        ensures
            final(self).wf(),
            final(self)@ == old(self)@.insert(path@, level),
    {
        let ghost e0 = self.entries@;
        let mut kept: Vec<(ContentPath, u8)> = Vec::new();
        let mut i: usize = 0;
        while i < self.entries.len()
            invariant
                self.entries@ == e0,
                0 <= i <= self.entries.len(),
                kept@ == drop_path(e0.take(i as int), path@),
            decreases self.entries.len() - i,
        {
            proof {
                assert(e0.take(i + 1).drop_last() =~= e0.take(i as int));
                assert(e0.take(i + 1).last() == e0[i as int]);
            }
            if !(self.entries[i].0 == *path) {
                kept.push((self.entries[i].0.clone(), self.entries[i].1));
            }
            i += 1;
        }
        proof {
            assert(e0.take(e0.len() as int) =~= e0);
        }
        kept.push((path.clone(), level_to_code(level)));
        self.entries = kept;
        proof {
            lemma_drop_path(e0, path@);
            let d = drop_path(e0, path@);
            let s = self.entries@;
            assert(s.drop_last() =~= d);
            assert(entries_view(s) == entries_view(d).insert(path@, level));
            assert(entries_view(d).insert(path@, level) =~= entries_view(e0).insert(path@, level));
            assert forall|x: int, y: int| 0 <= x < y < s.len() implies (#[trigger] s[x]).0@ != (
            #[trigger] s[y]).0@ by {
                if y < s.len() - 1 {
                    assert(s[x] == d[x] && s[y] == d[y]);
                } else {
                    assert(s[x] == d[x]);
                    assert(d[x].0@ != path@);
                    assert(s[y].0@ == path@);
                }
            }
        }
    }

    /// Every path the table grants some access to: those whose recorded level
    /// is not `NoAccess`. Each appears exactly once.
    pub fn paths_with_access(&self) -> (r: Vec<ContentPath>)
        requires
            self.wf(),
        ensures
            forall|j: int| #![auto]
                0 <= j < r@.len() ==> self@.contains_key(r@[j]@) && self@[r@[j]@]
                    != UserAccess::NoAccess,
            forall|p: Seq<char>| #![auto]
                self@.contains_key(p) && self@[p] != UserAccess::NoAccess ==> exists|j: int|
                    0 <= j < r@.len() && r@[j]@ == p,
            forall|j1: int, j2: int| 0 <= j1 < j2 < r@.len() ==> r@[j1]@ != r@[j2]@,
    {
        let e = &self.entries;
        let mut out: Vec<ContentPath> = Vec::new();
        let mut i: usize = 0;
        while i < e.len()
            invariant
                0 <= i <= e.len(),
                out@ == granted_paths(e@.take(i as int)),
            decreases e.len() - i,
        {
            proof {
                assert(e@.take(i + 1).drop_last() =~= e@.take(i as int));
                assert(e@.take(i + 1).last() == e@[i as int]);
            }
            let lv = code_to_level(e[i].1);
            if !matches!(lv, UserAccess::NoAccess) {
                out.push(e[i].0.clone());
            }
            i += 1;
        }
        proof {
            assert(e@.take(e@.len() as int) =~= e@);
            lemma_granted_paths(e@);
        }
        out
    }
}

/// The executable form of `level_of_code`.
fn code_to_level(c: u8) -> (r: UserAccess)
    ensures
        r == level_of_code(c),
{
    if c == 1 {
        UserAccess::Read
    } else if c == 2 {
        UserAccess::ReadWrite
    } else {
        UserAccess::NoAccess
    }
}

/// The executable form of `code_of_level`.
fn level_to_code(l: UserAccess) -> (r: u8)
    ensures
        r == code_of_level(l),
{
    match l {
        UserAccess::NoAccess => 0,
        UserAccess::Read => 1,
        UserAccess::ReadWrite => 2,
    }
}

/// The durable store of per-user access-control tables.
pub struct AccessControlStore {
    map: UsersMap,
}

impl AccessControlStore {
    /// The table recorded for a user. A user never granted anything has the
    /// empty table, and so has one whose stored blob no longer decodes: that
    /// is the unrecoverable-corruption case, and with no sane recovery the
    /// verified layer reads it as empty rather than abort.
    pub closed spec fn table_view(self, u: Seq<u8>) -> Map<Seq<char>, UserAccess> {
        if users_map_of(self.map).contains_key(u) {
            match table_entries_of(users_map_of(self.map)[u]) {
                Some(e) => entries_view(e),
                None => Map::empty(),
            }
        } else {
            Map::empty()
        }
    }

    /// The level the engine reads for a non-controller caller: the recorded
    /// level, or `NoAccess` when the pair was never granted.
    pub open spec fn recorded_level(self, u: Seq<u8>, p: Seq<char>) -> UserAccess {
        if self.table_view(u).contains_key(p) {
            self.table_view(u)[p]
        } else {
            UserAccess::NoAccess
        }
    }

    /// Wraps the reopened durable map: the store holds whatever tables the
    /// map's memory already held.
    pub(crate) fn from_map(map: UsersMap) -> AccessControlStore {
        AccessControlStore { map }
    }
}

/// The user's table, as a value copy; a user never granted anything gets the
/// empty table. The stored entries are replayed through `insert`, so the
/// copy has pairwise distinct paths whatever the blob held — a reopened
/// memory may hold duplicates — and a blob that does not decode reads as the
/// empty table.
pub fn table_for(store: &AccessControlStore, user: &UserId) -> (r: AclTable)
    ensures
        r.wf(),
        r@ == store.table_view(user@),
{
    match users_map_get(&store.map, user.as_bytes()) {
        Some(bytes) => {
            proof {
                assert(users_map_of(store.map).contains_key(user@));
            }
            match cbor_decode_entries(&bytes) {
                Some(entries) => {
                    let mut t = AclTable::new();
                    let mut j: usize = 0;
                    while j < entries.len()
                        invariant
                            0 <= j <= entries.len(),
                            t.wf(),
                            t@ == entries_view(entries@.take(j as int)),
                        decreases entries.len() - j,
                    {
                        proof {
                            assert(entries@.take(j + 1).drop_last() =~= entries@.take(j as int));
                            assert(entries@.take(j + 1).last() == entries@[j as int]);
                        }
                        let lv = code_to_level(entries[j].1);
                        t.insert(&entries[j].0, lv);
                        j += 1;
                    }
                    proof {
                        assert(entries@.take(entries@.len() as int) =~= entries@);
                    }
                    t
                },
                None => AclTable::new(),
            }
        },
        None => AclTable::new(),
    }
}

/// Merges one grant into the user's table, creating the table on first grant.
/// The observed grant always records `Read`; no operation revokes or removes.
pub fn user_give_access(store: &mut AccessControlStore, path: &ContentPath, user: &UserId)
    ensures
        final(store).table_view(user@) == old(store).table_view(user@).insert(
            path@,
            UserAccess::Read,
        ),
        forall|u: Seq<u8>|
            u != user@ ==> #[trigger] final(store).table_view(u) == old(store).table_view(u),
{
    let mut t = table_for(store, user);
    t.insert(path, UserAccess::Read);
    let bytes = cbor_encode_entries(&t.entries);
    users_map_insert(&mut store.map, user.to_vec(), bytes);
}

/// The access decision engine: the controller identity has unconditional
/// read/write access everywhere; any other caller gets exactly the recorded
/// level, `NoAccess` when the pair was never granted. Pure but for the read
/// of the store.
pub fn user_access(
    store: &AccessControlStore,
    path: &ContentPath,
    caller: &UserId,
    controller: &UserId,
) -> (r: UserAccess)
    ensures
        caller@ == controller@ ==> r == UserAccess::ReadWrite,
        caller@ != controller@ ==> r == store.recorded_level(caller@, path@),
{
    if caller.same_as(controller) {
        return UserAccess::ReadWrite;
    }
    let t = table_for(store, caller);
    t.level_for(path)
}

/// Every path in the user's table whose level grants some access. Recorded
/// entries are never `NoAccess` under the observed grant, so this is every
/// recorded path.
pub fn user_access_list(store: &AccessControlStore, user: &UserId) -> (r: Vec<ContentPath>)
    ensures
        forall|j: int| #![auto]
            0 <= j < r@.len() ==> store.table_view(user@).contains_key(r@[j]@) && store.table_view(
                user@,
            )[r@[j]@] != UserAccess::NoAccess,
        forall|p: Seq<char>| #![auto]
            store.table_view(user@).contains_key(p) && store.table_view(user@)[p]
                != UserAccess::NoAccess ==> exists|j: int| 0 <= j < r@.len() && r@[j]@ == p,
        forall|j1: int, j2: int| 0 <= j1 < j2 < r@.len() ==> r@[j1]@ != r@[j2]@,
{
    let t = table_for(store, user);
    t.paths_with_access()
}

} // verus!
