//! The store's laws, stated once for all inputs over the views that the
//! operations' contracts use: the content store's path-to-content map, a
//! user's table, and the index's path sequence.

use crate::index::paths_view;
use crate::UserAccess;
use vstd::prelude::*;

verus! {

/// A path never set is absent: it is absent from a fresh store, and neither a
/// write nor a delete of another path makes it present. With `page_get`'s
/// contract, `page_get` on such a path reports it not found.
pub proof fn lemma_never_set_not_found(
    m: Map<Seq<char>, Seq<char>>,
    p: Seq<char>,
    q: Seq<char>,
    c: Seq<char>,
)
    requires
        !m.contains_key(p),
        q != p,
    ensures
        !Map::<Seq<char>, Seq<char>>::empty().contains_key(p),
        !m.insert(q, c).contains_key(p),
        !m.remove(q).contains_key(p),
{
}

/// Write-then-read: after `page_set(p, c)` the store holds exactly `c` at
/// `p`, so `page_get(p)` returns `c`.
pub proof fn lemma_write_then_read(m: Map<Seq<char>, Seq<char>>, p: Seq<char>, c: Seq<char>)
    ensures
        m.insert(p, c).contains_key(p),
        m.insert(p, c)[p] == c,
{
}

/// Overwrite: after `page_set(p, c1)`, a second `page_set(p, c2)` finds `c1`
/// as the previous content, and `page_get(p)` afterwards returns `c2`.
pub proof fn lemma_overwrite(
    m: Map<Seq<char>, Seq<char>>,
    p: Seq<char>,
    c1: Seq<char>,
    c2: Seq<char>,
)
    ensures
        m.insert(p, c1).contains_key(p) && m.insert(p, c1)[p] == c1,
        m.insert(p, c1).insert(p, c2).contains_key(p),
        m.insert(p, c1).insert(p, c2)[p] == c2,
{
}

/// Delete: on an unset path the store is missing the entry, so `page_delete`
/// reports it not found; on a set path it yields the stored content and a
/// later `page_get` finds nothing.
pub proof fn lemma_delete(m: Map<Seq<char>, Seq<char>>, p: Seq<char>, c: Seq<char>)
    ensures
        !m.remove(p).contains_key(p),
        m.insert(p, c).contains_key(p) && m.insert(p, c)[p] == c,
        !m.insert(p, c).remove(p).contains_key(p),
{
}

/// A pair never granted has no access: a fresh store records nothing for it,
/// and a grant on another path leaves it unrecorded. With `user_access`'s
/// contract, the engine yields `NoAccess` for such a pair.
pub proof fn lemma_ungranted_stays_no_access(
    t: Map<Seq<char>, UserAccess>,
    p: Seq<char>,
    q: Seq<char>,
)
    requires
        q != p,
    ensures
        !Map::<Seq<char>, UserAccess>::empty().contains_key(p),
        t.insert(q, UserAccess::Read).contains_key(p) == t.contains_key(p),
        t.contains_key(p) ==> t.insert(q, UserAccess::Read)[p] == t[p],
{
}

/// Grant-then-decide: after the observed grant the table records `Read` for
/// the pair, so the decision engine yields `Read` (in particular, some
/// access), and the granted-path listing includes the path.
pub proof fn lemma_grant_then_decide(t: Map<Seq<char>, UserAccess>, p: Seq<char>)
    ensures
        t.insert(p, UserAccess::Read).contains_key(p),
        t.insert(p, UserAccess::Read)[p] == UserAccess::Read,
        t.insert(p, UserAccess::Read)[p] != UserAccess::NoAccess,
{
}

/// Replacing the index is idempotent: the index it leaves behind depends on
/// the given paths alone, never on what stood there before, so replacing
/// twice with the same paths leaves every lookup as one replace does.
pub proof fn lemma_replace_all_idempotent(
    paths: Seq<String>,
    v1: Seq<Seq<char>>,
    v2: Seq<Seq<char>>,
)
    requires
        v1 == paths_view(paths),
        v2 == paths_view(paths),
    ensures
        v1 == v2,
        forall|i: int| 0 <= i < v1.len() ==> v1[i] == v2[i],
{
}

/// After a replace, the ordinal `i` holds the view of `paths[i]`: with
/// `content_index_lookup`'s contract, looking `i` up returns that path.
pub proof fn lemma_replace_then_lookup(paths: Seq<String>, i: int)
    requires
        0 <= i < paths.len(),
    ensures
        paths_view(paths).len() == paths.len(),
        paths_view(paths)[i] == paths[i]@,
{
}

} // verus!
