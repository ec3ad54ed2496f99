//! The operations the request layer exposes, with the identity checks that
//! gate them. Each takes the caller's identity and the designated controller
//! identity as values; reading them off the wire is the excluded layer's
//! concern.

use crate::acl::{user_access, user_give_access, AccessControlStore};
use crate::content::{page_delete, page_get, page_set, pages_get, snapshot_of, ContentStore};
use crate::index::{content_index_lookup, content_index_set, paths_view, ContentIndex};
use crate::{Content, ContentPath, UserAccess, UserId};
use vstd::prelude::*;

verus! {

/// What fetching a page by ordinal yields.
pub enum GetPageRes {
    Page { path: ContentPath, content: Content },
    FundingRequired { path: ContentPath, user_id: UserId },
    PathNotFound { path: ContentPath },
    IndexOutOfBounds { index: u64, max_index: Option<u64> },
}

/// Fetches the page at an ordinal: looks the path up, asks the decision
/// engine, and only then reads the content store. A caller without access is
/// told funding is required; an ordinal past the end is told the greatest
/// valid ordinal, or that the index is empty.
pub fn get_page(
    pages: &ContentStore,
    acl: &AccessControlStore,
    ix: &ContentIndex,
    caller: &UserId,
    controller: &UserId,
    index: u64,
) -> (r: GetPageRes)
    requires
        ix.wf(),
    ensures
        match r {
            GetPageRes::IndexOutOfBounds { index: i, max_index } => i == index && index >= ix@.len()
                && max_index == (if ix@.len() == 0 {
                Option::<u64>::None
            } else {
                Option::Some((ix@.len() - 1) as u64)
            }),
            GetPageRes::FundingRequired { path, user_id } => index < ix@.len() && path@ == ix@[index as int] && user_id@ == caller@ && caller@ != controller@ && acl.recorded_level(
                caller@,
                path@,
            ) == UserAccess::NoAccess,
            GetPageRes::Page { path, content } => index < ix@.len() && path@ == ix@[index as int]
                && (caller@ == controller@ || acl.recorded_level(caller@, path@)
                != UserAccess::NoAccess) && pages@.contains_key(path@) && content@
                == pages@[path@],
            GetPageRes::PathNotFound { path } => index < ix@.len() && path@ == ix@[index as int] && (
            caller@ == controller@ || acl.recorded_level(caller@, path@) != UserAccess::NoAccess)
                && !pages@.contains_key(path@),
        },
{
    let path = match content_index_lookup(ix, index) {
        Ok(p) => p,
        Err(max_index) => {
            return GetPageRes::IndexOutOfBounds { index, max_index };
        },
    };
    match user_access(acl, &path, caller, controller) {
        UserAccess::NoAccess => GetPageRes::FundingRequired {
            path,
            user_id: caller.duplicate(),
        },
        _ => match page_get(pages, path.clone()) {
            Some(content) => GetPageRes::Page { path, content },
            None => GetPageRes::PathNotFound { path },
        },
    }
}

/// What writing a page yields.
pub enum SetPageRes {
    Stored { path: ContentPath },
    AccessDenied { path: ContentPath, user_id: UserId },
}

/// Writes a page, gated on the decision engine: only `ReadWrite` may create
/// or overwrite. A denied caller is told the path and identity that were
/// denied; the store is untouched.
pub fn set_page(
    pages: &mut ContentStore,
    acl: &AccessControlStore,
    caller: &UserId,
    controller: &UserId,
    path: ContentPath,
    content: Content,
) -> (r: SetPageRes)
    ensures
        match r {
            SetPageRes::Stored { path: p } => p@ == path@ && (caller@ == controller@
                || acl.recorded_level(caller@, path@) == UserAccess::ReadWrite) && final(pages)@
                == old(pages)@.insert(path@, content@),
            SetPageRes::AccessDenied { path: p, user_id } => p@ == path@ && user_id@ == caller@
                && caller@ != controller@ && acl.recorded_level(caller@, path@)
                != UserAccess::ReadWrite && final(pages)@ == old(pages)@,
        },
{
    match user_access(acl, &path, caller, controller) {
        UserAccess::ReadWrite => {
            page_set(pages, path.clone(), content);
            SetPageRes::Stored { path }
        },
        _ => SetPageRes::AccessDenied { path, user_id: caller.duplicate() },
    }
}

/// What deleting a page yields.
pub enum DeletePageRes {
    Deleted { path: ContentPath },
    NotFound { path: ContentPath },
    AccessDenied { path: ContentPath, user_id: UserId },
}

/// Deletes a page, gated on the decision engine: only `ReadWrite` may delete.
/// Deleting an absent path reports it not found; a denied caller leaves the
/// store untouched.
pub fn delete_page(
    pages: &mut ContentStore,
    acl: &AccessControlStore,
    caller: &UserId,
    controller: &UserId,
    path: ContentPath,
) -> (r: DeletePageRes)
    ensures
        match r {
            DeletePageRes::Deleted { path: p } => p@ == path@ && (caller@ == controller@
                || acl.recorded_level(caller@, path@) == UserAccess::ReadWrite) && old(
                pages,
            )@.contains_key(path@) && final(pages)@ == old(pages)@.remove(path@),
            DeletePageRes::NotFound { path: p } => p@ == path@ && (caller@ == controller@
                || acl.recorded_level(caller@, path@) == UserAccess::ReadWrite) && !old(
                pages,
            )@.contains_key(path@) && final(pages)@ == old(pages)@.remove(path@),
            DeletePageRes::AccessDenied { path: p, user_id } => p@ == path@ && user_id@ == caller@
                && caller@ != controller@ && acl.recorded_level(caller@, path@)
                != UserAccess::ReadWrite && final(pages)@ == old(pages)@,
        },
{
    match user_access(acl, &path, caller, controller) {
        UserAccess::ReadWrite => {
            match page_delete(pages, path.clone()) {
                Some(_) => DeletePageRes::Deleted { path },
                None => DeletePageRes::NotFound { path },
            }
        },
        _ => DeletePageRes::AccessDenied { path, user_id: caller.duplicate() },
    }
}

/// What funding a page yields. Balance bookkeeping is out of scope upstream:
/// funding never fails and spends nothing.
pub enum FundPageRes {
    Funded { pages: Vec<ContentPath> },
    InsufficientFunds,
}

/// Records the observed grant, `Read` on the funded path, for the caller.
/// The controller identity is never recorded: it has implicit access and its
/// table stays empty.
pub fn fund_page(
    acl: &mut AccessControlStore,
    caller: &UserId,
    controller: &UserId,
    path: ContentPath,
) -> (r: FundPageRes)
    ensures
        caller@ != controller@ ==> final(acl).table_view(caller@) == old(acl).table_view(
            caller@,
        ).insert(path@, UserAccess::Read),
        caller@ == controller@ ==> forall|u: Seq<u8>|
            #[trigger] final(acl).table_view(u) == old(acl).table_view(u),
        forall|u: Seq<u8>|
            u != caller@ ==> #[trigger] final(acl).table_view(u) == old(acl).table_view(u),
        match r {
            FundPageRes::Funded { pages } => pages@.len() == 1 && pages@[0]@ == path@,
            FundPageRes::InsufficientFunds => false,
        },
{
    if !caller.same_as(controller) {
        user_give_access(acl, &path, caller);
    }
    FundPageRes::Funded { pages: vec![path] }
}

/// What listing every page yields.
pub enum AllPagesRes {
    Pages(Vec<(ContentPath, Content)>),
    AccessDenied { user_id: UserId },
}

/// The full content snapshot, for the controller identity only: it bypasses
/// the per-path checks entirely.
pub fn all_pages(pages: &ContentStore, caller: &UserId, controller: &UserId) -> (r: AllPagesRes)
    ensures
        match r {
            AllPagesRes::Pages(ps) => caller@ == controller@ && snapshot_of(ps@, pages@),
            AllPagesRes::AccessDenied { user_id } => caller@ != controller@ && user_id@ == caller@,
        },
{
    match pages_get(pages, caller, controller) {
        Some(ps) => AllPagesRes::Pages(ps),
        None => AllPagesRes::AccessDenied { user_id: caller.duplicate() },
    }
}

/// What replacing the index yields.
pub enum SetIndexRes {
    IndexSet(Vec<ContentPath>),
    StorageFailure,
}

/// Replaces the whole ordinal index with the given paths, in order, and hands
/// them back.
pub fn set_index(ix: &mut ContentIndex, paths: Vec<ContentPath>) -> (r: SetIndexRes)
    requires
        old(ix).wf(),
    ensures
        final(ix).wf(),
        final(ix)@ == paths_view(paths@),
        match r {
            SetIndexRes::IndexSet(ps) => ps@ == paths@,
            SetIndexRes::StorageFailure => false,
        },
{
    match content_index_set(ix, &paths) {
        Ok(_) => SetIndexRes::IndexSet(paths),
        Err(_) => SetIndexRes::StorageFailure,
    }
}

} // verus!
