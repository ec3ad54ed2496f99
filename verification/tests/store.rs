//! Runtime checks of the store's behaviour through its public operations.

use page_store::acl::{user_access, user_access_list, user_give_access};
use page_store::content::{page_delete, page_get, page_set, pages_get};
use page_store::gateway::{
    all_pages, delete_page, fund_page, get_page, set_index, set_page, AllPagesRes, DeletePageRes,
    FundPageRes, GetPageRes, SetIndexRes, SetPageRes,
};
use page_store::index::{content_index_lookup, content_index_set};
use page_store::{open_stores, UserAccess, UserId};

fn uid(bytes: &[u8]) -> UserId {
    UserId::new(bytes.to_vec())
}

#[test]
fn get_never_set_is_not_found() {
    let (mut cs, _, _) = open_stores();
    assert_eq!(page_get(&cs, "index.html".to_string()), None);
    page_set(&mut cs, "other.html".to_string(), "body".to_string());
    page_delete(&mut cs, "third.html".to_string());
    assert_eq!(page_get(&cs, "index.html".to_string()), None);
}

#[test]
fn set_then_get_returns_content() {
    let (mut cs, _, _) = open_stores();
    assert_eq!(page_set(&mut cs, "a".to_string(), "one".to_string()), None);
    assert_eq!(page_get(&cs, "a".to_string()), Some("one".to_string()));
}

#[test]
fn set_twice_reports_previous_and_keeps_latest() {
    let (mut cs, _, _) = open_stores();
    assert_eq!(page_set(&mut cs, "a".to_string(), "one".to_string()), None);
    assert_eq!(
        page_set(&mut cs, "a".to_string(), "two".to_string()),
        Some("one".to_string())
    );
    assert_eq!(page_get(&cs, "a".to_string()), Some("two".to_string()));
}

#[test]
fn delete_unset_and_set_paths() {
    let (mut cs, _, _) = open_stores();
    assert_eq!(page_delete(&mut cs, "a".to_string()), None);
    page_set(&mut cs, "a".to_string(), "one".to_string());
    assert_eq!(page_delete(&mut cs, "a".to_string()), Some("one".to_string()));
    assert_eq!(page_get(&cs, "a".to_string()), None);
}

#[test]
fn controller_always_read_write() {
    let (_, mut acl, _) = open_stores();
    let ctl = uid(b"controller");
    // even with a table recorded for the controller identity, the engine
    // never consults it
    user_give_access(&mut acl, &"x".to_string(), &ctl);
    assert_eq!(
        user_access(&acl, &"x".to_string(), &ctl, &ctl),
        UserAccess::ReadWrite
    );
    assert_eq!(
        user_access(&acl, &"never-granted".to_string(), &ctl, &ctl),
        UserAccess::ReadWrite
    );
}

#[test]
fn no_grant_means_no_access() {
    let (_, acl, _) = open_stores();
    let ctl = uid(b"controller");
    let user = uid(b"alice");
    assert_eq!(
        user_access(&acl, &"p".to_string(), &user, &ctl),
        UserAccess::NoAccess
    );
}

#[test]
fn grant_yields_read_and_is_listed() {
    let (_, mut acl, _) = open_stores();
    let ctl = uid(b"controller");
    let user = uid(b"alice");
    user_give_access(&mut acl, &"p".to_string(), &user);
    assert_eq!(
        user_access(&acl, &"p".to_string(), &user, &ctl),
        UserAccess::Read
    );
    let listed = user_access_list(&acl, &user);
    assert!(listed.contains(&"p".to_string()));
    // a grant for one user leaves another user untouched
    let other = uid(b"bob");
    assert_eq!(
        user_access(&acl, &"p".to_string(), &other, &ctl),
        UserAccess::NoAccess
    );
}

#[test]
fn grants_accumulate_per_user() {
    let (_, mut acl, _) = open_stores();
    let user = uid(b"alice");
    user_give_access(&mut acl, &"p".to_string(), &user);
    user_give_access(&mut acl, &"q".to_string(), &user);
    user_give_access(&mut acl, &"p".to_string(), &user);
    let mut listed = user_access_list(&acl, &user);
    listed.sort();
    assert_eq!(listed, vec!["p".to_string(), "q".to_string()]);
}

#[test]
fn replace_then_lookup_each_ordinal() {
    let (_, _, mut ix) = open_stores();
    let paths = vec!["a".to_string(), "b".to_string(), "c".to_string()];
    assert!(content_index_set(&mut ix, &paths).is_ok());
    assert_eq!(content_index_lookup(&ix, 0), Ok("a".to_string()));
    assert_eq!(content_index_lookup(&ix, 1), Ok("b".to_string()));
    assert_eq!(content_index_lookup(&ix, 2), Ok("c".to_string()));
    assert_eq!(content_index_lookup(&ix, 3), Err(Some(2)));
}

#[test]
fn replace_with_empty_reports_empty_bound() {
    let (_, _, mut ix) = open_stores();
    let paths = vec!["a".to_string()];
    assert!(content_index_set(&mut ix, &paths).is_ok());
    assert!(content_index_set(&mut ix, &Vec::new()).is_ok());
    assert_eq!(content_index_lookup(&ix, 0), Err(None));
}

#[test]
fn replace_twice_is_idempotent() {
    let (_, _, mut ix1) = open_stores();
    let (_, _, mut ix2) = open_stores();
    let paths = vec!["a".to_string(), "b".to_string()];
    assert!(content_index_set(&mut ix1, &paths).is_ok());
    assert!(content_index_set(&mut ix2, &paths).is_ok());
    assert!(content_index_set(&mut ix2, &paths).is_ok());
    for i in 0..3u64 {
        assert_eq!(content_index_lookup(&ix1, i), content_index_lookup(&ix2, i));
    }
}

#[test]
fn lookup_out_of_bounds_reports_max_ordinal() {
    let (_, _, mut ix) = open_stores();
    let paths = vec!["a".to_string(), "b".to_string()];
    assert!(content_index_set(&mut ix, &paths).is_ok());
    assert_eq!(content_index_lookup(&ix, 17), Err(Some(1)));
}

#[test]
fn snapshot_is_controller_only() {
    let (mut cs, _, _) = open_stores();
    let ctl = uid(b"controller");
    let user = uid(b"alice");
    page_set(&mut cs, "a".to_string(), "one".to_string());
    page_set(&mut cs, "b".to_string(), "two".to_string());
    assert_eq!(pages_get(&cs, &user, &ctl), None);
    let mut snap = pages_get(&cs, &ctl, &ctl).expect("controller sees all");
    snap.sort();
    assert_eq!(
        snap,
        vec![
            ("a".to_string(), "one".to_string()),
            ("b".to_string(), "two".to_string()),
        ]
    );
}

#[test]
fn all_pages_denies_non_controller() {
    let (mut cs, _, _) = open_stores();
    let ctl = uid(b"controller");
    let user = uid(b"alice");
    page_set(&mut cs, "a".to_string(), "one".to_string());
    match all_pages(&cs, &user, &ctl) {
        AllPagesRes::AccessDenied { user_id } => {
            assert!(user_id.same_as(&user));
        }
        AllPagesRes::Pages(_) => panic!("non-controller saw the snapshot"),
    }
    match all_pages(&cs, &ctl, &ctl) {
        AllPagesRes::Pages(ps) => assert_eq!(ps.len(), 1),
        AllPagesRes::AccessDenied { .. } => panic!("controller was denied"),
    }
}

#[test]
fn set_page_gated_on_read_write() {
    let (mut cs, mut acl, _) = open_stores();
    let ctl = uid(b"controller");
    let user = uid(b"alice");
    // a read grant is not enough to write
    user_give_access(&mut acl, &"a".to_string(), &user);
    match set_page(&mut cs, &acl, &user, &ctl, "a".to_string(), "body".to_string()) {
        SetPageRes::AccessDenied { path, .. } => assert_eq!(path, "a".to_string()),
        SetPageRes::Stored { .. } => panic!("read-level caller wrote a page"),
    }
    assert_eq!(page_get(&cs, "a".to_string()), None);
    // the controller writes freely
    match set_page(&mut cs, &acl, &ctl, &ctl, "a".to_string(), "body".to_string()) {
        SetPageRes::Stored { path } => assert_eq!(path, "a".to_string()),
        SetPageRes::AccessDenied { .. } => panic!("controller was denied"),
    }
    assert_eq!(page_get(&cs, "a".to_string()), Some("body".to_string()));
}

#[test]
fn delete_page_gated_and_reports_absence() {
    let (mut cs, acl, _) = open_stores();
    let ctl = uid(b"controller");
    let user = uid(b"alice");
    page_set(&mut cs, "a".to_string(), "body".to_string());
    match delete_page(&mut cs, &acl, &user, &ctl, "a".to_string()) {
        DeletePageRes::AccessDenied { path, .. } => assert_eq!(path, "a".to_string()),
        _ => panic!("ungranted caller deleted a page"),
    }
    match delete_page(&mut cs, &acl, &ctl, &ctl, "a".to_string()) {
        DeletePageRes::Deleted { path } => assert_eq!(path, "a".to_string()),
        _ => panic!("controller could not delete"),
    }
    match delete_page(&mut cs, &acl, &ctl, &ctl, "a".to_string()) {
        DeletePageRes::NotFound { path } => assert_eq!(path, "a".to_string()),
        _ => panic!("second delete did not report absence"),
    }
}

#[test]
fn get_page_out_of_bounds_and_empty_index() {
    let (cs, acl, mut ix) = open_stores();
    let ctl = uid(b"controller");
    match get_page(&cs, &acl, &ix, &ctl, &ctl, 0) {
        GetPageRes::IndexOutOfBounds { index, max_index } => {
            assert_eq!(index, 0);
            assert_eq!(max_index, None);
        }
        _ => panic!("empty index served a page"),
    }
    match set_index(&mut ix, vec!["a".to_string()]) {
        SetIndexRes::IndexSet(ps) => assert_eq!(ps, vec!["a".to_string()]),
        SetIndexRes::StorageFailure => panic!("replace failed"),
    }
    match get_page(&cs, &acl, &ix, &ctl, &ctl, 5) {
        GetPageRes::IndexOutOfBounds { index, max_index } => {
            assert_eq!(index, 5);
            assert_eq!(max_index, Some(0));
        }
        _ => panic!("out-of-bounds ordinal served a page"),
    }
}

#[test]
fn end_to_end_funding_scenario() {
    let (mut cs, mut acl, mut ix) = open_stores();
    let ctl = uid(b"controller");
    let user = uid(b"alice");
    // the operator installs a page and the index
    match set_page(&mut cs, &acl, &ctl, &ctl, "index.html".to_string(), "hello".to_string()) {
        SetPageRes::Stored { .. } => {}
        SetPageRes::AccessDenied { .. } => panic!("controller was denied"),
    }
    match set_index(&mut ix, vec!["index.html".to_string()]) {
        SetIndexRes::IndexSet(_) => {}
        SetIndexRes::StorageFailure => panic!("replace failed"),
    }
    // the unfunded user is told funding is required
    match get_page(&cs, &acl, &ix, &user, &ctl, 0) {
        GetPageRes::FundingRequired { path, .. } => assert_eq!(path, "index.html".to_string()),
        _ => panic!("unfunded user was served"),
    }
    // funding grants Read
    match fund_page(&mut acl, &user, &ctl, "index.html".to_string()) {
        FundPageRes::Funded { pages } => assert_eq!(pages, vec!["index.html".to_string()]),
        FundPageRes::InsufficientFunds => panic!("funding failed"),
    }
    assert_eq!(
        user_access(&acl, &"index.html".to_string(), &user, &ctl),
        UserAccess::Read
    );
    // the funded user can fetch the content
    match get_page(&cs, &acl, &ix, &user, &ctl, 0) {
        GetPageRes::Page { path, content } => {
            assert_eq!(path, "index.html".to_string());
            assert_eq!(content, "hello".to_string());
        }
        _ => panic!("funded user was not served"),
    }
    // but a write by the funded user is still denied
    match set_page(&mut cs, &acl, &user, &ctl, "index.html".to_string(), "own".to_string()) {
        SetPageRes::AccessDenied { path, user_id } => {
            assert_eq!(path, "index.html".to_string());
            assert_eq!(
                user_access(&acl, &"index.html".to_string(), &user_id, &ctl),
                UserAccess::Read
            );
        }
        SetPageRes::Stored { .. } => panic!("read-level user overwrote the page"),
    }
    assert_eq!(page_get(&cs, "index.html".to_string()), Some("hello".to_string()));
}

#[test]
fn funding_by_controller_records_nothing() {
    let (_, mut acl, _) = open_stores();
    let ctl = uid(b"controller");
    match fund_page(&mut acl, &ctl, &ctl, "a".to_string()) {
        FundPageRes::Funded { pages } => assert_eq!(pages, vec!["a".to_string()]),
        FundPageRes::InsufficientFunds => panic!("funding failed"),
    }
    assert_eq!(user_access_list(&acl, &ctl), Vec::<String>::new());
}

#[test]
fn get_page_path_missing_from_content() {
    let (cs, acl, mut ix) = open_stores();
    let ctl = uid(b"controller");
    assert!(content_index_set(&mut ix, &vec!["gone.html".to_string()]).is_ok());
    match get_page(&cs, &acl, &ix, &ctl, &ctl, 0) {
        GetPageRes::PathNotFound { path } => assert_eq!(path, "gone.html".to_string()),
        _ => panic!("stale index entry was not reported"),
    }
}

#[test]
fn identities_compare_by_bytes() {
    let a = uid(b"alice");
    let b = uid(b"alice");
    let c = uid(b"alicf");
    assert!(a.same_as(&b));
    assert!(!a.same_as(&c));
    assert!(!a.same_as(&uid(b"alic")));
    assert_eq!(a.duplicate().as_bytes(), &b"alice".to_vec());
    assert_eq!(a.to_vec(), b"alice".to_vec());
}
