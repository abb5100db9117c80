use teamchat::replication::ReplicationState;
use teamchat::rpc_error::ServiceError;
use teamchat::database::Database;
use teamchat::service::Service;
use teamchat::user::{DatabaseOperation, FullUserInfo, InsertError, LoadError};

fn user(name: &str) -> FullUserInfo {
    FullUserInfo { loginname: name.to_owned(), real_name: Some("Real".to_owned()), password_hash: None }
}

#[test]
fn load_refuses_repeated_login_names() {
    assert_eq!(
        Database::load(vec![(1, user("a")), (2, user("a"))]).err(),
        Some(LoadError::Integrity)
    );
    let db = Database::load(vec![(1, user("a")), (2, user("b"))]).unwrap();
    assert_eq!(db.get_by_loginname("b"), Some((2, &user("b"))));
    let mut saved = db.save();
    saved.sort_by_key(|(id, _)| *id);
    assert_eq!(saved, vec![(1, user("a")), (2, user("b"))]);
}

#[test]
fn rename_to_own_name_is_refused() {
    let mut db = Database::new();
    let id = db.insert(user("self")).unwrap();
    assert_eq!(db.modify(id, "self".to_owned()), Err(InsertError::LoginnameConflict));
    assert!(db.contains_loginname("self"));
    assert!(db.contains_id(id));
}

#[test]
fn apply_follows_the_log() {
    let mut db = Database::new();
    db.apply(DatabaseOperation::Insert(5, user("x")));
    db.apply(DatabaseOperation::ChangeLoginname(5, "y".to_owned()));
    assert_eq!(db.get_by_loginname("x"), None);
    assert_eq!(db.get_by_loginname("y").map(|(id, _)| id), Some(5));
    db.apply(DatabaseOperation::ChangeLoginname(6, "z".to_owned()));
    assert!(!db.contains_loginname("z"));
    db.apply(DatabaseOperation::Delete(5));
    assert!(!db.contains_id(5));
    assert!(!db.contains_loginname("y"));
    assert!(db.loginname_resolves("y"));
}

#[test]
fn an_overwriting_insert_leaves_a_stale_name() {
    let mut db = Database::new();
    db.apply(DatabaseOperation::Insert(5, user("x")));
    db.apply(DatabaseOperation::Insert(5, user("w")));
    assert_eq!(db.get_by_loginname("x"), Some((5, &user("w"))));
    db.apply(DatabaseOperation::Delete(5));
    assert!(!db.loginname_resolves("x"));
}

#[test]
fn ids_are_random_v4_uuids() {
    let mut db = Database::new();
    let id = db.insert(user("v")).unwrap();
    assert_eq!((id >> 76) & 0xf, 4);
    assert_eq!((id >> 62) & 0x3, 2);
    assert_eq!(uuid::Uuid::from_u128(id).get_version_num(), 4);
}

#[test]
fn password_set_at_creation_is_needed_afterwards() {
    let mut service = Service::new();
    service.create("pat".to_owned(), Some("Pat Doe".to_owned()), Some("secret".to_owned())).unwrap();
    assert!(service.delete("pat".to_owned(), Some("wrong".to_owned())).is_err());
    assert!(service.modify("pat".to_owned(), "patty".to_owned(), Some("secret".to_owned())).is_ok());
    let info = service.lookup("patty".to_owned()).unwrap().unwrap();
    assert_eq!(info.real_name, Some("Pat Doe".to_owned()));
    assert!(service.delete("patty".to_owned(), Some("secret".to_owned())).is_ok());
    assert_eq!(service.get_names(), Ok(vec![]));
}

#[test]
fn insert_user_reports_hash_failure_as_internal() {
    let mut service = Service::new();
    let failed = bcrypt::hash("x", 99).map(Some);
    assert_eq!(
        service.insert_user("q".to_owned(), None, failed),
        Err(teamchat::rpc_error::ServiceError::Internal)
    );
    assert_eq!(service.get_uuids(), Ok(vec![]));
}

#[test]
fn follower_answers_not_leader_even_for_a_stale_name() {
    let mut db = Database::new();
    db.apply(DatabaseOperation::Insert(5, user("x")));
    db.apply(DatabaseOperation::Insert(5, user("w")));
    db.apply(DatabaseOperation::Delete(5));
    assert!(!db.loginname_resolves("x"));
    let mut service = Service::replicated(db, ReplicationState::new(1, vec![1, 2]));
    let not_leader = Err(ServiceError::NotLeader { leader_id: None });
    assert_eq!(service.modify("x".to_owned(), "y".to_owned(), None), not_leader);
    assert_eq!(service.delete("x".to_owned(), None), not_leader);
}

#[test]
fn listings_hold_every_user_once() {
    let mut service = Service::new();
    let a = service.create("ann".to_owned(), None, None).unwrap();
    let b = service.create("bob".to_owned(), None, None).unwrap();
    let c = service.create("cid".to_owned(), None, None).unwrap();
    let mut names = service.get_names().unwrap();
    names.sort();
    assert_eq!(names, vec!["ann".to_owned(), "bob".to_owned(), "cid".to_owned()]);
    let mut ids = service.get_uuids().unwrap();
    ids.sort();
    let mut expected = vec![a, b, c];
    expected.sort();
    assert_eq!(ids, expected);
    assert_eq!(service.get_all().unwrap().len(), 3);
    assert_eq!(service.db.iter().len(), 3);
    assert_eq!(service.db.save().len(), 3);
}

#[test]
fn created_ids_are_v4_uuids() {
    let mut service = Service::new();
    for name in ["p", "q", "r"] {
        let id = service.create(name.to_owned(), None, None).unwrap();
        assert_eq!((id >> 76) & 0xf, 4);
        assert_eq!((id >> 62) & 0x3, 2);
    }
}
