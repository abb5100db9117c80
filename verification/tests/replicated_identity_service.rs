use teamchat::database::Database;
use teamchat::service::Service;
use teamchat::user::{FullUserInfo, InsertError, UserInfo};

#[test]
fn main_db_insert_conflict() {
    let mut db = Database::new();

    let loginname = "trisha";

    db.insert(FullUserInfo {
        loginname: loginname.to_owned(),
        real_name: None,
        password_hash: None,
    })
    .unwrap();

    assert_eq!(
        db.insert(FullUserInfo {
            loginname: loginname.to_owned(),
            real_name: None,
            password_hash: None,
        }),
        Err(InsertError::LoginnameConflict)
    );
}

#[test]
fn main_db_get_by_id() {
    let mut db = Database::new();

    let info = FullUserInfo {
        loginname: "tom".to_owned(),
        real_name: None,
        password_hash: None,
    };

    let id = db.insert(info.clone()).unwrap();

    assert_eq!(db.get_by_id(id), Some(&info));
}

#[test]
fn main_db_get_by_loginname() {
    let mut db = Database::new();

    let loginname = "tim";

    let info = FullUserInfo {
        loginname: loginname.to_owned(),
        real_name: None,
        password_hash: None,
    };

    let id = db.insert(info.clone()).unwrap();

    assert_eq!(db.get_by_loginname(loginname), Some((id, &info)));
}

#[test]
fn main_db_delete() {
    let mut db = Database::new();

    let loginname = "tyler";

    let id = db
        .insert(FullUserInfo {
            loginname: loginname.to_owned(),
            real_name: None,
            password_hash: None,
        })
        .unwrap();

    db.delete(id);

    assert_eq!(db.get_by_id(id), None);
    assert_eq!(db.get_by_loginname(loginname), None);
}

#[test]
fn main_db_modify() {
    let mut db = Database::new();

    let old_loginname = "trevor";
    let new_loginname = "tristan";

    let id = db
        .insert(FullUserInfo {
            loginname: old_loginname.to_owned(),
            real_name: None,
            password_hash: None,
        })
        .unwrap();

    db.modify(id, new_loginname.to_owned()).unwrap();

    let new_info = FullUserInfo {
        loginname: new_loginname.to_owned(),
        real_name: None,
        password_hash: None,
    };

    assert_eq!(db.get_by_loginname(old_loginname), None);
    assert_eq!(db.get_by_loginname(new_loginname), Some((id, &new_info)));
    assert_eq!(db.get_by_id(id), Some(&new_info));
}

#[test]
fn main_db_iter() {
    let mut db = Database::new();

    let info = FullUserInfo {
        loginname: "tanner".to_owned(),
        real_name: None,
        password_hash: None,
    };

    let id = db.insert(info.clone()).unwrap();

    assert_eq!(db.iter().into_iter().next(), Some((&id, &info)));
}

#[test]
fn main_db_save_load() {
    let mut db1 = Database::new();

    let info = FullUserInfo {
        loginname: "taylor".to_owned(),
        real_name: None,
        password_hash: None,
    };

    let id = db1.insert(info.clone()).unwrap();

    let saved = db1.save();

    let db2 = Database::load(saved).unwrap();

    assert_eq!(db2.get_by_id(id), Some(&info));
}

#[test]
fn main_rpc_lookup() {
    let mut service = Service::new();

    let loginname = "trinity";

    let id = service.create(loginname.to_owned(), None, None).unwrap();

    assert_eq!(
        service.lookup(loginname.to_owned()),
        Ok(Some(UserInfo {
            uuid: id,
            loginname: loginname.to_owned(),
            real_name: None,
        }))
    );
}

#[test]
fn main_rpc_lookup_none() {
    let service = Service::new();

    assert_eq!(service.lookup("michael".to_owned()), Ok(None));
}

#[test]
fn main_rpc_create_conflict() {
    let mut service = Service::new();

    let loginname = "tessa";

    service.create(loginname.to_owned(), None, None).unwrap();

    assert!(service.create(loginname.to_owned(), None, None).is_err());
}

#[test]
fn main_rpc_reverse_lookup() {
    let mut service = Service::new();

    let loginname = "tara";

    let id = service.create(loginname.to_owned(), None, None).unwrap();

    assert_eq!(
        service.reverse_lookup(id),
        Ok(Some(UserInfo {
            uuid: id,
            loginname: loginname.to_owned(),
            real_name: None,
        }))
    );
}

#[test]
fn main_rpc_reverse_lookup_none() {
    let service = Service::new();

    assert_eq!(service.reverse_lookup(uuid::Uuid::new_v4().as_u128()), Ok(None));
}

#[test]
fn main_rpc_modify_wrong_password() {
    let mut service = Service::new();

    let loginname = "talia";

    service
        .create(loginname.to_owned(), None, Some("iliketrains".to_owned()))
        .unwrap();

    assert!(service
        .modify(
            loginname.to_owned(),
            "olivia".to_owned(),
            Some("openbarley".to_owned())
        )
        .is_err());
}

#[test]
fn main_rpc_modify_missing_password() {
    let mut service = Service::new();

    let loginname = "tabitha";

    service
        .create(loginname.to_owned(), None, Some("hello".to_owned()))
        .unwrap();

    assert!(service
        .modify(loginname.to_owned(), "emma".to_owned(), None)
        .is_err());
}

#[test]
fn main_rpc_modify_correct_password() {
    let mut service = Service::new();

    let old_loginname = "tamara";
    let new_loginname = "teresa";
    let password = "treepowers";

    let id = service
        .create(old_loginname.to_owned(), None, Some(password.to_owned()))
        .unwrap();

    service
        .modify(
            old_loginname.to_owned(),
            new_loginname.to_owned(),
            Some(password.to_owned()),
        )
        .unwrap();

    let new_info = UserInfo {
        uuid: id,
        real_name: None,
        loginname: new_loginname.to_owned(),
    };

    assert_eq!(service.reverse_lookup(id).unwrap(), Some(new_info.clone()));
    assert_eq!(
        service.lookup(new_loginname.to_owned()).unwrap(),
        Some(new_info)
    );
    assert_eq!(service.lookup(old_loginname.to_owned()).unwrap(), None);
}

#[test]
fn main_rpc_modify_no_password() {
    let mut service = Service::new();

    let old_loginname = "tiana";
    let new_loginname = "tatum";

    let id = service
        .create(old_loginname.to_owned(), None, None)
        .unwrap();

    service
        .modify(old_loginname.to_owned(), new_loginname.to_owned(), None)
        .unwrap();

    let new_info = UserInfo {
        uuid: id,
        real_name: None,
        loginname: new_loginname.to_owned(),
    };

    assert_eq!(service.reverse_lookup(id).unwrap(), Some(new_info.clone()));
    assert_eq!(
        service.lookup(new_loginname.to_owned()).unwrap(),
        Some(new_info)
    );
    assert_eq!(service.lookup(old_loginname.to_owned()).unwrap(), None);
}

#[test]
fn main_rpc_delete_wrong_password() {
    let mut service = Service::new();

    let loginname = "tia";

    let id = service
        .create(loginname.to_owned(), None, Some("nollama".to_owned()))
        .unwrap();

    assert!(service
        .delete(loginname.to_owned(), Some("cornbreadandbeans".to_owned()))
        .is_err());
    assert!(service.lookup(loginname.to_owned()).unwrap().is_some());
    assert!(service.reverse_lookup(id).unwrap().is_some());
}

#[test]
fn main_rpc_delete_missing_password() {
    let mut service = Service::new();

    let loginname = "taryn";

    let id = service
        .create(
            loginname.to_owned(),
            None,
            Some("warningpointless".to_owned()),
        )
        .unwrap();

    assert!(service.delete(loginname.to_owned(), None).is_err());
    assert!(service.lookup(loginname.to_owned()).unwrap().is_some());
    assert!(service.reverse_lookup(id).unwrap().is_some());
}

#[test]
fn main_rpc_delete_correct_password() {
    let mut service = Service::new();

    let loginname = "travis";
    let password = "rainbows";

    let id = service
        .create(loginname.to_owned(), None, Some(password.to_owned()))
        .unwrap();

    service
        .delete(loginname.to_owned(), Some(password.to_owned()))
        .unwrap();
    assert_eq!(service.lookup(loginname.to_owned()), Ok(None));
    assert_eq!(service.reverse_lookup(id), Ok(None));
}

#[test]
fn main_rpc_delete_no_password() {
    let mut service = Service::new();

    let loginname = "trenton";

    let id = service.create(loginname.to_owned(), None, None).unwrap();

    service.delete(loginname.to_owned(), None).unwrap();
    assert_eq!(service.lookup(loginname.to_owned()), Ok(None));
    assert_eq!(service.reverse_lookup(id), Ok(None));
}

#[test]
fn main_rpc_get_names() {
    let mut service = Service::new();

    let loginname = "trey";

    service.create(loginname.to_owned(), None, None).unwrap();

    assert_eq!(service.get_names(), Ok(vec![loginname.to_owned()]));
}

#[test]
fn main_rpc_get_uuids() {
    let mut service = Service::new();

    let loginname = "troy";

    let id = service.create(loginname.to_owned(), None, None).unwrap();

    assert_eq!(service.get_uuids(), Ok(vec![id]));
}

#[test]
fn main_rpc_get_all() {
    let mut service = Service::new();

    let loginname = "tony";

    let id = service.create(loginname.to_owned(), None, None).unwrap();

    assert_eq!(
        service.get_all(),
        Ok(vec![UserInfo {
            uuid: id,
            real_name: None,
            loginname: loginname.to_owned(),
        }])
    );
}
