//! User records kept by the identity service.
use vstd::prelude::*;

verus! {

/// The mathematical value of an optional string.
pub open spec fn opt_chars(o: Option<String>) -> Option<Seq<char>> {
    match o {
        Some(s) => Some(s@),
        None => None,
    }
}

/// What the service stores about one user, as plain values.
pub struct UserRecord {
    pub loginname: Seq<char>,
    pub real_name: Option<Seq<char>>,
    pub password_hash: Option<Seq<char>>,
}

/// Structure used by the server to store user information.
#[derive(Debug, PartialEq)]
pub struct FullUserInfo {
    pub loginname: String,
    pub real_name: Option<String>,
    pub password_hash: Option<String>,
}

impl View for FullUserInfo {
    type V = UserRecord;

    open spec fn view(&self) -> UserRecord {
        UserRecord {
            loginname: self.loginname@,
            real_name: opt_chars(self.real_name),
            password_hash: opt_chars(self.password_hash),
        }
    }
}

/// Copies an optional string.
pub fn clone_opt_string(o: &Option<String>) -> (res: Option<String>)
    ensures
        res == *o,
{
    match o {
        Some(s) => Some(s.clone()),
        None => None,
    }
}

impl Clone for FullUserInfo {
    fn clone(&self) -> (res: Self)
        ensures
            res == *self,
    {
        FullUserInfo {
            loginname: self.loginname.clone(),
            real_name: clone_opt_string(&self.real_name),
            password_hash: clone_opt_string(&self.password_hash),
        }
    }
}

/// User information handed out to clients: the login name, the id and the real name.
#[derive(Debug, PartialEq)]
pub struct UserInfo {
    pub loginname: String,
    pub uuid: u128,
    pub real_name: Option<String>,
}

impl Clone for UserInfo {
    fn clone(&self) -> (res: Self)
        ensures
            res == *self,
    {
        UserInfo {
            loginname: self.loginname.clone(),
            uuid: self.uuid,
            real_name: clone_opt_string(&self.real_name),
        }
    }
}

/// Error used if a user tries to take a login name that is already in use.
#[derive(Debug, PartialEq)]
pub enum InsertError {
    LoginnameConflict,
}

/// Error used if a saved database cannot be loaded.
#[derive(Debug, PartialEq)]
pub enum LoadError {
    /// Two users of the saved data share a login name.
    Integrity,
}

/// A change to the database, as recorded in the replication log.
#[derive(Debug, PartialEq)]
pub enum DatabaseOperation {
    Insert(u128, FullUserInfo),
    Delete(u128),
    ChangeLoginname(u128, String),
}

impl Clone for DatabaseOperation {
    fn clone(&self) -> (res: Self)
        ensures
            res == *self,
    {
        match self {
            DatabaseOperation::Insert(id, info) => DatabaseOperation::Insert(*id, info.clone()),
            DatabaseOperation::Delete(id) => DatabaseOperation::Delete(*id),
            DatabaseOperation::ChangeLoginname(id, name) => DatabaseOperation::ChangeLoginname(
                *id,
                name.clone(),
            ),
        }
    }
}

} // verus!
