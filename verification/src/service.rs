//! The identity service: lookups and password-checked changes of user records.
use vstd::prelude::*;
use crate::database::{deref_pairs, lists_users, Database};
use crate::password::{check_password, hash_password, opt_str_chars, password_check_result, verify_accepts};
use crate::replication::{ReplicationLogEntry, ReplicationState};
use crate::rpc_error::ServiceError;
use crate::user::{opt_chars, DatabaseOperation, FullUserInfo, UserInfo, UserRecord};

verus! {

/// The service: the user database and, on a replicated node, its replication state.
pub struct Service {
    pub db: Database,
    pub replication: Option<ReplicationState>,
}

/// `info` describes the stored user `rec` with id `id`.
pub open spec fn describes(info: UserInfo, id: u128, rec: UserRecord) -> bool {
    &&& info.loginname@ == rec.loginname
    &&& info.uuid == id
    &&& opt_chars(info.real_name) == rec.real_name
}

impl Service {
    pub open spec fn wf(&self) -> bool {
        &&& self.db.wf()
        &&& self.replication matches Some(r) ==> r.wf()
    }

    /// Whether this node takes writes: a standalone service always does, a
    /// replicated one only as the leader.
    pub open spec fn takes_writes(&self) -> bool {
        match self.replication {
            None => true,
            Some(r) => r.role is Leader,
        }
    }

    /// Room in the replication log for one more entry.
    pub open spec fn log_has_room(&self) -> bool {
        self.replication matches Some(r) ==> r.log_end() < u64::MAX
    }

    /// The failure answered by a node that does not take writes.
    pub open spec fn not_leader_error(&self) -> ServiceError {
        ServiceError::NotLeader { leader_id: self.replication->0.leader_id }
    }

    /// A standalone service with an empty database.
    pub fn new() -> (res: Self)
        ensures
            res.wf(),
            res.db.consistent(),
            res.db.users() == Map::<u128, UserRecord>::empty(),
            res.replication is None,
    {
        Service { db: Database::new(), replication: None }
    }

    /// A replicated service over `db` with the replication state `replication`.
    pub fn replicated(db: Database, replication: ReplicationState) -> (res: Self)
        requires
            db.wf(),
            replication.wf(),
        ensures
            res.wf(),
            res.db == db,
            res.replication == Some(replication),
    {
        Service { db, replication: Some(replication) }
    }

    fn check_leader(&self) -> (res: Result<(), ServiceError>)
        requires
            self.wf(),
        ensures
            res is Ok <==> self.takes_writes(),
            res is Err ==> res == Err::<(), ServiceError>(self.not_leader_error()),
    {
        match &self.replication {
            None => Ok(()),
            Some(r) => r.leader_or_err(),
        }
    }

    /// Records `op`: through the replication log on a replicated node, directly otherwise.
    fn record(&mut self, op: DatabaseOperation)
        requires
            old(self).wf(),
            old(self).log_has_room(),
        ensures
            final(self).wf(),
            final(self).db.model() == crate::database::apply_model(old(self).db.model(), op),
            old(self).db.consistent() && old(self).db.admissible(op) ==> final(self).db.consistent(),
            logged(old(self).replication, final(self).replication, op),
    {
        match &mut self.replication {
            None => {
                self.db.apply(op);
            },
            Some(r) => {
                r.add_entry(op, &mut self.db);
            },
        }
    }

    fn user_info(id: u128, info: &FullUserInfo) -> (res: UserInfo)
        ensures
            describes(res, id, info@),
    {
        UserInfo {
            loginname: info.loginname.clone(),
            uuid: id,
            real_name: crate::user::clone_opt_string(&info.real_name),
        }
    }

    /// Looks a user up by login name.
    pub fn lookup(&self, loginname: String) -> (res: Result<Option<UserInfo>, ServiceError>)
        requires
            self.wf(),
            self.db.resolves(loginname@),
        ensures
            res matches Ok(found) && (found is Some <==> self.db.names().contains_key(loginname@))
                && (found matches Some(info) ==> describes(
                info,
                self.db.names()[loginname@],
                self.db.users()[self.db.names()[loginname@]],
            )),
    {
        match self.db.get_by_loginname(loginname.as_str()) {
            None => Ok(None),
            Some((id, info)) => Ok(Some(Self::user_info(id, info))),
        }
    }

    /// Looks a user up by id.
    pub fn reverse_lookup(&self, uuid: u128) -> (res: Result<Option<UserInfo>, ServiceError>)
        requires
            self.wf(),
        ensures
            res matches Ok(found) && (found is Some <==> self.db.users().contains_key(uuid)) && (
            found matches Some(info) ==> describes(info, uuid, self.db.users()[uuid])),
    {
        match self.db.get_by_id(uuid) {
            None => Ok(None),
            Some(info) => Ok(Some(Self::user_info(uuid, info))),
        }
    }
}


/// The replication state `after` is `before` with one more log entry, in the
/// current term, inserting the user `rec` under `id` (both absent on a standalone node).
pub open spec fn logged_insert(
    before: Option<ReplicationState>,
    after: Option<ReplicationState>,
    id: u128,
    rec: UserRecord,
) -> bool {
    match before {
        None => after is None,
        Some(r) => match after {
            None => false,
            Some(r2) => {
                &&& r2.log@.len() == r.log@.len() + 1
                &&& r2.log@.drop_last() == r.log@
                &&& r2.log@.last().term == r.current_term.id
                &&& match r2.log@.last().operation {
                    DatabaseOperation::Insert(lid, linfo) => lid == id && linfo@ == rec,
                    _ => false,
                }
                &&& r2 == (ReplicationState { log: r2.log, ..r })
            },
        },
    }
}

/// The replication state `after` is `before` with the entry of `op` appended in the
/// current term (both absent on a standalone node).
pub open spec fn logged(before: Option<ReplicationState>, after: Option<ReplicationState>, op: DatabaseOperation) -> bool {
    match before {
        None => after is None,
        Some(r) => match after {
            None => false,
            Some(r2) => r2.log@ == r.log@.push(ReplicationLogEntry { term: r.current_term.id, operation: op })
                && r2 == (ReplicationState { log: r2.log, ..r }),
        },
    }
}

/// The given password as an optional string slice.
fn given_password(password: &Option<String>) -> (res: Option<&str>)
    ensures
        opt_str_chars(res) == opt_chars(*password),
{
    match password {
        Some(p) => Some(p.as_str()),
        None => None,
    }
}

impl Service {
    /// Creates a user with the given login name, real name and (hashed) password and
    /// answers its new random id. Refused by a replicated node that is not the
    /// leader, and when the login name is in use; fails if hashing fails.
    pub fn create(
        &mut self,
        loginname: String,
        real_name: Option<String>,
        password: Option<String>,
    ) -> (res: Result<u128, ServiceError>)
        requires
            old(self).wf(),
            old(self).takes_writes() ==> old(self).log_has_room(),
        ensures
            final(self).wf(),
            res is Err ==> *final(self) == *old(self),
            !old(self).takes_writes() ==> res == Err::<u128, ServiceError>(
                old(self).not_leader_error(),
            ),
            old(self).takes_writes() && old(self).db.names().contains_key(loginname@) ==> res is Err,
            old(self).takes_writes() && password is None ==> (res is Ok <==> !old(self).db.names().contains_key(loginname@)),
            res == Err::<u128, ServiceError>(ServiceError::LoginnameConflict) ==> old(self).db.names().contains_key(loginname@),
            res == Err::<u128, ServiceError>(old(self).not_leader_error()) ==> !old(self).takes_writes(),
            old(self).takes_writes() && old(self).db.names().contains_key(loginname@) && res
                != Err::<u128, ServiceError>(ServiceError::Internal) ==> res == Err::<u128, ServiceError>(
                ServiceError::LoginnameConflict,
            ),
            res == Err::<u128, ServiceError>(ServiceError::Internal) ==> password is Some,
            res is Err ==> res == Err::<u128, ServiceError>(ServiceError::LoginnameConflict)
                || res == Err::<u128, ServiceError>(ServiceError::Internal) || res == Err::<
                u128,
                ServiceError,
            >(old(self).not_leader_error()),
            res matches Ok(id) ==> {
                let rec = final(self).db.users()[id];
                &&& old(self).takes_writes()
                &&& !old(self).db.users().contains_key(id)
                &&& crate::database::is_v4_id(id)
                &&& rec.loginname == loginname@
                &&& rec.real_name == opt_chars(real_name)
                &&& password is None ==> rec.password_hash is None
                &&& password matches Some(p) ==> (rec.password_hash matches Some(h)
                    && verify_accepts(p@, h))
                &&& final(self).db.users() == old(self).db.users().insert(id, rec)
                &&& final(self).db.names() == old(self).db.names().insert(loginname@, id)
                &&& old(self).db.consistent() ==> final(self).db.consistent()
                &&& logged_insert(old(self).replication, final(self).replication, id, rec)
            },
    {
        if let Err(e) = self.check_leader() {
            return Err(e);
        }
        let hashed = match password {
            None => Ok(None),
            Some(p) => match hash_password(p.as_str()) {
                Ok(h) => Ok(Some(h)),
                Err(e) => Err(e),
            },
        };
        self.insert_user(loginname, real_name, hashed)
    }

    /// Creates a user from its login name, real name and the outcome of hashing its
    /// password (`Ok(None)` for no password): a failed hash is an internal error, a
    /// login name in use a conflict; otherwise the user is stored under a new random
    /// id, which is answered.
    pub fn insert_user(
        &mut self,
        loginname: String,
        real_name: Option<String>,
        hashed: Result<Option<String>, bcrypt::BcryptError>,
    ) -> (res: Result<u128, ServiceError>)
        requires
            old(self).wf(),
            old(self).takes_writes() ==> old(self).log_has_room(),
        ensures
            final(self).wf(),
            res is Err ==> *final(self) == *old(self),
            !old(self).takes_writes() ==> res == Err::<u128, ServiceError>(
                old(self).not_leader_error(),
            ),
            old(self).takes_writes() && hashed is Err ==> res == Err::<u128, ServiceError>(
                ServiceError::Internal,
            ),
            old(self).takes_writes() && hashed is Ok && old(self).db.names().contains_key(
                loginname@,
            ) ==> res == Err::<u128, ServiceError>(ServiceError::LoginnameConflict),
            old(self).takes_writes() && hashed is Ok && !old(self).db.names().contains_key(
                loginname@,
            ) ==> res is Ok,
            res matches Ok(id) ==> {
                let rec = UserRecord {
                    loginname: loginname@,
                    real_name: opt_chars(real_name),
                    password_hash: opt_chars(hashed->Ok_0),
                };
                &&& !old(self).db.users().contains_key(id)
                &&& crate::database::is_v4_id(id)
                &&& final(self).db.users() == old(self).db.users().insert(id, rec)
                &&& final(self).db.names() == old(self).db.names().insert(loginname@, id)
                &&& old(self).db.consistent() ==> final(self).db.consistent()
                &&& logged_insert(old(self).replication, final(self).replication, id, rec)
            },
    {
        if let Err(e) = self.check_leader() {
            return Err(e);
        }
        let password_hash = match hashed {
            Ok(h) => h,
            Err(_) => {
                return Err(ServiceError::Internal);
            },
        };
        if self.db.contains_loginname(loginname.as_str()) {
            return Err(ServiceError::LoginnameConflict);
        }
        let id = self.db.fresh_id();
        let info = FullUserInfo { loginname, real_name, password_hash };
        let ghost rec = info@;
        self.record(DatabaseOperation::Insert(id, info));
        proof {
            assert(self.db.users()[id] == rec);
            match old(self).replication {
                Some(r) => {
                    let r2 = self.replication->0;
                    assert(r2.log@.drop_last() =~= r.log@);
                },
                None => {},
            }
        }
        Ok(id)
    }
}


/// What the service answers to a password-checked change of the user named
/// `loginname`, given the outcome `check` of checking the password; `Ok` means the
/// change goes ahead.
pub open spec fn checked_change_result(check: Result<bool, bcrypt::BcryptError>) -> Result<(), ServiceError> {
    match check {
        Err(_) => Err(ServiceError::Internal),
        Ok(false) => Err(ServiceError::IncorrectPassword),
        Ok(true) => Ok(()),
    }
}

impl Service {
    /// The id of the user named `loginname` and whether the password `password`
    /// passes for it: the common first steps of `modify` and `delete`.
    fn authorize(&self, loginname: &String, password: &Option<String>) -> (res: Result<
        u128,
        ServiceError,
    >)
        requires
            self.wf(),
            self.takes_writes() ==> self.db.resolves(loginname@),
        ensures
            !self.takes_writes() ==> res == Err::<u128, ServiceError>(self.not_leader_error()),
            self.takes_writes() && !self.db.names().contains_key(loginname@) ==> res == Err::<
                u128,
                ServiceError,
            >(ServiceError::NoSuchLoginname),
            self.takes_writes() && self.db.names().contains_key(loginname@) ==> {
                let id = self.db.names()[loginname@];
                let check = password_check_result(
                    opt_chars(*password),
                    self.db.users()[id].password_hash,
                );
                match checked_change_result(check) {
                    Ok(_) => res == Ok::<u128, ServiceError>(id) && self.db.users().contains_key(id),
                    Err(e) => res == Err::<u128, ServiceError>(e),
                }
            },
    {
        if let Err(e) = self.check_leader() {
            return Err(e);
        }
        match self.db.get_by_loginname(loginname.as_str()) {
            None => Err(ServiceError::NoSuchLoginname),
            Some((id, info)) => match check_password(given_password(password), &info.password_hash) {
                Err(_) => Err(ServiceError::Internal),
                Ok(false) => Err(ServiceError::IncorrectPassword),
                Ok(true) => Ok(id),
            },
        }
    }

    /// Renames the user `oldloginname` to `newloginname` if the password passes.
    /// Refused by a replicated node that is not the leader, for an unknown name, a
    /// wrong or missing password, and a new name that is in use (the old one included).
    pub fn modify(&mut self, oldloginname: String, newloginname: String, password: Option<String>) -> (res:
        Result<(), ServiceError>)
        requires
            old(self).wf(),
            old(self).takes_writes() ==> old(self).log_has_room(),
            old(self).takes_writes() ==> old(self).db.resolves(oldloginname@),
        ensures
            final(self).wf(),
            res is Err ==> *final(self) == *old(self),
            !old(self).takes_writes() ==> res == Err::<(), ServiceError>(old(self).not_leader_error()),
            old(self).takes_writes() && !old(self).db.names().contains_key(oldloginname@) ==> res
                == Err::<(), ServiceError>(ServiceError::NoSuchLoginname),
            old(self).takes_writes() && old(self).db.names().contains_key(oldloginname@) ==> {
                let id = old(self).db.names()[oldloginname@];
                let check = password_check_result(
                    opt_chars(password),
                    old(self).db.users()[id].password_hash,
                );
                let op = DatabaseOperation::ChangeLoginname(id, newloginname);
                &&& checked_change_result(check) is Err ==> res == checked_change_result(check)
                &&& checked_change_result(check) is Ok && old(self).db.names().contains_key(
                    newloginname@,
                ) ==> res == Err::<(), ServiceError>(ServiceError::LoginnameConflict)
                &&& checked_change_result(check) is Ok && !old(self).db.names().contains_key(
                    newloginname@,
                ) ==> {
                    &&& res is Ok
                    &&& final(self).db.model() == crate::database::apply_model(old(self).db.model(), op)
                    &&& crate::database::renames_only(
                        old(self).db.users(),
                        final(self).db.users(),
                        id,
                        newloginname@,
                    )
                    &&& old(self).db.consistent() ==> final(self).db.consistent()
                    &&& logged(old(self).replication, final(self).replication, op)
                }
            },
    {
        let id = match self.authorize(&oldloginname, &password) {
            Ok(id) => id,
            Err(e) => {
                return Err(e);
            },
        };
        if self.db.contains_loginname(newloginname.as_str()) {
            return Err(ServiceError::LoginnameConflict);
        }
        proof {
            crate::database::law_rename_keeps_the_rest(self.db.model(), id, newloginname);
        }
        self.record(DatabaseOperation::ChangeLoginname(id, newloginname));
        Ok(())
    }

    /// Deletes the user `loginname` if the password passes. Refused by a replicated
    /// node that is not the leader, for an unknown name and a wrong or missing password.
    pub fn delete(&mut self, loginname: String, password: Option<String>) -> (res: Result<
        (),
        ServiceError,
    >)
        requires
            old(self).wf(),
            old(self).takes_writes() ==> old(self).log_has_room(),
            old(self).takes_writes() ==> old(self).db.resolves(loginname@),
        ensures
            final(self).wf(),
            res is Err ==> *final(self) == *old(self),
            !old(self).takes_writes() ==> res == Err::<(), ServiceError>(old(self).not_leader_error()),
            old(self).takes_writes() && !old(self).db.names().contains_key(loginname@) ==> res
                == Err::<(), ServiceError>(ServiceError::NoSuchLoginname),
            old(self).takes_writes() && old(self).db.names().contains_key(loginname@) ==> {
                let id = old(self).db.names()[loginname@];
                let check = password_check_result(
                    opt_chars(password),
                    old(self).db.users()[id].password_hash,
                );
                let op = DatabaseOperation::Delete(id);
                &&& checked_change_result(check) is Err ==> res == checked_change_result(check)
                &&& checked_change_result(check) is Ok ==> {
                    &&& res is Ok
                    &&& final(self).db.model() == crate::database::apply_model(old(self).db.model(), op)
                    &&& old(self).db.consistent() ==> final(self).db.consistent()
                    &&& logged(old(self).replication, final(self).replication, op)
                }
            },
    {
        let id = match self.authorize(&loginname, &password) {
            Ok(id) => id,
            Err(e) => {
                return Err(e);
            },
        };
        self.record(DatabaseOperation::Delete(id));
        Ok(())
    }

    /// The login names of all users: one per user, in the order in which the
    /// database lists its users.
    pub fn get_names(&self) -> (res: Result<Vec<String>, ServiceError>)
        requires
            self.wf(),
        ensures
            res matches Ok(names) && exists|s: Seq<(u128, UserRecord)>|
                #![trigger lists_users(s, self.db.users())]
                lists_users(s, self.db.users()) && names@.len() == s.len() && forall|i: int|
                    0 <= i < names@.len() ==> #[trigger] names@[i]@ == s[i].1.loginname,
    {
        let items = self.db.iter();
        let ghost s = deref_pairs(items@);
        let mut names: Vec<String> = Vec::new();
        let mut i: usize = 0;
        while i < items.len()
            invariant
                i <= items@.len(),
                s == deref_pairs(items@),
                names@.len() == i,
                forall|j: int| 0 <= j < i ==> #[trigger] names@[j]@ == s[j].1.loginname,
            decreases items@.len() - i,
        {
            names.push(items[i].1.loginname.clone());
            i = i + 1;
        }
        assert(lists_users(s, self.db.users()));
        Ok(names)
    }

    /// The ids of all users: one per user, in the order in which the database lists
    /// its users.
    pub fn get_uuids(&self) -> (res: Result<Vec<u128>, ServiceError>)
        requires
            self.wf(),
        ensures
            res matches Ok(ids) && exists|s: Seq<(u128, UserRecord)>|
                #![trigger lists_users(s, self.db.users())]
                lists_users(s, self.db.users()) && ids@.len() == s.len() && forall|i: int|
                    0 <= i < ids@.len() ==> #[trigger] ids@[i] == s[i].0,
    {
        let items = self.db.iter();
        let ghost s = deref_pairs(items@);
        let mut ids: Vec<u128> = Vec::new();
        let mut i: usize = 0;
        while i < items.len()
            invariant
                i <= items@.len(),
                s == deref_pairs(items@),
                ids@.len() == i,
                forall|j: int| 0 <= j < i ==> #[trigger] ids@[j] == s[j].0,
            decreases items@.len() - i,
        {
            ids.push(*items[i].0);
            i = i + 1;
        }
        assert(lists_users(s, self.db.users()));
        Ok(ids)
    }

    /// Login name, id and real name of all users: one per user, in the order in
    /// which the database lists its users.
    pub fn get_all(&self) -> (res: Result<Vec<UserInfo>, ServiceError>)
        requires
            self.wf(),
        ensures
            res matches Ok(all) && exists|s: Seq<(u128, UserRecord)>|
                #![trigger lists_users(s, self.db.users())]
                lists_users(s, self.db.users()) && all@.len() == s.len() && forall|i: int|
                    0 <= i < all@.len() ==> describes(#[trigger] all@[i], s[i].0, s[i].1),
    {
        let items = self.db.iter();
        let ghost s = deref_pairs(items@);
        let mut all: Vec<UserInfo> = Vec::new();
        let mut i: usize = 0;
        while i < items.len()
            invariant
                i <= items@.len(),
                s == deref_pairs(items@),
                all@.len() == i,
                forall|j: int| 0 <= j < i ==> describes(#[trigger] all@[j], s[j].0, s[j].1),
            decreases items@.len() - i,
        {
            all.push(Self::user_info(*items[i].0, items[i].1));
            i = i + 1;
        }
        assert(lists_users(s, self.db.users()));
        Ok(all)
    }
}

} // verus!
