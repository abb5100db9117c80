//! The identity database: users by id, and an index from login names to ids.
use vstd::prelude::*;
use crate::keyed::{
    has_key, keys_unique, lemma_absent, lemma_empty, lemma_index, lemma_push, lemma_remove, lemma_update,
    lemma_keys_cover_range, seq_to_map,
};
use crate::user::{DatabaseOperation, FullUserInfo, InsertError, LoadError, UserRecord};
use std::collections::HashMap;
use vstd::std_specs::hash::spec_hash_map_iter;
use vstd::std_specs::iter::IteratorSpec;

verus! {

broadcast use vstd::std_specs::hash::group_hash_axioms;

/// Draws a random version-4 UUID and gives it as a 128-bit integer.
/// Calls `uuid::Uuid::new_v4` (then `as_u128`). The contract states only the
/// version and variant bits that every v4 UUID carries; the rest is random.
#[verifier::external_body]
fn new_v4_id() -> (id: u128)
    ensures
        is_v4_id(id),
{
    uuid::Uuid::new_v4().as_u128()
}

/// `id` carries the version (4) and variant (binary 10) bits of a random UUID.
pub open spec fn is_v4_id(id: u128) -> bool {
    (id >> 76u128) & 0xfu128 == 4 && (id >> 62u128) & 0x3u128 == 2
}

/// The `c`-th id of version-4 shape: the low 62 bits of `c` fill bits 0 to 61,
/// its next bits fill bits 64 and up, and the version and variant bits are set.
pub open spec fn v4_candidate(c: u128) -> u128 {
    (c & 0x3fff_ffff_ffff_ffffu128) | ((c >> 62u128) << 64u128) | (4u128 << 76u128) | (2u128
        << 62u128)
}

/// Below 2^66, distinct indices give distinct ids of version-4 shape.
proof fn lemma_v4_candidate(a: u128, b: u128)
    requires
        a < 0x4_0000_0000_0000_0000u128,
        b < 0x4_0000_0000_0000_0000u128,
    ensures
        is_v4_id(v4_candidate(a)),
        v4_candidate(a) == v4_candidate(b) ==> a == b,
{
    assert(is_v4_id(v4_candidate(a))) by (bit_vector)
        requires
            a < 0x4_0000_0000_0000_0000u128,
    ;
    assert(v4_candidate(a) == v4_candidate(b) ==> a == b) by (bit_vector)
        requires
            a < 0x4_0000_0000_0000_0000u128,
            b < 0x4_0000_0000_0000_0000u128,
    ;
}

/// Computes `v4_candidate(c)`.
fn make_v4_candidate(c: u128) -> (id: u128)
    requires
        c < 0x4_0000_0000_0000_0000u128,
    ensures
        id == v4_candidate(c),
        is_v4_id(id),
{
    proof {
        lemma_v4_candidate(c, c);
    }
    (c & 0x3fff_ffff_ffff_ffffu128) | ((c >> 62u128) << 64u128) | (4u128 << 76u128) | (2u128 << 62u128)
}

/// Structure for the database where user information is stored.
pub struct Database {
    id_map: HashMap<u128, FullUserInfo>,
    name_map: Vec<(String, u128)>,
}

/// The pairs of a table of users, as plain values.
pub open spec fn user_pairs(v: Seq<(u128, FullUserInfo)>) -> Seq<(u128, UserRecord)> {
    v.map_values(|e: (u128, FullUserInfo)| (e.0, e.1@))
}

/// `s` lists the users of `m`: each exactly once, in some order.
pub open spec fn lists_users(s: Seq<(u128, UserRecord)>, m: Map<u128, UserRecord>) -> bool {
    keys_unique(s) && seq_to_map(s) == m
}

/// The plain values of a list of pairs of references to ids and users.
pub open spec fn deref_pairs(items: Seq<(&u128, &FullUserInfo)>) -> Seq<(u128, UserRecord)> {
    items.map_values(|e: (&u128, &FullUserInfo)| (*e.0, e.1@))
}

/// The two tables of a database as plain maps.
pub struct DbModel {
    pub users: Map<u128, UserRecord>,
    pub names: Map<Seq<char>, u128>,
}

/// What applying one logged operation does to the two tables.
pub open spec fn apply_model(m: DbModel, op: DatabaseOperation) -> DbModel {
    match op {
        DatabaseOperation::Insert(id, info) => DbModel {
            users: m.users.insert(id, info@),
            names: m.names.insert(info.loginname@, id),
        },
        DatabaseOperation::Delete(id) => if m.users.contains_key(id) {
            DbModel { users: m.users.remove(id), names: m.names.remove(m.users[id].loginname) }
        } else {
            m
        },
        DatabaseOperation::ChangeLoginname(id, name) => if m.users.contains_key(id) {
            DbModel {
                users: m.users.insert(id, UserRecord { loginname: name@, ..m.users[id] }),
                names: m.names.remove(m.users[id].loginname).insert(name@, id),
            }
        } else {
            m
        },
    }
}

/// What applying a sequence of logged operations, in order, does to the two tables.
pub open spec fn apply_model_all(m: DbModel, ops: Seq<DatabaseOperation>) -> DbModel
    decreases ops.len(),
{
    if ops.len() == 0 {
        m
    } else {
        apply_model(apply_model_all(m, ops.drop_last()), ops.last())
    }
}

/// The name index of `m` is exactly the inverse of its user table.
pub open spec fn model_consistent(m: DbModel) -> bool {
    &&& forall|id: u128| #[trigger]
        m.users.contains_key(id) ==> m.names.contains_key(m.users[id].loginname)
            && m.names[m.users[id].loginname] == id
    &&& forall|n: Seq<char>| #[trigger]
        m.names.contains_key(n) ==> m.users.contains_key(m.names[n]) && m.users[m.names[n]].loginname
            == n
}

/// Applying `op` to `m` cannot break consistency: an insert brings a new id and a
/// new name, a rename a name not in use.
pub open spec fn model_admissible(m: DbModel, op: DatabaseOperation) -> bool {
    match op {
        DatabaseOperation::Insert(id, info) => !m.users.contains_key(id) && !m.names.contains_key(
            info.loginname@,
        ),
        DatabaseOperation::Delete(_) => true,
        DatabaseOperation::ChangeLoginname(_, name) => !m.names.contains_key(name@),
    }
}

/// Each operation of `ops` is admissible where it is applied.
pub open spec fn all_admissible(m: DbModel, ops: Seq<DatabaseOperation>) -> bool
    decreases ops.len(),
{
    ops.len() == 0 || (all_admissible(m, ops.drop_last()) && model_admissible(
        apply_model_all(m, ops.drop_last()),
        ops.last(),
    ))
}

/// Applying an admissible operation keeps the name index the inverse of the user table.
pub proof fn law_apply_keeps_consistency(m: DbModel, op: DatabaseOperation)
    requires
        model_consistent(m),
        model_admissible(m, op),
    ensures
        model_consistent(apply_model(m, op)),
{
    let a = apply_model(m, op);
    match op {
        DatabaseOperation::Insert(id, info) => {},
        DatabaseOperation::Delete(id) => {
            if m.users.contains_key(id) {
                assert forall|n: Seq<char>| #[trigger] a.names.contains_key(n) implies a.users.contains_key(
                    a.names[n],
                ) && a.users[a.names[n]].loginname == n by {
                    assert(m.names[n] != id);
                }
            }
        },
        DatabaseOperation::ChangeLoginname(id, name) => {
            if m.users.contains_key(id) {
                assert forall|n: Seq<char>| #[trigger] a.names.contains_key(n) implies a.users.contains_key(
                    a.names[n],
                ) && a.users[a.names[n]].loginname == n by {
                    if n != name@ {
                        assert(m.names[n] != id);
                    }
                }
            }
        },
    }
}

/// Applying a run of operations, each admissible where it is applied, keeps the
/// name index the inverse of the user table.
pub proof fn law_apply_all_keeps_consistency(m: DbModel, ops: Seq<DatabaseOperation>)
    requires
        model_consistent(m),
        all_admissible(m, ops),
    ensures
        model_consistent(apply_model_all(m, ops)),
    decreases ops.len(),
{
    if ops.len() > 0 {
        law_apply_all_keeps_consistency(m, ops.drop_last());
        law_apply_keeps_consistency(apply_model_all(m, ops.drop_last()), ops.last());
    }
}

/// Replaying a log in two parts gives what replaying it whole gives: a follower
/// that applies entries in batches reaches the state of a leader that applied them
/// one by one.
pub proof fn law_log_replay_splits(m: DbModel, first: Seq<DatabaseOperation>, rest: Seq<DatabaseOperation>)
    ensures
        apply_model_all(apply_model_all(m, first), rest) == apply_model_all(m, first + rest),
    decreases rest.len(),
{
    if rest.len() > 0 {
        law_log_replay_splits(m, first, rest.drop_last());
        assert((first + rest).drop_last() =~= first + rest.drop_last());
        assert((first + rest).last() == rest.last());
    } else {
        assert(first + rest =~= first);
    }
}

/// A read after an insert gives back what was inserted, by id and by login name.
pub proof fn law_read_after_insert(m: DbModel, id: u128, info: FullUserInfo)
    ensures
        ({
            let a = apply_model(m, DatabaseOperation::Insert(id, info));
            &&& a.users.contains_key(id)
            &&& a.users[id] == info@
            &&& a.names.contains_key(info.loginname@)
            &&& a.names[info.loginname@] == id
        }),
{
}

/// `after` is `before` with the user `id` given the login name `name`, and nothing
/// else changed: that user keeps its real name and password hash, and every other
/// user stays as it was.
pub open spec fn renames_only(
    before: Map<u128, UserRecord>,
    after: Map<u128, UserRecord>,
    id: u128,
    name: Seq<char>,
) -> bool {
    &&& after.contains_key(id)
    &&& after[id].loginname == name
    &&& after[id].real_name == before[id].real_name
    &&& after[id].password_hash == before[id].password_hash
    &&& forall|k: u128|
        k != id ==> (#[trigger] after.contains_key(k) == before.contains_key(k) && after[k]
            == before[k])
}

/// A rename changes only the login name: the user keeps its real name and
/// password hash, and every other user stays as it was.
pub proof fn law_rename_keeps_the_rest(m: DbModel, id: u128, name: String)
    requires
        m.users.contains_key(id),
    ensures
        renames_only(
            m.users,
            apply_model(m, DatabaseOperation::ChangeLoginname(id, name)).users,
            id,
            name@,
        ),
{
}

/// After a delete, neither the id nor the deleted user's login name leads anywhere.
pub proof fn law_delete_forgets(m: DbModel, id: u128)
    requires
        model_consistent(m),
    ensures
        !apply_model(m, DatabaseOperation::Delete(id)).users.contains_key(id),
        m.users.contains_key(id) ==> !apply_model(
            m,
            DatabaseOperation::Delete(id),
        ).names.contains_key(m.users[id].loginname),
{
}

/// After a rename, the new name leads to the user and the old one (if different) nowhere.
pub proof fn law_read_after_rename(m: DbModel, id: u128, name: String)
    requires
        model_consistent(m),
        m.users.contains_key(id),
        !m.names.contains_key(name@),
    ensures
        ({
            let a = apply_model(m, DatabaseOperation::ChangeLoginname(id, name));
            &&& a.users[id].loginname == name@
            &&& a.names[name@] == id
            &&& !a.names.contains_key(m.users[id].loginname)
        }),
{
}

/// No two users of `s` share a login name.
pub open spec fn loginnames_unique(s: Seq<(u128, UserRecord)>) -> bool {
    forall|i: int, j: int|
        0 <= i < s.len() && 0 <= j < s.len() && #[trigger] s[i].1.loginname
            == #[trigger] s[j].1.loginname ==> i == j
}

impl Database {
    /// Users by id.
    pub closed spec fn users(&self) -> Map<u128, UserRecord> {
        self.id_map@.map_values(|i: FullUserInfo| i@)
    }

    /// The login-name index in its own order.
    pub closed spec fn name_entries(&self) -> Seq<(Seq<char>, u128)> {
        self.name_map@.map_values(|e: (String, u128)| (e.0@, e.1))
    }

    /// Ids by login name.
    pub open spec fn names(&self) -> Map<Seq<char>, u128> {
        seq_to_map(self.name_entries())
    }

    /// Both tables as plain maps.
    pub open spec fn model(&self) -> DbModel {
        DbModel { users: self.users(), names: self.names() }
    }

    /// The login-name index holds no name twice.
    pub closed spec fn wf(&self) -> bool {
        keys_unique(self.name_entries())
    }

    /// The login-name index is exactly the inverse of the user table.
    pub open spec fn consistent(&self) -> bool {
        model_consistent(self.model())
    }

    /// Looking up `n` in the index leads to a stored user, if `n` is indexed at all.
    pub open spec fn resolves(&self, n: Seq<char>) -> bool {
        self.names().contains_key(n) ==> self.users().contains_key(self.names()[n])
    }

    fn find_name(&self, name: &String) -> (r: Option<usize>)
        requires
            self.wf(),
        ensures
            match r {
                Some(i) => i < self.name_map@.len() && self.name_map@[i as int].0@ == name@
                    && self.names().contains_key(name@) && self.names()[name@]
                    == self.name_map@[i as int].1,
                None => !self.names().contains_key(name@),
            },
    {
        let mut i: usize = 0;
        while i < self.name_map.len()
            invariant
                self.wf(),
                i <= self.name_map@.len(),
                forall|j: int| 0 <= j < i ==> self.name_map@[j].0@ != name@,
            decreases self.name_map@.len() - i,
        {
            if self.name_map[i].0 == *name {
                proof {
                    lemma_index(self.name_entries(), i as int);
                }
                return Some(i);
            }
            i = i + 1;
        }
        proof {
            assert forall|j: int| 0 <= j < self.name_entries().len() implies #[trigger] self.name_entries()[j].0
                != name@ by {
                assert(self.name_entries()[j].0 == self.name_map@[j].0@);
            }
            lemma_absent(self.name_entries(), name@);
        }
        None
    }

    /// Whether a user is stored under `id`.
    fn has_id(&self, id: u128) -> (res: bool)
        ensures
            res == self.users().contains_key(id),
    {
        self.id_map.contains_key(&id)
    }

    /// Sets the user stored under `id`.
    fn put_user(&mut self, id: u128, info: FullUserInfo)
        requires
            old(self).wf(),
        ensures
            final(self).wf(),
            final(self).users() == old(self).users().insert(id, info@),
            final(self).name_entries() == old(self).name_entries(),
    {
        self.id_map.insert(id, info);
        assert(self.users() =~= old(self).users().insert(id, info@));
    }

    /// Removes the user stored under `id`, if any.
    fn drop_user(&mut self, id: u128)
        requires
            old(self).wf(),
        ensures
            final(self).wf(),
            final(self).users() == old(self).users().remove(id),
            final(self).name_entries() == old(self).name_entries(),
    {
        self.id_map.remove(&id);
        assert(self.users() =~= old(self).users().remove(id));
    }

    /// Points `name` at `id` in the index, in place if the name is present, else at the end.
    fn put_name(&mut self, name: String, id: u128)
        requires
            old(self).wf(),
        ensures
            final(self).wf(),
            final(self).names() == old(self).names().insert(name@, id),
            final(self).users() == old(self).users(),
    {
        let ghost n = name@;
        match self.find_name(&name) {
            Some(i) => {
                proof {
                    lemma_update(self.name_entries(), i as int, id);
                }
                self.name_map.set(i, (name, id));
                assert(self.name_entries() =~= old(self).name_entries().update(i as int, (n, id)));
            },
            None => {
                proof {
                    assert(!has_key(self.name_entries(), n));
                    lemma_push(self.name_entries(), n, id);
                }
                self.name_map.push((name, id));
                assert(self.name_entries() =~= old(self).name_entries().push((n, id)));
            },
        }
    }

    /// Removes `name` from the index, if present.
    fn drop_name(&mut self, name: &String)
        requires
            old(self).wf(),
        ensures
            final(self).wf(),
            final(self).names() == old(self).names().remove(name@),
            final(self).users() == old(self).users(),
    {
        match self.find_name(name) {
            Some(i) => {
                proof {
                    lemma_remove(self.name_entries(), i as int);
                }
                self.name_map.remove(i);
                assert(self.name_entries() =~= old(self).name_entries().remove(i as int));
            },
            None => {
                assert(old(self).names().remove(name@) =~= old(self).names());
            },
        }
    }
}


impl Database {
    /// An empty database.
    pub fn new() -> (db: Self)
        ensures
            db.wf(),
            db.consistent(),
            db.users() == Map::<u128, UserRecord>::empty(),
            db.names() == Map::<Seq<char>, u128>::empty(),
    {
        let db = Database { id_map: HashMap::new(), name_map: Vec::new() };
        proof {
            assert(db.name_entries() =~= Seq::<(Seq<char>, u128)>::empty());
            lemma_empty(db.name_entries());
            assert(db.users() =~= Map::<u128, UserRecord>::empty());
        }
        db
    }

    /// An id of version-4 shape that no stored user has: the first free one among
    /// the ids `v4_candidate(0)`, `v4_candidate(1)`, ... up to the number of users.
    fn unused_id(&self) -> (id: u128)
        requires
            self.wf(),
        ensures
            !self.users().contains_key(id),
            is_v4_id(id),
    {
        let listed = self.save();
        let n = listed.len();
        let mut c: u128 = 0;
        while c <= n as u128
            invariant
                self.wf(),
                n == listed@.len(),
                lists_users(user_pairs(listed@), self.users()),
                c <= n + 1,
                forall|x: u128| x < c ==> #[trigger] self.users().contains_key(v4_candidate(x)),
            decreases n + 1 - c,
        {
            let id = make_v4_candidate(c);
            if !self.has_id(id) {
                return id;
            }
            c = c + 1;
        }
        proof {
            let s = user_pairs(listed@);
            let f = |x: u128| v4_candidate(x);
            assert forall|x: u128| x < n + 1 implies #[trigger] has_key(s, f(x)) by {
                assert(self.users().contains_key(v4_candidate(x)));
                assert(seq_to_map(s).contains_key(v4_candidate(x)));
            }
            assert forall|x: u128, y: u128| x < n + 1 && y < n + 1 && #[trigger] f(x) == #[trigger] f(
                y,
            ) implies x == y by {
                lemma_v4_candidate(x, y);
            }
            lemma_keys_cover_range(s, (n + 1) as nat, f);
        }
        make_v4_candidate(0)
    }

    /// A random v4 id that no stored user has.
    pub(crate) fn fresh_id(&self) -> (id: u128)
        requires
            self.wf(),
        ensures
            !self.users().contains_key(id),
            is_v4_id(id),
    {
        let mut tries: u64 = 0;
        while tries < u64::MAX
            invariant
                self.wf(),
            decreases u64::MAX - tries,
        {
            let id = new_v4_id();
            if !self.has_id(id) {
                return id;
            }
            tries = tries + 1;
        }
        self.unused_id()
    }

    /// Inserts a new user under a fresh random id and returns the id; fails when
    /// the login name is already in use.
    pub fn insert(&mut self, info: FullUserInfo) -> (res: Result<u128, InsertError>)
        requires
            old(self).wf(),
        ensures
            final(self).wf(),
            res is Err <==> old(self).names().contains_key(info.loginname@),
            res is Err ==> res == Err::<u128, InsertError>(InsertError::LoginnameConflict)
                && final(self).users() == old(self).users() && final(self).names() == old(
                self,
            ).names(),
            res matches Ok(id) ==> {
                &&& !old(self).users().contains_key(id)
                &&& is_v4_id(id)
                &&& final(self).users() == old(self).users().insert(id, info@)
                &&& final(self).names() == old(self).names().insert(info.loginname@, id)
            },
            old(self).consistent() ==> final(self).consistent(),
    {
        if self.find_name(&info.loginname).is_some() {
            return Err(InsertError::LoginnameConflict);
        }
        let id = self.fresh_id();
        let name = info.loginname.clone();
        self.put_name(name, id);
        self.put_user(id, info);
        Ok(id)
    }

    /// Removes the user with the given id, and its login name from the index.
    pub fn delete(&mut self, id: u128)
        requires
            old(self).wf(),
        ensures
            final(self).wf(),
            final(self).users() == old(self).users().remove(id),
            final(self).names() == (if old(self).users().contains_key(id) {
                old(self).names().remove(old(self).users()[id].loginname)
            } else {
                old(self).names()
            }),
            old(self).consistent() ==> final(self).consistent(),
    {
        match self.id_map.get(&id) {
            None => {
                assert(old(self).users().remove(id) =~= old(self).users());
            },
            Some(info) => {
                assert(info@ == self.users()[id]);
                let name = info.loginname.clone();
                self.drop_name(&name);
                self.drop_user(id);
                proof {
                    let o = old(self);
                    let f = *final(self);
                    if o.consistent() {
                        assert forall|n: Seq<char>| #[trigger] f.names().contains_key(n) implies f.users().contains_key(
                            f.names()[n],
                        ) && f.users()[f.names()[n]].loginname == n by {
                            assert(o.names()[n] != id);
                        }
                    }
                }
            },
        }
    }

    /// Gives the user with the given id a new login name; fails when the name is in use.
    /// (A free name for an absent id is a caller's error, left out here.)
    pub fn modify(&mut self, id: u128, newloginname: String) -> (res: Result<(), InsertError>)
        requires
            old(self).wf(),
            !old(self).names().contains_key(newloginname@) ==> old(self).users().contains_key(id),
        ensures
            final(self).wf(),
            res is Err <==> old(self).names().contains_key(newloginname@),
            res is Err ==> res == Err::<(), InsertError>(InsertError::LoginnameConflict)
                && final(self).users() == old(self).users() && final(self).names() == old(
                self,
            ).names(),
            res is Ok ==> {
                let old_rec = old(self).users()[id];
                let new_rec = UserRecord { loginname: newloginname@, ..old_rec };
                &&& final(self).users() == old(self).users().insert(id, new_rec)
                &&& final(self).names() == old(self).names().remove(old_rec.loginname).insert(
                    newloginname@,
                    id,
                )
            },
            old(self).consistent() ==> final(self).consistent(),
    {
        if self.find_name(&newloginname).is_some() {
            return Err(InsertError::LoginnameConflict);
        }
        self.rename(id, newloginname);
        Ok(())
    }

    /// Renames the user `id` (present) to `newloginname`, whatever the index holds.
    fn rename(&mut self, id: u128, newloginname: String)
        requires
            old(self).wf(),
            old(self).users().contains_key(id),
        ensures
            final(self).wf(),
            ({
                let old_rec = old(self).users()[id];
                let new_rec = UserRecord { loginname: newloginname@, ..old_rec };
                &&& final(self).users() == old(self).users().insert(id, new_rec)
                &&& final(self).names() == old(self).names().remove(old_rec.loginname).insert(
                    newloginname@,
                    id,
                )
            }),
            old(self).consistent() && !old(self).names().contains_key(newloginname@)
                ==> final(self).consistent(),
    {
        let mut info = match self.id_map.get(&id) {
            Some(info) => info.clone(),
            None => {
                proof {
                    assert(false);
                }
                return ;
            },
        };
        let old_name = info.loginname.clone();
        self.drop_name(&old_name);
        self.put_name(newloginname.clone(), id);
        info.loginname = newloginname;
        let ghost new_rec = info@;
        self.put_user(id, info);
        proof {
            let o = old(self);
            let f = *final(self);
            assert(new_rec == UserRecord { loginname: newloginname@, ..o.users()[id] });
            if o.consistent() && !o.names().contains_key(newloginname@) {
                assert forall|n: Seq<char>| #[trigger] f.names().contains_key(n) implies f.users().contains_key(
                    f.names()[n],
                ) && f.users()[f.names()[n]].loginname == n by {
                    if n != newloginname@ {
                        assert(o.names()[n] != id);
                    }
                }
            }
        }
    }

    /// The user with the given id, if any.
    pub fn get_by_id(&self, id: u128) -> (res: Option<&FullUserInfo>)
        requires
            self.wf(),
        ensures
            res is Some <==> self.users().contains_key(id),
            res matches Some(info) ==> info@ == self.users()[id],
    {
        self.id_map.get(&id)
    }

    /// The id and the user that the login name leads to, if any.
    pub fn get_by_loginname(&self, loginname: &str) -> (res: Option<(u128, &FullUserInfo)>)
        requires
            self.wf(),
            self.resolves(loginname@),
        ensures
            res is Some <==> self.names().contains_key(loginname@),
            res matches Some((id, info)) ==> id == self.names()[loginname@] && info@
                == self.users()[id],
    {
        let name = loginname.to_owned();
        match self.find_name(&name) {
            None => None,
            Some(j) => {
                let id = self.name_map[j].1;
                match self.id_map.get(&id) {
                    Some(info) => Some((id, info)),
                    None => {
                        proof {
                            assert(false);
                        }
                        None
                    },
                }
            },
        }
    }

    /// Whether the login name is indexed.
    pub fn contains_loginname(&self, loginname: &str) -> (res: bool)
        requires
            self.wf(),
        ensures
            res == self.names().contains_key(loginname@),
    {
        let name = loginname.to_owned();
        self.find_name(&name).is_some()
    }

    /// Whether a user with the given id is stored.
    pub fn contains_id(&self, id: u128) -> (res: bool)
        requires
            self.wf(),
        ensures
            res == self.users().contains_key(id),
    {
        self.has_id(id)
    }

    /// Whether looking the login name up would reach a stored user (or find nothing).
    pub fn loginname_resolves(&self, loginname: &str) -> (res: bool)
        requires
            self.wf(),
        ensures
            res == self.resolves(loginname@),
    {
        let name = loginname.to_owned();
        match self.find_name(&name) {
            None => true,
            Some(j) => self.has_id(self.name_map[j].1),
        }
    }
}


/// A saved copy of the user table, with the position in the replication log that it covers.
#[derive(Debug, PartialEq)]
pub struct Snapshot {
    pub last_included_index: u64,
    pub last_included_term: u32,
    pub id_map: Vec<(u128, FullUserInfo)>,
}

/// Copies a table of users pair by pair.
pub fn clone_user_pairs(v: &Vec<(u128, FullUserInfo)>) -> (res: Vec<(u128, FullUserInfo)>)
    ensures
        res@ == v@,
{
    let mut res: Vec<(u128, FullUserInfo)> = Vec::new();
    let mut i: usize = 0;
    while i < v.len()
        invariant
            i <= v@.len(),
            res@ == v@.subrange(0, i as int),
        decreases v@.len() - i,
    {
        res.push((v[i].0, v[i].1.clone()));
        i = i + 1;
        assert(res@ =~= v@.subrange(0, i as int));
    }
    assert(v@.subrange(0, v@.len() as int) =~= v@);
    res
}

impl Clone for Snapshot {
    fn clone(&self) -> (res: Self)
        ensures
            res.last_included_index == self.last_included_index,
            res.last_included_term == self.last_included_term,
            res.id_map@ == self.id_map@,
    {
        Snapshot {
            last_included_index: self.last_included_index,
            last_included_term: self.last_included_term,
            id_map: clone_user_pairs(&self.id_map),
        }
    }
}

/// Position of `name` in an index of login names, if present.
fn position_of_name(v: &Vec<(String, u128)>, name: &String) -> (r: Option<usize>)
    ensures
        match r {
            Some(i) => i < v@.len() && v@[i as int].0@ == name@,
            None => forall|j: int| 0 <= j < v@.len() ==> v@[j].0@ != name@,
        },
{
    let mut i: usize = 0;
    while i < v.len()
        invariant
            i <= v@.len(),
            forall|j: int| 0 <= j < i ==> v@[j].0@ != name@,
        decreases v@.len() - i,
    {
        if v[i].0 == *name {
            return Some(i);
        }
        i = i + 1;
    }
    None
}

/// The login-name index that a table of users calls for: each name to its user's id.
pub open spec fn name_pairs(s: Seq<(u128, UserRecord)>) -> Seq<(Seq<char>, u128)> {
    s.map_values(|e: (u128, UserRecord)| (e.1.loginname, e.0))
}

impl Database {
    /// Builds a database from a saved table of users; fails when two users share a login name.
    pub fn load(id_map: Vec<(u128, FullUserInfo)>) -> (res: Result<Self, LoadError>)
        requires
            keys_unique(user_pairs(id_map@)),
        ensures
            res is Ok <==> loginnames_unique(user_pairs(id_map@)),
            res is Err ==> res == Err::<Self, LoadError>(LoadError::Integrity),
            res matches Ok(db) ==> db.wf() && db.consistent() && db.users() == seq_to_map(
                user_pairs(id_map@),
            ),
    {
        let ghost s = user_pairs(id_map@);
        let mut name_map: Vec<(String, u128)> = Vec::new();
        let mut table: HashMap<u128, FullUserInfo> = HashMap::new();
        let mut i: usize = 0;
        proof {
            assert(s.subrange(0, 0) =~= Seq::<(u128, UserRecord)>::empty());
            lemma_empty(s.subrange(0, 0));
            assert(table@.map_values(|u: FullUserInfo| u@) =~= Map::<u128, UserRecord>::empty());
        }
        while i < id_map.len()
            invariant
                s == user_pairs(id_map@),
                keys_unique(s),
                i <= id_map@.len(),
                table@.map_values(|u: FullUserInfo| u@) == seq_to_map(s.subrange(0, i as int)),
                name_map@.map_values(|e: (String, u128)| (e.0@, e.1)) == name_pairs(
                    s.subrange(0, i as int),
                ),
                loginnames_unique(s.subrange(0, i as int)),
            decreases id_map@.len() - i,
        {
            let name = id_map[i].1.loginname.clone();
            let ghost pre = name_map@;
            if position_of_name(&name_map, &name).is_some() {
                proof {
                    let j = choose|j: int|
                        0 <= j < pre.len() && #[trigger] pre[j].0@ == name@;
                    assert(pre.map_values(|e: (String, u128)| (e.0@, e.1))[j].0 == name@);
                    assert(pre.map_values(|e: (String, u128)| (e.0@, e.1)).len() == pre.len());
                    assert(pre.len() == i);
                    assert(s.len() == id_map@.len());
                    assert(s.subrange(0, i as int)[j] == s[j]);
                    assert(name_pairs(s.subrange(0, i as int))[j].0 == s[j].1.loginname);
                    assert(s[i as int].1.loginname == s[j].1.loginname);
                }
                return Err(LoadError::Integrity);
            }
            name_map.push((name, id_map[i].0));
            let ghost pre_table = table@;
            table.insert(id_map[i].0, id_map[i].1.clone());
            proof {
                let sub = s.subrange(0, i as int);
                assert(keys_unique(sub));
                assert(!has_key(sub, s[i as int].0)) by {
                    if has_key(sub, s[i as int].0) {
                        let j = choose|j: int| 0 <= j < sub.len() && #[trigger] sub[j].0 == s[i as int].0;
                        assert(s[j].0 == s[i as int].0);
                    }
                }
                lemma_push(sub, s[i as int].0, s[i as int].1);
                assert(s.subrange(0, i + 1) =~= sub.push(s[i as int]));
                assert(table@.map_values(|u: FullUserInfo| u@) =~= pre_table.map_values(
                    |u: FullUserInfo| u@,
                ).insert(s[i as int].0, s[i as int].1));
                assert(s.subrange(0, i + 1) =~= s.subrange(0, i as int).push(s[i as int]));
                assert(s[i as int] == (id_map@[i as int].0, id_map@[i as int].1@));
                assert(name_map@ == pre.push((name, id_map@[i as int].0)));
                assert(pre.push((name, id_map@[i as int].0)).map_values(
                    |e: (String, u128)| (e.0@, e.1),
                ) =~= pre.map_values(|e: (String, u128)| (e.0@, e.1)).push(
                    (name@, id_map@[i as int].0),
                ));
                assert(name_pairs(s.subrange(0, i as int).push(s[i as int])) =~= name_pairs(
                    s.subrange(0, i as int),
                ).push((s[i as int].1.loginname, s[i as int].0)));
                assert(name_map@.map_values(|e: (String, u128)| (e.0@, e.1)) =~= name_pairs(
                    s.subrange(0, i + 1),
                ));
                assert forall|a: int, b: int|
                    0 <= a < i + 1 && 0 <= b < i + 1 && #[trigger] s.subrange(
                        0,
                        i + 1,
                    )[a].1.loginname == #[trigger] s.subrange(0, i + 1)[b].1.loginname implies a
                    == b by {
                    if a < i && b < i {
                        assert(s.subrange(0, i as int)[a] == s[a]);
                        assert(s.subrange(0, i as int)[b] == s[b]);
                    } else if a < i {
                        assert(pre.map_values(|e: (String, u128)| (e.0@, e.1))[a].0
                            == s[a].1.loginname);
                    } else if b < i {
                        assert(pre.map_values(|e: (String, u128)| (e.0@, e.1))[b].0
                            == s[b].1.loginname);
                    }
                }
            }
            i = i + 1;
        }
        let db = Database { id_map: table, name_map };
        proof {
            assert(s.subrange(0, s.len() as int) =~= s);
            assert(db.users() == seq_to_map(s));
            assert(db.name_entries() == name_pairs(s));
            assert forall|a: int, b: int|
                0 <= a < db.name_entries().len() && 0 <= b < db.name_entries().len()
                    && #[trigger] db.name_entries()[a].0 == #[trigger] db.name_entries()[b].0 implies a
                == b by {
                assert(s[a].1.loginname == s[b].1.loginname);
            }
            assert forall|id: u128| #[trigger] db.users().contains_key(id) implies db.names().contains_key(
                db.users()[id].loginname,
            ) && db.names()[db.users()[id].loginname] == id by {
                let k = choose|k: int| 0 <= k < s.len() && #[trigger] s[k].0 == id;
                lemma_index(s, k);
                lemma_index(db.name_entries(), k);
            }
            assert forall|n: Seq<char>| #[trigger] db.names().contains_key(n) implies db.users().contains_key(
                db.names()[n],
            ) && db.users()[db.names()[n]].loginname == n by {
                let k = choose|k: int|
                    0 <= k < db.name_entries().len() && #[trigger] db.name_entries()[k].0 == n;
                lemma_index(s, k);
                lemma_index(db.name_entries(), k);
            }
        }
        Ok(db)
    }

    /// Builds a database from the user table of a snapshot.
    pub fn load_from_snapshot(snapshot: Snapshot) -> (res: Result<Self, LoadError>)
        requires
            keys_unique(user_pairs(snapshot.id_map@)),
        ensures
            res is Ok <==> loginnames_unique(user_pairs(snapshot.id_map@)),
            res is Err ==> res == Err::<Self, LoadError>(LoadError::Integrity),
            res matches Ok(db) ==> db.wf() && db.consistent() && db.users() == seq_to_map(
                user_pairs(snapshot.id_map@),
            ),
    {
        Database::load(snapshot.id_map)
    }

    /// The user table, to be written out: every user once, in the order in which
    /// the table lists them.
    pub fn save(&self) -> (res: Vec<(u128, FullUserInfo)>)
        ensures
            lists_users(user_pairs(res@), self.users()),
    {
        let mut res: Vec<(u128, FullUserInfo)> = Vec::new();
        let ghost g = IteratorSpec::remaining(&spec_hash_map_iter(&self.id_map));
        for (k, v) in it: self.id_map.iter()
            invariant
                it.seq() == g,
                res@.len() == it.index(),
                forall|i: int|
                    0 <= i < it.index() ==> res@[i].0 == *it.seq()[i].0 && res@[i].1 == *it.seq()[i].1,
        {
            res.push((*k, v.clone()));
        }
        proof {
            assert(g.no_duplicates());
            lemma_listing(&self.id_map, g, user_pairs(res@), self.users());
        }
        res
    }

    /// All users, as pairs of references: every user once, in the order in which
    /// the table lists them.
    pub fn iter(&self) -> (res: Vec<(&u128, &FullUserInfo)>)
        ensures
            lists_users(deref_pairs(res@), self.users()),
    {
        let mut res: Vec<(&u128, &FullUserInfo)> = Vec::new();
        let ghost g = IteratorSpec::remaining(&spec_hash_map_iter(&self.id_map));
        for (k, v) in it: self.id_map.iter()
            invariant
                it.seq() == g,
                res@.len() == it.index(),
                forall|i: int|
                    0 <= i < it.index() ==> *res@[i].0 == *it.seq()[i].0 && *res@[i].1 == *it.seq()[i].1,
        {
            res.push((k, v));
        }
        proof {
            assert(g.no_duplicates());
            lemma_listing(&self.id_map, g, deref_pairs(res@), self.users());
        }
        res
    }

    /// Whether applying `op` keeps a consistent database consistent.
    pub open spec fn admissible(&self, op: DatabaseOperation) -> bool {
        model_admissible(self.model(), op)
    }

    /// Applies a logged operation: an insert overwrites both tables under its keys,
    /// a delete and a rename of an absent id change nothing.
    pub fn apply(&mut self, operation: DatabaseOperation)
        requires
            old(self).wf(),
        ensures
            final(self).wf(),
            final(self).model() == apply_model(old(self).model(), operation),
            old(self).consistent() && old(self).admissible(operation) ==> final(self).consistent(),
            match operation {
                DatabaseOperation::ChangeLoginname(id, name) => old(self).users().contains_key(id)
                    ==> renames_only(old(self).users(), final(self).users(), id, name@),
                _ => true,
            },
    {
        match operation {
            DatabaseOperation::Insert(id, info) => {
                let name = info.loginname.clone();
                self.put_name(name, id);
                self.put_user(id, info);
            },
            DatabaseOperation::Delete(id) => {
                self.delete(id);
                proof {
                    if !old(self).users().contains_key(id) {
                        assert(old(self).users().remove(id) =~= old(self).users());
                    }
                }
            },
            DatabaseOperation::ChangeLoginname(id, new_name) => {
                if self.has_id(id) {
                    self.rename(id, new_name);
                }
            },
        }
    }
}



/// The pairs that iterating a map of users yields, taken as plain values, list its
/// users: `g` is what iteration yields and `s` its plain values, pair by pair.
proof fn lemma_listing(
    m: &HashMap<u128, FullUserInfo>,
    g: Seq<(&u128, &FullUserInfo)>,
    s: Seq<(u128, UserRecord)>,
    users: Map<u128, UserRecord>,
)
    requires
        g == IteratorSpec::remaining(&spec_hash_map_iter(m)),
        g.no_duplicates(),
        users == m@.map_values(|i: FullUserInfo| i@),
        s.len() == g.len(),
        forall|i: int| 0 <= i < s.len() ==> #[trigger] s[i] == (*g[i].0, g[i].1@),
    ensures
        lists_users(s, users),
{
    assert forall|i: int, j: int|
        0 <= i < s.len() && 0 <= j < s.len() && #[trigger] s[i].0 == #[trigger] s[j].0 implies i
        == j by {
        assert(s[i] == (*g[i].0, g[i].1@));
        assert(s[j] == (*g[j].0, g[j].1@));
        assert(m@.contains_key(*g[i].0));
        assert(m@.contains_key(*g[j].0));
        assert(g[i] == g[j]);
    }
    assert forall|k: u128| #[trigger] seq_to_map(s).contains_key(k) == users.contains_key(k) by {
        if users.contains_key(k) {
            assert(g.contains((&k, &m@[k])));
            let i = choose|i: int| 0 <= i < g.len() && g[i] == (&k, &m@[k]);
            assert(s[i] == (*g[i].0, g[i].1@));
            assert(s[i].0 == k);
        }
        if seq_to_map(s).contains_key(k) {
            let i = choose|i: int| 0 <= i < s.len() && #[trigger] s[i].0 == k;
            assert(s[i] == (*g[i].0, g[i].1@));
            assert(m@.contains_key(*g[i].0));
        }
    }
    assert forall|k: u128| #[trigger] seq_to_map(s).contains_key(k) implies seq_to_map(s)[k]
        == users[k] by {
        let i = choose|i: int| 0 <= i < s.len() && #[trigger] s[i].0 == k;
        lemma_index(s, i);
        assert(s[i] == (*g[i].0, g[i].1@));
        assert(m@[*g[i].0] == *g[i].1);
    }
    assert(seq_to_map(s) =~= users);
}

/// A consistent database lists each id and each login name once, so what it saves
/// loads back (`load` accepts it and rebuilds the same table).
pub proof fn law_saved_database_loads(db: &Database, saved: Seq<(u128, UserRecord)>)
    requires
        db.consistent(),
        lists_users(saved, db.users()),
    ensures
        keys_unique(saved),
        loginnames_unique(saved),
        seq_to_map(saved) == db.users(),
{
    let s = saved;
    assert forall|i: int, j: int|
        0 <= i < s.len() && 0 <= j < s.len() && #[trigger] s[i].1.loginname
            == #[trigger] s[j].1.loginname implies i == j by {
        lemma_index(s, i);
        lemma_index(s, j);
        assert(db.users()[s[i].0].loginname == s[i].1.loginname);
        assert(db.names()[s[i].1.loginname] == s[i].0);
        assert(db.names()[s[j].1.loginname] == s[j].0);
    }
}

/// In a consistent database a user's own login name is in use, so renaming a user
/// to the name it already has is refused.
pub proof fn law_rename_to_own_name_refused(db: &Database, id: u128)
    requires
        db.consistent(),
        db.users().contains_key(id),
    ensures
        db.names().contains_key(db.users()[id].loginname),
{
}

} // verus!
