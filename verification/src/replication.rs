//! Leader election and log replication between the identity-service nodes.
//!
//! The state machine is driven from outside: timers and remote calls happen in the
//! program around it, which hands each event to one of the methods here and carries
//! out what it answers.
use vstd::prelude::*;
use crate::keyed::distinct;
use crate::database::{apply_model, apply_model_all, Database, DbModel, Snapshot};
use crate::rpc_error::ServiceError;
use crate::user::DatabaseOperation;
use std::collections::{HashMap, HashSet};

verus! {

broadcast use vstd::std_specs::hash::group_hash_axioms;

/// Identifier of an election term.
pub type TermID = u32;

/// Identifier of a node of the cluster (the program around this library maps
/// network addresses to these numbers).
pub type NodeId = u64;

/// Secret that the nodes send with each replication request.
pub const REPLICATION_KEY: &'static str = "d6Z6ESj7/DPZKNICF0fTpQJL8TYx0+9ZT4mreDSpZth+451hiWHF05VCXFeRHIqRjU6gM+7MaX2eM8L3+g4tE/BCKr6v3XdHHA66jnVBor2gc7uMlgvaqaTtXaBqSuZImNnaZ/9w55zML+RnskNpXAF63WahE4MZsYaimmn0bDI=";

/// Whether a replication request carries the replication key; others are refused.
pub fn replication_key_matches(key: &str) -> (res: bool)
    ensures
        res == (key@ == REPLICATION_KEY@),
{
    key.to_owned() == REPLICATION_KEY.to_owned()
}

/// Admits a replication request only with the replication key; any other key is
/// refused as not allowed.
pub fn check_replication_key(key: &str) -> (res: Result<(), ServiceError>)
    ensures
        res is Ok <==> key@ == REPLICATION_KEY@,
        res is Err ==> res == Err::<(), ServiceError>(ServiceError::NotAllowed),
{
    if replication_key_matches(key) {
        Ok(())
    } else {
        Err(ServiceError::NotAllowed)
    }
}

/// Answer to an append-entries request.
#[derive(Debug, PartialEq, Clone, Copy)]
pub enum AppendEntriesResult {
    Success,
    Failure { term: TermID },
}

/// Answer to a vote request.
#[derive(Debug, PartialEq, Clone, Copy)]
pub struct RequestVoteResult {
    pub term: TermID,
    pub vote_granted: bool,
}

/// The current term and whom this node voted for in it.
#[derive(Debug, PartialEq, Clone, Copy)]
pub struct CurrentTermState {
    pub id: TermID,
    pub voted_for: Option<NodeId>,
}

impl CurrentTermState {
    /// A term in which this node has not voted yet.
    pub fn new(id: TermID) -> (res: Self)
        ensures
            res == (CurrentTermState { id, voted_for: None }),
    {
        CurrentTermState { id, voted_for: None }
    }
}

/// What a leader keeps about one follower: the next log index to send it.
#[derive(Debug, PartialEq, Clone, Copy)]
pub struct LeaderFollowerState {
    pub next_index: u64,
}

impl LeaderFollowerState {
    pub fn new(next_index: u64) -> (res: Self)
        ensures
            res.next_index == next_index,
    {
        Self { next_index }
    }
}

/// The role of a node, without its data.
#[derive(Debug, PartialEq, Clone, Copy)]
pub enum ReplicationRole {
    Follower,
    Candidate,
    Leader,
}

/// The role of a node with what it keeps in that role.
#[derive(Debug, PartialEq)]
pub enum ReplicationRoleState {
    Follower,
    /// The nodes that voted for this candidate.
    Candidate { received_votes: HashSet<NodeId> },
    /// The state of each node of the cluster, by node id.
    Leader { follower_states: HashMap<NodeId, LeaderFollowerState> },
}

impl ReplicationRoleState {
    pub open spec fn spec_role(&self) -> ReplicationRole {
        match self {
            ReplicationRoleState::Follower => ReplicationRole::Follower,
            ReplicationRoleState::Candidate { .. } => ReplicationRole::Candidate,
            ReplicationRoleState::Leader { .. } => ReplicationRole::Leader,
        }
    }

    #[verifier::when_used_as_spec(spec_role)]
    pub fn role(&self) -> (res: ReplicationRole)
        ensures
            res == self.spec_role(),
    {
        match self {
            ReplicationRoleState::Follower => ReplicationRole::Follower,
            ReplicationRoleState::Candidate { .. } => ReplicationRole::Candidate,
            ReplicationRoleState::Leader { .. } => ReplicationRole::Leader,
        }
    }
}

/// One entry of the replication log.
#[derive(Debug, PartialEq)]
pub struct ReplicationLogEntry {
    pub term: TermID,
    pub operation: DatabaseOperation,
}

impl Clone for ReplicationLogEntry {
    fn clone(&self) -> (res: Self)
        ensures
            res == *self,
    {
        ReplicationLogEntry { term: self.term, operation: self.operation.clone() }
    }
}

/// Terms only move forward, and within a term a cast vote is never changed.
pub open spec fn term_progress(before: ReplicationState, after: ReplicationState) -> bool {
    &&& before.current_term.id <= after.current_term.id
    &&& before.current_term.id == after.current_term.id && before.current_term.voted_for is Some
        ==> after.current_term.voted_for == before.current_term.voted_for
}

/// Progress of terms and votes carries over a run of transitions.
pub proof fn law_term_progress_composes(a: ReplicationState, b: ReplicationState, c: ReplicationState)
    requires
        term_progress(a, b),
        term_progress(b, c),
    ensures
        term_progress(a, c),
{
}

/// A node votes at most once per term: once it has voted in its current term, no
/// vote request of that term or an older one is granted.
pub proof fn law_one_vote_per_term(s: ReplicationState, term: TermID, last_log_index: u64, last_log_term: TermID)
    requires
        s.current_term.voted_for is Some,
        term <= s.current_term.id,
    ensures
        !vote_granted(s.after_term(term), last_log_index, last_log_term),
{
}

/// The operations of a run of log entries.
pub open spec fn entry_ops(s: Seq<ReplicationLogEntry>) -> Seq<DatabaseOperation> {
    s.map_values(|e: ReplicationLogEntry| e.operation)
}

/// Replication state of one node.
pub struct ReplicationState {
    pub my_id: NodeId,
    pub current_term: CurrentTermState,
    /// Log index of the first entry of `log`; earlier entries are covered by the last snapshot.
    pub log_start: u64,
    pub log: Vec<ReplicationLogEntry>,
    pub role: ReplicationRoleState,
    pub leader_id: Option<NodeId>,
    /// All nodes of the cluster, this one included.
    pub node_list: Vec<NodeId>,
    /// The last snapshot installed or loaded, with the text it was read from.
    pub last_snapshot: Option<(Snapshot, String)>,
}

impl ReplicationState {
    /// One past the index of the last log entry.
    pub open spec fn log_end(&self) -> int {
        self.log_start + self.log@.len()
    }

    pub open spec fn wf(&self) -> bool {
        &&& self.log_start >= 1
        &&& self.log_end() <= u64::MAX
        &&& self.log_start > 1 ==> self.last_snapshot is Some
        &&& distinct(self.node_list@)
        &&& match self.role {
            ReplicationRoleState::Leader { follower_states } => follower_states@.dom()
                == self.node_list@.to_set(),
            _ => true,
        }
    }

    /// The state after learning of `term`: a later term is adopted, with no vote
    /// cast yet, and makes this node a follower.
    pub open spec fn after_term(self, term: TermID) -> Self {
        if term > self.current_term.id {
            ReplicationState {
                current_term: CurrentTermState { id: term, voted_for: None },
                role: ReplicationRoleState::Follower,
                ..self
            }
        } else {
            self
        }
    }

    /// A node that starts as a follower in term 0 with an empty log starting at index 1.
    pub fn new(my_id: NodeId, node_list: Vec<NodeId>) -> (res: Self)
        requires
            distinct(node_list@),
        ensures
            res.wf(),
            res.my_id == my_id,
            res.current_term == (CurrentTermState { id: 0, voted_for: None }),
            res.log_start == 1,
            res.log@.len() == 0,
            res.role == ReplicationRoleState::Follower,
            res.leader_id is None,
            res.node_list == node_list,
            res.last_snapshot is None,
    {
        ReplicationState {
            my_id,
            current_term: CurrentTermState::new(0),
            log_start: 1,
            log: Vec::new(),
            role: ReplicationRoleState::Follower,
            leader_id: None,
            node_list,
            last_snapshot: None,
        }
    }

    /// Applies an operation to the database and appends it to the log in the current term.
    pub fn add_entry(&mut self, operation: DatabaseOperation, db: &mut Database)
        requires
            old(self).wf(),
            old(db).wf(),
            old(self).log_end() < u64::MAX,
        ensures
            final(self).wf(),
            term_progress(*old(self), *final(self)),
            final(db).wf(),
            final(db).model() == apply_model(old(db).model(), operation),
            final(self).log@ == old(self).log@.push(
                ReplicationLogEntry { term: old(self).current_term.id, operation },
            ),
            *final(self) == (ReplicationState { log: final(self).log, ..*old(self) }),
            old(db).consistent() && old(db).admissible(operation) ==> final(db).consistent(),
    {
        db.apply(operation.clone());
        self.log.push(ReplicationLogEntry { term: self.current_term.id, operation });
    }

    /// Writes are accepted only by the leader; others answer with the leader they know of.
    pub fn leader_or_err(&self) -> (res: Result<(), ServiceError>)
        ensures
            res is Ok <==> self.role is Leader,
            res is Err ==> res == Err::<(), ServiceError>(
                ServiceError::NotLeader { leader_id: self.leader_id },
            ),
    {
        match self.role {
            ReplicationRoleState::Leader { .. } => Ok(()),
            _ => Err(ServiceError::NotLeader { leader_id: self.leader_id }),
        }
    }
}


/// Answer to a vote request, or the fault on which this node stops.
#[derive(Debug, PartialEq, Clone, Copy)]
pub enum VoteReply {
    Reply(RequestVoteResult),
    /// The log is empty although a snapshot index is claimed as its end.
    Fault,
}

/// Answer to an append-entries request, or the fault on which this node stops.
#[derive(Debug, PartialEq, Clone, Copy)]
pub enum AppendReply {
    Reply(AppendEntriesResult),
    /// The previous entry matched but is not the last one of this log.
    Fault,
}

/// First step of installing a snapshot.
#[derive(Debug, PartialEq, Clone, Copy)]
pub enum SnapshotStep {
    /// Answer with this term; nothing to install.
    Reply(TermID),
    /// The snapshot reaches past this log: read it and finish the installation.
    NeedsSnapshot,
}

/// Whether the entry at `prev_log_index` of this log has term `prev_log_term`
/// (indices before the log, and index 0, are taken to match).
pub open spec fn prev_log_matches(s: ReplicationState, prev_log_index: u64, prev_log_term: TermID) -> bool {
    prev_log_index == 0 || prev_log_index < s.log_start || (prev_log_index - s.log_start
        < s.log@.len() && s.log@[prev_log_index - s.log_start].term == prev_log_term)
}

/// Whether a vote request is granted, in the state after its term was adopted.
pub open spec fn vote_granted(s: ReplicationState, last_log_index: u64, last_log_term: TermID) -> bool {
    let last = s.log_end() - 1;
    &&& s.current_term.voted_for is None
    &&& last_log_index >= last
    &&& last_log_index == last ==> (last_log_index == 0 || s.log@.last().term < last_log_term)
}

/// Entries that a snapshot covers count as matching: a request whose previous
/// index lies before this node's log (such as the last index of the snapshot it
/// was restored from) is never refused for a mismatch.
pub proof fn law_snapshot_covered_entries_match(
    s: ReplicationState,
    prev_log_index: u64,
    prev_log_term: TermID,
)
    requires
        prev_log_index < s.log_start,
    ensures
        prev_log_matches(s, prev_log_index, prev_log_term),
{
}

/// A vote is never granted to a candidate whose last log index is below this
/// node's own last log index, nor twice in one term.
pub proof fn law_vote_needs_up_to_date_log(s: ReplicationState, last_log_index: u64, last_log_term: TermID)
    ensures
        last_log_index + 1 < s.log_start + s.log@.len() ==> !vote_granted(
            s,
            last_log_index,
            last_log_term,
        ),
        s.current_term.voted_for is Some ==> !vote_granted(s, last_log_index, last_log_term),
{
}

/// Whether answering a vote request hits the empty log where the last entry is read.
pub open spec fn vote_faults(s: ReplicationState, last_log_index: u64) -> bool {
    &&& s.current_term.voted_for is None
    &&& last_log_index == s.log_end() - 1
    &&& last_log_index != 0
    &&& s.log@.len() == 0
}

impl ReplicationState {
    /// Handles a vote request from `candidate_id`.
    pub fn request_vote(
        &mut self,
        term: TermID,
        candidate_id: NodeId,
        last_log_index: u64,
        last_log_term: TermID,
    ) -> (res: VoteReply)
        requires
            old(self).wf(),
        ensures
            final(self).wf(),
            term_progress(*old(self), *final(self)),
            res is Reply && res->0.vote_granted ==> {
                &&& last_log_index + 1 >= old(self).log_start + old(self).log@.len()
                &&& term >= old(self).current_term.id
                &&& term == old(self).current_term.id ==> old(self).current_term.voted_for is None
                &&& res->0.term == term
                &&& final(self).current_term.voted_for == Some(candidate_id)
            },
            term < old(self).current_term.id ==> *final(self) == *old(self) && res
                == VoteReply::Reply(
                RequestVoteResult { term: old(self).current_term.id, vote_granted: false },
            ),
            term >= old(self).current_term.id ==> {
                let mid = old(self).after_term(term);
                if vote_faults(mid, last_log_index) {
                    res == VoteReply::Fault && *final(self) == mid
                } else if vote_granted(mid, last_log_index, last_log_term) {
                    &&& res == VoteReply::Reply(
                        RequestVoteResult { term: mid.current_term.id, vote_granted: true },
                    )
                    &&& *final(self) == (ReplicationState {
                        current_term: CurrentTermState {
                            id: mid.current_term.id,
                            voted_for: Some(candidate_id),
                        },
                        ..mid
                    })
                } else {
                    &&& res == VoteReply::Reply(
                        RequestVoteResult { term: mid.current_term.id, vote_granted: false },
                    )
                    &&& *final(self) == mid
                }
            },
    {
        if term < self.current_term.id {
            return VoteReply::Reply(
                RequestVoteResult { term: self.current_term.id, vote_granted: false },
            );
        }
        if term > self.current_term.id {
            self.current_term = CurrentTermState::new(term);
            self.role = ReplicationRoleState::Follower;
        }
        let last = self.log_start + self.log.len() as u64 - 1;
        let grant = if self.current_term.voted_for.is_some() || last_log_index < last {
            false
        } else if last_log_index == last {
            if last_log_index == 0 {
                true
            } else {
                match self.log.last() {
                    Some(entry) => entry.term < last_log_term,
                    None => {
                        return VoteReply::Fault;
                    },
                }
            }
        } else {
            true
        };
        if grant {
            self.current_term.voted_for = Some(candidate_id);
            VoteReply::Reply(RequestVoteResult { term: self.current_term.id, vote_granted: true })
        } else {
            VoteReply::Reply(RequestVoteResult { term: self.current_term.id, vote_granted: false })
        }
    }

    /// The state after hearing from `leader_id` in `term` (not older than the current term).
    pub open spec fn after_leader_heard(self, term: TermID, leader_id: NodeId) -> Self {
        ReplicationState { leader_id: Some(leader_id), ..self.after_term(term) }
    }

    /// Handles an append-entries request. The boolean is whether the request came
    /// from a current leader, which resets the election timer. A request of the
    /// current term or a later one adopts its term and leader whatever the answer;
    /// only appending entries needs room for them in the log's index range.
    pub fn append_entries(
        &mut self,
        db: &mut Database,
        term: TermID,
        leader_id: NodeId,
        prev_log_index: u64,
        prev_log_term: TermID,
        entries: Vec<ReplicationLogEntry>,
    ) -> (res: (AppendReply, bool))
        requires
            old(self).wf(),
            old(db).wf(),
            term >= old(self).current_term.id && prev_log_matches(
                old(self).after_leader_heard(term, leader_id),
                prev_log_index,
                prev_log_term,
            ) && prev_log_index == old(self).log_end() - 1 ==> old(self).log_end() + entries@.len()
                <= u64::MAX,
        ensures
            final(self).wf(),
            term_progress(*old(self), *final(self)),
            final(db).wf(),
            term >= old(self).current_term.id && old(self).log@.len() == 0 && prev_log_index + 1
                == old(self).log_start ==> {
                &&& res == (AppendReply::Reply(AppendEntriesResult::Success), true)
                &&& final(self).log@ == entries@
                &&& final(db).model() == apply_model_all(old(db).model(), entry_ops(entries@))
            },
            term < old(self).current_term.id ==> {
                &&& res == (AppendReply::Reply(
                    AppendEntriesResult::Failure { term: old(self).current_term.id },
                ), false)
                &&& *final(self) == *old(self)
                &&& *final(db) == *old(db)
            },
            term >= old(self).current_term.id ==> {
                let mid = old(self).after_leader_heard(term, leader_id);
                &&& res.1
                &&& !prev_log_matches(mid, prev_log_index, prev_log_term) ==> {
                    &&& res.0 == AppendReply::Reply(
                        AppendEntriesResult::Failure { term: mid.current_term.id },
                    )
                    &&& *final(self) == mid
                    &&& *final(db) == *old(db)
                }
                &&& prev_log_matches(mid, prev_log_index, prev_log_term) && prev_log_index
                    != mid.log_end() - 1 ==> {
                    &&& res.0 == AppendReply::Fault
                    &&& *final(self) == mid
                    &&& *final(db) == *old(db)
                }
                &&& prev_log_matches(mid, prev_log_index, prev_log_term) && prev_log_index
                    == mid.log_end() - 1 ==> {
                    &&& res.0 == AppendReply::Reply(AppendEntriesResult::Success)
                    &&& final(self).log@ == mid.log@ + entries@
                    &&& *final(self) == (ReplicationState { log: final(self).log, ..mid })
                    &&& final(db).model() == apply_model_all(
                        old(db).model(),
                        entry_ops(entries@),
                    )
                }
            },
    {
        if term < self.current_term.id {
            return (AppendReply::Reply(
                AppendEntriesResult::Failure { term: self.current_term.id },
            ), false);
        }
        self.leader_id = Some(leader_id);
        if term > self.current_term.id {
            self.current_term = CurrentTermState::new(term);
            self.role = ReplicationRoleState::Follower;
        }
        let matches = if prev_log_index == 0 {
            true
        } else if prev_log_index < self.log_start {
            true
        } else {
            let k = prev_log_index - self.log_start;
            if k < self.log.len() as u64 {
                self.log[k as usize].term == prev_log_term
            } else {
                false
            }
        };
        if !matches {
            return (AppendReply::Reply(
                AppendEntriesResult::Failure { term: self.current_term.id },
            ), true);
        }
        if self.log_start + (self.log.len() as u64) - 1 != prev_log_index {
            return (AppendReply::Fault, true);
        }
        let ghost mid = *self;
        let ghost db0 = db.model();
        let mut k: usize = 0;
        while k < entries.len()
            invariant
                k <= entries@.len(),
                mid.wf(),
                db.wf(),
                mid.log_end() + entries@.len() <= u64::MAX,
                self.log@ == mid.log@ + entries@.subrange(0, k as int),
                *self == (ReplicationState { log: self.log, ..mid }),
                db.model() == apply_model_all(db0, entry_ops(entries@.subrange(0, k as int))),
            decreases entries@.len() - k,
        {
            db.apply(entries[k].operation.clone());
            self.log.push(entries[k].clone());
            proof {
                let sub = entries@.subrange(0, k + 1);
                assert(sub.drop_last() =~= entries@.subrange(0, k as int));
                assert(entry_ops(sub).drop_last() =~= entry_ops(entries@.subrange(0, k as int)));
                assert(entry_ops(sub).last() == entries@[k as int].operation);
                assert(self.log@ =~= mid.log@ + sub);
            }
            k = k + 1;
        }
        proof {
            assert(entries@.subrange(0, entries@.len() as int) =~= entries@);
        }
        (AppendReply::Reply(AppendEntriesResult::Success), true)
    }

    /// First step of handling a snapshot from `leader_id`: adopts its term and says
    /// whether the snapshot has to be read and installed. The boolean is whether the
    /// request came from a current leader, which resets the election timer.
    pub fn begin_install_snapshot(
        &mut self,
        term: TermID,
        leader_id: NodeId,
        last_included_index: u64,
    ) -> (res: (SnapshotStep, bool))
        requires
            old(self).wf(),
        ensures
            final(self).wf(),
            term_progress(*old(self), *final(self)),
            term < old(self).current_term.id ==> res == (SnapshotStep::Reply(
                old(self).current_term.id,
            ), false) && *final(self) == *old(self),
            term >= old(self).current_term.id ==> {
                let mid = if term > old(self).current_term.id {
                    old(self).after_leader_heard(term, leader_id)
                } else {
                    *old(self)
                };
                &&& res.1
                &&& *final(self) == mid
                &&& res.0 == (if last_included_index >= mid.log_end() {
                    SnapshotStep::NeedsSnapshot
                } else {
                    SnapshotStep::Reply(mid.current_term.id)
                })
            },
    {
        if term < self.current_term.id {
            return (SnapshotStep::Reply(self.current_term.id), false);
        }
        if term > self.current_term.id {
            self.current_term = CurrentTermState::new(term);
            self.role = ReplicationRoleState::Follower;
            self.leader_id = Some(leader_id);
        }
        if last_included_index >= self.log_start + (self.log.len() as u64) {
            (SnapshotStep::NeedsSnapshot, true)
        } else {
            (SnapshotStep::Reply(self.current_term.id), true)
        }
    }

    /// Second step of handling a snapshot: replaces the database by the snapshot's
    /// table, empties the log so that it starts after the snapshot, and keeps the
    /// snapshot with its text. Fails, changing nothing, when the snapshot's table
    /// repeats a login name.
    pub fn finish_install_snapshot(
        &mut self,
        db: &mut Database,
        last_included_index: u64,
        snapshot: Snapshot,
        data: String,
    ) -> (res: Result<TermID, ServiceError>)
        requires
            old(self).wf(),
            old(db).wf(),
            crate::keyed::keys_unique(crate::database::user_pairs(snapshot.id_map@)),
            last_included_index < u64::MAX,
        ensures
            final(self).wf(),
            term_progress(*old(self), *final(self)),
            final(db).wf(),
            res is Ok <==> crate::database::loginnames_unique(
                crate::database::user_pairs(snapshot.id_map@),
            ),
            res is Err ==> res == Err::<TermID, ServiceError>(ServiceError::Internal)
                && *final(self) == *old(self) && *final(db) == *old(db),
            res is Ok ==> {
                &&& res == Ok::<TermID, ServiceError>(old(self).current_term.id)
                &&& final(db).consistent()
                &&& final(db).users() == crate::keyed::seq_to_map(crate::database::user_pairs(snapshot.id_map@))
                &&& final(self).log@.len() == 0
                &&& *final(self) == (ReplicationState {
                    log: final(self).log,
                    log_start: (last_included_index + 1) as u64,
                    last_snapshot: Some((snapshot, data)),
                    ..*old(self)
                })
            },
    {
        let new_db = match Database::load_from_snapshot(snapshot.clone()) {
            Ok(new_db) => new_db,
            Err(_) => {
                return Err(ServiceError::Internal);
            },
        };
        *db = new_db;
        self.log.clear();
        self.log_start = last_included_index + 1;
        self.last_snapshot = Some((snapshot, data));
        Ok(self.current_term.id)
    }
}


/// What a new candidate asks the other nodes to vote on.
#[derive(Debug, PartialEq, Clone, Copy)]
pub struct VoteCampaign {
    pub term: TermID,
    pub last_log_index: u64,
    pub last_log_term: TermID,
}

/// What to do after a vote answer.
#[derive(Debug, PartialEq, Clone, Copy)]
pub enum VoteProgress {
    /// Ask the next node.
    Continue,
    /// The election is over for this node (term moved on, or no longer a candidate).
    Stop,
    /// A majority voted for this node, which is now the leader.
    Elected,
}

/// What a leader sends to one follower next.
#[derive(Debug, PartialEq)]
pub enum ReplicationPlan {
    /// This node is not the leader (any more).
    NotLeader,
    SendEntries { prev_log_index: u64, prev_log_term: TermID, entries: Vec<ReplicationLogEntry> },
    SendSnapshot { last_included_index: u64, last_included_term: TermID, data: String },
    /// The follower's next index lies outside what this node can send; the node stops.
    Fault,
}

/// What to do after a follower's answer.
#[derive(Debug, PartialEq, Clone, Copy)]
pub enum ResponseStep {
    /// Go on with the next follower.
    Continue,
    /// This node is no longer the leader: start over from its role.
    Restart,
    /// A follower's next index would fall below zero; the node stops.
    Fault,
}

/// The term of the last entry of a log, 0 for an empty log.
pub open spec fn last_term(log: Seq<ReplicationLogEntry>) -> TermID {
    if log.len() == 0 {
        0
    } else {
        log.last().term
    }
}

/// A strict majority of `n` nodes.
pub open spec fn is_majority(votes: nat, n: nat) -> bool {
    votes > n / 2
}

/// A majority is more than half of the cluster: twice the votes exceed the
/// number of nodes.
pub proof fn law_majority_is_more_than_half(votes: nat, n: nat)
    ensures
        is_majority(votes, n) <==> 2 * votes > n,
{
}

impl ReplicationState {
    /// Starts an election if the term is still `expected_term`: moves to the next
    /// term, votes for itself and becomes a candidate. Answers what to ask the others.
    pub fn become_candidate(&mut self, expected_term: TermID) -> (res: Option<VoteCampaign>)
        requires
            old(self).wf(),
            old(self).current_term.id == expected_term ==> old(self).current_term.id < u32::MAX,
        ensures
            final(self).wf(),
            term_progress(*old(self), *final(self)),
            old(self).current_term.id != expected_term ==> res is None && *final(self) == *old(
                self,
            ),
            old(self).current_term.id == expected_term ==> {
                let new_term = (old(self).current_term.id + 1) as TermID;
                &&& res == Some(
                    VoteCampaign {
                        term: new_term,
                        last_log_index: old(self).log_end() as u64,
                        last_log_term: last_term(old(self).log@),
                    },
                )
                &&& final(self).role matches ReplicationRoleState::Candidate { received_votes }
                    && received_votes@ == set![old(self).my_id]
                &&& *final(self) == (ReplicationState {
                    current_term: CurrentTermState { id: new_term, voted_for: Some(old(self).my_id) },
                    role: final(self).role,
                    ..*old(self)
                })
            },
    {
        if self.current_term.id != expected_term {
            return None;
        }
        let new_term = self.current_term.id + 1;
        self.current_term = CurrentTermState::new(new_term);
        let mut received_votes: HashSet<NodeId> = HashSet::new();
        received_votes.insert(self.my_id);
        self.current_term.voted_for = Some(self.my_id);
        self.role = ReplicationRoleState::Candidate { received_votes };
        let last_log_index = self.log_start + self.log.len() as u64;
        let last_log_term = match self.log.last() {
            Some(entry) => entry.term,
            None => 0,
        };
        Some(VoteCampaign { term: new_term, last_log_index, last_log_term })
    }

    /// Records the answer of `voter` to the vote request of `campaign_term`; a
    /// strict majority of the cluster makes this node the leader, with every
    /// follower's next index at the end of its log.
    pub fn record_vote(&mut self, campaign_term: TermID, voter: NodeId, granted: bool) -> (res:
        VoteProgress)
        requires
            old(self).wf(),
        ensures
            final(self).wf(),
            term_progress(*old(self), *final(self)),
            res == VoteProgress::Elected ==> {
                &&& old(self).role matches ReplicationRoleState::Candidate { received_votes }
                    && 2 * received_votes@.insert(voter).len() > old(self).node_list@.len()
                &&& final(self).role is Leader
            },
            res != VoteProgress::Elected ==> !(final(self).role is Leader) || old(self).role is Leader,
            old(self).current_term.id != campaign_term ==> res == VoteProgress::Stop
                && *final(self) == *old(self),
            old(self).current_term.id == campaign_term && !(old(self).role is Candidate) ==> res
                == VoteProgress::Stop && *final(self) == *old(self),
            old(self).current_term.id == campaign_term && !granted ==> *final(self) == *old(
                self,
            ) && (old(self).role is Candidate ==> res == VoteProgress::Continue),
            old(self).current_term.id == campaign_term && granted ==> (old(
                self,
            ).role matches ReplicationRoleState::Candidate { received_votes } ==> {
                let votes = received_votes@.insert(voter);
                if is_majority(votes.len(), old(self).node_list@.len()) {
                    &&& res == VoteProgress::Elected
                    &&& final(self).role matches ReplicationRoleState::Leader { follower_states }
                        && follower_states@.dom() == old(self).node_list@.to_set() && forall|k: NodeId|
                        #[trigger] follower_states@.contains_key(k) ==> follower_states@[k].next_index
                            == old(self).log_end()
                    &&& *final(self) == (ReplicationState {
                        role: final(self).role,
                        leader_id: Some(old(self).my_id),
                        ..*old(self)
                    })
                } else {
                    &&& res == VoteProgress::Continue
                    &&& final(self).role matches ReplicationRoleState::Candidate { received_votes }
                        && received_votes@ == votes
                    &&& *final(self) == (ReplicationState { role: final(self).role, ..*old(self) })
                }
            }),
    {
        if self.current_term.id != campaign_term {
            return VoteProgress::Stop;
        }
        let n = self.node_list.len();
        let next_index = self.log_start + self.log.len() as u64;
        let elected = match &mut self.role {
            ReplicationRoleState::Candidate { received_votes } => {
                if !granted {
                    return VoteProgress::Continue;
                }
                received_votes.insert(voter);
                received_votes.len() > n / 2
            },
            _ => {
                return VoteProgress::Stop;
            },
        };
        if elected {
            let mut follower_states: HashMap<NodeId, LeaderFollowerState> = HashMap::new();
            let mut i: usize = 0;
            while i < n
                invariant
                    i <= n,
                    n == self.node_list@.len(),
                    follower_states@.dom() == self.node_list@.subrange(0, i as int).to_set(),
                    forall|k: NodeId|
                        #[trigger] follower_states@.contains_key(k) ==> follower_states@[k].next_index
                            == next_index,
                decreases n - i,
            {
                let ghost pre = follower_states@;
                follower_states.insert(self.node_list[i], LeaderFollowerState::new(next_index));
                proof {
                    let sub0 = self.node_list@.subrange(0, i as int);
                    let sub1 = self.node_list@.subrange(0, i + 1);
                    let node = self.node_list@[i as int];
                    assert forall|x: NodeId| #[trigger] sub1.to_set().contains(x) == pre.dom().insert(
                        node,
                    ).contains(x) by {
                        if sub0.contains(x) {
                            let j = choose|j: int| 0 <= j < sub0.len() && sub0[j] == x;
                            assert(sub1[j] == x);
                        }
                        if x == node {
                            assert(sub1[i as int] == x);
                        }
                        if sub1.contains(x) {
                            let j = choose|j: int| 0 <= j < sub1.len() && sub1[j] == x;
                            if j < i {
                                assert(sub0[j] == x);
                            }
                        }
                    }
                    assert(follower_states@.dom() =~= sub1.to_set());
                }
                i = i + 1;
            }
            proof {
                assert(self.node_list@.subrange(0, n as int) =~= self.node_list@);
            }
            self.role = ReplicationRoleState::Leader { follower_states };
            self.leader_id = Some(self.my_id);
            VoteProgress::Elected
        } else {
            VoteProgress::Continue
        }
    }
}

/// Copies a run of log entries.
fn clone_entries(log: &Vec<ReplicationLogEntry>, from: usize) -> (res: Vec<ReplicationLogEntry>)
    requires
        from <= log@.len(),
    ensures
        res@ == log@.subrange(from as int, log@.len() as int),
{
    let mut res: Vec<ReplicationLogEntry> = Vec::new();
    let mut i: usize = from;
    while i < log.len()
        invariant
            from <= i <= log@.len(),
            res@ == log@.subrange(from as int, i as int),
        decreases log@.len() - i,
    {
        res.push(log[i].clone());
        i = i + 1;
        assert(res@ =~= log@.subrange(from as int, i as int));
    }
    res
}

impl ReplicationState {
    /// The next index that the leader holds for the node `peer`.
    pub open spec fn next_index_of(&self, peer: NodeId) -> u64 {
        match self.role {
            ReplicationRoleState::Leader { follower_states } => follower_states@[peer].next_index,
            _ => 0,
        }
    }

    /// The term of the entry at `index`, which lies between the snapshot and the log's end.
    pub open spec fn term_at(&self, index: int) -> TermID {
        if index == 0 {
            0
        } else if index == self.log_start - 1 {
            self.last_snapshot.unwrap().0.last_included_term
        } else {
            self.log@[index - self.log_start].term
        }
    }

    /// What the leader sends next to the node `peer`: the entries after the
    /// follower's next index minus one, or the last snapshot when those entries are
    /// no longer in the log.
    pub fn plan_replication(&self, peer: NodeId) -> (res: ReplicationPlan)
        requires
            self.wf(),
            self.node_list@.contains(peer),
        ensures
            !(self.role is Leader) ==> res == ReplicationPlan::NotLeader,
            self.role is Leader ==> {
                let next = self.next_index_of(peer);
                let prev = next - 1;
                if next == 0 || prev >= self.log_end() {
                    res == ReplicationPlan::Fault
                } else if prev < self.log_start - 1 {
                    res matches ReplicationPlan::SendSnapshot {
                        last_included_index,
                        last_included_term,
                        data,
                    } && last_included_index == self.last_snapshot.unwrap().0.last_included_index
                        && last_included_term == self.last_snapshot.unwrap().0.last_included_term
                        && data == self.last_snapshot.unwrap().1
                } else {
                    res matches ReplicationPlan::SendEntries {
                        prev_log_index,
                        prev_log_term,
                        entries,
                    } && prev_log_index == prev && prev_log_term == self.term_at(prev)
                        && entries@ == self.log@.subrange(
                        prev + 1 - self.log_start,
                        self.log@.len() as int,
                    )
                }
            },
    {
        let next = match &self.role {
            ReplicationRoleState::Leader { follower_states } => match follower_states.get(&peer) {
                Some(state) => state.next_index,
                None => {
                    proof {
                        assert(self.node_list@.to_set().contains(peer));
                    }
                    return ReplicationPlan::Fault;
                },
            },
            _ => {
                return ReplicationPlan::NotLeader;
            },
        };
        if next == 0 {
            return ReplicationPlan::Fault;
        }
        let prev = next - 1;
        if prev < self.log_start - 1 {
            match &self.last_snapshot {
                Some((snapshot, data)) => ReplicationPlan::SendSnapshot {
                    last_included_index: snapshot.last_included_index,
                    last_included_term: snapshot.last_included_term,
                    data: data.clone(),
                },
                None => {
                    proof {
                        assert(false);
                    }
                    ReplicationPlan::Fault
                },
            }
        } else {
            if prev >= self.log_start + self.log.len() as u64 {
                return ReplicationPlan::Fault;
            }
            let prev_log_term = if prev == 0 {
                0
            } else if prev == self.log_start - 1 {
                match &self.last_snapshot {
                    Some((snapshot, _)) => snapshot.last_included_term,
                    None => {
                        proof {
                            assert(false);
                        }
                        0
                    },
                }
            } else {
                self.log[(prev - self.log_start) as usize].term
            };
            let entries = clone_entries(&self.log, (prev + 1 - self.log_start) as usize);
            ReplicationPlan::SendEntries { prev_log_index: prev, prev_log_term, entries }
        }
    }

    /// The state after a follower reports the later term `follower_term`: it is
    /// adopted if it is later than the current one, which makes this node a follower.
    pub open spec fn after_follower_term(self, follower_term: TermID) -> Self {
        if follower_term > self.current_term.id {
            ReplicationState {
                current_term: CurrentTermState { id: follower_term, voted_for: None },
                role: ReplicationRoleState::Follower,
                ..self
            }
        } else {
            self
        }
    }

    /// Handles the node `peer`'s answer to entries sent in `term_sent`, after
    /// entry `prev_log_index`, `entries_len` of them: success moves its next index past
    /// them; a failure in a later term is adopted; any other failure steps its next
    /// index back by one.
    pub fn handle_append_response(
        &mut self,
        peer: NodeId,
        term_sent: TermID,
        prev_log_index: u64,
        entries_len: u64,
        result: AppendEntriesResult,
    ) -> (res: ResponseStep)
        requires
            old(self).wf(),
            old(self).node_list@.contains(peer),
            prev_log_index + entries_len + 1 <= u64::MAX,
        ensures
            final(self).wf(),
            term_progress(*old(self), *final(self)),
            match result {
                AppendEntriesResult::Success => if old(self).role is Leader {
                    &&& res == ResponseStep::Continue
                    &&& final(self).role matches ReplicationRoleState::Leader { follower_states }
                        && old(self).role matches ReplicationRoleState::Leader {
                        follower_states: old_states,
                    } && follower_states@ == old_states@.insert(
                        peer,
                        LeaderFollowerState {
                            next_index: (prev_log_index + entries_len + 1) as u64,
                        },
                    )
                    &&& *final(self) == (ReplicationState { role: final(self).role, ..*old(self) })
                } else {
                    res == ResponseStep::Restart && *final(self) == *old(self)
                },
                AppendEntriesResult::Failure { term: follower_term } => if follower_term
                    > term_sent {
                    res == ResponseStep::Continue && *final(self) == old(self).after_follower_term(
                        follower_term,
                    )
                } else if old(self).role is Leader {
                    if old(self).next_index_of(peer) == 0 {
                        res == ResponseStep::Fault && *final(self) == *old(self)
                    } else {
                        &&& res == ResponseStep::Continue
                        &&& final(self).role matches ReplicationRoleState::Leader {
                            follower_states,
                        } && old(self).role matches ReplicationRoleState::Leader {
                            follower_states: old_states,
                        } && follower_states@ == old_states@.insert(
                            peer,
                            LeaderFollowerState {
                                next_index: (old(self).next_index_of(peer) - 1) as u64,
                            },
                        )
                        &&& *final(self) == (ReplicationState {
                            role: final(self).role,
                            ..*old(self)
                        })
                    }
                } else {
                    res == ResponseStep::Restart && *final(self) == *old(self)
                },
            },
    {
        proof {
            assert(self.node_list@.to_set().contains(peer));
            if self.role is Leader {
                let states = self.role->follower_states;
                assert(states@.dom().insert(peer) =~= states@.dom());
            }
        }
        match result {
            AppendEntriesResult::Success => match &mut self.role {
                ReplicationRoleState::Leader { follower_states } => {
                    follower_states.insert(
                        peer,
                        LeaderFollowerState::new(prev_log_index + entries_len + 1),
                    );
                    ResponseStep::Continue
                },
                _ => ResponseStep::Restart,
            },
            AppendEntriesResult::Failure { term: follower_term } => {
                if follower_term > term_sent {
                    if follower_term > self.current_term.id {
                        self.current_term = CurrentTermState::new(follower_term);
                        self.role = ReplicationRoleState::Follower;
                    }
                    ResponseStep::Continue
                } else {
                    match &mut self.role {
                        ReplicationRoleState::Leader { follower_states } => {
                            let next = match follower_states.get(&peer) {
                                Some(state) => state.next_index,
                                None => {
                                    proof {
                                        assert(self.node_list@.to_set().contains(peer));
                                    }
                                    return ResponseStep::Fault;
                                },
                            };
                            if next == 0 {
                                return ResponseStep::Fault;
                            }
                            follower_states.insert(peer, LeaderFollowerState::new(next - 1));
                            ResponseStep::Continue
                        },
                        _ => ResponseStep::Restart,
                    }
                }
            },
        }
    }

    /// Handles the node `peer`'s answer (its term) to a snapshot sent in
    /// `term_sent`: a later term is adopted; otherwise its next index moves past the
    /// snapshot.
    pub fn handle_snapshot_response(
        &mut self,
        peer: NodeId,
        term_sent: TermID,
        last_included_index: u64,
        follower_term: TermID,
    ) -> (res: ResponseStep)
        requires
            old(self).wf(),
            old(self).node_list@.contains(peer),
            last_included_index < u64::MAX,
        ensures
            final(self).wf(),
            term_progress(*old(self), *final(self)),
            follower_term > term_sent ==> res == ResponseStep::Continue && *final(self) == old(
                self,
            ).after_follower_term(follower_term),
            follower_term <= term_sent && !(old(self).role is Leader) ==> res
                == ResponseStep::Restart && *final(self) == *old(self),
            follower_term <= term_sent && old(self).role is Leader ==> {
                &&& res == ResponseStep::Continue
                &&& final(self).role matches ReplicationRoleState::Leader { follower_states }
                    && old(self).role matches ReplicationRoleState::Leader {
                    follower_states: old_states,
                } && follower_states@ == old_states@.insert(
                    peer,
                    LeaderFollowerState { next_index: (last_included_index + 1) as u64 },
                )
                &&& *final(self) == (ReplicationState { role: final(self).role, ..*old(self) })
            },
    {
        proof {
            assert(self.node_list@.to_set().contains(peer));
            if self.role is Leader {
                let states = self.role->follower_states;
                assert(states@.dom().insert(peer) =~= states@.dom());
            }
        }
        if follower_term > term_sent {
            if follower_term > self.current_term.id {
                self.current_term = CurrentTermState::new(follower_term);
                self.role = ReplicationRoleState::Follower;
            }
            ResponseStep::Continue
        } else {
            match &mut self.role {
                ReplicationRoleState::Leader { follower_states } => {
                    follower_states.insert(peer, LeaderFollowerState::new(last_included_index + 1));
                    ResponseStep::Continue
                },
                _ => ResponseStep::Restart,
            }
        }
    }

    /// The snapshot to write out: the whole user table, covering the log up to its
    /// last entry; nothing while the log is empty.
    pub fn snapshot_to_persist(&self, db: &Database) -> (res: Option<Snapshot>)
        requires
            self.wf(),
            db.wf(),
        ensures
            self.log@.len() == 0 ==> res is None,
            self.log@.len() > 0 ==> (res matches Some(snapshot) && snapshot.last_included_index
                == self.log_end() - 1 && snapshot.last_included_term == self.log@.last().term
                && crate::database::lists_users(crate::database::user_pairs(snapshot.id_map@), db.users())),
    {
        match self.log.last() {
            None => None,
            Some(last) => Some(
                Snapshot {
                    last_included_index: self.log_start + (self.log.len() as u64) - 1,
                    last_included_term: last.term,
                    id_map: db.save(),
                },
            ),
        }
    }

    /// Starts from a saved snapshot: builds the database from its table, takes the
    /// log to start after it, adopts its term and keeps it with its text. Fails,
    /// changing nothing, when the table repeats a login name.
    pub fn restore_from_snapshot(&mut self, snapshot: Snapshot, data: String) -> (res: Result<
        Database,
        crate::user::LoadError,
    >)
        requires
            old(self).wf(),
            crate::keyed::keys_unique(crate::database::user_pairs(snapshot.id_map@)),
            snapshot.last_included_index + 1 + old(self).log@.len() <= u64::MAX,
        ensures
            final(self).wf(),
            res is Ok <==> crate::database::loginnames_unique(
                crate::database::user_pairs(snapshot.id_map@),
            ),
            res is Err ==> *final(self) == *old(self),
            res matches Ok(db) ==> {
                &&& db.wf()
                &&& db.consistent()
                &&& db.users() == crate::keyed::seq_to_map(crate::database::user_pairs(snapshot.id_map@))
                &&& *final(self) == (ReplicationState {
                    log_start: (snapshot.last_included_index + 1) as u64,
                    current_term: CurrentTermState {
                        id: snapshot.last_included_term,
                        voted_for: None,
                    },
                    last_snapshot: Some((snapshot, data)),
                    ..*old(self)
                })
            },
    {
        let db = match Database::load_from_snapshot(snapshot.clone()) {
            Ok(db) => db,
            Err(e) => {
                return Err(e);
            },
        };
        self.log_start = snapshot.last_included_index + 1;
        self.current_term = CurrentTermState::new(snapshot.last_included_term);
        self.last_snapshot = Some((snapshot, data));
        Ok(db)
    }

    /// The current term.
    pub fn current_term_id(&self) -> (res: TermID)
        ensures
            res == self.current_term.id,
    {
        self.current_term.id
    }

    /// One past the index of the last log entry.
    pub fn log_end_index(&self) -> (res: u64)
        requires
            self.wf(),
        ensures
            res == self.log_end(),
    {
        self.log_start + self.log.len() as u64
    }
}

} // verus!
