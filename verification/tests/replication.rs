use teamchat::database::{Database, Snapshot};
use teamchat::replication::{
    AppendEntriesResult, AppendReply, CurrentTermState, LeaderFollowerState, ReplicationLogEntry,
    ReplicationPlan, ReplicationRole, ReplicationRoleState, ReplicationState, RequestVoteResult,
    ResponseStep, SnapshotStep, VoteCampaign, VoteProgress, VoteReply,
};
use teamchat::rpc_error::ServiceError;
use teamchat::service::Service;
use teamchat::user::{DatabaseOperation, FullUserInfo};

fn user(name: &str) -> FullUserInfo {
    FullUserInfo { loginname: name.to_owned(), real_name: None, password_hash: None }
}

#[test]
fn new_node_is_a_follower_in_term_zero() {
    let state = ReplicationState::new(7, vec![7, 8, 9]);
    assert_eq!(state.role.role(), ReplicationRole::Follower);
    assert_eq!(state.current_term, CurrentTermState::new(0));
    assert_eq!(state.log_start, 1);
    assert_eq!(state.log_end_index(), 1);
    assert_eq!(LeaderFollowerState::new(5).next_index, 5);
}

#[test]
fn votes_once_per_term() {
    let mut state = ReplicationState::new(1, vec![1, 2, 3]);
    assert_eq!(
        state.request_vote(1, 2, 0, 0),
        VoteReply::Reply(RequestVoteResult { term: 1, vote_granted: true })
    );
    assert_eq!(state.current_term.voted_for, Some(2));
    assert_eq!(
        state.request_vote(1, 3, 0, 0),
        VoteReply::Reply(RequestVoteResult { term: 1, vote_granted: false })
    );
    assert_eq!(
        state.request_vote(0, 3, 0, 0),
        VoteReply::Reply(RequestVoteResult { term: 1, vote_granted: false })
    );
    assert_eq!(
        state.request_vote(2, 3, 0, 0),
        VoteReply::Reply(RequestVoteResult { term: 2, vote_granted: true })
    );
    assert_eq!(state.current_term.voted_for, Some(3));
}

#[test]
fn append_entries_appends_and_applies() {
    let mut state = ReplicationState::new(1, vec![1, 2]);
    let mut db = Database::new();
    let entries = vec![
        ReplicationLogEntry { term: 1, operation: DatabaseOperation::Insert(10, user("ann")) },
        ReplicationLogEntry { term: 1, operation: DatabaseOperation::ChangeLoginname(10, "anne".to_owned()) },
    ];
    let (reply, heard) = state.append_entries(&mut db, 1, 2, 0, 0, entries);
    assert_eq!(reply, AppendReply::Reply(AppendEntriesResult::Success));
    assert!(heard);
    assert_eq!(state.leader_id, Some(2));
    assert_eq!(state.log.len(), 2);
    assert_eq!(db.get_by_loginname("anne"), Some((10, &user("anne"))));
    assert_eq!(db.get_by_loginname("ann"), None);

    let (stale, heard) = state.append_entries(&mut db, 0, 2, 0, 0, vec![]);
    assert_eq!(stale, AppendReply::Reply(AppendEntriesResult::Failure { term: 1 }));
    assert!(!heard);

    let (mismatch, _) = state.append_entries(&mut db, 1, 2, 2, 5, vec![]);
    assert_eq!(mismatch, AppendReply::Reply(AppendEntriesResult::Failure { term: 1 }));

    let (fault, _) = state.append_entries(&mut db, 1, 2, 1, 1, vec![]);
    assert_eq!(fault, AppendReply::Fault);
}

#[test]
fn election_with_majority() {
    let mut state = ReplicationState::new(1, vec![1, 2, 3]);
    let campaign = state.become_candidate(0).unwrap();
    assert_eq!(campaign, VoteCampaign { term: 1, last_log_index: 1, last_log_term: 0 });
    assert_eq!(state.become_candidate(0), None);
    assert_eq!(state.current_term.voted_for, Some(1));
    assert_eq!(state.record_vote(1, 2, false), VoteProgress::Continue);
    assert_eq!(state.record_vote(1, 2, true), VoteProgress::Elected);
    assert_eq!(state.role.role(), ReplicationRole::Leader);
    assert_eq!(state.leader_id, Some(1));
    assert_eq!(state.record_vote(1, 3, true), VoteProgress::Stop);
    assert!(state.leader_or_err().is_ok());
}

#[test]
fn leader_replicates_entries() {
    let mut service = Service::replicated(Database::new(), ReplicationState::new(1, vec![1, 2]));
    assert_eq!(
        service.create("ann".to_owned(), None, None),
        Err(ServiceError::NotLeader { leader_id: None })
    );
    {
        let state = service.replication.as_mut().unwrap();
        state.become_candidate(0).unwrap();
        assert_eq!(state.record_vote(1, 2, true), VoteProgress::Elected);
    }
    let id = service.create("ann".to_owned(), None, None).unwrap();
    let state = service.replication.as_mut().unwrap();
    assert_eq!(state.log.len(), 1);
    assert_eq!(state.log[0].term, 1);
    assert_eq!(state.log[0].operation, DatabaseOperation::Insert(id, user("ann")));
    match state.plan_replication(2) {
        ReplicationPlan::SendEntries { prev_log_index, prev_log_term, entries } => {
            assert_eq!(prev_log_index, 0);
            assert_eq!(prev_log_term, 0);
            assert_eq!(entries.len(), 1);
        }
        other => panic!("unexpected plan {:?}", other),
    }
    assert_eq!(
        state.handle_append_response(2, 1, 0, 1, AppendEntriesResult::Success),
        ResponseStep::Continue
    );
    match state.plan_replication(2) {
        ReplicationPlan::SendEntries { prev_log_index, prev_log_term, entries } => {
            assert_eq!(prev_log_index, 1);
            assert_eq!(prev_log_term, 1);
            assert!(entries.is_empty());
        }
        other => panic!("unexpected plan {:?}", other),
    }
    assert_eq!(
        state.handle_append_response(2, 1, 1, 0, AppendEntriesResult::Failure { term: 1 }),
        ResponseStep::Continue
    );
    match &state.role {
        ReplicationRoleState::Leader { follower_states } => assert_eq!(follower_states[&2].next_index, 1),
        _ => panic!("not leader"),
    }
    assert_eq!(
        state.handle_append_response(2, 1, 0, 0, AppendEntriesResult::Failure { term: 4 }),
        ResponseStep::Continue
    );
    assert_eq!(state.current_term.id, 4);
    assert_eq!(state.role.role(), ReplicationRole::Follower);
    assert_eq!(state.plan_replication(2), ReplicationPlan::NotLeader);
}

#[test]
fn snapshot_install_replaces_database_and_log() {
    let mut state = ReplicationState::new(1, vec![1, 2]);
    let mut db = Database::new();
    let (step, heard) = state.begin_install_snapshot(3, 2, 5);
    assert_eq!(step, SnapshotStep::NeedsSnapshot);
    assert!(heard);
    assert_eq!(state.current_term.id, 3);
    assert_eq!(state.leader_id, Some(2));
    let snapshot = Snapshot { last_included_index: 5, last_included_term: 3, id_map: vec![(42, user("zed"))] };
    assert_eq!(state.finish_install_snapshot(&mut db, 5, snapshot, "{}".to_owned()), Ok(3));
    assert_eq!(state.log_start, 6);
    assert_eq!(db.get_by_id(42), Some(&user("zed")));
    let (step, _) = state.begin_install_snapshot(3, 2, 5);
    assert_eq!(step, SnapshotStep::Reply(3));
    let (step, heard) = state.begin_install_snapshot(1, 2, 9);
    assert_eq!(step, SnapshotStep::Reply(3));
    assert!(!heard);
    let bad = Snapshot {
        last_included_index: 9,
        last_included_term: 3,
        id_map: vec![(1, user("dup")), (2, user("dup"))],
    };
    assert_eq!(state.finish_install_snapshot(&mut db, 9, bad, "{}".to_owned()), Err(ServiceError::Internal));
    assert_eq!(state.log_start, 6);
}

#[test]
fn lagging_follower_gets_the_snapshot() {
    let mut state = ReplicationState::new(1, vec![1, 2]);
    let db = state
        .restore_from_snapshot(
            Snapshot { last_included_index: 4, last_included_term: 2, id_map: vec![(3, user("amy"))] },
            "text".to_owned(),
        )
        .unwrap();
    assert_eq!(db.get_by_loginname("amy"), Some((3, &user("amy"))));
    assert_eq!(state.current_term.id, 2);
    assert_eq!(state.log_start, 5);
    state.become_candidate(2).unwrap();
    assert_eq!(state.record_vote(3, 2, true), VoteProgress::Elected);
    assert_eq!(
        state.handle_append_response(2, 3, 4, 0, AppendEntriesResult::Failure { term: 3 }),
        ResponseStep::Continue
    );
    assert_eq!(
        state.plan_replication(2),
        ReplicationPlan::SendSnapshot { last_included_index: 4, last_included_term: 2, data: "text".to_owned() }
    );
    assert_eq!(state.handle_snapshot_response(2, 3, 4, 3), ResponseStep::Continue);
    assert_eq!(
        state.plan_replication(2),
        ReplicationPlan::SendEntries { prev_log_index: 4, prev_log_term: 2, entries: vec![] }
    );
}

#[test]
fn snapshot_to_persist_covers_the_log() {
    let mut state = ReplicationState::new(1, vec![1]);
    let mut db = Database::new();
    assert_eq!(state.snapshot_to_persist(&db), None);
    state.add_entry(DatabaseOperation::Insert(9, user("kim")), &mut db);
    let snapshot = state.snapshot_to_persist(&db).unwrap();
    assert_eq!(snapshot.last_included_index, 1);
    assert_eq!(snapshot.last_included_term, 0);
    assert_eq!(snapshot.id_map, vec![(9, user("kim"))]);
}

#[test]
fn follower_replaying_in_batches_matches_leader() {
    let ops = vec![
        DatabaseOperation::Insert(1, user("ann")),
        DatabaseOperation::Insert(2, user("bob")),
        DatabaseOperation::ChangeLoginname(1, "anna".to_owned()),
        DatabaseOperation::Delete(2),
    ];

    let mut leader = ReplicationState::new(1, vec![1, 2]);
    let mut leader_db = Database::new();
    for op in ops.iter() {
        leader.add_entry(op.clone(), &mut leader_db);
    }

    let mut follower = ReplicationState::new(2, vec![1, 2]);
    let mut follower_db = Database::new();
    let (first, _) = follower.append_entries(&mut follower_db, 0, 1, 0, 0, leader.log[..1].to_vec());
    assert_eq!(first, AppendReply::Reply(AppendEntriesResult::Success));
    let (rest, _) = follower.append_entries(&mut follower_db, 0, 1, 1, 0, leader.log[1..].to_vec());
    assert_eq!(rest, AppendReply::Reply(AppendEntriesResult::Success));

    assert_eq!(follower.log, leader.log);
    let mut follower_saved = follower_db.save();
    let mut leader_saved = leader_db.save();
    follower_saved.sort_by_key(|(id, _)| *id);
    leader_saved.sort_by_key(|(id, _)| *id);
    assert_eq!(follower_saved, leader_saved);
    assert_eq!(follower_db.get_by_loginname("anna"), Some((1, &user("anna"))));
    assert_eq!(follower_db.get_by_id(2), None);
}
