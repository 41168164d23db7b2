use opencowork::server::approvals::{ApprovalManager, ApprovalStatus, ApprovalTicket, ApprovalType, Timestamp};
use opencowork::server::config::ApprovalMode;
use opencowork::server::errors::ServerError;
use opencowork::server::handlers::find_approval;
use tokio::sync::oneshot;

fn waiting(t: ApprovalTicket) -> (String, Option<u64>) {
    match t {
        ApprovalTicket::Waiting { id, expire_after_secs } => (id, expire_after_secs),
        ApprovalTicket::Granted(_) => panic!("granted at once"),
    }
}

fn assert_v4_uuid(id: &str) {
    let cs: Vec<char> = id.chars().collect();
    assert_eq!(cs.len(), 36, "{}", id);
    for (i, c) in cs.iter().enumerate() {
        if [8, 13, 18, 23].contains(&i) {
            assert_eq!(*c, '-', "{}", id);
        } else {
            assert!(c.is_ascii_hexdigit() && !c.is_ascii_uppercase(), "{}", id);
        }
    }
    assert_eq!(cs[14], '4');
    assert!(['8', '9', 'a', 'b'].contains(&cs[19]));
}

#[test]
fn auto_mode_grants_at_once() {
    let mut m = ApprovalManager::new(ApprovalMode::Auto, 30);
    assert_eq!(m.mode(), ApprovalMode::Auto);
    let (tx, _rx) = oneshot::channel();
    match m.request_approval(ApprovalType::Command, "ws".into(), "Execute command: ls".into(), "ls".into(), tx) {
        Ok(ApprovalTicket::Granted(id)) => assert_v4_uuid(&id),
        _ => panic!("expected a grant"),
    }
    assert!(m.list_pending().is_empty());
}

#[test]
fn manual_approval_round_trip() {
    let mut m = ApprovalManager::new(ApprovalMode::Manual, 30);
    let (tx, mut rx) = oneshot::channel();
    let t = m.request_approval(ApprovalType::FileWrite, "ws".into(), "Write to file: a".into(), "a".into(), tx);
    let (id, expire) = waiting(t.unwrap());
    assert_v4_uuid(&id);
    assert_eq!(expire, None);
    let req = m.get(&id).expect("held");
    assert_eq!(req.status, ApprovalStatus::Pending);
    assert_eq!(req.approval_type, ApprovalType::FileWrite);
    assert_eq!((req.workspace_id.as_str(), req.resource.as_str()), ("ws", "a"));
    assert_eq!(req.description, "Write to file: a");
    assert!(req.expires_at.is_none());
    assert_eq!(m.list_pending().len(), 1);
    assert_eq!(find_approval(&m, &id).unwrap().id, id);

    let (sender, status) = m.approve(&id).ok().expect("awaiting");
    assert_eq!(status, ApprovalStatus::Approved);
    sender.send(status).unwrap();
    assert_eq!(rx.try_recv().unwrap(), ApprovalStatus::Approved);
    // a second decision is refused
    match m.deny(&id) {
        Err(ServerError::ApprovalNotFound(x)) => assert_eq!(x, id),
        _ => panic!("expected a refusal"),
    }
    assert_eq!(m.finish_request(id.clone(), Some(ApprovalStatus::Approved)).unwrap(), id);
    assert!(m.get(&id).is_none());
    assert!(m.list_pending().is_empty());
    match find_approval(&m, &id) {
        Err(ServerError::ApprovalNotFound(x)) => assert_eq!(x, id),
        other => panic!("unexpected {:?}", other),
    }
}

#[test]
fn denial_stops_the_operation() {
    let mut m = ApprovalManager::new(ApprovalMode::Manual, 30);
    let (tx, mut rx) = oneshot::channel();
    let (id, _) = waiting(m.request_approval(ApprovalType::Command, "ws".into(), "d".into(), "rm".into(), tx).unwrap());
    let (sender, status) = m.deny(&id).ok().expect("awaiting");
    assert_eq!(status, ApprovalStatus::Denied);
    sender.send(status).unwrap();
    let got = rx.try_recv().unwrap();
    assert_eq!(got, ApprovalStatus::Denied);
    match m.finish_request(id, Some(got)) {
        Err(ServerError::ApprovalNotFound(x)) => assert_eq!(x, "operation was denied"),
        other => panic!("unexpected {:?}", other),
    }
}

#[test]
fn timeout_mode_approves_when_time_runs_out() {
    let mut m = ApprovalManager::new(ApprovalMode::Timeout, 30);
    let (tx, mut rx) = oneshot::channel();
    let (id, expire) = waiting(m.request_approval(ApprovalType::Command, "ws".into(), "d".into(), "x".into(), tx).unwrap());
    assert_eq!(expire, Some(30));
    let req = m.get(&id).unwrap();
    assert_eq!(
        req.expires_at,
        Some(Timestamp { secs: req.created_at.secs + 30, nanos: req.created_at.nanos })
    );
    assert!(req.created_at.secs > 1_600_000_000 && req.created_at.nanos < 1_000_000_000);
    let (sender, status) = m.expire(&id).expect("still awaiting");
    assert_eq!(status, ApprovalStatus::Approved);
    sender.send(status).unwrap();
    assert_eq!(rx.try_recv().unwrap(), ApprovalStatus::Approved);
    assert!(m.get(&id).is_none());
    assert_eq!(m.finish_request(id.clone(), Some(ApprovalStatus::Approved)).unwrap(), id);
}

#[test]
fn timeout_after_a_denial_changes_nothing() {
    let mut m = ApprovalManager::new(ApprovalMode::Timeout, 30);
    let (tx, _rx) = oneshot::channel();
    let (id, _) = waiting(m.request_approval(ApprovalType::Command, "ws".into(), "d".into(), "x".into(), tx).unwrap());
    assert!(m.deny(&id).is_ok());
    assert!(m.expire(&id).is_none());
}

#[test]
fn expired_decision_stops_the_operation() {
    let mut m = ApprovalManager::new(ApprovalMode::Manual, 30);
    match m.finish_request("r".into(), Some(ApprovalStatus::Expired)) {
        Err(ServerError::ApprovalTimeout(x)) => assert_eq!(x, "approval request timed out"),
        other => panic!("unexpected {:?}", other),
    }
}

#[test]
fn registering_under_a_taken_id_replaces_the_request() {
    let mut m = ApprovalManager::new(ApprovalMode::Manual, 30);
    let t0 = Timestamp { secs: 1_000, nanos: 5 };
    let (tx0, mut old_rx) = oneshot::channel();
    let t = m.register("req-1".into(), t0, ApprovalType::Command, "ws".into(), "d".into(), "x".into(), tx0);
    let (id, _) = waiting(t.unwrap());
    assert_eq!(id, "req-1");
    assert_eq!(m.get("req-1").unwrap().created_at, t0);
    let t1 = Timestamp { secs: 2_000, nanos: 7 };
    let (tx1, mut new_rx) = oneshot::channel();
    waiting(m.register("req-1".into(), t1, ApprovalType::FileWrite, "ws2".into(), "e".into(), "y".into(), tx1).unwrap());
    let req = m.get("req-1").unwrap();
    assert_eq!(req.created_at, t1);
    assert_eq!(req.approval_type, ApprovalType::FileWrite);
    assert_eq!(m.list_pending().len(), 1);
    // the replaced request's channel is closed; the new one gets the decision
    assert!(old_rx.try_recv().is_err());
    let (sender, status) = m.approve("req-1").ok().expect("awaiting");
    sender.send(status).unwrap();
    assert_eq!(new_rx.try_recv().unwrap(), ApprovalStatus::Approved);
}

#[test]
fn timeout_expiry_out_of_range_is_refused() {
    let mut m = ApprovalManager::new(ApprovalMode::Timeout, 30);
    let late = Timestamp { secs: i64::MAX - 10, nanos: 0 };
    let (tx, _rx) = oneshot::channel();
    match m.register("r".into(), late, ApprovalType::Command, "ws".into(), "d".into(), "x".into(), tx) {
        Err(ServerError::Internal(_)) => {}
        _ => panic!("expected a refusal"),
    }
    // an absurd timeout falls back to thirty seconds
    let mut n = ApprovalManager::new(ApprovalMode::Timeout, u64::MAX);
    let start = Timestamp { secs: 0, nanos: 123 };
    let (tx, _rx) = oneshot::channel();
    let (id, expire) = waiting(n.register("r".into(), start, ApprovalType::Command, "ws".into(), "d".into(), "x".into(), tx).unwrap());
    assert_eq!(expire, Some(u64::MAX));
    assert_eq!(n.get(&id).unwrap().expires_at, Some(Timestamp { secs: 30, nanos: 123 }));
}

#[test]
fn closed_channel_stops_the_operation() {
    let mut m = ApprovalManager::new(ApprovalMode::Manual, 30);
    match m.finish_request("gone".into(), None) {
        Err(ServerError::ApprovalNotFound(x)) => assert_eq!(x, "approval channel closed"),
        other => panic!("unexpected {:?}", other),
    }
    assert!(matches!(m.approve("gone"), Err(ServerError::ApprovalNotFound(_))));
}
