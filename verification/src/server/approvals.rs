//! Approval system for mutating operations.
//!
//! Manages approval requests for file writes and command execution.
//! Supports three modes: auto (always approved), manual (explicit approval),
//! and timeout (auto-approve after delay).
//!
//! Waiting for the decision is the caller's part. The caller opens the
//! decision channel and hands its sending end in with the request; a
//! request that is not granted at once is held with that sender, and the
//! ticket says, in timeout mode, the delay after which
//! [`ApprovalManager::expire`] is to be called. Approving, denying or
//! expiring a request takes its sender back out and gives it with the
//! decision to send on it (expiry approves what was not decided in time).
//! Once the decision (or the closing of the channel) is received,
//! [`ApprovalManager::finish_request`] settles the request.

use vstd::prelude::*;
use dashmap::DashMap;
use tokio::sync::oneshot::Sender;
use crate::server::config::ApprovalMode;
use crate::server::errors::ServerError;

verus! {

/// The current status of an approval request.
#[derive(Debug, Clone, Copy, PartialEq, Eq, Structural)]
pub enum ApprovalStatus {
    /// Waiting for approval decision.
    Pending,
    /// Operation was approved.
    Approved,
    /// Operation was denied.
    Denied,
    /// Operation expired without a decision.
    Expired,
}

/// The type of operation needing approval.
#[derive(Debug, Clone, Copy, PartialEq, Eq, Structural)]
pub enum ApprovalType {
    /// Writing to a file.
    FileWrite,
    /// Executing a command.
    Command,
}

/// A UTC instant: whole seconds since the Unix epoch and the nanoseconds
/// past them.
#[derive(Debug, Clone, Copy, PartialEq, Eq, Structural)]
pub struct Timestamp {
    pub secs: i64,
    pub nanos: u32,
}

/// An approval request.
#[derive(Debug, Clone)]
pub struct ApprovalRequest {
    /// Unique identifier.
    pub id: String,
    /// When the request was created.
    pub created_at: Timestamp,
    /// When the request expires (if using timeout mode).
    pub expires_at: Option<Timestamp>,
    /// The type of operation.
    pub approval_type: ApprovalType,
    /// The workspace ID.
    pub workspace_id: String,
    /// Description of the operation.
    pub description: String,
    /// The resource path (for file writes) or command (for commands).
    pub resource: String,
    /// Current status.
    pub status: ApprovalStatus,
}

/// What a request for approval gives back.
pub enum ApprovalTicket {
    /// Granted at once (auto mode), under this id.
    Granted(String),
    /// Registered under `id`; the decision is sent on the sender handed in.
    /// In timeout mode, `expire_after_secs` says when to call `expire`.
    Waiting { id: String, expire_after_secs: Option<u64> },
}

/// The requests held by a request map, by id.
pub uninterp spec fn request_entries(m: DashMap<String, ApprovalRequest>) -> Map<
    Seq<char>,
    ApprovalRequest,
>;

/// The decision senders held by a sender map, by id.
pub uninterp spec fn decision_senders(m: DashMap<String, Sender<ApprovalStatus>>) -> Map<
    Seq<char>,
    Sender<ApprovalStatus>,
>;

/// `vs` lists the values of `m`, each entry once, in some order.
pub open spec fn lists_entries(vs: Seq<ApprovalRequest>, m: Map<Seq<char>, ApprovalRequest>) -> bool {
    exists|ks: Seq<Seq<char>>|
        {
            &&& ks.len() == vs.len()
            &&& ks.no_duplicates()
            &&& ks.to_set() == m.dom()
            &&& forall|i: int| 0 <= i < ks.len() ==> #[trigger] vs[i] == m[ks[i]]
        }
}

/// `DashMap::new` for the request map: an empty map.
#[verifier::external_body]
fn new_request_map() -> (r: DashMap<String, ApprovalRequest>)
    ensures
        request_entries(r).is_empty(),
{
    DashMap::new()
}

/// `DashMap::insert` on the request map: binds the key to the value.
#[verifier::external_body]
fn insert_request(m: &mut DashMap<String, ApprovalRequest>, key: String, req: ApprovalRequest)
    ensures
        request_entries(*final(m)) == request_entries(*old(m)).insert(key@, req),
{
    m.insert(key, req);
}

/// `DashMap::remove` on the request map: unbinds the key.
#[verifier::external_body]
fn remove_request(m: &mut DashMap<String, ApprovalRequest>, key: &str)
    ensures
        request_entries(*final(m)) == request_entries(*old(m)).remove(key@),
{
    m.remove(key);
}

/// `DashMap::get` on the request map, cloning the value found.
#[verifier::external_body]
fn get_request(m: &DashMap<String, ApprovalRequest>, key: &str) -> (r: Option<ApprovalRequest>)
    ensures
        r is Some <==> request_entries(*m).contains_key(key@),
        r matches Some(v) ==> v == request_entries(*m)[key@],
{
    m.get(key).map(|entry| entry.value().clone())
}

/// `DashMap::iter` on the request map, cloning every value: each entry
/// once, in an order the map does not fix.
#[verifier::external_body]
fn request_values(m: &DashMap<String, ApprovalRequest>) -> (r: Vec<ApprovalRequest>)
    ensures
        lists_entries(r@, request_entries(*m)),
{
    m.iter().map(|entry| entry.value().clone()).collect()
}

/// `DashMap::new` for the sender map: an empty map.
#[verifier::external_body]
fn new_sender_map() -> (r: DashMap<String, Sender<ApprovalStatus>>)
    ensures
        decision_senders(r).is_empty(),
{
    DashMap::new()
}

/// `DashMap::insert` on the sender map.
#[verifier::external_body]
fn insert_sender(m: &mut DashMap<String, Sender<ApprovalStatus>>, key: String, tx: Sender<ApprovalStatus>)
    ensures
        decision_senders(*final(m)) == decision_senders(*old(m)).insert(key@, tx),
{
    m.insert(key, tx);
}

/// `DashMap::remove` on the sender map: takes the sender out, if there is one.
#[verifier::external_body]
fn take_sender(m: &mut DashMap<String, Sender<ApprovalStatus>>, key: &str) -> (r: Option<Sender<ApprovalStatus>>)
    ensures
        r == (if decision_senders(*old(m)).contains_key(key@) {
            Some(decision_senders(*old(m))[key@])
        } else {
            None
        }),
        decision_senders(*final(m)) == decision_senders(*old(m)).remove(key@),
{
    m.remove(key).map(|(_, tx)| tx)
}

/// A lowercase hexadecimal digit.
pub open spec fn is_lower_hex(c: char) -> bool {
    ('0' <= c && c <= '9') || ('a' <= c && c <= 'f')
}

/// The text of a random (version 4, RFC 4122 variant) UUID in hyphenated
/// lowercase form: 8-4-4-4-12 hex digits, the version digit `4`, the variant
/// digit one of `8`, `9`, `a`, `b`.
pub open spec fn is_v4_uuid_text(s: Seq<char>) -> bool {
    &&& s.len() == 36
    &&& forall|i: int|
        0 <= i < 36 ==> (if i == 8 || i == 13 || i == 18 || i == 23 {
            s[i] == '-'
        } else {
            is_lower_hex(#[trigger] s[i])
        })
    &&& s[14] == '4'
    &&& (s[19] == '8' || s[19] == '9' || s[19] == 'a' || s[19] == 'b')
}

/// `uuid::Uuid::new_v4`, rendered by its `Display` (hyphenated, lowercase):
/// a fresh random identifier.
#[verifier::external_body]
pub(crate) fn new_uuid() -> (r: String)
    ensures
        is_v4_uuid_text(r@),
{
    uuid::Uuid::new_v4().to_string()
}

/// The latest second chrono can represent: the end of year 262142.
pub const LATEST_SECS: i64 = 8_210_266_876_799;

/// `chrono::Utc::now`, as its seconds since the Unix epoch and the
/// nanoseconds past them. chrono builds it from the system time after the
/// epoch (it panics on a clock set before) with `DateTime::from_timestamp`,
/// which it unwraps, so the reading lies in chrono's range and its
/// nanoseconds are those of a `Duration`, below one second.
#[verifier::external_body]
pub(crate) fn now_utc() -> (r: Timestamp)
    ensures
        0 <= r.secs <= LATEST_SECS,
        r.nanos < 1_000_000_000,
{
    let t = chrono::Utc::now();
    Timestamp { secs: t.timestamp(), nanos: t.timestamp_subsec_nanos() }
}

/// The longest span, in seconds, that a time difference can hold; a longer
/// timeout falls back to thirty seconds.
pub const MAX_SPAN_SECS: u64 = 9_223_372_036_854_775;

/// The timeout in seconds that a configured timeout in seconds gives.
pub open spec fn timeout_span(secs: u64) -> int {
    if secs <= MAX_SPAN_SECS {
        secs as int
    } else {
        30
    }
}

/// The instant `span` seconds after `t`.
pub open spec fn after_secs(t: Timestamp, span: int) -> Timestamp {
    Timestamp { secs: (t.secs + span) as i64, nanos: t.nanos }
}

/// The result a waiting request settles to, given the decision received
/// (`None` when the decision channel closed without one).
pub open spec fn settled(id: Seq<char>, outcome: Option<ApprovalStatus>) -> Result<
    Seq<char>,
    (u16, Seq<char>),
> {
    match outcome {
        Some(ApprovalStatus::Approved) => Ok(id),
        Some(ApprovalStatus::Denied) => Err((404, "operation was denied"@)),
        Some(ApprovalStatus::Expired) => Err((408, "approval request timed out"@)),
        Some(ApprovalStatus::Pending) => Err((500, "unexpected pending status"@)),
        None => Err((404, "approval channel closed"@)),
    }
}

/// The shape of a server error, as (status, payload text): what `settled`
/// speaks of.
pub open spec fn error_shape(e: ServerError) -> (u16, Seq<char>) {
    match e {
        ServerError::ApprovalNotFound(m) => (404, m@),
        ServerError::ApprovalTimeout(m) => (408, m@),
        ServerError::Internal(m) => (500, m@),
        _ => (0, Seq::empty()),
    }
}

/// Maps a received decision to the outcome of the operation: approval lets
/// it proceed under `id`, anything else stops it with an error.
pub fn decision_result(id: String, outcome: Option<ApprovalStatus>) -> (r: Result<String, ServerError>)
    ensures
        match (r, settled(id@, outcome)) {
            (Ok(v), Ok(w)) => v@ == w,
            (Err(e), Err(w)) => error_shape(e) == w,
            _ => false,
        },
{
    match outcome {
        Some(ApprovalStatus::Approved) => Ok(id),
        Some(ApprovalStatus::Denied) => Err(ServerError::ApprovalNotFound("operation was denied".to_string())),
        Some(ApprovalStatus::Expired) => Err(
            ServerError::ApprovalTimeout("approval request timed out".to_string()),
        ),
        Some(ApprovalStatus::Pending) => Err(
            ServerError::Internal("unexpected pending status".to_string()),
        ),
        None => Err(ServerError::ApprovalNotFound("approval channel closed".to_string())),
    }
}

/// Manages approval requests.
pub struct ApprovalManager {
    /// Active approval request metadata.
    requests: DashMap<String, ApprovalRequest>,
    /// Pending decision senders keyed by request ID.
    senders: DashMap<String, Sender<ApprovalStatus>>,
    /// The approval mode.
    mode: ApprovalMode,
    /// Timeout for timeout mode, in seconds.
    timeout_secs: u64,
}

/// What deciding `id` with `status` does: it succeeds exactly when `id`
/// awaits a decision, and then hands back the sender held for it with
/// `status`; either way the id no longer awaits a decision and the requests
/// stay as they were.
pub open spec fn decision_step(
    before: ApprovalManager,
    after: ApprovalManager,
    id: Seq<char>,
    status: ApprovalStatus,
    r: Result<(Sender<ApprovalStatus>, ApprovalStatus), ServerError>,
) -> bool {
    &&& after.senders() == before.senders().remove(id)
    &&& after.requests() == before.requests()
    &&& (r is Ok <==> before.awaiting().contains(id))
    &&& (r matches Ok(d) ==> d.0 == before.senders()[id] && d.1 == status)
    &&& (r matches Err(e) ==> (e matches ServerError::ApprovalNotFound(m) && m@ == id))
}

impl ApprovalManager {
    /// The requests held, by id.
    pub closed spec fn requests(&self) -> Map<Seq<char>, ApprovalRequest> {
        request_entries(self.requests)
    }

    /// The decision senders held, by id.
    pub closed spec fn senders(&self) -> Map<Seq<char>, Sender<ApprovalStatus>> {
        decision_senders(self.senders)
    }

    /// The ids still awaiting a decision.
    pub open spec fn awaiting(&self) -> Set<Seq<char>> {
        self.senders().dom()
    }

    pub closed spec fn spec_mode(&self) -> ApprovalMode {
        self.mode
    }

    pub closed spec fn spec_timeout_secs(&self) -> u64 {
        self.timeout_secs
    }

    /// Every request held is pending and is held under its own id; every
    /// id awaiting a decision has its request held.
    pub open spec fn well_formed(&self) -> bool {
        &&& forall|k: Seq<char>| #[trigger]
            self.requests().contains_key(k) ==> self.requests()[k].id@ == k
                && self.requests()[k].status == ApprovalStatus::Pending
        &&& forall|k: Seq<char>| #[trigger] self.awaiting().contains(k) ==> self.requests().contains_key(k)
    }

    /// Well-formedness survives dropping an id from both maps, or from the
    /// senders alone.
    proof fn lemma_wf_remove(a: &Self, b: &Self, id: Seq<char>)
        requires
            a.well_formed(),
            b.requests() == a.requests().remove(id) || b.requests() == a.requests(),
            b.senders() == a.senders().remove(id),
        ensures
            b.well_formed(),
    {
        assert forall|k: Seq<char>| #[trigger] b.requests().contains_key(k) implies b.requests()[k].id@
            == k && b.requests()[k].status == ApprovalStatus::Pending by {
            assert(a.requests().contains_key(k));
        }
        assert forall|k: Seq<char>| #[trigger] b.awaiting().contains(k) implies b.requests().contains_key(
            k,
        ) by {
            assert(a.awaiting().contains(k));
            assert(a.requests().contains_key(k));
        }
    }

    /// Create a new approval manager with nothing pending.
    pub fn new(mode: ApprovalMode, timeout_secs: u64) -> (r: Self)
        ensures
            r.well_formed(),
            r.requests() == Map::<Seq<char>, ApprovalRequest>::empty(),
            r.senders() == Map::<Seq<char>, Sender<ApprovalStatus>>::empty(),
            r.spec_mode() == mode,
            r.spec_timeout_secs() == timeout_secs,
    {
        Self { requests: new_request_map(), senders: new_sender_map(), mode, timeout_secs }
    }

    /// Request approval for an operation, with the sender the decision is
    /// to be sent on. In auto mode it is granted at once and nothing is
    /// recorded; otherwise a pending request is recorded under a fresh id
    /// with its creation time and, in timeout mode, its expiry, and the
    /// sender is held for it.
    pub fn request_approval(
        &mut self,
        approval_type: ApprovalType,
        workspace_id: String,
        description: String,
        resource: String,
        decision: Sender<ApprovalStatus>,
    ) -> (r: Result<ApprovalTicket, ServerError>)
        requires
            old(self).well_formed(),
        ensures
            final(self).well_formed(),
            final(self).spec_mode() == old(self).spec_mode(),
            final(self).spec_timeout_secs() == old(self).spec_timeout_secs(),
            r is Ok,
            old(self).spec_mode() == ApprovalMode::Auto ==> r->Ok_0 is Granted
                && is_v4_uuid_text(r->Ok_0->Granted_0@)
                && final(self).requests() == old(self).requests()
                && final(self).senders() == old(self).senders(),
            old(self).spec_mode() != ApprovalMode::Auto ==> match r {
                Ok(ApprovalTicket::Waiting { id, expire_after_secs }) => {
                    &&& is_v4_uuid_text(id@)
                    &&& final(self).requests() == old(self).requests().insert(
                        id@,
                        final(self).requests()[id@],
                    )
                    &&& final(self).senders() == old(self).senders().insert(id@, decision)
                    &&& final(self).requests()[id@].approval_type == approval_type
                    &&& final(self).requests()[id@].workspace_id == workspace_id
                    &&& final(self).requests()[id@].description == description
                    &&& final(self).requests()[id@].resource == resource
                    &&& (final(self).requests()[id@].expires_at is Some <==> old(
                        self,
                    ).spec_mode() == ApprovalMode::Timeout)
                    &&& (final(self).requests()[id@].expires_at matches Some(e) ==> e == after_secs(
                        final(self).requests()[id@].created_at,
                        timeout_span(old(self).spec_timeout_secs()),
                    ))
                    &&& (expire_after_secs is Some <==> old(self).spec_mode()
                        == ApprovalMode::Timeout)
                    &&& (expire_after_secs matches Some(s) ==> s == old(self).spec_timeout_secs())
                },
                _ => false,
            },
    {
        match self.mode {
            ApprovalMode::Auto => {
                return Ok(ApprovalTicket::Granted(new_uuid()));
            },
            ApprovalMode::Manual | ApprovalMode::Timeout => {},
        }
        let id = new_uuid();
        let now = now_utc();
        proof {
            assert(now.secs + timeout_span(self.timeout_secs) <= i64::MAX);
        }
        self.register(id, now, approval_type, workspace_id, description, resource, decision)
    }

    /// Records a pending request under `id`, created at `now`, holding
    /// `decision` for it; a request held under the same id is replaced (its
    /// sender is dropped, so its waiting call sees its channel closed). It
    /// fails only where the expiry would not be representable.
    pub fn register(
        &mut self,
        id: String,
        now: Timestamp,
        approval_type: ApprovalType,
        workspace_id: String,
        description: String,
        resource: String,
        decision: Sender<ApprovalStatus>,
    ) -> (r: Result<ApprovalTicket, ServerError>)
        requires
            old(self).well_formed(),
            old(self).spec_mode() != ApprovalMode::Auto,
        ensures
            final(self).well_formed(),
            final(self).spec_mode() == old(self).spec_mode(),
            final(self).spec_timeout_secs() == old(self).spec_timeout_secs(),
            r is Ok <==> (old(self).spec_mode() == ApprovalMode::Timeout ==> now.secs + timeout_span(
                old(self).spec_timeout_secs(),
            ) <= i64::MAX),
            match r {
                Ok(ApprovalTicket::Waiting { id: rid, expire_after_secs }) => {
                    &&& rid@ == id@
                    &&& final(self).requests() == old(self).requests().insert(
                        id@,
                        final(self).requests()[id@],
                    )
                    &&& final(self).senders() == old(self).senders().insert(id@, decision)
                    &&& final(self).requests()[id@].created_at == now
                    &&& final(self).requests()[id@].approval_type == approval_type
                    &&& final(self).requests()[id@].workspace_id == workspace_id
                    &&& final(self).requests()[id@].description == description
                    &&& final(self).requests()[id@].resource == resource
                    &&& final(self).requests()[id@].expires_at == (if old(self).spec_mode()
                        == ApprovalMode::Timeout {
                        Some(after_secs(now, timeout_span(old(self).spec_timeout_secs())))
                    } else {
                        None
                    })
                    &&& expire_after_secs == (if old(self).spec_mode() == ApprovalMode::Timeout {
                        Some(old(self).spec_timeout_secs())
                    } else {
                        None
                    })
                },
                Ok(ApprovalTicket::Granted(_)) => false,
                Err(e) => e is Internal && final(self).requests() == old(self).requests()
                    && final(self).senders() == old(self).senders(),
            },
    {
        let timed = match self.mode {
            ApprovalMode::Timeout => true,
            _ => false,
        };
        let mut expires_at: Option<Timestamp> = None;
        if timed {
            let span: u64 = if self.timeout_secs <= MAX_SPAN_SECS {
                self.timeout_secs
            } else {
                30
            };
            let span = span as i64;
            if now.secs > i64::MAX - span {
                return Err(ServerError::Internal("approval expiry out of range".to_string()));
            }
            expires_at = Some(Timestamp { secs: now.secs + span, nanos: now.nanos });
        }
        let request = ApprovalRequest {
            id: id.clone(),
            created_at: now,
            expires_at,
            approval_type,
            workspace_id,
            description,
            resource,
            status: ApprovalStatus::Pending,
        };
        let ghost before = *self;
        let ghost req = request;
        assert(req.id@ == id@);
        insert_request(&mut self.requests, id.clone(), request);
        insert_sender(&mut self.senders, id.clone(), decision);
        proof {
            let a = before;
            let b = *self;
            assert forall|k: Seq<char>| #[trigger] b.requests().contains_key(k) implies b.requests()[k].id@
                == k && b.requests()[k].status == ApprovalStatus::Pending by {
                if k != id@ {
                    assert(a.requests().contains_key(k));
                }
            }
            assert forall|k: Seq<char>| #[trigger] b.awaiting().contains(k) implies b.requests().contains_key(
                k,
            ) by {
                if k != id@ {
                    assert(a.awaiting().contains(k));
                }
            }
        }
        let expire_after_secs = if timed {
            Some(self.timeout_secs)
        } else {
            None
        };
        Ok(ApprovalTicket::Waiting { id, expire_after_secs })
    }

    /// Settles a waiting request once its decision (or the closing of its
    /// channel) was received: the request is dropped either way, and the
    /// operation proceeds only on approval.
    pub fn finish_request(&mut self, id: String, outcome: Option<ApprovalStatus>) -> (r: Result<
        String,
        ServerError,
    >)
        requires
            old(self).well_formed(),
        ensures
            final(self).well_formed(),
            final(self).spec_mode() == old(self).spec_mode(),
            final(self).spec_timeout_secs() == old(self).spec_timeout_secs(),
            final(self).requests() == old(self).requests().remove(id@),
            final(self).senders() == old(self).senders().remove(id@),
            match (r, settled(id@, outcome)) {
                (Ok(v), Ok(w)) => v@ == w,
                (Err(e), Err(w)) => error_shape(e) == w,
                _ => false,
            },
    {
        let ghost before = *self;
        let _ = take_sender(&mut self.senders, id.as_str());
        remove_request(&mut self.requests, id.as_str());
        proof {
            Self::lemma_wf_remove(&before, self, id@);
        }
        decision_result(id, outcome)
    }

    /// Ends the wait of a request whose timeout has passed: if it still
    /// awaits a decision, its sender comes back with the decision to send,
    /// an approval (timeout mode approves what was not denied in time); the
    /// request is dropped either way.
    pub fn expire(&mut self, id: &str) -> (r: Option<(Sender<ApprovalStatus>, ApprovalStatus)>)
        requires
            old(self).well_formed(),
        ensures
            final(self).well_formed(),
            final(self).spec_mode() == old(self).spec_mode(),
            final(self).spec_timeout_secs() == old(self).spec_timeout_secs(),
            final(self).requests() == old(self).requests().remove(id@),
            final(self).senders() == old(self).senders().remove(id@),
            r == (if old(self).awaiting().contains(id@) {
                Some((old(self).senders()[id@], ApprovalStatus::Approved))
            } else {
                None
            }),
    {
        let ghost before = *self;
        let taken = take_sender(&mut self.senders, id);
        remove_request(&mut self.requests, id);
        proof {
            Self::lemma_wf_remove(&before, self, id@);
        }
        match taken {
            Some(tx) => Some((tx, ApprovalStatus::Approved)),
            None => None,
        }
    }

    /// Takes the sender of the request awaiting a decision under `id`, to
    /// send `status` on.
    fn decide(&mut self, id: &str, status: ApprovalStatus) -> (r: Result<
        (Sender<ApprovalStatus>, ApprovalStatus),
        ServerError,
    >)
        requires
            old(self).well_formed(),
        ensures
            final(self).well_formed(),
            final(self).spec_mode() == old(self).spec_mode(),
            final(self).spec_timeout_secs() == old(self).spec_timeout_secs(),
            decision_step(*old(self), *final(self), id@, status, r),
    {
        let ghost before = *self;
        let taken = take_sender(&mut self.senders, id);
        proof {
            Self::lemma_wf_remove(&before, self, id@);
        }
        match taken {
            Some(tx) => Ok((tx, status)),
            None => Err(ServerError::ApprovalNotFound(id.to_string())),
        }
    }

    /// Approve a pending request: succeeds exactly when `id` awaits a
    /// decision, which it then no longer does, and gives back the request's
    /// sender with the approval to send on it, so that its operation
    /// proceeds.
    pub fn approve(&mut self, id: &str) -> (r: Result<(Sender<ApprovalStatus>, ApprovalStatus), ServerError>)
        requires
            old(self).well_formed(),
        ensures
            final(self).well_formed(),
            final(self).spec_mode() == old(self).spec_mode(),
            final(self).spec_timeout_secs() == old(self).spec_timeout_secs(),
            decision_step(*old(self), *final(self), id@, ApprovalStatus::Approved, r),
    {
        self.decide(id, ApprovalStatus::Approved)
    }

    /// Deny a pending request: succeeds exactly when `id` awaits a decision,
    /// which it then no longer does, and gives back the request's sender
    /// with the denial to send on it, so that its operation is stopped.
    pub fn deny(&mut self, id: &str) -> (r: Result<(Sender<ApprovalStatus>, ApprovalStatus), ServerError>)
        requires
            old(self).well_formed(),
        ensures
            final(self).well_formed(),
            final(self).spec_mode() == old(self).spec_mode(),
            final(self).spec_timeout_secs() == old(self).spec_timeout_secs(),
            decision_step(*old(self), *final(self), id@, ApprovalStatus::Denied, r),
    {
        self.decide(id, ApprovalStatus::Denied)
    }

    /// List all pending approval requests, each once, in no fixed order.
    pub fn list_pending(&self) -> (r: Vec<ApprovalRequest>)
        ensures
            lists_entries(r@, self.requests()),
    {
        request_values(&self.requests)
    }

    /// Get a specific approval request.
    pub fn get(&self, id: &str) -> (r: Option<ApprovalRequest>)
        ensures
            r is Some <==> self.requests().contains_key(id@),
            r matches Some(v) ==> v == self.requests()[id@],
    {
        get_request(&self.requests, id)
    }

    /// Get the approval mode.
    pub fn mode(&self) -> (r: ApprovalMode)
        ensures
            r == self.spec_mode(),
    {
        self.mode
    }
}

/// Every request a well-formed manager holds is still pending: a request
/// is dropped once it is settled, never kept with a decision.
pub proof fn law_held_requests_pending(m: ApprovalManager, id: Seq<char>)
    requires
        m.well_formed(),
        m.requests().contains_key(id),
    ensures
        m.requests()[id].status == ApprovalStatus::Pending,
        m.requests()[id].id@ == id,
{
}

/// A decision is taken once: after a request was approved or denied, a
/// second approval or denial of it is refused with `ApprovalNotFound`.
pub proof fn law_decision_taken_once(
    m0: ApprovalManager,
    m1: ApprovalManager,
    m2: ApprovalManager,
    id: Seq<char>,
    first: ApprovalStatus,
    second: ApprovalStatus,
    r1: Result<(Sender<ApprovalStatus>, ApprovalStatus), ServerError>,
    r2: Result<(Sender<ApprovalStatus>, ApprovalStatus), ServerError>,
)
    requires
        decision_step(m0, m1, id, first, r1),
        r1 is Ok,
        decision_step(m1, m2, id, second, r2),
    ensures
        r2 is Err,
{
}

/// The decision handed back settles the waiting call it is sent to: an
/// approval lets the operation proceed under the request's id, a denial
/// stops it with "operation was denied".
pub proof fn law_decision_settles_call(
    before: ApprovalManager,
    after: ApprovalManager,
    id: Seq<char>,
    status: ApprovalStatus,
    r: Result<(Sender<ApprovalStatus>, ApprovalStatus), ServerError>,
)
    requires
        decision_step(before, after, id, status, r),
        r is Ok,
    ensures
        status == ApprovalStatus::Approved ==> settled(id, Some(r->Ok_0.1)) == Ok::<
            Seq<char>,
            (u16, Seq<char>),
        >(id),
        status == ApprovalStatus::Denied ==> settled(id, Some(r->Ok_0.1)) == Err::<
            Seq<char>,
            (u16, Seq<char>),
        >((404u16, "operation was denied"@)),
{
}

/// Only an approval lets the guarded operation proceed, under the request's
/// own id; a denial, an `Expired` decision or a closed channel stops it.
pub proof fn law_only_approval_proceeds(id: Seq<char>, outcome: Option<ApprovalStatus>)
    ensures
        settled(id, outcome) is Ok <==> outcome == Some(ApprovalStatus::Approved),
        settled(id, outcome) matches Ok(v) ==> v == id,
{
}

} // verus!
