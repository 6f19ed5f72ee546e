//! The decisions of the worker runtime: lease bookkeeping, what to tell the store when a
//! handler finishes, how a failed store call is treated, and how long to wait between polls.

use vstd::prelude::*;

use crate::config::{WorkerConfig, worker_config_valid};
use crate::error::{Error, ErrorView, Result};
use crate::store::{FailureAction, FailureRequest, ReserveBatch, ReservedJob};
use crate::time::{Duration, Timestamp, max_duration_nanos, next_poll_delay, sleep_duration, sleep_duration_spec};
use crate::types::JobOutcome;

verus! {

/// One attempt at a job: the job and the lease token it was leased under.
#[derive(Debug, Clone, PartialEq, Eq)]
pub struct LeaseAttemptKey {
    pub job_id: String,
    pub lease_token: String,
}

impl View for LeaseAttemptKey {
    type V = (Seq<char>, Seq<char>);

    open spec fn view(&self) -> (Seq<char>, Seq<char>) {
        (self.job_id@, self.lease_token@)
    }
}

impl LeaseAttemptKey {
    /// The attempt at `job_id` under `lease_token`.
    pub fn new(job_id: String, lease_token: String) -> (key: LeaseAttemptKey)
        ensures
            key@ == (job_id@, lease_token@),
    {
        LeaseAttemptKey { job_id, lease_token }
    }

    /// Whether two keys name the same attempt.
    pub fn same(&self, other: &LeaseAttemptKey) -> (b: bool)
        ensures
            b == (self@ == other@),
    {
        self.job_id == other.job_id && self.lease_token == other.lease_token
    }
}

/// A job this worker is running, and whether its lease is still heartbeated.
#[derive(Debug, Clone)]
pub struct ActiveLease {
    job_id: String,
    lease_token: String,
    heartbeat_enabled: bool,
}

impl ActiveLease {
    /// Whether the lease is still heartbeated.
    pub closed spec fn heartbeat_on(&self) -> bool {
        self.heartbeat_enabled
    }

    /// The attempt this lease belongs to.
    pub closed spec fn key(&self) -> (Seq<char>, Seq<char>) {
        (self.job_id@, self.lease_token@)
    }

    /// A freshly started lease, heartbeated.
    pub fn new(job_id: String, lease_token: String) -> (lease: ActiveLease)
        ensures
            lease.key() == (job_id@, lease_token@),
            lease.heartbeat_on(),
    {
        ActiveLease { job_id, lease_token, heartbeat_enabled: true }
    }

    /// The attempt this lease belongs to.
    pub fn attempt_key(&self) -> (key: LeaseAttemptKey)
        ensures
            key@ == self.key(),
    {
        LeaseAttemptKey::new(self.job_id.clone(), self.lease_token.clone())
    }

    /// Stops heartbeating the lease: the store reported it lost.
    pub fn disable_heartbeat(&mut self)
        ensures
            final(self).key() == old(self).key(),
            !final(self).heartbeat_on(),
    {
        self.heartbeat_enabled = false;
    }

    /// A copy of the lease that is no longer heartbeated.
    pub fn without_heartbeat(&self) -> (lease: ActiveLease)
        ensures
            lease.key() == self.key(),
            !lease.heartbeat_on(),
    {
        ActiveLease { job_id: self.job_id.clone(), lease_token: self.lease_token.clone(), heartbeat_enabled: false }
    }

    /// Whether the lease is still heartbeated.
    pub fn heartbeat_enabled(&self) -> (b: bool)
        ensures
            b == self.heartbeat_on(),
    {
        self.heartbeat_enabled
    }
}

/// A handler that finished, with what it returned: an outcome, or a retryable failure.
#[derive(Debug)]
pub struct CompletedLease {
    pub job_id: String,
    pub lease_token: String,
    pub result: core::result::Result<JobOutcome, String>,
}

impl CompletedLease {
    /// The attempt this completion belongs to.
    pub open spec fn key(&self) -> (Seq<char>, Seq<char>) {
        (self.job_id@, self.lease_token@)
    }

    /// The attempt this completion belongs to.
    pub fn attempt_key(&self) -> (key: LeaseAttemptKey)
        ensures
            key@ == self.key(),
    {
        LeaseAttemptKey::new(self.job_id.clone(), self.lease_token.clone())
    }
}

/// The store call that settles a finished handler.
#[derive(Debug, Clone)]
pub enum CompletionAction {
    /// The job is done: acknowledge the lease.
    Ack,
    /// The job is done and runs again at `schedule_at`, or at once when there is none.
    CompleteAndReschedule { schedule_at: Option<Timestamp> },
    /// The job failed: report it under the retry policy.
    FailOrRetry { request: FailureRequest },
}

/// Which store call settles a finished handler: a completion is acknowledged, a
/// reschedule completes and re-queues, an explicit failure is terminal, and a handler
/// error is a retryable failure.
pub fn completion_action(completed: &CompletedLease, config: &WorkerConfig, now: Timestamp) -> (action: CompletionAction)
    ensures
        match completed.result {
            Ok(JobOutcome::Complete) => action is Ack,
            Ok(JobOutcome::Reschedule { schedule_at }) => action == (CompletionAction::CompleteAndReschedule { schedule_at }),
            Ok(JobOutcome::Fail { .. }) => action matches CompletionAction::FailOrRetry { request }
                && request.action == FailureAction::Terminal
                && request.worker_id@ == config.worker_id@
                && request.job_id@ == completed.job_id@
                && request.lease_token@ == completed.lease_token@
                && request.retry_policy == config.retry_policy
                && request.now == now,
            Err(_) => action matches CompletionAction::FailOrRetry { request }
                && request.action == FailureAction::Retryable
                && request.worker_id@ == config.worker_id@
                && request.job_id@ == completed.job_id@
                && request.lease_token@ == completed.lease_token@
                && request.retry_policy == config.retry_policy
                && request.now == now,
        },
{
    match &completed.result {
        Ok(JobOutcome::Complete) => CompletionAction::Ack,
        Ok(JobOutcome::Reschedule { schedule_at }) => CompletionAction::CompleteAndReschedule { schedule_at: *schedule_at },
        Ok(JobOutcome::Fail { .. }) => CompletionAction::FailOrRetry {
            request: FailureRequest {
                worker_id: config.worker_id.clone(),
                job_id: completed.job_id.clone(),
                lease_token: completed.lease_token.clone(),
                action: FailureAction::Terminal,
                retry_policy: config.retry_policy,
                now,
            },
        },
        Err(_) => CompletionAction::FailOrRetry {
            request: FailureRequest {
                worker_id: config.worker_id.clone(),
                job_id: completed.job_id.clone(),
                lease_token: completed.lease_token.clone(),
                action: FailureAction::Retryable,
                retry_policy: config.retry_policy,
                now,
            },
        },
    }
}

/// How a periodic runtime call (heartbeat, reap) that failed is treated: a recoverable
/// error asks for a backoff (`true`), any other error stops the worker.
pub fn recoverable_runtime_result(operation: &'static str, result: Result<()>) -> (r: Result<bool>)
    ensures
        match result {
            Ok(()) => r == Ok::<bool, Error>(false),
            Err(e) => if e.recoverable_worker_runtime() {
                r == Ok::<bool, Error>(true)
            } else {
                r == Err::<bool, Error>(e)
            },
        },
{
    let _ = operation;
    match result {
        Ok(()) => Ok(false),
        Err(error) => {
            if error.is_recoverable_worker_runtime() {
                Ok(true)
            } else {
                Err(error)
            }
        },
    }
}

/// Whether a character is a lower-case hexadecimal digit.
pub open spec fn is_lower_hex(c: char) -> bool {
    ('0' <= c && c <= '9') || ('a' <= c && c <= 'f')
}

/// Whether a text is the hyphenated lower-case form of a version 7 UUID: 36 characters,
/// hyphens after the 8th, 12th, 16th and 20th hexadecimal digit, the version digit `7`,
/// and a variant digit of `8`, `9`, `a` or `b`.
pub open spec fn uuid_v7_text(s: Seq<char>) -> bool {
    &&& s.len() == 36
    &&& forall|i: int| 0 <= i < 36 ==> if i == 8 || i == 13 || i == 18 || i == 23 {
        #[trigger] s[i] == '-'
    } else {
        is_lower_hex(s[i])
    }
    &&& s[14] == '7'
    &&& (s[19] == '8' || s[19] == '9' || s[19] == 'a' || s[19] == 'b')
}

/// Trusted: `uuid::Uuid::now_v7`, printed with `to_string`. The value rests on the clock
/// and on chance, so only its form is stated: the source builds the UUID with version 7
/// and the RFC 4122 variant and prints it hyphenated in lower-case hexadecimal. That
/// tokens of one process differ is not stated.
#[verifier::external_body]
fn new_lease_token() -> (token: String)
    ensures
        uuid_v7_text(token@),
{
    uuid::Uuid::now_v7().to_string()
}

/// Fresh lease tokens for a reservation, one per job it may lease.
pub fn new_lease_tokens(count: usize) -> (tokens: Vec<String>)
    ensures
        tokens@.len() == count,
        forall|i: int| 0 <= i < count ==> uuid_v7_text((#[trigger] tokens@[i])@),
{
    let mut tokens: Vec<String> = Vec::new();
    let mut i: usize = 0;
    while i < count
        invariant
            i <= count,
            tokens@.len() == i,
            forall|j: int| 0 <= j < i ==> uuid_v7_text((#[trigger] tokens@[j])@),
        decreases count - i,
    {
        tokens.push(new_lease_token());
        i = i + 1;
    }
    tokens
}

/// How many more jobs the worker may reserve.
pub fn available_capacity(concurrency: usize, active: usize) -> (c: usize)
    ensures
        c == if concurrency >= active { (concurrency - active) as usize } else { 0 },
{
    if concurrency >= active { concurrency - active } else { 0 }
}

/// The polling state of a worker as the contracts speak of it; the next due time is in
/// nanoseconds since the epoch.
pub ghost struct PollView {
    pub poll_delay: nat,
    pub next_schedule_at: Option<int>,
    pub reserve_sleep: Option<(nat, bool)>,
}

/// What a worker remembers between polls: the current polling delay, when the next
/// scheduled job falls due, and a pending sleep before the next reservation together
/// with whether the delay grows after it.
#[derive(Debug, Clone)]
pub struct PollState {
    poll_delay: Duration,
    next_schedule_at: Option<Timestamp>,
    reserve_sleep: Option<(Duration, bool)>,
}

impl View for PollState {
    type V = PollView;

    closed spec fn view(&self) -> PollView {
        PollView {
            poll_delay: self.poll_delay@,
            next_schedule_at: match self.next_schedule_at { Some(t) => Some(t.instant_nanos()), None => None },
            reserve_sleep: match self.reserve_sleep { Some((d, grow)) => Some((d@, grow)), None => None },
        }
    }
}

/// The polling state stays within the configured bounds: the delay between the minimum
/// and the maximum poll interval, and a pending sleep no longer than the maximum.
pub open spec fn poll_within(poll: PollView, config: WorkerConfig) -> bool {
    &&& config.poll_interval_min@ <= poll.poll_delay <= config.poll_interval_max@
    &&& match poll.reserve_sleep {
        Some((d, _)) => d <= config.poll_interval_max@,
        None => true,
    }
}

/// How long the sleep branch of a worker waits at `now` (nanoseconds since the epoch):
/// the pending sleep, or else the time until the next due job capped at the polling delay.
pub open spec fn poll_sleep_spec(poll: PollView, now: int) -> nat {
    match poll.reserve_sleep {
        Some((pending, _)) => pending,
        None => sleep_duration_spec(now, poll.poll_delay, poll.next_schedule_at),
    }
}

/// While the polling state stays within the configured bounds, a worker never sleeps
/// longer than the maximum poll interval before it polls again.
pub proof fn lemma_poll_sleep_within_max(poll: PollView, config: WorkerConfig, now: int)
    requires
        poll_within(poll, config),
    ensures
        poll_sleep_spec(poll, now) <= config.poll_interval_max@,
{
}

impl PollState {
    /// The state of a worker that has not polled yet: the minimum delay, nothing due,
    /// and no pending sleep.
    pub fn new(config: &WorkerConfig) -> (s: PollState)
        ensures
            s@ == (PollView { poll_delay: config.poll_interval_min@, next_schedule_at: None, reserve_sleep: None }),
            worker_config_valid(*config) ==> poll_within(s@, *config),
    {
        PollState { poll_delay: config.poll_interval_min, next_schedule_at: None, reserve_sleep: None }
    }

    /// Whether a sleep is pending before the next reservation.
    pub fn sleeping(&self) -> (b: bool)
        ensures
            b == self@.reserve_sleep is Some,
    {
        self.reserve_sleep.is_some()
    }

    /// How long the sleep branch waits: the pending sleep, or else the time until the next
    /// due job capped at the polling delay.
    pub fn sleep_for(&self, now: Timestamp) -> (d: Duration)
        ensures
            d@ == poll_sleep_spec(self@, now.instant_nanos()),
    {
        match self.reserve_sleep {
            Some((duration, _)) => duration,
            None => sleep_duration(now, self.poll_delay, self.next_schedule_at),
        }
    }

    /// A reservation succeeded. It records when the next scheduled job falls due; when it
    /// leased jobs the delay returns to the minimum, otherwise a sleep until the next due
    /// job, at most the delay, is set and the delay grows after it.
    pub fn on_reserved(&mut self, batch: &ReserveBatch, now: Timestamp, config: &WorkerConfig)
        ensures
            final(self)@.next_schedule_at == match batch.next_schedule_at { Some(t) => Some(t.instant_nanos()), None => None },
            batch.jobs@.len() > 0 ==> final(self)@.poll_delay == config.poll_interval_min@
                && final(self)@.reserve_sleep == old(self)@.reserve_sleep,
            batch.jobs@.len() == 0 ==> final(self)@.poll_delay == old(self)@.poll_delay
                && final(self)@.reserve_sleep == Some((
                    sleep_duration_spec(now.instant_nanos(), old(self)@.poll_delay, final(self)@.next_schedule_at),
                    true,
                )),
            worker_config_valid(*config) && poll_within(old(self)@, *config) ==> poll_within(final(self)@, *config),
    {
        self.next_schedule_at = batch.next_schedule_at;
        if batch.jobs.len() > 0 {
            self.poll_delay = config.poll_interval_min;
        } else {
            let sleep = sleep_duration(now, self.poll_delay, self.next_schedule_at);
            self.reserve_sleep = Some((sleep, true));
        }
    }

    /// A reservation failed. A recoverable error sets a sleep of the current delay and
    /// grows the delay; any other error stops the worker and is handed back.
    pub fn on_reserve_failed(&mut self, error: Error, config: &WorkerConfig) -> (r: Result<()>)
        ensures
            error.recoverable_worker_runtime() ==> r is Ok
                && final(self)@.reserve_sleep == Some((old(self)@.poll_delay, false))
                && final(self)@.poll_delay == next_poll_delay_spec(old(self)@.poll_delay, config.poll_interval_max@)
                && final(self)@.next_schedule_at == old(self)@.next_schedule_at,
            !error.recoverable_worker_runtime() ==> r == Err::<(), Error>(error) && final(self)@ == old(self)@,
            worker_config_valid(*config) && poll_within(old(self)@, *config) ==> poll_within(final(self)@, *config),
    {
        if error.is_recoverable_worker_runtime() {
            self.reserve_sleep = Some((self.poll_delay, false));
            self.poll_delay = next_poll_delay(self.poll_delay, config.poll_interval_max);
            Ok(())
        } else {
            Err(error)
        }
    }

    /// The pending sleep elapsed: it is cleared, and the delay grows if the sleep said so.
    pub fn on_sleep_elapsed(&mut self, config: &WorkerConfig)
        ensures
            final(self)@.reserve_sleep is None,
            final(self)@.next_schedule_at == old(self)@.next_schedule_at,
            final(self)@.poll_delay == match old(self)@.reserve_sleep {
                Some((_, true)) => next_poll_delay_spec(old(self)@.poll_delay, config.poll_interval_max@),
                _ => old(self)@.poll_delay,
            },
            worker_config_valid(*config) && poll_within(old(self)@, *config) ==> poll_within(final(self)@, *config),
    {
        if let Some((_, grow)) = self.reserve_sleep {
            if grow {
                self.poll_delay = next_poll_delay(self.poll_delay, config.poll_interval_max);
            }
        }
        self.reserve_sleep = None;
    }
}

/// The delay after an idle poll: doubled, but never beyond `max` or the largest duration.
pub open spec fn next_poll_delay_spec(current: nat, max: nat) -> nat {
    if current * 2 <= max_duration_nanos() && current * 2 <= max {
        current * 2
    } else if current * 2 <= max_duration_nanos() {
        max
    } else if max_duration_nanos() <= max {
        max_duration_nanos()
    } else {
        max
    }
}

/// The attempt a lease or completion belongs to, as the contracts speak of it.
pub type AttemptKey = (Seq<char>, Seq<char>);

/// Whether no two items of `v` belong to the same attempt.
pub open spec fn keys_unique<T>(v: Seq<T>, key: spec_fn(T) -> AttemptKey) -> bool {
    forall|i: int, j: int| 0 <= i < v.len() && 0 <= j < v.len() && i != j ==> key(v[i]) != key(v[j])
}

/// The items of `v` by attempt, each taken by `val`.
pub open spec fn keyed_map<T, V>(v: Seq<T>, key: spec_fn(T) -> AttemptKey, val: spec_fn(T) -> V) -> Map<AttemptKey, V> {
    Map::new(
        |k: AttemptKey| exists|i: int| 0 <= i < v.len() && key(v[i]) == k,
        |k: AttemptKey| val(v[choose|i: int| 0 <= i < v.len() && key(v[i]) == k]),
    )
}

/// The attempt of an active lease.
pub open spec fn active_key() -> spec_fn(ActiveLease) -> AttemptKey {
    |a: ActiveLease| a.key()
}

/// Whether an active lease is still heartbeated.
pub open spec fn active_flag() -> spec_fn(ActiveLease) -> bool {
    |a: ActiveLease| a.heartbeat_on()
}

/// The attempt of a completion.
pub open spec fn pending_key() -> spec_fn(CompletedLease) -> AttemptKey {
    |c: CompletedLease| c.key()
}

/// A completion itself.
pub open spec fn pending_item() -> spec_fn(CompletedLease) -> CompletedLease {
    |c: CompletedLease| c
}

/// Whether no two active leases belong to the same attempt.
pub open spec fn active_unique(v: Seq<ActiveLease>) -> bool {
    keys_unique(v, active_key())
}

/// Whether no two completions belong to the same attempt.
pub open spec fn pending_unique(v: Seq<CompletedLease>) -> bool {
    keys_unique(v, pending_key())
}

/// The active leases by attempt, each with whether it is still heartbeated.
pub open spec fn active_map(v: Seq<ActiveLease>) -> Map<AttemptKey, bool> {
    keyed_map(v, active_key(), active_flag())
}

/// The finished handlers awaiting settlement, by attempt.
pub open spec fn pending_map(v: Seq<CompletedLease>) -> Map<AttemptKey, CompletedLease> {
    keyed_map(v, pending_key(), pending_item())
}

proof fn lemma_keyed_at<T, V>(v: Seq<T>, i: int, key: spec_fn(T) -> AttemptKey, val: spec_fn(T) -> V)
    requires
        keys_unique(v, key),
        0 <= i < v.len(),
    ensures
        keyed_map(v, key, val).contains_key(key(v[i])),
        keyed_map(v, key, val)[key(v[i])] == val(v[i]),
{
    let k = key(v[i]);
    assert(exists|j: int| 0 <= j < v.len() && key(v[j]) == k);
    let c = choose|j: int| 0 <= j < v.len() && key(v[j]) == k;
    assert(c == i);
}

proof fn lemma_keyed_push<T, V>(v: Seq<T>, a: T, key: spec_fn(T) -> AttemptKey, val: spec_fn(T) -> V)
    requires
        keys_unique(v, key),
        !keyed_map(v, key, val).contains_key(key(a)),
    ensures
        keys_unique(v.push(a), key),
        keyed_map(v.push(a), key, val) =~= keyed_map(v, key, val).insert(key(a), val(a)),
{
    let w = v.push(a);
    let m = keyed_map(v, key, val);
    assert forall|i: int| 0 <= i < v.len() implies key(v[i]) != key(a) by {
        if key(v[i]) == key(a) {
            assert(m.contains_key(key(a)));
        }
    }
    assert forall|i: int, j: int| 0 <= i < w.len() && 0 <= j < w.len() && i != j implies key(w[i]) != key(w[j]) by {
        if i < v.len() && j < v.len() {
            assert(w[i] == v[i] && w[j] == v[j]);
        } else if i < v.len() {
            assert(w[i] == v[i]);
        } else if j < v.len() {
            assert(w[j] == v[j]);
        }
    }
    assert forall|k: AttemptKey| #[trigger] keyed_map(w, key, val).contains_key(k) <==> m.insert(key(a), val(a)).contains_key(k) by {
        if k == key(a) {
            assert(key(w[v.len() as int]) == k);
        } else if m.contains_key(k) {
            let i = choose|i: int| 0 <= i < v.len() && key(v[i]) == k;
            assert(key(w[i]) == k);
        } else if keyed_map(w, key, val).contains_key(k) {
            let i = choose|i: int| 0 <= i < w.len() && key(w[i]) == k;
            assert(i < v.len());
            assert(key(v[i]) == k);
        }
    }
    assert forall|k: AttemptKey| #[trigger] keyed_map(w, key, val).contains_key(k) implies keyed_map(w, key, val)[k] == m.insert(key(a), val(a))[k] by {
        let i = choose|i: int| 0 <= i < w.len() && key(w[i]) == k;
        lemma_keyed_at(w, i, key, val);
        if i < v.len() {
            assert(w[i] == v[i]);
            lemma_keyed_at(v, i, key, val);
        }
    }
}

proof fn lemma_keyed_update<T, V>(v: Seq<T>, i: int, a: T, key: spec_fn(T) -> AttemptKey, val: spec_fn(T) -> V)
    requires
        keys_unique(v, key),
        0 <= i < v.len(),
        key(a) == key(v[i]),
    ensures
        keys_unique(v.update(i, a), key),
        keyed_map(v.update(i, a), key, val) =~= keyed_map(v, key, val).insert(key(a), val(a)),
{
    let w = v.update(i, a);
    let m = keyed_map(v, key, val);
    assert forall|p: int, q: int| 0 <= p < w.len() && 0 <= q < w.len() && p != q implies key(w[p]) != key(w[q]) by {
        assert(key(w[p]) == key(v[p]));
        assert(key(w[q]) == key(v[q]));
    }
    lemma_keyed_at(v, i, key, val);
    assert forall|k: AttemptKey| #[trigger] keyed_map(w, key, val).contains_key(k) <==> m.insert(key(a), val(a)).contains_key(k) by {
        if m.contains_key(k) {
            let j = choose|j: int| 0 <= j < v.len() && key(v[j]) == k;
            assert(key(w[j]) == k);
        }
        if keyed_map(w, key, val).contains_key(k) {
            let j = choose|j: int| 0 <= j < w.len() && key(w[j]) == k;
            assert(key(v[j]) == k);
        }
    }
    assert forall|k: AttemptKey| #[trigger] keyed_map(w, key, val).contains_key(k) implies keyed_map(w, key, val)[k] == m.insert(key(a), val(a))[k] by {
        let j = choose|j: int| 0 <= j < w.len() && key(w[j]) == k;
        lemma_keyed_at(w, j, key, val);
        if j != i {
            assert(w[j] == v[j]);
            lemma_keyed_at(v, j, key, val);
        }
    }
}

proof fn lemma_keyed_remove<T, V>(v: Seq<T>, i: int, key: spec_fn(T) -> AttemptKey, val: spec_fn(T) -> V)
    requires
        keys_unique(v, key),
        0 <= i < v.len(),
    ensures
        keys_unique(v.remove(i), key),
        keyed_map(v.remove(i), key, val) =~= keyed_map(v, key, val).remove(key(v[i])),
{
    let w = v.remove(i);
    let kk = key(v[i]);
    let m = keyed_map(v, key, val);
    assert forall|p: int, q: int| 0 <= p < w.len() && 0 <= q < w.len() && p != q implies key(w[p]) != key(w[q]) by {
        let pp = if p < i { p } else { p + 1 };
        let qq = if q < i { q } else { q + 1 };
        assert(w[p] == v[pp]);
        assert(w[q] == v[qq]);
    }
    assert forall|k: AttemptKey| #[trigger] keyed_map(w, key, val).contains_key(k) <==> m.remove(kk).contains_key(k) by {
        if keyed_map(w, key, val).contains_key(k) {
            let j = choose|j: int| 0 <= j < w.len() && key(w[j]) == k;
            let jj = if j < i { j } else { j + 1 };
            assert(w[j] == v[jj]);
            assert(key(v[jj]) == k);
            assert(jj != i);
        }
        if m.remove(kk).contains_key(k) {
            let j = choose|j: int| 0 <= j < v.len() && key(v[j]) == k;
            assert(j != i);
            let jj = if j < i { j } else { j - 1 };
            assert(w[jj] == v[j]);
            assert(key(w[jj]) == k);
        }
    }
    assert forall|k: AttemptKey| #[trigger] keyed_map(w, key, val).contains_key(k) implies keyed_map(w, key, val)[k] == m.remove(kk)[k] by {
        let j = choose|j: int| 0 <= j < w.len() && key(w[j]) == k;
        let jj = if j < i { j } else { j + 1 };
        assert(w[j] == v[jj]);
        lemma_keyed_at(w, j, key, val);
        lemma_keyed_at(v, jj, key, val);
    }
}

/// With no attempt twice, the map by attempt is finite and has one entry per item.
proof fn lemma_keyed_count<T, V>(v: Seq<T>, key: spec_fn(T) -> AttemptKey, val: spec_fn(T) -> V)
    requires
        keys_unique(v, key),
    ensures
        keyed_map(v, key, val).dom().finite(),
        keyed_map(v, key, val).dom().len() == v.len(),
    decreases v.len(),
{
    if v.len() == 0 {
        assert(keyed_map(v, key, val).dom() =~= Set::<AttemptKey>::empty());
    } else {
        let w = v.drop_last();
        let a = v.last();
        assert forall|i: int, j: int| 0 <= i < w.len() && 0 <= j < w.len() && i != j implies key(w[i]) != key(w[j]) by {
            assert(w[i] == v[i] && w[j] == v[j]);
        }
        lemma_keyed_count(w, key, val);
        if keyed_map(w, key, val).contains_key(key(a)) {
            let i = choose|i: int| 0 <= i < w.len() && key(w[i]) == key(a);
            assert(w[i] == v[i]);
            assert(v[v.len() - 1] == a);
        }
        assert(v =~= w.push(a));
        lemma_keyed_push(w, a, key, val);
        assert(keyed_map(v, key, val).dom() =~= keyed_map(w, key, val).dom().insert(key(a)));
    }
}

/// The branches of one round of the worker loop that may fire.
#[derive(Debug, Clone, Copy, PartialEq, Eq, Structural)]
pub struct LoopBranches {
    /// A handler task may finish.
    pub join: bool,
    /// Active leases are heartbeated.
    pub heartbeat: bool,
    /// Expired leases are reclaimed.
    pub reap: bool,
    /// The runtime backoff runs out.
    pub backoff_sleep: bool,
    /// More jobs are reserved.
    pub reserve: bool,
    /// The pending sleep before the next reservation runs out.
    pub reserve_sleep: bool,
}

/// The worker's own record of its attempts: the leases whose handlers run or have not
/// been settled yet, and the finished handlers awaiting settlement with the store.
#[derive(Debug)]
pub struct LeaseBook {
    active: Vec<ActiveLease>,
    pending: Vec<CompletedLease>,
}

/// How the store's answer to a settlement call was applied.
#[derive(Debug, Clone, Copy, PartialEq, Eq, Structural)]
pub enum Settlement {
    /// The store accepted it: the lease is released.
    Settled,
    /// The store no longer holds the lease: the completion is dropped and the lease released.
    Lost,
    /// A transient failure: the lease stays active, the completion pending, and the worker
    /// backs off before trying again.
    BackOff,
}

impl LeaseBook {
    #[verifier::type_invariant]
    spec fn inv(self) -> bool {
        active_unique(self.active@) && pending_unique(self.pending@)
    }

    proof fn lemma_counts(active: Seq<ActiveLease>, pending: Seq<CompletedLease>)
        requires
            active_unique(active),
            pending_unique(pending),
        ensures
            active_map(active).dom().finite(),
            active_map(active).dom().len() == active.len(),
            pending_map(pending).dom().finite(),
            pending_map(pending).dom().len() == pending.len(),
    {
        lemma_keyed_count(active, active_key(), active_flag());
        lemma_keyed_count(pending, pending_key(), pending_item());
    }

    /// The active leases by attempt, each with whether it is still heartbeated.
    pub closed spec fn active_view(&self) -> Map<AttemptKey, bool> {
        active_map(self.active@)
    }

    /// The finished handlers awaiting settlement, by attempt.
    pub closed spec fn pending_view(&self) -> Map<AttemptKey, CompletedLease> {
        pending_map(self.pending@)
    }

    /// How many leases count against the worker's concurrency: one per active attempt.
    pub open spec fn active_count(&self) -> nat {
        self.active_view().dom().len()
    }

    /// How many completions await settlement: one per pending attempt.
    pub open spec fn pending_count(&self) -> nat {
        self.pending_view().dom().len()
    }

    /// An empty book.
    pub fn new() -> (book: LeaseBook)
        ensures
            book.active_view() == Map::<AttemptKey, bool>::empty(),
            book.pending_view() == Map::<AttemptKey, CompletedLease>::empty(),
            book.active_count() == 0,
            book.pending_count() == 0,
    {
        let book = LeaseBook { active: Vec::new(), pending: Vec::new() };
        proof {
            assert(active_map(book.active@) =~= Map::<AttemptKey, bool>::empty());
            assert(pending_map(book.pending@) =~= Map::<AttemptKey, CompletedLease>::empty());
        }
        book
    }

    /// How many leases count against the worker's concurrency.
    pub fn active_len(&self) -> (n: usize)
        ensures
            n == self.active_count(),
    {
        proof {
            use_type_invariant(self);
            Self::lemma_counts(self.active@, self.pending@);
        }
        self.active.len()
    }

    /// How many completions await settlement.
    pub fn pending_len(&self) -> (n: usize)
        ensures
            n == self.pending_count(),
    {
        proof {
            use_type_invariant(self);
            Self::lemma_counts(self.active@, self.pending@);
        }
        self.pending.len()
    }

    /// How many more jobs the worker may reserve under `concurrency`.
    pub fn capacity(&self, concurrency: usize) -> (c: usize)
        ensures
            c == if concurrency >= self.active_count() { (concurrency - self.active_count()) as usize } else { 0 },
    {
        proof {
            use_type_invariant(self);
            Self::lemma_counts(self.active@, self.pending@);
        }
        available_capacity(concurrency, self.active.len())
    }

    fn find_active(&self, job_id: &String, lease_token: &String) -> (r: Option<usize>)
        ensures
            match r {
                Some(i) => i < self.active@.len() && self.active@[i as int].key() == (job_id@, lease_token@),
                None => !active_map(self.active@).contains_key((job_id@, lease_token@)),
            },
    {
        let mut i: usize = 0;
        while i < self.active.len()
            invariant
                i <= self.active@.len(),
                forall|j: int| 0 <= j < i ==> self.active@[j].key() != (job_id@, lease_token@),
            decreases self.active@.len() - i,
        {
            if self.active[i].job_id == *job_id && self.active[i].lease_token == *lease_token {
                return Some(i);
            }
            i = i + 1;
        }
        None
    }

    fn find_pending(&self, job_id: &String, lease_token: &String) -> (r: Option<usize>)
        ensures
            match r {
                Some(i) => i < self.pending@.len() && self.pending@[i as int].key() == (job_id@, lease_token@),
                None => !pending_map(self.pending@).contains_key((job_id@, lease_token@)),
            },
    {
        let mut i: usize = 0;
        while i < self.pending.len()
            invariant
                i <= self.pending@.len(),
                forall|j: int| 0 <= j < i ==> self.pending@[j].key() != (job_id@, lease_token@),
            decreases self.pending@.len() - i,
        {
            if self.pending[i].job_id == *job_id && self.pending[i].lease_token == *lease_token {
                return Some(i);
            }
            i = i + 1;
        }
        None
    }

    /// Records that the handler of a reserved job started: its lease is active and
    /// heartbeated, replacing any earlier record of the same attempt.
    pub fn start(&mut self, job: ReservedJob)
        ensures
            final(self).active_view() == old(self).active_view().insert((job.job_id@, job.lease_token@), true),
            final(self).pending_view() == old(self).pending_view(),
            final(self).active_count() == old(self).active_count()
                + if old(self).active_view().contains_key((job.job_id@, job.lease_token@)) { 0nat } else { 1nat },
            final(self).pending_count() == old(self).pending_count(),
    {
        proof {
            use_type_invariant(&*self);
            Self::lemma_counts(self.active@, self.pending@);
        }
        let lease = ActiveLease::new(job.job_id, job.lease_token);
        let found = self.find_active(&lease.job_id, &lease.lease_token);
        let mut active: Vec<ActiveLease> = Vec::new();
        std::mem::swap(&mut active, &mut self.active);
        match found {
            Some(i) => {
                proof {
                    lemma_keyed_at(active@, i as int, active_key(), active_flag());
                    lemma_keyed_update(active@, i as int, lease, active_key(), active_flag());
                    lemma_keyed_count(active@.update(i as int, lease), active_key(), active_flag());
                }
                active.set(i, lease);
            },
            None => {
                proof {
                    lemma_keyed_push(active@, lease, active_key(), active_flag());
                    lemma_keyed_count(active@.push(lease), active_key(), active_flag());
                }
                active.push(lease);
            },
        }
        std::mem::swap(&mut active, &mut self.active);
    }

    /// Records a finished handler, replacing any earlier completion of the same attempt.
    pub fn record_completion(&mut self, completed: CompletedLease)
        ensures
            final(self).pending_view() == old(self).pending_view().insert(completed.key(), completed),
            final(self).pending_count() == old(self).pending_count()
                + if old(self).pending_view().contains_key(completed.key()) { 0nat } else { 1nat },
            final(self).active_view() == old(self).active_view(),
            final(self).active_count() == old(self).active_count(),
    {
        proof {
            use_type_invariant(&*self);
            Self::lemma_counts(self.active@, self.pending@);
        }
        let ghost c = completed;
        let found = self.find_pending(&completed.job_id, &completed.lease_token);
        let mut pending: Vec<CompletedLease> = Vec::new();
        std::mem::swap(&mut pending, &mut self.pending);
        match found {
            Some(i) => {
                proof {
                    lemma_keyed_update(pending@, i as int, c, pending_key(), pending_item());
                    lemma_keyed_count(pending@.update(i as int, c), pending_key(), pending_item());
                }
                pending.set(i, completed);
            },
            None => {
                proof {
                    lemma_keyed_push(pending@, c, pending_key(), pending_item());
                    lemma_keyed_count(pending@.push(c), pending_key(), pending_item());
                }
                pending.push(completed);
            },
        }
        std::mem::swap(&mut pending, &mut self.pending);
    }

    /// Takes one completion awaiting settlement, if there is any.
    pub fn take_pending(&mut self) -> (r: Option<CompletedLease>)
        ensures
            r is None <==> old(self).pending_count() == 0,
            r is None ==> final(self).pending_view() == old(self).pending_view(),
            r matches Some(c) ==> old(self).pending_view().contains_key(c.key())
                && old(self).pending_view()[c.key()] == c
                && final(self).pending_view() == old(self).pending_view().remove(c.key())
                && final(self).pending_count() + 1 == old(self).pending_count(),
            final(self).active_view() == old(self).active_view(),
            final(self).active_count() == old(self).active_count(),
    {
        proof {
            use_type_invariant(&*self);
            Self::lemma_counts(self.active@, self.pending@);
        }
        if self.pending.len() == 0 {
            return None;
        }
        let mut pending: Vec<CompletedLease> = Vec::new();
        std::mem::swap(&mut pending, &mut self.pending);
        proof {
            lemma_keyed_at(pending@, 0, pending_key(), pending_item());
            lemma_keyed_remove(pending@, 0, pending_key(), pending_item());
            lemma_keyed_count(pending@.remove(0), pending_key(), pending_item());
        }
        let completed = pending.remove(0);
        std::mem::swap(&mut pending, &mut self.pending);
        Some(completed)
    }

    /// Applies the store's answer to the settlement of `completed`: success or a lost lease
    /// release the lease, a recoverable failure puts the completion back and asks for a
    /// backoff, and any other failure stops the worker with the book unchanged.
    pub fn settle(&mut self, completed: CompletedLease, outcome: Result<()>) -> (r: Result<Settlement>)
        requires
            !old(self).pending_view().contains_key(completed.key()),
        ensures
            match outcome {
                Ok(()) => r == Ok::<Settlement, Error>(Settlement::Settled)
                    && final(self).active_view() == old(self).active_view().remove(completed.key())
                    && final(self).active_count()
                        + (if old(self).active_view().contains_key(completed.key()) { 1nat } else { 0nat })
                        == old(self).active_count()
                    && final(self).pending_view() == old(self).pending_view(),
                Err(e) => if e is LeaseMismatch {
                    r == Ok::<Settlement, Error>(Settlement::Lost)
                        && final(self).active_view() == old(self).active_view().remove(completed.key())
                        && final(self).active_count()
                            + (if old(self).active_view().contains_key(completed.key()) { 1nat } else { 0nat })
                            == old(self).active_count()
                        && final(self).pending_view() == old(self).pending_view()
                } else if e.recoverable_worker_runtime() {
                    r == Ok::<Settlement, Error>(Settlement::BackOff)
                        && final(self).active_view() == old(self).active_view()
                        && final(self).active_count() == old(self).active_count()
                        && final(self).pending_view() == old(self).pending_view().insert(completed.key(), completed)
                        && final(self).pending_count() == old(self).pending_count() + 1
                } else {
                    r == Err::<Settlement, Error>(e)
                        && final(self).active_view() == old(self).active_view()
                        && final(self).active_count() == old(self).active_count()
                        && final(self).pending_view() == old(self).pending_view()
                },
            },
    {
        proof {
            use_type_invariant(&*self);
            Self::lemma_counts(self.active@, self.pending@);
        }
        let release = match &outcome {
            Ok(()) => true,
            Err(e) => e.is_lease_mismatch(),
        };
        if release {
            match self.find_active(&completed.job_id, &completed.lease_token) {
                Some(i) => {
                    let mut active: Vec<ActiveLease> = Vec::new();
                    std::mem::swap(&mut active, &mut self.active);
                    proof {
                        lemma_keyed_remove(active@, i as int, active_key(), active_flag());
                        lemma_keyed_count(active@.remove(i as int), active_key(), active_flag());
                    }
                    active.remove(i);
                    std::mem::swap(&mut active, &mut self.active);
                },
                None => {
                    proof {
                        assert(active_map(self.active@).remove(completed.key()) =~= active_map(self.active@));
                    }
                },
            }
            return match outcome {
                Ok(()) => Ok(Settlement::Settled),
                Err(_) => Ok(Settlement::Lost),
            };
        }
        match outcome {
            Ok(()) => Ok(Settlement::Settled),
            Err(error) => {
                if error.is_recoverable_worker_runtime() {
                    let ghost c = completed;
                    let mut pending: Vec<CompletedLease> = Vec::new();
                    std::mem::swap(&mut pending, &mut self.pending);
                    proof {
                        lemma_keyed_push(pending@, c, pending_key(), pending_item());
                        lemma_keyed_count(pending@.push(c), pending_key(), pending_item());
                    }
                    pending.push(completed);
                    std::mem::swap(&mut pending, &mut self.pending);
                    Ok(Settlement::BackOff)
                } else {
                    Err(error)
                }
            },
        }
    }

    /// The attempts whose leases are still heartbeated, each once.
    pub fn heartbeat_targets(&self) -> (keys: Vec<LeaseAttemptKey>)
        ensures
            forall|i: int| 0 <= i < keys@.len() ==> self.active_view().contains_key(#[trigger] keys@[i]@)
                && self.active_view()[keys@[i]@],
            forall|k: AttemptKey| self.active_view().contains_key(k) && self.active_view()[k]
                ==> exists|i: int| 0 <= i < keys@.len() && #[trigger] keys@[i]@ == k,
            forall|i: int, j: int| 0 <= i < keys@.len() && 0 <= j < keys@.len() && i != j ==> keys@[i]@ != keys@[j]@,
    {
        proof {
            use_type_invariant(self);
            Self::lemma_counts(self.active@, self.pending@);
        }
        let mut keys: Vec<LeaseAttemptKey> = Vec::new();
        let ghost mut origin: Seq<int> = Seq::empty();
        let mut i: usize = 0;
        while i < self.active.len()
            invariant
                i <= self.active@.len(),
                active_unique(self.active@),
                origin.len() == keys@.len(),
                forall|p: int| 0 <= p < keys@.len() ==> 0 <= #[trigger] origin[p] < i
                    && self.active@[origin[p]].key() == keys@[p]@
                    && self.active@[origin[p]].heartbeat_on(),
                forall|p: int, r: int| 0 <= p < r < keys@.len() ==> origin[p] < origin[r],
                forall|q: int| 0 <= q < i && #[trigger] self.active@[q].heartbeat_on() ==> exists|p: int| 0 <= p < keys@.len() && origin[p] == q,
            decreases self.active@.len() - i,
        {
            if self.active[i].heartbeat_enabled() {
                let key = self.active[i].attempt_key();
                let ghost before = keys@;
                let ghost before_origin = origin;
                keys.push(key);
                proof {
                    origin = origin.push(i as int);
                    assert forall|q: int| 0 <= q < i + 1 && #[trigger] self.active@[q].heartbeat_on() implies exists|p: int| 0 <= p < keys@.len() && origin[p] == q by {
                        if q < i {
                            let p = choose|p: int| 0 <= p < before.len() && before_origin[p] == q;
                            assert(origin[p] == q);
                        } else {
                            assert(origin[keys@.len() - 1] == q);
                        }
                    }
                }
            }
            i = i + 1;
        }
        proof {
            assert forall|p: int, r: int| 0 <= p < keys@.len() && 0 <= r < keys@.len() && p != r implies keys@[p]@ != keys@[r]@ by {
                assert(origin[p] != origin[r]);
            }
            assert forall|p: int| 0 <= p < keys@.len() implies self.active_view().contains_key(#[trigger] keys@[p]@)
                && self.active_view()[keys@[p]@] by {
                lemma_keyed_at(self.active@, origin[p], active_key(), active_flag());
            }
            assert forall|k: AttemptKey| self.active_view().contains_key(k) && self.active_view()[k]
                implies exists|p: int| 0 <= p < keys@.len() && #[trigger] keys@[p]@ == k by {
                let q = choose|q: int| 0 <= q < self.active@.len() && self.active@[q].key() == k;
                lemma_keyed_at(self.active@, q, active_key(), active_flag());
                let p = choose|p: int| 0 <= p < keys@.len() && origin[p] == q;
                assert(keys@[p]@ == k);
            }
        }
        keys
    }

    /// Applies the store's answer to a heartbeat of `key`: a lost lease stops being
    /// heartbeated but keeps counting against the concurrency until its handler finishes;
    /// any other failure is handed back with the book unchanged.
    pub fn heartbeat_result(&mut self, key: &LeaseAttemptKey, result: Result<()>) -> (r: Result<()>)
        ensures
            match result {
                Ok(()) => r is Ok && final(self).active_view() == old(self).active_view(),
                Err(e) => if e is LeaseMismatch {
                    r is Ok && final(self).active_view() == if old(self).active_view().contains_key(key@) {
                        old(self).active_view().insert(key@, false)
                    } else {
                        old(self).active_view()
                    }
                } else {
                    r == Err::<(), Error>(e) && final(self).active_view() == old(self).active_view()
                },
            },
            final(self).active_count() == old(self).active_count(),
            final(self).pending_view() == old(self).pending_view(),
    {
        proof {
            use_type_invariant(&*self);
            Self::lemma_counts(self.active@, self.pending@);
        }
        match result {
            Ok(()) => Ok(()),
            Err(error) => {
                if error.is_lease_mismatch() {
                    match self.find_active(&key.job_id, &key.lease_token) {
                        Some(i) => {
                            let lease = self.active[i].without_heartbeat();
                            let mut active: Vec<ActiveLease> = Vec::new();
                            std::mem::swap(&mut active, &mut self.active);
                            proof {
                                lemma_keyed_update(active@, i as int, lease, active_key(), active_flag());
                                lemma_keyed_count(active@.update(i as int, lease), active_key(), active_flag());
                            }
                            active.set(i, lease);
                            std::mem::swap(&mut active, &mut self.active);
                        },
                        None => {},
                    }
                    Ok(())
                } else {
                    Err(error)
                }
            },
        }
    }
}

impl LeaseBook {
    /// Which branches of the worker loop may fire: joins while tasks run, heartbeats while
    /// leases are active, reaping unless backing off, the backoff's own sleep while backing
    /// off, and, while the worker has capacity, either a reservation (no pending sleep, no
    /// backoff) or the pending sleep.
    pub fn loop_branches(&self, poll: &PollState, concurrency: usize, tasks_running: bool, backing_off: bool) -> (b: LoopBranches)
        ensures
            b == (LoopBranches {
                join: tasks_running,
                heartbeat: self.active_count() > 0,
                reap: !backing_off,
                backoff_sleep: backing_off,
                reserve: self.active_count() < concurrency && poll@.reserve_sleep is None && !backing_off,
                reserve_sleep: self.active_count() < concurrency && poll@.reserve_sleep is Some,
            }),
            b.reserve ==> self.active_count() < concurrency,
            !(b.reserve && b.reserve_sleep),
            !(b.reserve && b.backoff_sleep),
    {
        let capacity = self.capacity(concurrency);
        LoopBranches {
            join: tasks_running,
            heartbeat: self.active_len() > 0,
            reap: !backing_off,
            backoff_sleep: backing_off,
            reserve: capacity > 0 && !poll.sleeping() && !backing_off,
            reserve_sleep: capacity > 0 && poll.sleeping(),
        }
    }
}

} // verus!
