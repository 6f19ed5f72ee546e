//! The script invocations of the queue: for each script, which of the namespace's keys it
//! receives, in which order, and the arguments that follow.

use vstd::prelude::*;

use crate::codec::{pack_worker_config_record, worker_config_record_spec};
use crate::config::{WorkerConfig, retry_policy_key_spec};
use crate::keys::NamespaceKeys;
use crate::protocol::{failure_args, failure_args_spec, micros, replace_mode, replace_mode_name, strings_view};
use crate::store::{EnqueueRequest, FailureRequest};
use crate::text::{decimal_of, decimal_string, signed_decimal_of, signed_decimal_string};
use crate::time::{Duration, Timestamp, duration_micros};

verus! {

/// The keys and arguments of one script invocation.
#[derive(Debug, Clone)]
pub struct ScriptCall {
    pub keys: Vec<String>,
    pub args: Vec<String>,
}

/// A script invocation taken by its keys and arguments.
pub open spec fn call_view(call: ScriptCall) -> (Seq<Seq<char>>, Seq<Seq<char>>) {
    (strings_view(call.keys@), strings_view(call.args@))
}

/// The keys the enqueue, reschedule and related scripts receive.
pub open spec fn placement_keys(keys: NamespaceKeys) -> Seq<Seq<char>> {
    seq![keys.failures@, keys.ready@, keys.scheduled@, keys.leased@, keys.failed@, keys.rerun@]
}

fn placement_key_list(keys: &NamespaceKeys) -> (v: Vec<String>)
    ensures
        strings_view(v@) == placement_keys(*keys),
{
    let v = vec![
        keys.failures.clone(),
        keys.ready.clone(),
        keys.scheduled.clone(),
        keys.leased.clone(),
        keys.failed.clone(),
        keys.rerun.clone(),
    ];
    proof {
        assert(strings_view(v@) =~= placement_keys(*keys));
    }
    v
}

/// A schedule time in microseconds, or `0` for none.
pub open spec fn schedule_arg(at: Option<Timestamp>) -> Seq<char> {
    match at {
        Some(t) => signed_decimal_of(t@),
        None => decimal_of(0),
    }
}

fn schedule_arg_string(at: Option<Timestamp>) -> (s: String)
    ensures
        s@ == schedule_arg(at),
{
    match at {
        Some(t) => signed_decimal_string(micros(t)),
        None => decimal_string(0),
    }
}

/// The invocation of an enqueue: its mode (immediate or scheduled), the job, the time,
/// the schedule (`0` for none) and the replace mode.
pub open spec fn enqueue_call_spec(keys: NamespaceKeys, request: EnqueueRequest, now: Timestamp) -> (Seq<Seq<char>>, Seq<Seq<char>>) {
    (placement_keys(keys), seq![
        if request.allow_existing_current_run { "enqueue_immediate"@ } else { "enqueue_scheduled"@ },
        request.job_id@,
        signed_decimal_of(now@),
        schedule_arg(request.schedule_at),
        replace_mode_name(request.replace_mode),
    ])
}

/// The invocation of an enqueue.
pub fn enqueue_call(keys: &NamespaceKeys, request: &EnqueueRequest, now: Timestamp) -> (call: ScriptCall)
    ensures
        call_view(call) == enqueue_call_spec(*keys, *request, now),
{
    let mode = if request.allow_existing_current_run { "enqueue_immediate" } else { "enqueue_scheduled" };
    let args = vec![
        mode.to_owned(),
        request.job_id.clone(),
        signed_decimal_string(micros(now)),
        schedule_arg_string(request.schedule_at),
        replace_mode(request.replace_mode).to_owned(),
    ];
    let call = ScriptCall { keys: placement_key_list(keys), args };
    proof {
        assert(strings_view(call.args@) =~= enqueue_call_spec(*keys, *request, now).1);
    }
    call
}

/// The invocation of a reschedule: always replacing.
pub open spec fn reschedule_call_spec(keys: NamespaceKeys, job_id: Seq<char>, schedule_at: Option<Timestamp>, now: Timestamp) -> (Seq<Seq<char>>, Seq<Seq<char>>) {
    (placement_keys(keys), seq![
        "reschedule"@,
        job_id,
        signed_decimal_of(now@),
        schedule_arg(schedule_at),
        "replace"@,
    ])
}

/// The invocation of a reschedule.
pub fn reschedule_call(keys: &NamespaceKeys, job_id: &str, schedule_at: Option<Timestamp>, now: Timestamp) -> (call: ScriptCall)
    ensures
        call_view(call) == reschedule_call_spec(*keys, job_id@, schedule_at, now),
{
    let args = vec![
        "reschedule".to_owned(),
        job_id.to_owned(),
        signed_decimal_string(micros(now)),
        schedule_arg_string(schedule_at),
        "replace".to_owned(),
    ];
    let call = ScriptCall { keys: placement_key_list(keys), args };
    proof {
        assert(strings_view(call.args@) =~= reschedule_call_spec(*keys, job_id@, schedule_at, now).1);
    }
    call
}

/// The invocation of a heartbeat: the lease is extended to `now` plus the lease
/// duration, saturating at the largest `i64`.
pub open spec fn heartbeat_call_spec(
    keys: NamespaceKeys,
    worker_id: Seq<char>,
    job_id: Seq<char>,
    lease_token: Seq<char>,
    now: Timestamp,
    lease_micros: int,
) -> (Seq<Seq<char>>, Seq<Seq<char>>) {
    let until = if now@ + lease_micros <= i64::MAX { now@ + lease_micros } else { i64::MAX as int };
    (seq![keys.leased@, keys.lease_meta@, keys.workers_last_seen@], seq![
        job_id,
        worker_id,
        lease_token,
        signed_decimal_of(now@),
        signed_decimal_of(until),
    ])
}

/// The invocation of a heartbeat.
pub fn heartbeat_call(
    keys: &NamespaceKeys,
    worker_id: &str,
    job_id: &str,
    lease_token: &str,
    now: Timestamp,
    lease_duration: Duration,
) -> (call: ScriptCall)
    ensures
        call_view(call) == heartbeat_call_spec(
            *keys,
            worker_id@,
            job_id@,
            lease_token@,
            now,
            if lease_duration@ / 1_000 <= i64::MAX { (lease_duration@ / 1_000) as int } else { i64::MAX as int },
        ),
{
    let now_us = micros(now);
    let lease_us = duration_micros(lease_duration);
    let until: i64 = if (now_us as i128) + (lease_us as i128) <= 0x7fff_ffff_ffff_ffff {
        now_us + lease_us
    } else {
        0x7fff_ffff_ffff_ffff
    };
    let keys_v = vec![keys.leased.clone(), keys.lease_meta.clone(), keys.workers_last_seen.clone()];
    let args = vec![
        job_id.to_owned(),
        worker_id.to_owned(),
        lease_token.to_owned(),
        signed_decimal_string(now_us),
        signed_decimal_string(until),
    ];
    let call = ScriptCall { keys: keys_v, args };
    proof {
        let spec = heartbeat_call_spec(
            *keys,
            worker_id@,
            job_id@,
            lease_token@,
            now,
            if lease_duration@ / 1_000 <= i64::MAX { (lease_duration@ / 1_000) as int } else { i64::MAX as int },
        );
        assert(strings_view(call.keys@) =~= spec.0);
        assert(strings_view(call.args@) =~= spec.1);
    }
    call
}

/// The invocation of an acknowledgement.
pub open spec fn ack_call_spec(keys: NamespaceKeys, worker_id: Seq<char>, job_id: Seq<char>, lease_token: Seq<char>, now: Timestamp) -> (Seq<Seq<char>>, Seq<Seq<char>>) {
    (
        seq![keys.leased@, keys.lease_meta@, keys.failures@, keys.workers_leases@, keys.ready@, keys.rerun@],
        seq![job_id, worker_id, lease_token, signed_decimal_of(now@)],
    )
}

/// The invocation of an acknowledgement.
pub fn ack_call(keys: &NamespaceKeys, worker_id: &str, job_id: &str, lease_token: &str, now: Timestamp) -> (call: ScriptCall)
    ensures
        call_view(call) == ack_call_spec(*keys, worker_id@, job_id@, lease_token@, now),
{
    let keys_v = vec![
        keys.leased.clone(),
        keys.lease_meta.clone(),
        keys.failures.clone(),
        keys.workers_leases.clone(),
        keys.ready.clone(),
        keys.rerun.clone(),
    ];
    let args = vec![job_id.to_owned(), worker_id.to_owned(), lease_token.to_owned(), signed_decimal_string(micros(now))];
    let call = ScriptCall { keys: keys_v, args };
    proof {
        let spec = ack_call_spec(*keys, worker_id@, job_id@, lease_token@, now);
        assert(strings_view(call.keys@) =~= spec.0);
        assert(strings_view(call.args@) =~= spec.1);
    }
    call
}

/// The invocation of a completion with rescheduling (`0` for at once).
pub open spec fn complete_and_reschedule_call_spec(
    keys: NamespaceKeys,
    worker_id: Seq<char>,
    job_id: Seq<char>,
    lease_token: Seq<char>,
    schedule_at: Option<Timestamp>,
    now: Timestamp,
) -> (Seq<Seq<char>>, Seq<Seq<char>>) {
    (
        seq![
            keys.leased@,
            keys.lease_meta@,
            keys.failures@,
            keys.workers_leases@,
            keys.ready@,
            keys.scheduled@,
            keys.rerun@,
        ],
        seq![job_id, worker_id, lease_token, signed_decimal_of(now@), schedule_arg(schedule_at)],
    )
}

/// The invocation of a completion with rescheduling.
pub fn complete_and_reschedule_call(
    keys: &NamespaceKeys,
    worker_id: &str,
    job_id: &str,
    lease_token: &str,
    schedule_at: Option<Timestamp>,
    now: Timestamp,
) -> (call: ScriptCall)
    ensures
        call_view(call) == complete_and_reschedule_call_spec(*keys, worker_id@, job_id@, lease_token@, schedule_at, now),
{
    let keys_v = vec![
        keys.leased.clone(),
        keys.lease_meta.clone(),
        keys.failures.clone(),
        keys.workers_leases.clone(),
        keys.ready.clone(),
        keys.scheduled.clone(),
        keys.rerun.clone(),
    ];
    let args = vec![
        job_id.to_owned(),
        worker_id.to_owned(),
        lease_token.to_owned(),
        signed_decimal_string(micros(now)),
        schedule_arg_string(schedule_at),
    ];
    let call = ScriptCall { keys: keys_v, args };
    proof {
        let spec = complete_and_reschedule_call_spec(*keys, worker_id@, job_id@, lease_token@, schedule_at, now);
        assert(strings_view(call.keys@) =~= spec.0);
        assert(strings_view(call.args@) =~= spec.1);
    }
    call
}

/// The keys a failure report receives.
pub open spec fn fail_or_retry_keys(keys: NamespaceKeys) -> Seq<Seq<char>> {
    seq![
        keys.leased@,
        keys.lease_meta@,
        keys.failures@,
        keys.ready@,
        keys.scheduled@,
        keys.failed@,
        keys.workers_leases@,
        keys.rerun@,
    ]
}

/// The invocation of a failure report.
pub fn fail_or_retry_call(keys: &NamespaceKeys, request: &FailureRequest) -> (call: ScriptCall)
    ensures
        call_view(call) == (fail_or_retry_keys(*keys), failure_args_spec(*request)),
{
    let keys_v = vec![
        keys.leased.clone(),
        keys.lease_meta.clone(),
        keys.failures.clone(),
        keys.ready.clone(),
        keys.scheduled.clone(),
        keys.failed.clone(),
        keys.workers_leases.clone(),
        keys.rerun.clone(),
    ];
    let call = ScriptCall { keys: keys_v, args: failure_args(request) };
    proof {
        assert(strings_view(call.keys@) =~= fail_or_retry_keys(*keys));
    }
    call
}

/// The invocation of a reap of at most `limit` expired leases.
pub open spec fn reap_call_spec(keys: NamespaceKeys, now: Timestamp, limit: usize) -> (Seq<Seq<char>>, Seq<Seq<char>>) {
    (
        seq![keys.leased@, keys.lease_meta@, keys.ready@, keys.workers_leases@, keys.rerun@],
        seq![signed_decimal_of(now@), decimal_of(limit as nat)],
    )
}

/// The invocation of a reap.
pub fn reap_call(keys: &NamespaceKeys, now: Timestamp, limit: usize) -> (call: ScriptCall)
    ensures
        call_view(call) == reap_call_spec(*keys, now, limit),
{
    let keys_v = vec![
        keys.leased.clone(),
        keys.lease_meta.clone(),
        keys.ready.clone(),
        keys.workers_leases.clone(),
        keys.rerun.clone(),
    ];
    let args = vec![signed_decimal_string(micros(now)), decimal_string(limit as u128)];
    let call = ScriptCall { keys: keys_v, args };
    proof {
        let spec = reap_call_spec(*keys, now, limit);
        assert(strings_view(call.keys@) =~= spec.0);
        assert(strings_view(call.args@) =~= spec.1);
    }
    call
}

/// The keys a reservation receives.
pub open spec fn reserve_keys(keys: NamespaceKeys) -> Seq<Seq<char>> {
    seq![
        keys.cfg@,
        keys.ready@,
        keys.scheduled@,
        keys.leased@,
        keys.lease_meta@,
        keys.workers_last_seen@,
        keys.workers_config@,
        keys.workers_leases@,
    ]
}

/// The arguments of a reservation: the worker, the time, the capacity, the lease duration
/// in microseconds, the retry policy key and the configuration record, then one lease
/// token per job that may be leased.
pub open spec fn reserve_args_spec(config: WorkerConfig, capacity: usize, now: Timestamp, lease_tokens: Seq<Seq<char>>) -> Seq<Seq<char>> {
    seq![
        config.worker_id@,
        signed_decimal_of(now@),
        decimal_of(capacity as nat),
        signed_decimal_of(if config.lease_duration@ / 1_000 <= i64::MAX { (config.lease_duration@ / 1_000) as int } else { i64::MAX as int }),
        retry_policy_key_spec(config.retry_policy),
        worker_config_record_spec(config),
    ] + lease_tokens
}

/// The invocation of a reservation; none when the worker has no capacity, for then
/// nothing is reserved and the store is not asked.
pub fn reserve_call(keys: &NamespaceKeys, config: &WorkerConfig, capacity: usize, now: Timestamp, lease_tokens: Vec<String>) -> (call: Option<ScriptCall>)
    ensures
        capacity == 0 ==> call is None,
        capacity > 0 ==> (call matches Some(c)
            && call_view(c) == (reserve_keys(*keys), reserve_args_spec(*config, capacity, now, strings_view(lease_tokens@)))),
{
    if capacity == 0 {
        return None;
    }
    let keys_v = vec![
        keys.cfg.clone(),
        keys.ready.clone(),
        keys.scheduled.clone(),
        keys.leased.clone(),
        keys.lease_meta.clone(),
        keys.workers_last_seen.clone(),
        keys.workers_config.clone(),
        keys.workers_leases.clone(),
    ];
    let mut args = vec![
        config.worker_id.clone(),
        signed_decimal_string(micros(now)),
        decimal_string(capacity as u128),
        signed_decimal_string(duration_micros(config.lease_duration)),
        config.retry_policy_key(),
        pack_worker_config_record(config),
    ];
    let ghost head = strings_view(args@);
    let mut i: usize = 0;
    while i < lease_tokens.len()
        invariant
            i <= lease_tokens.len(),
            strings_view(args@) == head + strings_view(lease_tokens@).take(i as int),
        decreases lease_tokens.len() - i,
    {
        let ghost before = args@;
        args.push(lease_tokens[i].clone());
        proof {
            assert(strings_view(args@) =~= strings_view(before).push(lease_tokens@[i as int]@));
            assert(strings_view(lease_tokens@).take(i + 1) =~= strings_view(lease_tokens@).take(i as int).push(lease_tokens@[i as int]@));
        }
        i = i + 1;
    }
    let call = ScriptCall { keys: keys_v, args };
    proof {
        assert(strings_view(lease_tokens@).take(lease_tokens.len() as int) =~= strings_view(lease_tokens@));
        assert(strings_view(call.keys@) =~= reserve_keys(*keys));
        assert(strings_view(call.args@) =~= reserve_args_spec(*config, capacity, now, strings_view(lease_tokens@)));
    }
    Some(call)
}

/// The keys an operator transition receives.
pub open spec fn operator_keys(keys: NamespaceKeys) -> Seq<Seq<char>> {
    seq![
        keys.failures@,
        keys.ready@,
        keys.scheduled@,
        keys.leased@,
        keys.lease_meta@,
        keys.failed@,
        keys.workers_leases@,
        keys.rerun@,
    ]
}

/// The invocation of an operator transition named `op` on a job.
pub fn operator_transition_call(keys: &NamespaceKeys, op: &str, job_id: &str, now: Timestamp) -> (call: ScriptCall)
    ensures
        call_view(call) == (operator_keys(*keys), seq![op@, job_id@, signed_decimal_of(now@)]),
{
    let keys_v = vec![
        keys.failures.clone(),
        keys.ready.clone(),
        keys.scheduled.clone(),
        keys.leased.clone(),
        keys.lease_meta.clone(),
        keys.failed.clone(),
        keys.workers_leases.clone(),
        keys.rerun.clone(),
    ];
    let args = vec![op.to_owned(), job_id.to_owned(), signed_decimal_string(micros(now))];
    let call = ScriptCall { keys: keys_v, args };
    proof {
        assert(strings_view(call.keys@) =~= operator_keys(*keys));
        assert(strings_view(call.args@) =~= seq![op@, job_id@, signed_decimal_of(now@)]);
    }
    call
}

/// The enqueue and reschedule script reads its KEYS as: 1 the failure counts, 2 the ready
/// set, 3 the scheduled set, 4 the leased set, 5 the failed set, 6 the rerun set; and its
/// ARGV as the mode, the job, the time, the schedule and the replace mode.
pub proof fn lemma_placement_layout(keys: NamespaceKeys, request: EnqueueRequest, job_id: Seq<char>, at: Option<Timestamp>, now: Timestamp)
    ensures
        placement_keys(keys).len() == 6,
        placement_keys(keys)[0] == keys.failures@,
        placement_keys(keys)[1] == keys.ready@,
        placement_keys(keys)[2] == keys.scheduled@,
        placement_keys(keys)[3] == keys.leased@,
        placement_keys(keys)[4] == keys.failed@,
        placement_keys(keys)[5] == keys.rerun@,
        enqueue_call_spec(keys, request, now).0 == placement_keys(keys),
        enqueue_call_spec(keys, request, now).1.len() == 5,
        enqueue_call_spec(keys, request, now).1[1] == request.job_id@,
        enqueue_call_spec(keys, request, now).1[2] == signed_decimal_of(now@),
        enqueue_call_spec(keys, request, now).1[3] == schedule_arg(request.schedule_at),
        reschedule_call_spec(keys, job_id, at, now).0 == placement_keys(keys),
        reschedule_call_spec(keys, job_id, at, now).1.len() == 5,
        reschedule_call_spec(keys, job_id, at, now).1[1] == job_id,
        reschedule_call_spec(keys, job_id, at, now).1[2] == signed_decimal_of(now@),
        reschedule_call_spec(keys, job_id, at, now).1[3] == schedule_arg(at),
{
}

/// The heartbeat script reads its KEYS as: 1 the leased set, 2 the lease metadata, 3 the
/// workers' last-seen times; and its ARGV as the job, the worker, the lease token, the
/// time and the new lease deadline, never earlier than the time for a lease of any length.
pub proof fn lemma_heartbeat_layout(keys: NamespaceKeys, worker_id: Seq<char>, job_id: Seq<char>, lease_token: Seq<char>, now: Timestamp, lease_micros: int)
    requires
        0 <= lease_micros,
        now@ <= i64::MAX,
    ensures
        heartbeat_call_spec(keys, worker_id, job_id, lease_token, now, lease_micros).0.len() == 3,
        heartbeat_call_spec(keys, worker_id, job_id, lease_token, now, lease_micros).0[0] == keys.leased@,
        heartbeat_call_spec(keys, worker_id, job_id, lease_token, now, lease_micros).0[1] == keys.lease_meta@,
        heartbeat_call_spec(keys, worker_id, job_id, lease_token, now, lease_micros).0[2] == keys.workers_last_seen@,
        heartbeat_call_spec(keys, worker_id, job_id, lease_token, now, lease_micros).1.len() == 5,
        heartbeat_call_spec(keys, worker_id, job_id, lease_token, now, lease_micros).1[0] == job_id,
        heartbeat_call_spec(keys, worker_id, job_id, lease_token, now, lease_micros).1[1] == worker_id,
        heartbeat_call_spec(keys, worker_id, job_id, lease_token, now, lease_micros).1[2] == lease_token,
        heartbeat_call_spec(keys, worker_id, job_id, lease_token, now, lease_micros).1[3] == signed_decimal_of(now@),
        exists|until: int| now@ <= until <= i64::MAX
            && heartbeat_call_spec(keys, worker_id, job_id, lease_token, now, lease_micros).1[4] == signed_decimal_of(until)
            && (now@ + lease_micros <= i64::MAX ==> until == now@ + lease_micros),
{
    let until = if now@ + lease_micros <= i64::MAX { now@ + lease_micros } else { i64::MAX as int };
    assert(heartbeat_call_spec(keys, worker_id, job_id, lease_token, now, lease_micros).1[4] == signed_decimal_of(until));
}

/// The acknowledgement script reads its KEYS as: 1 the leased set, 2 the lease metadata,
/// 3 the failure counts, 4 the worker lease counts, 5 the ready set, 6 the rerun set; and
/// its ARGV as the job, the worker, the lease token and the time.
pub proof fn lemma_ack_layout(keys: NamespaceKeys, worker_id: Seq<char>, job_id: Seq<char>, lease_token: Seq<char>, now: Timestamp)
    ensures
        ack_call_spec(keys, worker_id, job_id, lease_token, now).0.len() == 6,
        ack_call_spec(keys, worker_id, job_id, lease_token, now).0[0] == keys.leased@,
        ack_call_spec(keys, worker_id, job_id, lease_token, now).0[1] == keys.lease_meta@,
        ack_call_spec(keys, worker_id, job_id, lease_token, now).0[2] == keys.failures@,
        ack_call_spec(keys, worker_id, job_id, lease_token, now).0[3] == keys.workers_leases@,
        ack_call_spec(keys, worker_id, job_id, lease_token, now).0[4] == keys.ready@,
        ack_call_spec(keys, worker_id, job_id, lease_token, now).0[5] == keys.rerun@,
        ack_call_spec(keys, worker_id, job_id, lease_token, now).1.len() == 4,
        ack_call_spec(keys, worker_id, job_id, lease_token, now).1[0] == job_id,
        ack_call_spec(keys, worker_id, job_id, lease_token, now).1[1] == worker_id,
        ack_call_spec(keys, worker_id, job_id, lease_token, now).1[2] == lease_token,
        ack_call_spec(keys, worker_id, job_id, lease_token, now).1[3] == signed_decimal_of(now@),
{
}

/// The completion-and-reschedule script reads its KEYS as: 1 the leased set, 2 the lease
/// metadata, 3 the failure counts, 4 the worker lease counts, 5 the ready set, 6 the
/// scheduled set, 7 the rerun set; and its ARGV as the job, the worker, the lease token,
/// the time and the new schedule (`0` for at once).
pub proof fn lemma_complete_and_reschedule_layout(
    keys: NamespaceKeys,
    worker_id: Seq<char>,
    job_id: Seq<char>,
    lease_token: Seq<char>,
    schedule_at: Option<Timestamp>,
    now: Timestamp,
)
    ensures
        complete_and_reschedule_call_spec(keys, worker_id, job_id, lease_token, schedule_at, now).0.len() == 7,
        complete_and_reschedule_call_spec(keys, worker_id, job_id, lease_token, schedule_at, now).0[0] == keys.leased@,
        complete_and_reschedule_call_spec(keys, worker_id, job_id, lease_token, schedule_at, now).0[1] == keys.lease_meta@,
        complete_and_reschedule_call_spec(keys, worker_id, job_id, lease_token, schedule_at, now).0[2] == keys.failures@,
        complete_and_reschedule_call_spec(keys, worker_id, job_id, lease_token, schedule_at, now).0[3] == keys.workers_leases@,
        complete_and_reschedule_call_spec(keys, worker_id, job_id, lease_token, schedule_at, now).0[4] == keys.ready@,
        complete_and_reschedule_call_spec(keys, worker_id, job_id, lease_token, schedule_at, now).0[5] == keys.scheduled@,
        complete_and_reschedule_call_spec(keys, worker_id, job_id, lease_token, schedule_at, now).0[6] == keys.rerun@,
        complete_and_reschedule_call_spec(keys, worker_id, job_id, lease_token, schedule_at, now).1.len() == 5,
        complete_and_reschedule_call_spec(keys, worker_id, job_id, lease_token, schedule_at, now).1[0] == job_id,
        complete_and_reschedule_call_spec(keys, worker_id, job_id, lease_token, schedule_at, now).1[1] == worker_id,
        complete_and_reschedule_call_spec(keys, worker_id, job_id, lease_token, schedule_at, now).1[2] == lease_token,
        complete_and_reschedule_call_spec(keys, worker_id, job_id, lease_token, schedule_at, now).1[3] == signed_decimal_of(now@),
        complete_and_reschedule_call_spec(keys, worker_id, job_id, lease_token, schedule_at, now).1[4] == schedule_arg(schedule_at),
{
}

/// The failure-report script reads its KEYS as: 1 the leased set, 2 the lease metadata,
/// 3 the failure counts, 4 the ready set, 5 the scheduled set, 6 the failed set, 7 the
/// worker lease counts, 8 the rerun set.
pub proof fn lemma_fail_or_retry_layout(keys: NamespaceKeys)
    ensures
        fail_or_retry_keys(keys).len() == 8,
        fail_or_retry_keys(keys)[0] == keys.leased@,
        fail_or_retry_keys(keys)[1] == keys.lease_meta@,
        fail_or_retry_keys(keys)[2] == keys.failures@,
        fail_or_retry_keys(keys)[3] == keys.ready@,
        fail_or_retry_keys(keys)[4] == keys.scheduled@,
        fail_or_retry_keys(keys)[5] == keys.failed@,
        fail_or_retry_keys(keys)[6] == keys.workers_leases@,
        fail_or_retry_keys(keys)[7] == keys.rerun@,
{
}

/// The reap script reads its KEYS as: 1 the leased set, 2 the lease metadata, 3 the ready
/// set, 4 the worker lease counts, 5 the rerun set; and its ARGV as the time and the most
/// leases to reclaim.
pub proof fn lemma_reap_layout(keys: NamespaceKeys, now: Timestamp, limit: usize)
    ensures
        reap_call_spec(keys, now, limit).0.len() == 5,
        reap_call_spec(keys, now, limit).0[0] == keys.leased@,
        reap_call_spec(keys, now, limit).0[1] == keys.lease_meta@,
        reap_call_spec(keys, now, limit).0[2] == keys.ready@,
        reap_call_spec(keys, now, limit).0[3] == keys.workers_leases@,
        reap_call_spec(keys, now, limit).0[4] == keys.rerun@,
        reap_call_spec(keys, now, limit).1.len() == 2,
        reap_call_spec(keys, now, limit).1[0] == signed_decimal_of(now@),
        reap_call_spec(keys, now, limit).1[1] == decimal_of(limit as nat),
{
}

/// The reserve script reads its KEYS as: 1 the namespace configuration, 2 the ready set,
/// 3 the scheduled set, 4 the leased set, 5 the lease metadata, 6 the workers' last-seen
/// times, 7 the worker configuration records, 8 the worker lease counts; and its ARGV as
/// the worker, the time, the capacity, the lease duration in microseconds, the retry
/// policy key, the configuration record, and after them exactly the lease tokens, in order.
pub proof fn lemma_reserve_layout(keys: NamespaceKeys, config: WorkerConfig, capacity: usize, now: Timestamp, lease_tokens: Seq<Seq<char>>)
    ensures
        reserve_keys(keys).len() == 8,
        reserve_keys(keys)[0] == keys.cfg@,
        reserve_keys(keys)[1] == keys.ready@,
        reserve_keys(keys)[2] == keys.scheduled@,
        reserve_keys(keys)[3] == keys.leased@,
        reserve_keys(keys)[4] == keys.lease_meta@,
        reserve_keys(keys)[5] == keys.workers_last_seen@,
        reserve_keys(keys)[6] == keys.workers_config@,
        reserve_keys(keys)[7] == keys.workers_leases@,
        reserve_args_spec(config, capacity, now, lease_tokens).len() == 6 + lease_tokens.len(),
        reserve_args_spec(config, capacity, now, lease_tokens)[0] == config.worker_id@,
        reserve_args_spec(config, capacity, now, lease_tokens)[1] == signed_decimal_of(now@),
        reserve_args_spec(config, capacity, now, lease_tokens)[2] == decimal_of(capacity as nat),
        reserve_args_spec(config, capacity, now, lease_tokens)[4] == retry_policy_key_spec(config.retry_policy),
        reserve_args_spec(config, capacity, now, lease_tokens)[5] == worker_config_record_spec(config),
        reserve_args_spec(config, capacity, now, lease_tokens).skip(6) == lease_tokens,
{
    assert(reserve_args_spec(config, capacity, now, lease_tokens).skip(6) =~= lease_tokens);
}

/// The operator-transition script reads its KEYS as: 1 the failure counts, 2 the ready
/// set, 3 the scheduled set, 4 the leased set, 5 the lease metadata, 6 the failed set,
/// 7 the worker lease counts, 8 the rerun set.
pub proof fn lemma_operator_layout(keys: NamespaceKeys)
    ensures
        operator_keys(keys).len() == 8,
        operator_keys(keys)[0] == keys.failures@,
        operator_keys(keys)[1] == keys.ready@,
        operator_keys(keys)[2] == keys.scheduled@,
        operator_keys(keys)[3] == keys.leased@,
        operator_keys(keys)[4] == keys.lease_meta@,
        operator_keys(keys)[5] == keys.failed@,
        operator_keys(keys)[6] == keys.workers_leases@,
        operator_keys(keys)[7] == keys.rerun@,
{
}

} // verus!
