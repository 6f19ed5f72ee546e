//! The Redis wire protocol of the queue: identifier checks, the scalar encodings the
//! scripts exchange, and the replies they send back.

use vstd::prelude::*;

use crate::error::{Error, ErrorView, InvalidConfigKind, Result, result_view};
use crate::text::{lemma_parse_signed_decimal_of, parse_i64_spec, parse_signed, parse_unsigned, parse_unsigned_spec, str_equals};
use crate::time::{Timestamp, optional_on_whole_micro, valid_timestamp_micros};
use crate::config::{Backoff, RetryPolicy, backoff_key_spec, retry_policy_key_spec};
use crate::store::{FailureAction, FailureRequest, ReplaceMode, ReserveBatch, ReservedJob};
use crate::text::{decimal_of, decimal_string, find_first, lemma_decimal_of, lemma_find_first_at, signed_decimal_of, signed_decimal_string};
use crate::types::{
    EnqueueResult, EnqueueStatus, JobState, RescheduleResult, enqueue_status_from_name,
    job_state_from_name,
};

verus! {

broadcast use vstd::string::group_string_axioms;

/// The largest job identifier, in UTF-8 bytes.
pub open spec fn max_job_id_bytes() -> nat { 256 }

/// Checks that a job identifier is at most 256 bytes long (`len` counts UTF-8 bytes).
pub fn validate_job_id(job_id: &str) -> (r: Result<()>)
    ensures
        r is Ok <==> job_id.len() <= 256,
        r matches Err(e) ==> e@ == (ErrorView::JobIdTooLong { length: job_id.len() }),
{
    let length = job_id.len();
    if length > 256 {
        return Err(Error::JobIdTooLong { length });
    }
    Ok(())
}

/// A sequence of strings, each taken by its characters: script replies and arguments.
pub open spec fn strings_view(reply: Seq<String>) -> Seq<Seq<char>> {
    reply.map_values(|s: String| s@)
}

/// The item at `i` of a reply, if there is one.
pub open spec fn reply_item(reply: Seq<Seq<char>>, i: int) -> Option<Seq<char>> {
    if 0 <= i < reply.len() { Some(reply[i]) } else { None }
}

/// Whether a reply reports success: its first item is `ok`.
pub open spec fn reply_is_ok(reply: Seq<Seq<char>>) -> bool {
    reply_item(reply, 0) == Some("ok"@)
}

fn item_equals(reply: &Vec<String>, i: usize, expected: &str) -> (b: bool)
    ensures
        b == (reply_item(strings_view(reply@), i as int) == Some(expected@)),
{
    if i < reply.len() {
        str_equals(reply[i].as_str(), expected)
    } else {
        false
    }
}

/// Parses a job state name.
pub fn parse_state(value: &str) -> (r: Result<JobState>)
    ensures
        result_view(r) == match job_state_from_name(value@) {
            Some(state) => Ok(state),
            None => Err(ErrorView::InvalidData { field: "job_state"@ }),
        },
{
    match JobState::from_str(value) {
        Some(state) => Ok(state),
        None => Err(Error::InvalidData { field: "job_state" }),
    }
}

/// Parses an enqueue status name.
pub fn parse_enqueue_status(value: &str) -> (r: Result<EnqueueStatus>)
    ensures
        result_view(r) == match enqueue_status_from_name(value@) {
            Some(status) => Ok(status),
            None => Err(ErrorView::InvalidData { field: "enqueue.status"@ }),
        },
{
    match EnqueueStatus::from_str(value) {
        Some(status) => Ok(status),
        None => Err(Error::InvalidData { field: "enqueue.status" }),
    }
}

/// Parses a signed decimal reply field named `field`.
pub fn parse_i64(field: &'static str, value: &str) -> (r: Result<i64>)
    ensures
        result_view(r) == match parse_i64_spec(value@) {
            Some(v) => Ok(v as i64),
            None => Err(ErrorView::InvalidData { field: field@ }),
        },
{
    match parse_signed(value) {
        Some(v) => Ok(v),
        None => Err(Error::InvalidData { field }),
    }
}

/// Microseconds since the epoch.
pub fn micros(timestamp: Timestamp) -> (m: i64)
    ensures
        m as int == timestamp@,
{
    timestamp.timestamp_micros()
}

/// The instant `value` microseconds after the epoch.
pub fn from_micros(value: i64) -> (r: Result<Timestamp>)
    ensures
        r is Ok <==> valid_timestamp_micros(value as int),
        r matches Ok(t) ==> t@ == value as int && t.on_whole_micro(),
        r matches Err(e) ==> e@ == (ErrorView::InvalidTimestamp { micros: value }),
{
    match Timestamp::checked_from_micros(value) {
        Some(t) => Ok(t),
        None => Err(Error::InvalidTimestamp { micros: value }),
    }
}

/// A timestamp reply field: a decimal count of microseconds naming a calendar instant.
pub open spec fn timestamp_field_spec(field: Seq<char>, value: Seq<char>) -> core::result::Result<int, ErrorView> {
    match parse_i64_spec(value) {
        None => Err(ErrorView::InvalidData { field }),
        Some(v) => if valid_timestamp_micros(v) {
            Ok(v)
        } else {
            Err(ErrorView::InvalidTimestamp { micros: v as i64 })
        },
    }
}

/// A timestamp written in the scripts' signed decimal form reads back as the same instant.
pub proof fn lemma_timestamp_field_round_trip(field: Seq<char>, micros: int)
    requires
        valid_timestamp_micros(micros),
    ensures
        timestamp_field_spec(field, signed_decimal_of(micros)) == Ok::<int, ErrorView>(micros),
{
    lemma_parse_signed_decimal_of(micros);
}

/// A timestamp result taken by its view.
pub open spec fn timestamp_result_view(r: Result<Timestamp>) -> core::result::Result<int, ErrorView> {
    match r {
        Ok(t) => Ok(t@),
        Err(e) => Err(e@),
    }
}

/// Parses a timestamp reply field named `field`.
pub fn parse_timestamp(field: &'static str, value: &str) -> (r: Result<Timestamp>)
    ensures
        timestamp_result_view(r) == timestamp_field_spec(field@, value@),
        r matches Ok(t) ==> t.on_whole_micro(),
{
    let v = parse_i64(field, value)?;
    from_micros(v)
}

/// The error a script reports in a reply whose first item is not `ok`.
pub open spec fn script_error_spec(job_id: Seq<char>, reply: Seq<Seq<char>>) -> ErrorView {
    let tag = reply_item(reply, 1);
    if tag == Some("not_found"@) {
        ErrorView::NotFound { job_id }
    } else if tag == Some("invalid_state"@) {
        let state = match reply_item(reply, 2) {
            Some(name) => match job_state_from_name(name) {
                Some(state) => state,
                None => JobState::Failed,
            },
            None => JobState::Failed,
        };
        ErrorView::InvalidState { job_id, state }
    } else if tag == Some("lease_mismatch"@) {
        ErrorView::LeaseMismatch { job_id }
    } else if tag == Some("invalid_config"@) {
        ErrorView::InvalidConfig { kind: InvalidConfigKind::RetryPolicyMismatch }
    } else {
        ErrorView::InvalidData { field: "script.response"@ }
    }
}

/// Turns a script's error reply into the library's error.
pub fn parse_script_error(job_id: &str, reply: &Vec<String>) -> (e: Error)
    ensures
        e@ == script_error_spec(job_id@, strings_view(reply@)),
{
    let owned = job_id.to_owned();
    if item_equals(reply, 1, "not_found") {
        Error::NotFound { job_id: owned }
    } else if item_equals(reply, 1, "invalid_state") {
        let state = if reply.len() > 2 {
            match JobState::from_str(reply[2].as_str()) {
                Some(state) => state,
                None => JobState::Failed,
            }
        } else {
            JobState::Failed
        };
        Error::InvalidState { job_id: owned, state }
    } else if item_equals(reply, 1, "lease_mismatch") {
        Error::LeaseMismatch { job_id: owned }
    } else if item_equals(reply, 1, "invalid_config") {
        Error::InvalidConfig { kind: InvalidConfigKind::RetryPolicyMismatch }
    } else {
        Error::InvalidData { field: "script.response" }
    }
}

/// Reads a lease-script reply: `ok`, or the reported error.
pub fn parse_lease_response(job_id: &str, reply: Vec<String>) -> (r: Result<()>)
    ensures
        result_view(r) == if reply_is_ok(strings_view(reply@)) {
            Ok(())
        } else {
            Err(script_error_spec(job_id@, strings_view(reply@)))
        },
{
    if item_equals(&reply, 0, "ok") {
        Ok(())
    } else {
        Err(parse_script_error(job_id, &reply))
    }
}

/// A reply field that must be present, named `field` when it is missing.
pub open spec fn required_item(reply: Seq<Seq<char>>, i: int, field: Seq<char>) -> core::result::Result<Seq<char>, ErrorView> {
    match reply_item(reply, i) {
        Some(item) => Ok(item),
        None => Err(ErrorView::InvalidData { field }),
    }
}

/// What an enqueue reply reports: `ok`, the enqueue status, then the resulting state.
pub open spec fn enqueue_reply_spec(job_id: Seq<char>, reply: Seq<Seq<char>>) -> core::result::Result<(EnqueueStatus, JobState), ErrorView> {
    if !reply_is_ok(reply) {
        Err(script_error_spec(job_id, reply))
    } else {
        match required_item(reply, 1, "enqueue.status"@) {
            Err(e) => Err(e),
            Ok(name) => match enqueue_status_from_name(name) {
                None => Err(ErrorView::InvalidData { field: "enqueue.status"@ }),
                Some(status) => match required_item(reply, 2, "enqueue.state"@) {
                    Err(e) => Err(e),
                    Ok(state_name) => match job_state_from_name(state_name) {
                        None => Err(ErrorView::InvalidData { field: "job_state"@ }),
                        Some(state) => Ok((status, state)),
                    },
                },
            },
        }
    }
}

/// Reads the reply of an enqueue.
pub fn parse_enqueue_response(job_id: &str, reply: Vec<String>) -> (r: Result<EnqueueResult>)
    ensures
        match enqueue_reply_spec(job_id@, strings_view(reply@)) {
            Ok((status, state)) => r matches Ok(res) && res.job_id@ == job_id@ && res.status == status && res.state == state,
            Err(ev) => r matches Err(e) && e@ == ev,
        },
{
    if !item_equals(&reply, 0, "ok") {
        return Err(parse_script_error(job_id, &reply));
    }
    if reply.len() <= 1 {
        return Err(Error::InvalidData { field: "enqueue.status" });
    }
    let status = parse_enqueue_status(reply[1].as_str())?;
    if reply.len() <= 2 {
        return Err(Error::InvalidData { field: "enqueue.state" });
    }
    let state = parse_state(reply[2].as_str())?;
    Ok(EnqueueResult { job_id: job_id.to_owned(), state, status })
}

/// An optional timestamp reply field: absent or `0` mean none.
pub open spec fn optional_timestamp_spec(field: Seq<char>, item: Option<Seq<char>>) -> core::result::Result<Option<int>, ErrorView> {
    match item {
        None => Ok(None),
        Some(value) => if value == "0"@ {
            Ok(None)
        } else {
            match timestamp_field_spec(field, value) {
                Ok(t) => Ok(Some(t)),
                Err(e) => Err(e),
            }
        },
    }
}

/// A schedule written as a script argument (`0` for none) reads back from a reply as the
/// same schedule. A schedule at the epoch itself is written as `0` too and reads back as
/// none, so it is left out.
pub proof fn lemma_optional_timestamp_round_trip(field: Seq<char>, at: Option<int>)
    requires
        at matches Some(m) ==> valid_timestamp_micros(m) && m != 0,
    ensures
        optional_timestamp_spec(
            field,
            Some(match at { Some(m) => signed_decimal_of(m), None => decimal_of(0) }),
        ) == Ok::<Option<int>, ErrorView>(at),
{
    reveal_strlit("0");
    assert(decimal_of(0) =~= "0"@);
    if let Some(m) = at {
        lemma_timestamp_field_round_trip(field, m);
        lemma_parse_signed_decimal_of(0);
        if signed_decimal_of(m) == "0"@ {
            assert(parse_i64_spec(signed_decimal_of(m)) == parse_i64_spec(signed_decimal_of(0)));
        }
    }
}

/// An optional timestamp taken by its view.
pub open spec fn optional_timestamp_view(t: Option<Timestamp>) -> Option<int> {
    match t {
        Some(t) => Some(t@),
        None => None,
    }
}

/// Reads an optional timestamp from item `i` of a reply.
pub fn parse_optional_timestamp(field: &'static str, reply: &Vec<String>, i: usize) -> (r: Result<Option<Timestamp>>)
    ensures
        match optional_timestamp_spec(field@, reply_item(strings_view(reply@), i as int)) {
            Ok(t) => r matches Ok(v) && optional_timestamp_view(v) == t,
            Err(ev) => r matches Err(e) && e@ == ev,
        },
        r matches Ok(v) ==> optional_on_whole_micro(v),
{
    if i >= reply.len() {
        return Ok(None);
    }
    if str_equals(reply[i].as_str(), "0") {
        return Ok(None);
    }
    let t = parse_timestamp(field, reply[i].as_str())?;
    Ok(Some(t))
}

/// What a reschedule reply reports: `ok`, an ignored item, the state, and the new schedule.
pub open spec fn reschedule_reply_spec(job_id: Seq<char>, reply: Seq<Seq<char>>) -> core::result::Result<(JobState, Option<int>), ErrorView> {
    if !reply_is_ok(reply) {
        Err(script_error_spec(job_id, reply))
    } else {
        match required_item(reply, 2, "reschedule.state"@) {
            Err(e) => Err(e),
            Ok(state_name) => match job_state_from_name(state_name) {
                None => Err(ErrorView::InvalidData { field: "job_state"@ }),
                Some(state) => match optional_timestamp_spec("reschedule.schedule_at"@, reply_item(reply, 3)) {
                    Err(e) => Err(e),
                    Ok(at) => Ok((state, at)),
                },
            },
        }
    }
}

/// Reads the reply of a reschedule.
pub fn parse_reschedule_response(job_id: &str, reply: Vec<String>) -> (r: Result<RescheduleResult>)
    ensures
        match reschedule_reply_spec(job_id@, strings_view(reply@)) {
            Ok((state, at)) => r matches Ok(res) && res.job_id@ == job_id@ && res.state == state
                && optional_timestamp_view(res.schedule_at) == at,
            Err(ev) => r matches Err(e) && e@ == ev,
        },
        r matches Ok(res) ==> optional_on_whole_micro(res.schedule_at),
{
    if !item_equals(&reply, 0, "ok") {
        return Err(parse_script_error(job_id, &reply));
    }
    if reply.len() <= 2 {
        return Err(Error::InvalidData { field: "reschedule.state" });
    }
    let state = parse_state(reply[2].as_str())?;
    let schedule_at = parse_optional_timestamp("reschedule.schedule_at", &reply, 3)?;
    Ok(RescheduleResult { job_id: job_id.to_owned(), state, schedule_at })
}

/// Parses a failed-job page cursor: the offset of the page's first entry.
pub fn parse_cursor(cursor: &str) -> (r: Result<usize>)
    ensures
        match parse_unsigned_spec(cursor@, usize::MAX as nat) {
            Some(v) => r == Ok::<usize, Error>(v as usize),
            None => r matches Err(e) && e@ == (ErrorView::InvalidCursor { cursor: cursor@ }),
        },
{
    match parse_unsigned(cursor, 0xffff_ffff_ffff_ffff) {
        Some(v) => {
            if v <= usize::MAX as u128 {
                Ok(v as usize)
            } else {
                Err(Error::InvalidCursor { cursor: cursor.to_owned() })
            }
        },
        None => Err(Error::InvalidCursor { cursor: cursor.to_owned() }),
    }
}


/// The wire name of a replace mode.
pub open spec fn replace_mode_name(mode: ReplaceMode) -> Seq<char> {
    match mode {
        ReplaceMode::Always => "replace"@,
        ReplaceMode::IfEarlier => "earlier"@,
        ReplaceMode::IfLater => "later"@,
    }
}

/// The wire name of a replace mode.
pub fn replace_mode(mode: ReplaceMode) -> (s: &'static str)
    ensures
        s@ == replace_mode_name(mode),
{
    match mode {
        ReplaceMode::Always => "replace",
        ReplaceMode::IfEarlier => "earlier",
        ReplaceMode::IfLater => "later",
    }
}

/// The four script arguments describing a backoff: kind, then three numbers.
pub open spec fn backoff_args_spec(backoff: Backoff) -> Seq<Seq<char>> {
    match backoff {
        Backoff::Immediate => seq!["none"@, "0"@, "0"@, "0"@],
        Backoff::Fixed { delay_ms } => seq!["fixed"@, decimal_of(delay_ms as nat), "0"@, "0"@],
        Backoff::Exponential { initial_delay_ms, multiplier, max_delay_ms } => seq![
            "exponential"@,
            decimal_of(initial_delay_ms as nat),
            decimal_of(multiplier as nat),
            decimal_of(max_delay_ms as nat),
        ],
    }
}

/// The script arguments describing a backoff.
pub fn backoff_args(backoff: &Backoff) -> (args: Vec<String>)
    ensures
        strings_view(args@) == backoff_args_spec(*backoff),
{
    let mut args: Vec<String> = Vec::new();
    match backoff {
        Backoff::Immediate => {
            args.push("none".to_owned());
            args.push("0".to_owned());
            args.push("0".to_owned());
            args.push("0".to_owned());
        },
        Backoff::Fixed { delay_ms } => {
            args.push("fixed".to_owned());
            args.push(decimal_string(*delay_ms as u128));
            args.push("0".to_owned());
            args.push("0".to_owned());
        },
        Backoff::Exponential { initial_delay_ms, multiplier, max_delay_ms } => {
            args.push("exponential".to_owned());
            args.push(decimal_string(*initial_delay_ms as u128));
            args.push(decimal_string(*multiplier as u128));
            args.push(decimal_string(*max_delay_ms as u128));
        },
    }
    proof {
        assert(strings_view(args@) =~= backoff_args_spec(*backoff));
    }
    args
}

/// The wire name of a failure action.
pub open spec fn failure_action_name(action: FailureAction) -> Seq<char> {
    match action {
        FailureAction::Retryable => "retryable"@,
        FailureAction::Terminal => "terminal"@,
    }
}

/// The retry-policy arguments of a failure report: kind, retry limit, then the backoff.
pub open spec fn retry_policy_args_spec(policy: RetryPolicy) -> Seq<Seq<char>> {
    match policy {
        RetryPolicy::Never => seq!["never"@, "0"@, "none"@, "0"@, "0"@, "0"@],
        RetryPolicy::Count { max_retries, backoff } =>
            seq!["count"@, decimal_of(max_retries as nat)] + backoff_args_spec(backoff),
        RetryPolicy::Infinite { backoff } => seq!["infinite"@, "0"@] + backoff_args_spec(backoff),
    }
}

/// The word a canonical key starts with: its text before the first `:`, or all of it.
pub open spec fn key_word(key: Seq<char>) -> Seq<char> {
    key.take(find_first(key, ':'))
}

proof fn lemma_key_word(word: Seq<char>, rest: Seq<char>)
    requires
        forall|i: int| 0 <= i < word.len() ==> word[i] != ':',
    ensures
        key_word(word) == word,
        key_word(word + seq![':'] + rest) == word,
{
    lemma_find_first_at(word, ':', word.len() as int);
    assert(word.take(word.len() as int) =~= word);
    let key = word + seq![':'] + rest;
    assert forall|i: int| 0 <= i < word.len() implies key[i] != ':' by {
        assert(key[i] == word[i]);
    }
    assert(key[word.len() as int] == ':');
    lemma_find_first_at(key, ':', word.len() as int);
    assert(key.take(word.len() as int) =~= word);
}

/// The backoff arguments spell out the backoff's canonical key: the kind is the word the
/// key starts with, and the numbers are those the key lists after it, in the same order;
/// the places a backoff has no number for are `0`.
pub proof fn lemma_backoff_args_spell_the_key(backoff: Backoff)
    ensures
        backoff_args_spec(backoff).len() == 4,
        backoff_args_spec(backoff)[0] == key_word(backoff_key_spec(backoff)),
        match backoff {
            Backoff::Immediate => backoff_args_spec(backoff)[0] == backoff_key_spec(backoff)
                && backoff_args_spec(backoff)[1] == decimal_of(0)
                && backoff_args_spec(backoff)[2] == decimal_of(0)
                && backoff_args_spec(backoff)[3] == decimal_of(0),
            Backoff::Fixed { .. } => backoff_key_spec(backoff)
                == backoff_args_spec(backoff)[0] + seq![':'] + backoff_args_spec(backoff)[1]
                && backoff_args_spec(backoff)[2] == decimal_of(0)
                && backoff_args_spec(backoff)[3] == decimal_of(0),
            Backoff::Exponential { .. } => backoff_key_spec(backoff)
                == backoff_args_spec(backoff)[0] + seq![':'] + backoff_args_spec(backoff)[1]
                    + seq![':'] + backoff_args_spec(backoff)[2] + seq![':'] + backoff_args_spec(backoff)[3],
        },
{
    reveal_strlit("none");
    reveal_strlit("fixed");
    reveal_strlit("fixed:");
    reveal_strlit("exponential");
    reveal_strlit("exponential:");
    reveal_strlit(":");
    reveal_strlit("0");
    assert(decimal_of(0) =~= "0"@);
    let a = backoff_args_spec(backoff);
    let key = backoff_key_spec(backoff);
    match backoff {
        Backoff::Immediate => {
            lemma_key_word("none"@, Seq::empty());
        },
        Backoff::Fixed { delay_ms } => {
            assert(key =~= "fixed"@ + seq![':'] + decimal_of(delay_ms as nat));
            lemma_key_word("fixed"@, decimal_of(delay_ms as nat));
        },
        Backoff::Exponential { initial_delay_ms, multiplier, max_delay_ms } => {
            let rest = decimal_of(initial_delay_ms as nat) + seq![':'] + decimal_of(multiplier as nat)
                + seq![':'] + decimal_of(max_delay_ms as nat);
            assert(key =~= "exponential"@ + seq![':'] + rest);
            lemma_key_word("exponential"@, rest);
            assert(key =~= a[0] + seq![':'] + a[1] + seq![':'] + a[2] + seq![':'] + a[3]);
        },
    }
}

/// A failure report tells the script the retry policy it runs under: the policy-kind
/// argument is the word the policy's canonical key starts with (`never`, `count`,
/// `infinite`), the retry limit is the policy's own limit for a counted policy and `0`
/// otherwise, and the backoff arguments spell out the key of the policy's backoff (no
/// backoff for a policy that never retries).
pub proof fn lemma_failure_args_carry_the_policy(request: FailureRequest)
    ensures
        failure_args_spec(request).len() == 11,
        failure_args_spec(request)[5] == key_word(retry_policy_key_spec(request.retry_policy)),
        failure_args_spec(request)[6] == match request.retry_policy {
            RetryPolicy::Count { max_retries, .. } => decimal_of(max_retries as nat),
            _ => decimal_of(0),
        },
        failure_args_spec(request).subrange(7, 11) == backoff_args_spec(match request.retry_policy {
            RetryPolicy::Never => Backoff::Immediate,
            RetryPolicy::Count { backoff, .. } => backoff,
            RetryPolicy::Infinite { backoff } => backoff,
        }),
        match request.retry_policy {
            RetryPolicy::Never => failure_args_spec(request)[5] == retry_policy_key_spec(request.retry_policy),
            RetryPolicy::Count { backoff, .. } => retry_policy_key_spec(request.retry_policy)
                == failure_args_spec(request)[5] + seq![':'] + failure_args_spec(request)[6] + seq![':']
                    + backoff_key_spec(backoff),
            RetryPolicy::Infinite { backoff } => retry_policy_key_spec(request.retry_policy)
                == failure_args_spec(request)[5] + seq![':'] + backoff_key_spec(backoff),
        },
{
    reveal_strlit("never");
    reveal_strlit("count");
    reveal_strlit("count:");
    reveal_strlit("infinite");
    reveal_strlit("infinite:");
    reveal_strlit(":");
    reveal_strlit("0");
    reveal_strlit("none");
    assert(decimal_of(0) =~= "0"@);
    let args = failure_args_spec(request);
    let key = retry_policy_key_spec(request.retry_policy);
    match request.retry_policy {
        RetryPolicy::Never => {
            lemma_key_word("never"@, Seq::empty());
            assert(args.subrange(7, 11) =~= backoff_args_spec(Backoff::Immediate));
        },
        RetryPolicy::Count { max_retries, backoff } => {
            let rest = decimal_of(max_retries as nat) + seq![':'] + backoff_key_spec(backoff);
            assert(key =~= "count"@ + seq![':'] + rest);
            lemma_key_word("count"@, rest);
            assert(args.subrange(7, 11) =~= backoff_args_spec(backoff));
            assert(key =~= args[5] + seq![':'] + args[6] + seq![':'] + backoff_key_spec(backoff));
        },
        RetryPolicy::Infinite { backoff } => {
            assert(key =~= "infinite"@ + seq![':'] + backoff_key_spec(backoff));
            lemma_key_word("infinite"@, backoff_key_spec(backoff));
            assert(args.subrange(7, 11) =~= backoff_args_spec(backoff));
        },
    }
}

/// The script arguments of a failure report.
pub open spec fn failure_args_spec(request: FailureRequest) -> Seq<Seq<char>> {
    seq![
        request.job_id@,
        request.worker_id@,
        request.lease_token@,
        signed_decimal_of(request.now@),
        failure_action_name(request.action),
    ] + retry_policy_args_spec(request.retry_policy)
}

fn push_all(args: &mut Vec<String>, more: Vec<String>)
    ensures
        strings_view(final(args)@) == strings_view(old(args)@) + strings_view(more@),
{
    let ghost start = args@;
    let mut i: usize = 0;
    while i < more.len()
        invariant
            i <= more.len(),
            strings_view(args@) == strings_view(start) + strings_view(more@.take(i as int)),
        decreases more.len() - i,
    {
        let ghost prev = args@;
        args.push(more[i].clone());
        proof {
            assert(strings_view(args@) =~= strings_view(prev).push(more@[i as int]@));
            assert(strings_view(more@.take(i + 1)) =~= strings_view(more@.take(i as int)).push(more@[i as int]@));
            assert(strings_view(args@) =~= strings_view(start) + strings_view(more@.take(i + 1)));
        }
        i = i + 1;
    }
    proof {
        assert(more@.take(more.len() as int) =~= more@);
    }
}

/// The script arguments of a failure report.
pub fn failure_args(request: &FailureRequest) -> (args: Vec<String>)
    ensures
        strings_view(args@) == failure_args_spec(*request),
{
    let mut args: Vec<String> = Vec::new();
    args.push(request.job_id.clone());
    args.push(request.worker_id.clone());
    args.push(request.lease_token.clone());
    args.push(signed_decimal_string(micros(request.now)));
    match request.action {
        FailureAction::Retryable => args.push("retryable".to_owned()),
        FailureAction::Terminal => args.push("terminal".to_owned()),
    }
    let ghost head = strings_view(args@);
    match &request.retry_policy {
        RetryPolicy::Never => {
            args.push("never".to_owned());
            args.push("0".to_owned());
            args.push("none".to_owned());
            args.push("0".to_owned());
            args.push("0".to_owned());
            args.push("0".to_owned());
        },
        RetryPolicy::Count { max_retries, backoff } => {
            args.push("count".to_owned());
            args.push(decimal_string(*max_retries as u128));
            push_all(&mut args, backoff_args(backoff));
        },
        RetryPolicy::Infinite { backoff } => {
            args.push("infinite".to_owned());
            args.push("0".to_owned());
            push_all(&mut args, backoff_args(backoff));
        },
    }
    proof {
        assert(strings_view(args@) =~= failure_args_spec(*request));
    }
    args
}

/// What a failure report's reply holds: `ok`, the failure count, the resulting state,
/// and the time of the retry, which must be well formed but is not returned.
pub open spec fn fail_or_retry_reply_spec(job_id: Seq<char>, reply: Seq<Seq<char>>) -> core::result::Result<u32, ErrorView> {
    if !reply_is_ok(reply) {
        Err(script_error_spec(job_id, reply))
    } else {
        match required_item(reply, 1, "fail_or_retry.failure_count"@) {
            Err(e) => Err(e),
            Ok(count) => match parse_unsigned_spec(count, u32::MAX as nat) {
                None => Err(ErrorView::InvalidData { field: "fail_or_retry.failure_count"@ }),
                Some(n) => match required_item(reply, 2, "fail_or_retry.state"@) {
                    Err(e) => Err(e),
                    Ok(state_name) => match job_state_from_name(state_name) {
                        None => Err(ErrorView::InvalidData { field: "job_state"@ }),
                        Some(_) => match optional_timestamp_spec("fail_or_retry.schedule_at"@, reply_item(reply, 3)) {
                            Err(e) => Err(e),
                            Ok(_) => Ok(n as u32),
                        },
                    },
                },
            },
        }
    }
}

/// Reads the reply of a failure report: the job's failure count.
pub fn parse_fail_or_retry_response(job_id: &str, reply: Vec<String>) -> (r: Result<u32>)
    ensures
        result_view(r) == fail_or_retry_reply_spec(job_id@, strings_view(reply@)),
{
    if !item_equals(&reply, 0, "ok") {
        return Err(parse_script_error(job_id, &reply));
    }
    if reply.len() <= 1 {
        return Err(Error::InvalidData { field: "fail_or_retry.failure_count" });
    }
    let failure_count = match parse_unsigned(reply[1].as_str(), 0xffff_ffff) {
        Some(n) => n as u32,
        None => return Err(Error::InvalidData { field: "fail_or_retry.failure_count" }),
    };
    if reply.len() <= 2 {
        return Err(Error::InvalidData { field: "fail_or_retry.state" });
    }
    let _ = parse_state(reply[2].as_str())?;
    let _ = parse_optional_timestamp("fail_or_retry.schedule_at", &reply, 3)?;
    Ok(failure_count)
}

/// What a reap reply holds: `ok`, then how many expired leases went back to ready.
pub open spec fn reap_reply_spec(namespace: Seq<char>, reply: Seq<Seq<char>>) -> core::result::Result<u64, ErrorView> {
    if !reply_is_ok(reply) {
        Err(script_error_spec(namespace, reply))
    } else {
        match required_item(reply, 1, "reap_expired.count"@) {
            Err(e) => Err(e),
            Ok(count) => match parse_unsigned_spec(count, u64::MAX as nat) {
                None => Err(ErrorView::InvalidData { field: "reap_expired.count"@ }),
                Some(n) => Ok(n as u64),
            },
        }
    }
}

/// Reads the reply of a reap: how many leases were reclaimed.
pub fn parse_reap_response(namespace: &str, reply: Vec<String>) -> (r: Result<u64>)
    ensures
        result_view(r) == reap_reply_spec(namespace@, strings_view(reply@)),
{
    if !item_equals(&reply, 0, "ok") {
        return Err(parse_script_error(namespace, &reply));
    }
    if reply.len() <= 1 {
        return Err(Error::InvalidData { field: "reap_expired.count" });
    }
    match parse_unsigned(reply[1].as_str(), 0xffff_ffff_ffff_ffff) {
        Some(n) => Ok(n as u64),
        None => Err(Error::InvalidData { field: "reap_expired.count" }),
    }
}

/// The leases a reserve reply lists after its head: triples of job, lease token and
/// lease deadline, where the deadline must be a decimal number.
pub open spec fn reserved_jobs_spec(items: Seq<Seq<char>>) -> core::result::Result<Seq<(Seq<char>, Seq<char>)>, ErrorView>
    decreases items.len(),
{
    if items.len() == 0 {
        Ok(Seq::empty())
    } else if items.len() < 3 {
        Err(ErrorView::InvalidData { field: "reserve.response"@ })
    } else {
        match parse_i64_spec(items[2]) {
            None => Err(ErrorView::InvalidData { field: "leased_until"@ }),
            Some(_) => match reserved_jobs_spec(items.skip(3)) {
                Err(e) => Err(e),
                Ok(rest) => Ok(seq![(items[0], items[1])] + rest),
            },
        }
    }
}

/// What a reserve reply holds: `ok`, when the next scheduled job falls due, then the leases.
pub open spec fn reserve_reply_spec(worker_id: Seq<char>, reply: Seq<Seq<char>>) -> core::result::Result<(Seq<(Seq<char>, Seq<char>)>, Option<int>), ErrorView> {
    if !reply_is_ok(reply) {
        Err(script_error_spec(worker_id, reply))
    } else {
        match optional_timestamp_spec("next_schedule_at"@, reply_item(reply, 1)) {
            Err(e) => Err(e),
            Ok(next) => match reserved_jobs_spec(reply.skip(2)) {
                Err(e) => Err(e),
                Ok(jobs) => Ok((jobs, next)),
            },
        }
    }
}

/// Reserved jobs taken by their job identifiers and lease tokens.
pub open spec fn reserved_jobs_view(jobs: Seq<ReservedJob>) -> Seq<(Seq<char>, Seq<char>)> {
    jobs.map_values(|j: ReservedJob| (j.job_id@, j.lease_token@))
}

proof fn lemma_reserved_jobs_step(items: Seq<Seq<char>>, k: int)
    requires
        0 <= k,
        k + 3 <= items.len(),
    ensures
        items.skip(k).skip(3) =~= items.skip(k + 3),
        items.skip(k)[0] == items[k],
        items.skip(k)[1] == items[k + 1],
        items.skip(k)[2] == items[k + 2],
{
}

/// Reads the reply of a reservation: the leased jobs and the next due time.
pub fn parse_reserve_response(worker_id: &str, reply: Vec<String>) -> (r: Result<ReserveBatch>)
    requires
        reply_is_ok(strings_view(reply@)) ==> reply@.len() >= 2,
    ensures
        match reserve_reply_spec(worker_id@, strings_view(reply@)) {
            Ok((jobs, next)) => r matches Ok(batch) && reserved_jobs_view(batch.jobs@) == jobs
                && optional_timestamp_view(batch.next_schedule_at) == next,
            Err(ev) => r matches Err(e) && e@ == ev,
        },
        r matches Ok(batch) ==> optional_on_whole_micro(batch.next_schedule_at),
{
    if !item_equals(&reply, 0, "ok") {
        return Err(parse_script_error(worker_id, &reply));
    }
    let next_schedule_at = parse_optional_timestamp("next_schedule_at", &reply, 1)?;
    let ghost items = strings_view(reply@).skip(2);
    let mut jobs: Vec<ReservedJob> = Vec::new();
    let mut i: usize = 2;
    proof {
        assert(items.skip(0) =~= items);
        assert(reserved_jobs_view(jobs@) =~= Seq::<(Seq<char>, Seq<char>)>::empty());
        match reserved_jobs_spec(items) {
            Ok(rest) => {
                assert(reserved_jobs_view(jobs@) + rest =~= rest);
            },
            Err(_) => {},
        }
    }
    while i < reply.len()
        invariant
            2 <= i <= reply.len(),
            items == strings_view(reply@).skip(2),
            reply_is_ok(strings_view(reply@)),
            optional_timestamp_spec("next_schedule_at"@, reply_item(strings_view(reply@), 1))
                == Ok::<Option<int>, ErrorView>(optional_timestamp_view(next_schedule_at)),
            optional_on_whole_micro(next_schedule_at),
            reserved_jobs_spec(items) == match reserved_jobs_spec(items.skip(i - 2)) {
                Ok(rest) => Ok(reserved_jobs_view(jobs@) + rest),
                Err(e) => Err(e),
            },
        decreases reply.len() - i,
    {
        let ghost here = items.skip(i - 2);
        if reply.len() - i < 3 {
            proof {
                assert(here.len() == reply.len() - i);
                assert(reserved_jobs_spec(here) == Err::<Seq<(Seq<char>, Seq<char>)>, ErrorView>(ErrorView::InvalidData { field: "reserve.response"@ }));
            }
            return Err(Error::InvalidData { field: "reserve.response" });
        }
        proof {
            lemma_reserved_jobs_step(items, i - 2);
            assert(here[2] == reply@[i + 2]@);
            assert(here[0] == reply@[i as int]@);
            assert(here[1] == reply@[i + 1]@);
        }
        let leased_until = parse_i64("leased_until", reply[i + 2].as_str());
        if leased_until.is_err() {
            proof {
                assert(reserved_jobs_spec(here) == Err::<Seq<(Seq<char>, Seq<char>)>, ErrorView>(ErrorView::InvalidData { field: "leased_until"@ }));
            }
            return Err(Error::InvalidData { field: "leased_until" });
        }
        let job = ReservedJob { job_id: reply[i].clone(), lease_token: reply[i + 1].clone() };
        let ghost before = jobs@;
        jobs.push(job);
        proof {
            assert(reserved_jobs_view(jobs@) =~= reserved_jobs_view(before) + seq![(here[0], here[1])]);
            match reserved_jobs_spec(here.skip(3)) {
                Ok(rest) => {
                    assert(reserved_jobs_view(before) + (seq![(here[0], here[1])] + rest) =~= reserved_jobs_view(jobs@) + rest);
                },
                Err(_) => {},
            }
        }
        i = i + 3;
    }
    proof {
        assert(items.skip(i - 2).len() == 0);
        assert(reserved_jobs_view(jobs@) + Seq::<(Seq<char>, Seq<char>)>::empty() =~= reserved_jobs_view(jobs@));
    }
    Ok(ReserveBatch { jobs, next_schedule_at })
}

} // verus!
