//! Connection and worker configuration, its validation and its canonical text forms.

use vstd::prelude::*;

use crate::error::{Error, InvalidConfigKind, Result};
use crate::text::{
    all_digits, decimal_of, find_first, is_digit, lemma_decimal_of, lemma_find_first_at, push_decimal, push_str,
    string_from_chars,
};
use crate::time::Duration;

verus! {

/// Redis connection configuration.
#[derive(Debug, Clone)]
pub struct ConnectConfig {
    pub deployment: RedisDeployment,
    pub key_prefix: String,
    /// Per-command/pipeline deadline, also retained by Redis connections on reconnect.
    pub command_timeout: Duration,
}

/// Supported Redis deployment modes.
#[derive(Debug, Clone)]
pub enum RedisDeployment {
    Standalone { url: String },
    Sentinel { service_name: String, nodes: Vec<String> },
    Cluster { nodes: Vec<String> },
}

/// Retry policy applied per namespace by workers.
#[derive(Debug, Clone, Copy, PartialEq, Eq, Structural)]
pub enum RetryPolicy {
    Never,
    Count { max_retries: u32, backoff: Backoff },
    Infinite { backoff: Backoff },
}

/// Backoff strategy for handler failures.
#[derive(Debug, Clone, Copy, PartialEq, Eq, Structural)]
pub enum Backoff {
    Immediate,
    Fixed { delay_ms: u64 },
    Exponential { initial_delay_ms: u64, multiplier: u32, max_delay_ms: u64 },
}

/// Worker runtime configuration.
#[derive(Debug, Clone)]
pub struct WorkerConfig {
    pub worker_id: String,
    pub concurrency: usize,
    pub retry_policy: RetryPolicy,
    pub lease_duration: Duration,
    pub heartbeat_interval: Duration,
    pub reap_interval: Duration,
    pub poll_interval_min: Duration,
    pub poll_interval_max: Duration,
}

/// The first rule a deployment breaks, if any.
pub open spec fn deployment_problem(deployment: RedisDeployment) -> Option<InvalidConfigKind> {
    match deployment {
        RedisDeployment::Standalone { .. } => None,
        RedisDeployment::Sentinel { service_name, nodes } => {
            if service_name@.len() == 0 {
                Some(InvalidConfigKind::EmptySentinelServiceName)
            } else if nodes@.len() == 0 {
                Some(InvalidConfigKind::EmptyRedisNodes)
            } else {
                None
            }
        },
        RedisDeployment::Cluster { nodes } => {
            if nodes@.len() == 0 {
                Some(InvalidConfigKind::EmptyRedisNodes)
            } else {
                None
            }
        },
    }
}

/// The first rule a worker configuration breaks, in the order they are checked.
pub open spec fn worker_config_problem(config: WorkerConfig) -> Option<InvalidConfigKind> {
    if config.concurrency == 0 {
        Some(InvalidConfigKind::ConcurrencyZero)
    } else if config.lease_duration@ == 0 {
        Some(InvalidConfigKind::LeaseDurationZero)
    } else if config.heartbeat_interval@ == 0 {
        Some(InvalidConfigKind::HeartbeatIntervalZero)
    } else if config.heartbeat_interval@ >= config.lease_duration@ {
        Some(InvalidConfigKind::HeartbeatNotShorterThanLease)
    } else if config.reap_interval@ == 0 {
        Some(InvalidConfigKind::ReapIntervalZero)
    } else if config.poll_interval_min@ == 0 {
        Some(InvalidConfigKind::PollIntervalMinZero)
    } else if config.poll_interval_min@ > config.poll_interval_max@ {
        Some(InvalidConfigKind::PollIntervalRange)
    } else {
        None
    }
}

/// A worker configuration that breaks none of the rules.
pub open spec fn worker_config_valid(config: WorkerConfig) -> bool {
    worker_config_problem(config) is None
}

/// What a validation reports for an optional rule violation.
pub open spec fn validation_result(problem: Option<InvalidConfigKind>) -> Result<()> {
    match problem {
        Some(kind) => Err(Error::InvalidConfig { kind }),
        None => Ok(()),
    }
}

impl RedisDeployment {
    /// Checks the deployment: a sentinel needs a service name and nodes, a cluster nodes.
    pub fn validate(&self) -> (r: Result<()>)
        ensures
            r == validation_result(deployment_problem(*self)),
    {
        match self {
            RedisDeployment::Standalone { .. } => Ok(()),
            RedisDeployment::Sentinel { service_name, nodes } => {
                if service_name.as_str().is_empty() {
                    return Err(Error::InvalidConfig { kind: InvalidConfigKind::EmptySentinelServiceName });
                }
                if nodes.len() == 0 {
                    return Err(Error::InvalidConfig { kind: InvalidConfigKind::EmptyRedisNodes });
                }
                Ok(())
            },
            RedisDeployment::Cluster { nodes } => {
                if nodes.len() == 0 {
                    return Err(Error::InvalidConfig { kind: InvalidConfigKind::EmptyRedisNodes });
                }
                Ok(())
            },
        }
    }
}

impl ConnectConfig {
    /// Checks the connection configuration.
    pub fn validate(&self) -> (r: Result<()>)
        ensures
            r == validation_result(deployment_problem(self.deployment)),
    {
        self.deployment.validate()
    }
}

/// The canonical text of a backoff strategy.
pub open spec fn backoff_key_spec(backoff: Backoff) -> Seq<char> {
    match backoff {
        Backoff::Immediate => "none"@,
        Backoff::Fixed { delay_ms } => "fixed:"@ + decimal_of(delay_ms as nat),
        Backoff::Exponential { initial_delay_ms, multiplier, max_delay_ms } =>
            "exponential:"@ + decimal_of(initial_delay_ms as nat) + ":"@ + decimal_of(multiplier as nat)
                + ":"@ + decimal_of(max_delay_ms as nat),
    }
}

/// The canonical text of a retry policy, which Redis compares per namespace.
pub open spec fn retry_policy_key_spec(policy: RetryPolicy) -> Seq<char> {
    match policy {
        RetryPolicy::Never => "never"@,
        RetryPolicy::Count { max_retries, backoff } =>
            "count:"@ + decimal_of(max_retries as nat) + ":"@ + backoff_key_spec(backoff),
        RetryPolicy::Infinite { backoff } => "infinite:"@ + backoff_key_spec(backoff),
    }
}

fn push_backoff_key(out: &mut Vec<char>, backoff: &Backoff)
    ensures
        final(out)@ == old(out)@ + backoff_key_spec(*backoff),
{
    let ghost start = out@;
    match backoff {
        Backoff::Immediate => {
            push_str(out, "none");
            proof { assert(out@ =~= start + backoff_key_spec(*backoff)); }
        },
        Backoff::Fixed { delay_ms } => {
            push_str(out, "fixed:");
            push_decimal(out, *delay_ms as u128);
            proof { assert(out@ =~= start + backoff_key_spec(*backoff)); }
        },
        Backoff::Exponential { initial_delay_ms, multiplier, max_delay_ms } => {
            push_str(out, "exponential:");
            push_decimal(out, *initial_delay_ms as u128);
            push_str(out, ":");
            push_decimal(out, *multiplier as u128);
            push_str(out, ":");
            push_decimal(out, *max_delay_ms as u128);
            proof { assert(out@ =~= start + backoff_key_spec(*backoff)); }
        },
    }
}

impl Backoff {
    /// The canonical text of the backoff strategy.
    pub fn key(&self) -> (s: String)
        ensures
            s@ == backoff_key_spec(*self),
    {
        let mut out: Vec<char> = Vec::new();
        push_backoff_key(&mut out, self);
        proof { assert(out@ =~= backoff_key_spec(*self)); }
        string_from_chars(&out)
    }
}

/// Appends the canonical text of a retry policy to `out`.
pub fn push_retry_policy_key(out: &mut Vec<char>, policy: &RetryPolicy)
    ensures
        final(out)@ == old(out)@ + retry_policy_key_spec(*policy),
{
    let ghost start = out@;
    match policy {
        RetryPolicy::Never => {
            push_str(out, "never");
            proof { assert(out@ =~= start + retry_policy_key_spec(*policy)); }
        },
        RetryPolicy::Count { max_retries, backoff } => {
            push_str(out, "count:");
            push_decimal(out, *max_retries as u128);
            push_str(out, ":");
            push_backoff_key(out, backoff);
            proof { assert(out@ =~= start + retry_policy_key_spec(*policy)); }
        },
        RetryPolicy::Infinite { backoff } => {
            push_str(out, "infinite:");
            push_backoff_key(out, backoff);
            proof { assert(out@ =~= start + retry_policy_key_spec(*policy)); }
        },
    }
}

impl WorkerConfig {
    /// Checks the worker configuration, reporting the first rule it breaks.
    pub fn validate(&self) -> (r: Result<()>)
        ensures
            r == validation_result(worker_config_problem(*self)),
    {
        if self.concurrency == 0 {
            return Err(Error::InvalidConfig { kind: InvalidConfigKind::ConcurrencyZero });
        }
        if self.lease_duration.is_zero() {
            return Err(Error::InvalidConfig { kind: InvalidConfigKind::LeaseDurationZero });
        }
        if self.heartbeat_interval.is_zero() {
            return Err(Error::InvalidConfig { kind: InvalidConfigKind::HeartbeatIntervalZero });
        }
        if self.lease_duration.le(&self.heartbeat_interval) {
            return Err(Error::InvalidConfig { kind: InvalidConfigKind::HeartbeatNotShorterThanLease });
        }
        if self.reap_interval.is_zero() {
            return Err(Error::InvalidConfig { kind: InvalidConfigKind::ReapIntervalZero });
        }
        if self.poll_interval_min.is_zero() {
            return Err(Error::InvalidConfig { kind: InvalidConfigKind::PollIntervalMinZero });
        }
        if self.poll_interval_max.lt(&self.poll_interval_min) {
            return Err(Error::InvalidConfig { kind: InvalidConfigKind::PollIntervalRange });
        }
        Ok(())
    }

    /// The canonical text of the worker's retry policy.
    pub fn retry_policy_key(&self) -> (s: String)
        ensures
            s@ == retry_policy_key_spec(self.retry_policy),
    {
        let mut out: Vec<char> = Vec::new();
        push_retry_policy_key(&mut out, &self.retry_policy);
        proof { assert(out@ =~= retry_policy_key_spec(self.retry_policy)); }
        string_from_chars(&out)
    }
}

proof fn lemma_digits_then_colon_unique(d1: Seq<char>, t1: Seq<char>, d2: Seq<char>, t2: Seq<char>)
    requires
        all_digits(d1),
        all_digits(d2),
        t1.len() > 0,
        t1[0] == ':',
        t2.len() > 0,
        t2[0] == ':',
        d1 + t1 == d2 + t2,
    ensures
        d1 == d2,
        t1 == t2,
{
    let s = d1 + t1;
    assert forall|i: int| 0 <= i < d1.len() implies s[i] != ':' by {
        assert(s[i] == d1[i]);
        assert(is_digit(d1[i]));
    }
    lemma_find_first_at(s, ':', d1.len() as int);
    let s2 = d2 + t2;
    assert forall|i: int| 0 <= i < d2.len() implies s2[i] != ':' by {
        assert(s2[i] == d2[i]);
        assert(is_digit(d2[i]));
    }
    lemma_find_first_at(s2, ':', d2.len() as int);
    assert(d1 =~= s.take(d1.len() as int));
    assert(d2 =~= s2.take(d2.len() as int));
    assert(t1 =~= s.skip(d1.len() as int));
    assert(t2 =~= s2.skip(d2.len() as int));
}

proof fn lemma_decimal_of_injective(a: nat, b: nat)
    requires
        decimal_of(a) == decimal_of(b),
    ensures
        a == b,
{
    lemma_decimal_of(a);
    lemma_decimal_of(b);
}

proof fn lemma_backoff_key_injective(b1: Backoff, b2: Backoff)
    requires
        backoff_key_spec(b1) == backoff_key_spec(b2),
    ensures
        b1 == b2,
{
    reveal_strlit("none");
    reveal_strlit("fixed:");
    reveal_strlit("exponential:");
    reveal_strlit(":");
    let k1 = backoff_key_spec(b1);
    let k2 = backoff_key_spec(b2);
    assert(k1[0] == k2[0]);
    match b1 {
        Backoff::Immediate => {
            assert(k1[0] == 'n');
        },
        Backoff::Fixed { delay_ms: d1 } => {
            assert(k1[0] == 'f');
            if let Backoff::Fixed { delay_ms: d2 } = b2 {
                assert(decimal_of(d1 as nat) =~= k1.skip(6));
                assert(decimal_of(d2 as nat) =~= k2.skip(6));
                lemma_decimal_of_injective(d1 as nat, d2 as nat);
            }
        },
        Backoff::Exponential { initial_delay_ms: i1, multiplier: m1, max_delay_ms: x1 } => {
            assert(k1[0] == 'e');
            if let Backoff::Exponential { initial_delay_ms: i2, multiplier: m2, max_delay_ms: x2 } = b2 {
                let t1 = decimal_of(i1 as nat) + ":"@ + decimal_of(m1 as nat) + ":"@ + decimal_of(x1 as nat);
                let t2 = decimal_of(i2 as nat) + ":"@ + decimal_of(m2 as nat) + ":"@ + decimal_of(x2 as nat);
                assert(k1.skip(12) =~= t1);
                assert(k2.skip(12) =~= t2);
                lemma_three_decimals_injective(i1 as nat, m1 as nat, x1 as nat, i2 as nat, m2 as nat, x2 as nat);
            }
        },
    }
}

proof fn lemma_three_decimals_injective(a1: nat, b1: nat, c1: nat, a2: nat, b2: nat, c2: nat)
    requires
        decimal_of(a1) + ":"@ + decimal_of(b1) + ":"@ + decimal_of(c1)
            == decimal_of(a2) + ":"@ + decimal_of(b2) + ":"@ + decimal_of(c2),
    ensures
        a1 == a2,
        b1 == b2,
        c1 == c2,
{
    reveal_strlit(":");
    let t1 = ":"@ + decimal_of(b1) + ":"@ + decimal_of(c1);
    let t2 = ":"@ + decimal_of(b2) + ":"@ + decimal_of(c2);
    assert(decimal_of(a1) + ":"@ + decimal_of(b1) + ":"@ + decimal_of(c1) =~= decimal_of(a1) + t1);
    assert(decimal_of(a2) + ":"@ + decimal_of(b2) + ":"@ + decimal_of(c2) =~= decimal_of(a2) + t2);
    lemma_decimal_of(a1);
    lemma_decimal_of(a2);
    lemma_digits_then_colon_unique(decimal_of(a1), t1, decimal_of(a2), t2);
    lemma_decimal_of_injective(a1, a2);
    let u1 = ":"@ + decimal_of(c1);
    let u2 = ":"@ + decimal_of(c2);
    assert(t1.drop_first() =~= decimal_of(b1) + u1);
    assert(t2.drop_first() =~= decimal_of(b2) + u2);
    lemma_decimal_of(b1);
    lemma_decimal_of(b2);
    lemma_digits_then_colon_unique(decimal_of(b1), u1, decimal_of(b2), u2);
    lemma_decimal_of_injective(b1, b2);
    assert(u1.drop_first() =~= decimal_of(c1));
    assert(u2.drop_first() =~= decimal_of(c2));
    lemma_decimal_of_injective(c1, c2);
}

/// Distinct retry policies have distinct keys, so the store detects every mismatch
/// between a worker's policy and the one its namespace was created with.
pub proof fn lemma_retry_policy_key_injective(p1: RetryPolicy, p2: RetryPolicy)
    requires
        retry_policy_key_spec(p1) == retry_policy_key_spec(p2),
    ensures
        p1 == p2,
{
    reveal_strlit("never");
    reveal_strlit("count:");
    reveal_strlit("infinite:");
    reveal_strlit(":");
    let k1 = retry_policy_key_spec(p1);
    let k2 = retry_policy_key_spec(p2);
    assert(k1[0] == k2[0]);
    match p1 {
        RetryPolicy::Never => {
            assert(k1[0] == 'n');
        },
        RetryPolicy::Count { max_retries: m1, backoff: b1 } => {
            assert(k1[0] == 'c');
            if let RetryPolicy::Count { max_retries: m2, backoff: b2 } = p2 {
                let t1 = ":"@ + backoff_key_spec(b1);
                let t2 = ":"@ + backoff_key_spec(b2);
                assert(k1.skip(6) =~= decimal_of(m1 as nat) + t1);
                assert(k2.skip(6) =~= decimal_of(m2 as nat) + t2);
                lemma_decimal_of(m1 as nat);
                lemma_decimal_of(m2 as nat);
                lemma_digits_then_colon_unique(decimal_of(m1 as nat), t1, decimal_of(m2 as nat), t2);
                lemma_decimal_of_injective(m1 as nat, m2 as nat);
                assert(t1.drop_first() =~= backoff_key_spec(b1));
                assert(t2.drop_first() =~= backoff_key_spec(b2));
                lemma_backoff_key_injective(b1, b2);
            }
        },
        RetryPolicy::Infinite { backoff: b1 } => {
            assert(k1[0] == 'i');
            if let RetryPolicy::Infinite { backoff: b2 } = p2 {
                assert(k1.skip(9) =~= backoff_key_spec(b1));
                assert(k2.skip(9) =~= backoff_key_spec(b2));
                lemma_backoff_key_injective(b1, b2);
            }
        },
    }
}

} // verus!
