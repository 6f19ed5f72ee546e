//! The decisions behind the operator command line: which deployment the connection
//! options select, which selector a purge uses, and which release server an upgrade asks.

use vstd::prelude::*;

use crate::config::{ConnectConfig, RedisDeployment};
use crate::error::{Error, ErrorView, Result};
use crate::protocol::strings_view;
use crate::time::{Duration, Timestamp, valid_timestamp_micros};
use crate::types::FailedSelector;

verus! {

/// The release server asked when neither the command line nor the environment names one.
pub const DEFAULT_REDLOOP_RELEASE_SERVER_URL: &'static str = "https://redloop-cli-release-993259844560.europe-west2.run.app";

/// The environment variable that may name the release server.
pub const REDLOOP_RELEASE_SERVER_URL_ENV: &'static str = "REDLOOP_RELEASE_SERVER_URL";

/// The Redis server used when no deployment is named.
pub const DEFAULT_REDIS_URL: &'static str = "redis://127.0.0.1/";

/// Connection options of the command line.
#[derive(Debug, Clone)]
pub struct ConnectArgs {
    pub key_prefix: String,
    pub command_timeout_ms: u64,
    pub redis_url: Option<String>,
    pub sentinel_service_name: Option<String>,
    pub sentinel_node: Vec<String>,
    pub cluster_node: Vec<String>,
}

fn copy_strings(v: &Vec<String>) -> (r: Vec<String>)
    ensures
        r@ == v@,
{
    let mut r: Vec<String> = Vec::new();
    let mut i: usize = 0;
    while i < v.len()
        invariant
            i <= v.len(),
            r@ == v@.take(i as int),
        decreases v.len() - i,
    {
        r.push(v[i].clone());
        proof {
            assert(v@.take(i + 1) =~= v@.take(i as int).push(v@[i as int]));
        }
        i = i + 1;
    }
    proof {
        assert(v@.take(v.len() as int) =~= v@);
    }
    r
}

impl ConnectArgs {
    /// The connection configuration the options select: cluster nodes win, then any
    /// sentinel option (a missing service name reads as empty), then a standalone server,
    /// by default the local one.
    pub fn to_config(&self) -> (r: Result<ConnectConfig>)
        ensures
            r matches Ok(config) && config.key_prefix@ == self.key_prefix@
                && config.command_timeout@ == self.command_timeout_ms as nat * 1_000_000
                && if self.cluster_node@.len() > 0 {
                    config.deployment matches RedisDeployment::Cluster { nodes } && nodes@ == self.cluster_node@
                } else if self.sentinel_node@.len() > 0 || self.sentinel_service_name is Some {
                    config.deployment matches RedisDeployment::Sentinel { service_name, nodes }
                        && nodes@ == self.sentinel_node@
                        && service_name@ == match self.sentinel_service_name { Some(s) => s@, None => Seq::<char>::empty() }
                } else {
                    config.deployment matches RedisDeployment::Standalone { url }
                        && url@ == match self.redis_url { Some(u) => u@, None => DEFAULT_REDIS_URL@ }
                },
    {
        let deployment = if self.cluster_node.len() > 0 {
            RedisDeployment::Cluster { nodes: copy_strings(&self.cluster_node) }
        } else if self.sentinel_node.len() > 0 || self.sentinel_service_name.is_some() {
            let service_name = match &self.sentinel_service_name {
                Some(s) => s.clone(),
                None => String::new(),
            };
            RedisDeployment::Sentinel { service_name, nodes: copy_strings(&self.sentinel_node) }
        } else {
            let url = match &self.redis_url {
                Some(u) => u.clone(),
                None => DEFAULT_REDIS_URL.to_owned(),
            };
            RedisDeployment::Standalone { url }
        };
        Ok(ConnectConfig {
            deployment,
            key_prefix: self.key_prefix.clone(),
            command_timeout: Duration::from_millis(self.command_timeout_ms),
        })
    }
}

/// The release server an upgrade asks: the one named on the command line, else a non-empty
/// value from the environment, else the default.
pub fn resolve_release_server_with_env(release_server: Option<String>, env_value: Option<String>) -> (server: String)
    ensures
        server@ == match release_server {
            Some(s) => s@,
            None => match env_value {
                Some(e) => if e@.len() > 0 { e@ } else { DEFAULT_REDLOOP_RELEASE_SERVER_URL@ },
                None => DEFAULT_REDLOOP_RELEASE_SERVER_URL@,
            },
        },
{
    match release_server {
        Some(server) => server,
        None => match env_value {
            Some(value) => {
                if value.as_str().is_empty() {
                    DEFAULT_REDLOOP_RELEASE_SERVER_URL.to_owned()
                } else {
                    value
                }
            },
            None => DEFAULT_REDLOOP_RELEASE_SERVER_URL.to_owned(),
        },
    }
}

/// The instant an RFC 3339 date-time names, as `chrono` parses it and reads it back in
/// UTC: whole microseconds since the epoch (`timestamp_micros`) and nanoseconds since the
/// last whole second (`timestamp_subsec_nanos`); none where the text is not such a
/// date-time.
pub uninterp spec fn rfc3339_instant(text: Seq<char>) -> Option<(int, int)>;

/// Trusted: `chrono::DateTime::parse_from_rfc3339`, converted to UTC and read back with
/// `timestamp_micros` and `timestamp_subsec_nanos`. The result is named, not stated: it is
/// `rfc3339_instant` of the text. An RFC 3339 year has four digits, so a parsed instant
/// lies within the timestamp range.
#[verifier::external_body]
fn chrono_parse_rfc3339(text: &str) -> (r: Option<(i64, u32)>)
    ensures
        match r {
            Some((m, n)) => rfc3339_instant(text@) == Some((m as int, n as int)),
            None => rfc3339_instant(text@) is None,
        },
        r matches Some((m, _)) ==> valid_timestamp_micros(m as int),
{
    match chrono::DateTime::parse_from_rfc3339(text) {
        Ok(parsed) => {
            let utc = parsed.with_timezone(&chrono::Utc);
            Some((utc.timestamp_micros(), utc.timestamp_subsec_nanos()))
        },
        Err(_) => None,
    }
}

/// The selector for the failures older than the instant that `text` was read as:
/// `parsed` is that instant as whole microseconds since the epoch and nanoseconds since
/// the last whole second, or none where `text` could not be read. Text that names no
/// instant in the timestamp range is an invalid cursor.
pub fn older_than_selector(text: &String, parsed: Option<(i64, u32)>) -> (r: Result<FailedSelector>)
    ensures
        match parsed {
            Some((m, n)) => if valid_timestamp_micros(m as int) {
                r matches Ok(FailedSelector::OlderThan(t)) && t@ == m
                    && t.instant_nanos() == m as int * 1000 + n as int % 1000
            } else {
                r matches Err(e) && e@ == (ErrorView::InvalidCursor { cursor: text@ })
            },
            None => r matches Err(e) && e@ == (ErrorView::InvalidCursor { cursor: text@ }),
        },
{
    match parsed {
        Some((micros, subsec_nanos)) => match Timestamp::checked_from_micros_nanos(micros, subsec_nanos % 1000) {
            Some(t) => Ok(FailedSelector::OlderThan(t)),
            None => Err(Error::InvalidCursor { cursor: text.clone() }),
        },
        None => Err(Error::InvalidCursor { cursor: text.clone() }),
    }
}

/// Purge options of the command line.
#[derive(Debug, Clone)]
pub struct PurgeFailedArgs {
    pub namespace: String,
    pub job_id: Option<String>,
    pub older_than: Option<String>,
    pub all: bool,
}

impl PurgeFailedArgs {
    /// The selector of the purge: a job when one is named, else the failures older than a
    /// date-time when one is given (an unreadable date-time is reported as an invalid
    /// cursor), else all failed jobs.
    pub fn selector(&self) -> (r: Result<FailedSelector>)
        ensures
            match self.job_id {
                Some(job_id) => r matches Ok(FailedSelector::JobId(j)) && j@ == job_id@,
                None => match self.older_than {
                    Some(text) => match rfc3339_instant(text@) {
                        Some((m, n)) => r matches Ok(FailedSelector::OlderThan(t)) && t@ == m
                            && t.instant_nanos() == m * 1000 + n % 1000,
                        None => r matches Err(e) && e@ == (ErrorView::InvalidCursor { cursor: text@ }),
                    },
                    None => r matches Ok(FailedSelector::All),
                },
            },
    {
        if let Some(job_id) = &self.job_id {
            return Ok(FailedSelector::JobId(job_id.clone()));
        }
        if let Some(older_than) = &self.older_than {
            return older_than_selector(older_than, chrono_parse_rfc3339(older_than.as_str()));
        }
        Ok(FailedSelector::All)
    }
}

} // verus!
