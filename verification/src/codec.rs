//! Compact records stored in Redis hashes: the worker configuration record and the
//! lease metadata of a leased job.

use vstd::prelude::*;
use vstd::string::StringSliceAdditionalSpecFns;
use vstd::utf8::{
    decode_utf8, encode_utf8, encode_utf8_decode_utf8, encode_utf8_valid_utf8, is_ascii_chars,
    is_ascii_chars_encode_utf8, is_char_boundary, is_char_boundary_iff_not_is_continuation_byte,
    length_of_first_scalar, pop_first_scalar, valid_utf8, valid_utf8_concat,
};

use crate::config::{WorkerConfig, push_retry_policy_key, retry_policy_key_spec};
use crate::error::{Error, ErrorView, Result};
use crate::text::{
    all_digits, chars_of, decimal_of, find_char_from, find_first, is_digit, lemma_find_first,
    lemma_find_first_at, parse_unsigned, parse_unsigned_range, parse_unsigned_spec, push_decimal,
    push_str, string_from_chars,
};

verus! {

broadcast use vstd::string::group_string_axioms;

/// The fields of a stored worker configuration record that readers use.
#[derive(Debug, Clone, Copy, PartialEq, Eq, Structural)]
pub struct StoredWorkerConfig {
    pub concurrency: usize,
    pub lease_duration_ms: u64,
}

/// A duration in whole milliseconds.
pub open spec fn millis_of(nanos: nat) -> nat {
    nanos / 1_000_000
}

/// The stored record of a worker configuration: concurrency, the five intervals in
/// milliseconds, and the retry policy key, separated by `:`.
pub open spec fn worker_config_record_spec(config: WorkerConfig) -> Seq<char> {
    decimal_of(config.concurrency as nat) + ":"@
        + decimal_of(millis_of(config.lease_duration@)) + ":"@
        + decimal_of(millis_of(config.heartbeat_interval@)) + ":"@
        + decimal_of(millis_of(config.reap_interval@)) + ":"@
        + decimal_of(millis_of(config.poll_interval_min@)) + ":"@
        + decimal_of(millis_of(config.poll_interval_max@)) + ":"@
        + retry_policy_key_spec(config.retry_policy)
}

/// Packs a worker configuration into its stored record.
pub fn pack_worker_config_record(config: &WorkerConfig) -> (s: String)
    ensures
        s@ == worker_config_record_spec(*config),
{
    let mut out: Vec<char> = Vec::new();
    push_decimal(&mut out, config.concurrency as u128);
    push_str(&mut out, ":");
    push_decimal(&mut out, config.lease_duration.as_millis());
    push_str(&mut out, ":");
    push_decimal(&mut out, config.heartbeat_interval.as_millis());
    push_str(&mut out, ":");
    push_decimal(&mut out, config.reap_interval.as_millis());
    push_str(&mut out, ":");
    push_decimal(&mut out, config.poll_interval_min.as_millis());
    push_str(&mut out, ":");
    push_decimal(&mut out, config.poll_interval_max.as_millis());
    push_str(&mut out, ":");
    push_retry_policy_key(&mut out, &config.retry_policy);
    proof {
        assert(out@ =~= worker_config_record_spec(*config));
    }
    string_from_chars(&out)
}

/// What a reader takes from a stored worker configuration record: the first field as the
/// concurrency and the second as the lease duration in milliseconds.
pub open spec fn worker_config_record_fields(record: Seq<char>) -> core::result::Result<(nat, nat), ErrorView> {
    let p0 = find_first(record, ':');
    match parse_unsigned_spec(record.take(p0), usize::MAX as nat) {
        None => Err(ErrorView::InvalidData { field: "workers:config.concurrency"@ }),
        Some(concurrency) => if p0 == record.len() {
            Err(ErrorView::InvalidData { field: "workers:config.lease_duration_ms"@ })
        } else {
            let rest = record.skip(p0 + 1);
            let p1 = find_first(rest, ':');
            match parse_unsigned_spec(rest.take(p1), u64::MAX as nat) {
                None => Err(ErrorView::InvalidData { field: "workers:config.lease_duration_ms"@ }),
                Some(lease) => Ok((concurrency, lease)),
            }
        },
    }
}

/// Reads the concurrency and lease duration from a stored worker configuration record.
pub fn parse_worker_config_record(record: &str) -> (r: Result<StoredWorkerConfig>)
    ensures
        match worker_config_record_fields(record@) {
            Ok((concurrency, lease)) => r matches Ok(c) && c.concurrency as nat == concurrency
                && c.lease_duration_ms as nat == lease,
            Err(ev) => r matches Err(e) && e@ == ev,
        },
{
    let cs = chars_of(record);
    let p0 = find_char_from(&cs, ':', 0);
    proof {
        assert(cs@.skip(0) =~= cs@);
        lemma_find_first(cs@, ':');
        assert(cs@.subrange(0, p0 as int) =~= record@.take(p0 as int));
    }
    let concurrency = match parse_unsigned_range(&cs, 0, p0, usize::MAX as u128) {
        Some(v) => v as usize,
        None => return Err(Error::InvalidData { field: "workers:config.concurrency" }),
    };
    if p0 == cs.len() {
        return Err(Error::InvalidData { field: "workers:config.lease_duration_ms" });
    }
    let p1 = find_char_from(&cs, ':', p0 + 1);
    proof {
        let rest = record@.skip(p0 + 1);
        assert(cs@.skip(p0 + 1) =~= rest);
        lemma_find_first(rest, ':');
        assert(cs@.subrange(p0 + 1, p1 as int) =~= rest.take(p1 - p0 - 1));
    }
    let lease_duration_ms = match parse_unsigned_range(&cs, p0 + 1, p1, 0xffff_ffff_ffff_ffff) {
        Some(v) => v as u64,
        None => return Err(Error::InvalidData { field: "workers:config.lease_duration_ms" }),
    };
    Ok(StoredWorkerConfig { concurrency, lease_duration_ms })
}

proof fn lemma_digits_then_colon(digits: Seq<char>, tail: Seq<char>)
    requires
        all_digits(digits),
        tail.len() > 0,
        tail[0] == ':',
    ensures
        find_first(digits + tail, ':') == digits.len(),
        (digits + tail).take(digits.len() as int) == digits,
        (digits + tail).skip(digits.len() as int + 1) == tail.drop_first(),
{
    let s = digits + tail;
    assert forall|i: int| 0 <= i < digits.len() implies s[i] != ':' by {
        assert(s[i] == digits[i]);
        assert(is_digit(digits[i]));
    }
    lemma_find_first_at(s, ':', digits.len() as int);
    assert(s.take(digits.len() as int) =~= digits);
    assert(s.skip(digits.len() as int + 1) =~= tail.drop_first());
}

proof fn lemma_record_fields_of(cd: Seq<char>, ld: Seq<char>, more: Seq<char>)
    requires
        all_digits(cd),
        all_digits(ld),
        more.len() > 0,
        more[0] == ':',
    ensures
        worker_config_record_fields(cd + (seq![':'] + ld + more)) == match parse_unsigned_spec(cd, usize::MAX as nat) {
            None => Err(ErrorView::InvalidData { field: "workers:config.concurrency"@ }),
            Some(concurrency) => match parse_unsigned_spec(ld, u64::MAX as nat) {
                None => Err(ErrorView::InvalidData { field: "workers:config.lease_duration_ms"@ }),
                Some(lease) => Ok((concurrency, lease)),
            },
        },
{
    let tail = seq![':'] + ld + more;
    lemma_digits_then_colon(cd, tail);
    assert(tail.drop_first() =~= ld + more);
    lemma_digits_then_colon(ld, more);
}

/// Reading back a packed worker configuration record gives its concurrency and lease
/// duration in milliseconds, for every lease duration whose milliseconds fit in `u64`.
#[verifier::rlimit(40)]
pub proof fn lemma_worker_config_record_round_trip(config: WorkerConfig)
    requires
        millis_of(config.lease_duration@) <= u64::MAX,
    ensures
        worker_config_record_fields(worker_config_record_spec(config))
            == Ok::<(nat, nat), ErrorView>((config.concurrency as nat, millis_of(config.lease_duration@))),
{
    let c = decimal_of(config.concurrency as nat);
    let l = decimal_of(millis_of(config.lease_duration@));
    reveal_strlit(":");
    let more = seq![':'] + decimal_of(millis_of(config.heartbeat_interval@)) + ":"@
        + decimal_of(millis_of(config.reap_interval@)) + ":"@
        + decimal_of(millis_of(config.poll_interval_min@)) + ":"@
        + decimal_of(millis_of(config.poll_interval_max@)) + ":"@
        + retry_policy_key_spec(config.retry_policy);
    assert(worker_config_record_spec(config) =~= c + (seq![':'] + l + more));
    crate::text::lemma_decimal_of(config.concurrency as nat);
    crate::text::lemma_decimal_of(millis_of(config.lease_duration@));
    lemma_record_fields_of(c, l, more);
    crate::text::lemma_parse_decimal_of(config.concurrency as nat, usize::MAX as nat);
    crate::text::lemma_parse_decimal_of(millis_of(config.lease_duration@), u64::MAX as nat);
}

/// After an ASCII byte of a valid UTF-8 sequence, a character starts.
proof fn lemma_ascii_then_boundary(b: Seq<u8>, d: int)
    requires
        valid_utf8(b),
        0 <= d < b.len(),
        b[d] < 0x80,
    ensures
        is_char_boundary(b, d + 1),
    decreases b.len(),
{
    let l = length_of_first_scalar(b);
    assert(b.len() > 0);
    assert(vstd::utf8::valid_first_scalar(b));
    assert(valid_utf8(pop_first_scalar(b)));
    if d < l {
        assert(d == 0);
        assert(l == 1);
        assert(pop_first_scalar(b).len() == b.len() - 1);
        reveal_with_fuel(is_char_boundary, 2);
    } else {
        assert(pop_first_scalar(b).len() == b.len() - l);
        assert(pop_first_scalar(b)[d - l] == b[d]);
        lemma_ascii_then_boundary(pop_first_scalar(b), d - l);
        reveal_with_fuel(is_char_boundary, 2);
    }
}

/// What a reader takes from lease metadata, given as UTF-8 bytes: the byte length of the
/// worker identifier in decimal, a `:`, the worker identifier, then the lease token.
pub open spec fn lease_meta_spec(b: Seq<u8>) -> core::result::Result<(Seq<char>, Seq<char>), ErrorView> {
    let d = find_first(b, 58u8);
    if d == b.len() {
        Err(ErrorView::InvalidData { field: "lease_meta.delimiter"@ })
    } else {
        match parse_unsigned_spec(decode_utf8(b.take(d)), usize::MAX as nat) {
            None => Err(ErrorView::InvalidData { field: "lease_meta.length"@ }),
            Some(n) => if b.len() - (d + 1) < n {
                Err(ErrorView::InvalidData { field: "lease_meta.worker_id"@ })
            } else {
                Ok((decode_utf8(b.subrange(d + 1, d + 1 + n)), decode_utf8(b.skip(d + 1 + n))))
            },
        }
    }
}

/// Whether the recorded length of lease metadata ends inside a character, where the
/// worker identifier cannot be cut out of the string.
pub open spec fn lease_meta_cuts_inside_char(b: Seq<u8>) -> bool {
    let d = find_first(b, 58u8);
    d < b.len() && match parse_unsigned_spec(decode_utf8(b.take(d)), usize::MAX as nat) {
        None => false,
        Some(n) => b.len() - (d + 1) >= n && !is_char_boundary(b, d + 1 + n),
    }
}

fn find_byte(bytes: &[u8], x: u8) -> (k: usize)
    ensures
        k as int == find_first(bytes@, x),
{
    let mut i: usize = 0;
    while i < bytes.len()
        invariant
            i <= bytes.len(),
            forall|j: int| 0 <= j < i ==> bytes@[j] != x,
        decreases bytes.len() - i,
    {
        if bytes[i] == x {
            proof {
                lemma_find_first_at(bytes@, x, i as int);
            }
            return i;
        }
        i = i + 1;
    }
    proof {
        lemma_find_first_at(bytes@, x, i as int);
    }
    i
}

/// Whether reading the lease metadata would cut it inside a character: the recorded length
/// of the worker identifier ends in the middle of a multi-byte character.
pub fn lease_meta_cuts_inside(meta: &str) -> (b: bool)
    ensures
        b == lease_meta_cuts_inside_char(meta.spec_bytes()),
{
    let bytes = meta.as_bytes();
    let ghost b = meta.spec_bytes();
    proof {
        encode_utf8_valid_utf8(meta@);
    }
    let d = find_byte(bytes, 58);
    proof {
        lemma_find_first(b, 58u8);
    }
    if d == bytes.len() {
        return false;
    }
    proof {
        is_char_boundary_iff_not_is_continuation_byte(b, d as int);
    }
    let (prefix, _) = meta.split_at(d);
    proof {
        encode_utf8_decode_utf8(prefix@);
        assert(prefix.spec_bytes() =~= b.take(d as int));
    }
    let length = match parse_unsigned(prefix, usize::MAX as u128) {
        Some(n) => n as usize,
        None => return false,
    };
    if bytes.len() - (d + 1) < length {
        return false;
    }
    !meta.is_char_boundary(d + 1 + length)
}

/// Splits lease metadata into the worker identifier and the lease token.
pub fn parse_lease_meta(meta: &str) -> (r: Result<(String, String)>)
    requires
        !lease_meta_cuts_inside_char(meta.spec_bytes()),
    ensures
        match lease_meta_spec(meta.spec_bytes()) {
            Ok((worker_id, lease_token)) => r matches Ok(pair) && pair.0@ == worker_id && pair.1@ == lease_token,
            Err(ev) => r matches Err(e) && e@ == ev,
        },
{
    let bytes = meta.as_bytes();
    let ghost b = meta.spec_bytes();
    proof {
        encode_utf8_valid_utf8(meta@);
    }
    let d = find_byte(bytes, 58);
    proof {
        lemma_find_first(b, 58u8);
    }
    if d == bytes.len() {
        return Err(Error::InvalidData { field: "lease_meta.delimiter" });
    }
    proof {
        is_char_boundary_iff_not_is_continuation_byte(b, d as int);
    }
    let (prefix, _) = meta.split_at(d);
    proof {
        encode_utf8_decode_utf8(prefix@);
        assert(prefix.spec_bytes() =~= b.take(d as int));
    }
    let length = match parse_unsigned(prefix, usize::MAX as u128) {
        Some(n) => n as usize,
        None => return Err(Error::InvalidData { field: "lease_meta.length" }),
    };
    if bytes.len() - (d + 1) < length {
        return Err(Error::InvalidData { field: "lease_meta.worker_id" });
    }
    let cut = d + 1 + length;
    let (head, tail) = meta.split_at(cut);
    proof {
        vstd::utf8::valid_utf8_split(b, cut as int);
        assert(head.spec_bytes() =~= b.subrange(0, cut as int));
        assert(head.spec_bytes()[d as int] == 58u8);
        lemma_ascii_then_boundary(head.spec_bytes(), d as int);
    }
    let (_, worker) = head.split_at(d + 1);
    proof {
        encode_utf8_decode_utf8(worker@);
        encode_utf8_decode_utf8(tail@);
        assert(worker.spec_bytes() =~= b.subrange(d + 1, cut as int));
        assert(tail.spec_bytes() =~= b.skip(cut as int));
    }
    Ok((worker.to_owned(), tail.to_owned()))
}

/// The lease metadata written for a worker and a lease token.
pub open spec fn lease_meta_of(worker_id: Seq<char>, lease_token: Seq<char>) -> Seq<char> {
    decimal_of(encode_utf8(worker_id).len()) + seq![':'] + worker_id + lease_token
}

proof fn lemma_encode_concat(a: Seq<char>, b: Seq<char>)
    ensures
        encode_utf8(a + b) == encode_utf8(a) + encode_utf8(b),
    decreases a.len(),
{
    if a.len() == 0 {
        assert(a + b =~= b);
        assert(encode_utf8(a) + encode_utf8(b) =~= encode_utf8(b));
    } else {
        assert((a + b).drop_first() =~= a.drop_first() + b);
        assert((a + b)[0] == a[0]);
        lemma_encode_concat(a.drop_first(), b);
        assert(encode_utf8(a + b) =~= encode_utf8(a) + encode_utf8(b));
    }
}

proof fn lemma_boundary_at_join(x: Seq<u8>, y: Seq<u8>)
    requires
        valid_utf8(x),
        valid_utf8(y),
    ensures
        is_char_boundary(x + y, x.len() as int),
    decreases x.len(),
{
    valid_utf8_concat(x, y);
    if x.len() > 0 {
        let l = length_of_first_scalar(x);
        assert(vstd::utf8::valid_first_scalar(x));
        assert((x + y)[0] == x[0]);
        assert(length_of_first_scalar(x + y) == l);
        assert(pop_first_scalar(x).len() < x.len());
        assert(pop_first_scalar(x + y) =~= pop_first_scalar(x) + y);
        lemma_boundary_at_join(pop_first_scalar(x), y);
        reveal_with_fuel(is_char_boundary, 2);
    }
}

/// Reading back the lease metadata written for a worker and a lease token gives that
/// worker and that token, and the recorded length always ends on a character boundary.
#[verifier::rlimit(40)]
pub proof fn lemma_lease_meta_round_trip(worker_id: Seq<char>, lease_token: Seq<char>)
    requires
        encode_utf8(worker_id).len() <= usize::MAX,
    ensures
        lease_meta_spec(encode_utf8(lease_meta_of(worker_id, lease_token)))
            == Ok::<(Seq<char>, Seq<char>), ErrorView>((worker_id, lease_token)),
        !lease_meta_cuts_inside_char(encode_utf8(lease_meta_of(worker_id, lease_token))),
{
    let n = encode_utf8(worker_id).len();
    let digits = decimal_of(n);
    let head = digits + seq![':'];
    crate::text::lemma_decimal_of(n);
    crate::text::lemma_parse_decimal_of(n, usize::MAX as nat);
    assert(is_ascii_chars(head)) by {
        assert forall|i: int| 0 <= i < head.len() implies '\0' <= #[trigger] head[i] <= '\u{7f}' by {
            if i < digits.len() {
                assert(is_digit(digits[i]));
            }
        }
    }
    is_ascii_chars_encode_utf8(head);
    let hb = encode_utf8(head);
    let wb = encode_utf8(worker_id);
    let tb = encode_utf8(lease_token);
    lemma_encode_concat(head, worker_id);
    lemma_encode_concat(head + worker_id, lease_token);
    assert(lease_meta_of(worker_id, lease_token) =~= head + worker_id + lease_token);
    let b = encode_utf8(lease_meta_of(worker_id, lease_token));
    assert(b =~= hb + wb + tb);
    let d = digits.len() as int;
    assert(hb[d] == 58u8);
    assert forall|i: int| 0 <= i < d implies b[i] != 58u8 by {
        assert(b[i] == hb[i]);
        assert(hb[i] == head[i] as u8);
        assert(head[i] == digits[i]);
        assert(is_digit(digits[i]));
    }
    lemma_find_first_at(b, 58u8, d);
    assert(b.take(d) =~= encode_utf8(digits)) by {
        is_ascii_chars_encode_utf8(digits);
        assert forall|i: int| 0 <= i < d implies b.take(d)[i] == encode_utf8(digits)[i] by {
            assert(b[i] == hb[i]);
            assert(head[i] == digits[i]);
        }
    }
    encode_utf8_decode_utf8(digits);
    assert(b.subrange(d + 1, d + 1 + n) =~= wb);
    assert(b.skip(d + 1 + n) =~= tb);
    encode_utf8_decode_utf8(worker_id);
    encode_utf8_decode_utf8(lease_token);
    encode_utf8_valid_utf8(head + worker_id);
    encode_utf8_valid_utf8(lease_token);
    lemma_encode_concat(head, worker_id);
    assert(hb + wb + tb =~= encode_utf8(head + worker_id) + tb);
    lemma_boundary_at_join(encode_utf8(head + worker_id), tb);
}

} // verus!
