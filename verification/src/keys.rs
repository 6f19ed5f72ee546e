//! The Redis key layout: one catalog key, and per namespace a family of keys that share
//! one hash tag so that every script touches a single cluster slot.

use vstd::prelude::*;
use vstd::string::StringSliceAdditionalSpecFns;
use vstd::utf8::{encode_utf8, encode_utf8_decode_utf8};

use crate::text::{hex_digit, hex_of, push_hex, push_str, string_from_chars};

verus! {

broadcast use vstd::string::group_string_axioms;

/// The keys that hold one namespace's queue state.
#[derive(Debug, Clone)]
pub struct NamespaceKeys {
    pub cfg: String,
    pub failures: String,
    pub ready: String,
    pub scheduled: String,
    pub leased: String,
    pub lease_meta: String,
    pub rerun: String,
    pub failed: String,
    pub workers_last_seen: String,
    pub workers_config: String,
    pub workers_leases: String,
}

/// The key of the namespace catalog.
pub open spec fn namespaces_key_spec(prefix: Seq<char>) -> Seq<char> {
    if prefix.len() == 0 {
        "namespaces"@
    } else {
        prefix + ":namespaces"@
    }
}

/// The key catalog entry of a namespace: the prefix, the namespace's UTF-8 bytes in
/// hexadecimal as the hash tag, then `:` and the suffix.
pub open spec fn scoped_key_spec(prefix: Seq<char>, namespace: Seq<char>, suffix: Seq<char>) -> Seq<char> {
    prefix + seq!['{'] + hex_of(encode_utf8(namespace)) + seq!['}', ':'] + suffix
}

/// The key of the namespace catalog.
pub fn namespaces_key(prefix: &str) -> (key: String)
    ensures
        key@ == namespaces_key_spec(prefix@),
{
    if prefix.is_empty() {
        "namespaces".to_owned()
    } else {
        let mut out: Vec<char> = Vec::new();
        push_str(&mut out, prefix);
        push_str(&mut out, ":namespaces");
        string_from_chars(&out)
    }
}

fn scoped_key(prefix: &str, slot: &Vec<char>, suffix: &str) -> (key: String)
    ensures
        key@ == prefix@ + seq!['{'] + slot@ + seq!['}', ':'] + suffix@,
{
    let mut out: Vec<char> = Vec::new();
    if !prefix.is_empty() {
        push_str(&mut out, prefix);
    }
    out.push('{');
    let mut i: usize = 0;
    let ghost start = out@;
    while i < slot.len()
        invariant
            i <= slot.len(),
            out@ == start + slot@.take(i as int),
        decreases slot.len() - i,
    {
        out.push(slot[i]);
        proof {
            assert(slot@.take(i + 1) =~= slot@.take(i as int).push(slot@[i as int]));
        }
        i = i + 1;
    }
    out.push('}');
    out.push(':');
    push_str(&mut out, suffix);
    proof {
        assert(slot@.take(slot.len() as int) =~= slot@);
        if prefix@.len() == 0 {
            assert(prefix@ =~= Seq::<char>::empty());
        }
        assert(out@ =~= prefix@ + seq!['{'] + slot@ + seq!['}', ':'] + suffix@);
    }
    string_from_chars(&out)
}

/// The keys of one namespace.
pub fn namespace_keys(prefix: &str, namespace: &str) -> (keys: NamespaceKeys)
    ensures
        keys.cfg@ == scoped_key_spec(prefix@, namespace@, "cfg"@),
        keys.failures@ == scoped_key_spec(prefix@, namespace@, "failures"@),
        keys.ready@ == scoped_key_spec(prefix@, namespace@, "ready"@),
        keys.scheduled@ == scoped_key_spec(prefix@, namespace@, "scheduled"@),
        keys.leased@ == scoped_key_spec(prefix@, namespace@, "leased"@),
        keys.lease_meta@ == scoped_key_spec(prefix@, namespace@, "lease_meta"@),
        keys.rerun@ == scoped_key_spec(prefix@, namespace@, "rerun"@),
        keys.failed@ == scoped_key_spec(prefix@, namespace@, "failed"@),
        keys.workers_last_seen@ == scoped_key_spec(prefix@, namespace@, "workers:last_seen"@),
        keys.workers_config@ == scoped_key_spec(prefix@, namespace@, "workers:config"@),
        keys.workers_leases@ == scoped_key_spec(prefix@, namespace@, "workers:leases"@),
{
    let mut slot: Vec<char> = Vec::new();
    push_hex(&mut slot, namespace.as_bytes());
    proof {
        assert(slot@ =~= hex_of(encode_utf8(namespace@)));
    }
    NamespaceKeys {
        cfg: scoped_key(prefix, &slot, "cfg"),
        failures: scoped_key(prefix, &slot, "failures"),
        ready: scoped_key(prefix, &slot, "ready"),
        scheduled: scoped_key(prefix, &slot, "scheduled"),
        leased: scoped_key(prefix, &slot, "leased"),
        lease_meta: scoped_key(prefix, &slot, "lease_meta"),
        rerun: scoped_key(prefix, &slot, "rerun"),
        failed: scoped_key(prefix, &slot, "failed"),
        workers_last_seen: scoped_key(prefix, &slot, "workers:last_seen"),
        workers_config: scoped_key(prefix, &slot, "workers:config"),
        workers_leases: scoped_key(prefix, &slot, "workers:leases"),
    }
}

proof fn lemma_hex_of_len(bytes: Seq<u8>)
    ensures
        hex_of(bytes).len() == 2 * bytes.len(),
        forall|i: int| 0 <= i < hex_of(bytes).len() ==> #[trigger] hex_of(bytes)[i] != '}',
    decreases bytes.len(),
{
    if bytes.len() > 0 {
        lemma_hex_of_len(bytes.drop_last());
        let h = hex_of(bytes);
        let p = hex_of(bytes.drop_last());
        assert forall|i: int| 0 <= i < h.len() implies #[trigger] h[i] != '}' by {
            if i < p.len() {
                assert(h[i] == p[i]);
            }
        }
    }
}

proof fn lemma_hex_digit_injective(x: nat, y: nat)
    requires
        x < 16,
        y < 16,
        hex_digit(x) == hex_digit(y),
    ensures
        x == y,
{
}

proof fn lemma_hex_of_injective(a: Seq<u8>, b: Seq<u8>)
    requires
        hex_of(a) == hex_of(b),
    ensures
        a == b,
    decreases a.len(),
{
    lemma_hex_of_len(a);
    lemma_hex_of_len(b);
    if a.len() > 0 {
        let ha = hex_of(a);
        let hb = hex_of(b);
        let n = ha.len();
        lemma_hex_of_len(a.drop_last());
        lemma_hex_of_len(b.drop_last());
        assert(ha[n - 2] == hex_digit((a.last() / 16) as nat));
        assert(hb[n - 2] == hex_digit((b.last() / 16) as nat));
        assert(ha[n - 1] == hex_digit((a.last() % 16) as nat));
        assert(hb[n - 1] == hex_digit((b.last() % 16) as nat));
        lemma_hex_digit_injective((a.last() / 16) as nat, (b.last() / 16) as nat);
        lemma_hex_digit_injective((a.last() % 16) as nat, (b.last() % 16) as nat);
        assert(hex_of(a.drop_last()) =~= ha.take(n - 2));
        assert(hex_of(b.drop_last()) =~= hb.take(n - 2));
        lemma_hex_of_injective(a.drop_last(), b.drop_last());
        assert(a =~= a.drop_last().push(a.last()));
        assert(b =~= b.drop_last().push(b.last()));
    }
}

/// Under one prefix, keys of different namespaces never collide, and within one
/// namespace keys with different suffixes never collide.
pub proof fn lemma_namespace_keys_are_distinct(
    prefix: Seq<char>,
    namespace1: Seq<char>,
    suffix1: Seq<char>,
    namespace2: Seq<char>,
    suffix2: Seq<char>,
)
    requires
        scoped_key_spec(prefix, namespace1, suffix1) == scoped_key_spec(prefix, namespace2, suffix2),
    ensures
        namespace1 == namespace2,
        suffix1 == suffix2,
{
    let h1 = hex_of(encode_utf8(namespace1));
    let h2 = hex_of(encode_utf8(namespace2));
    let k1 = scoped_key_spec(prefix, namespace1, suffix1);
    let k2 = scoped_key_spec(prefix, namespace2, suffix2);
    lemma_hex_of_len(encode_utf8(namespace1));
    lemma_hex_of_len(encode_utf8(namespace2));
    let base: int = prefix.len() as int + 1;
    // The hash tag ends at the first `}` after the opening brace.
    if h1.len() < h2.len() {
        assert(k1[base + h1.len() as int] == '}');
        assert(k2[base + h1.len() as int] == h2[h1.len() as int]);
        assert(false);
    } else if h2.len() < h1.len() {
        assert(k2[base + h2.len() as int] == '}');
        assert(k1[base + h2.len() as int] == h1[h2.len() as int]);
        assert(false);
    }
    assert forall|i: int| 0 <= i < h1.len() implies h1[i] == h2[i] by {
        assert(k1[base + i] == h1[i]);
        assert(k2[base + i] == h2[i]);
    }
    assert(h1 =~= h2);
    lemma_hex_of_injective(encode_utf8(namespace1), encode_utf8(namespace2));
    encode_utf8_decode_utf8(namespace1);
    encode_utf8_decode_utf8(namespace2);
    assert(suffix1 =~= k1.skip(base + h1.len() as int + 2));
    assert(suffix2 =~= k2.skip(base + h2.len() as int + 2));
}

} // verus!
