use redloop::keys::{namespace_keys, namespaces_key};

#[test]
fn namespace_catalog_key_follows_the_prefix() {
    assert_eq!(namespaces_key("redloop"), "redloop:namespaces");
    assert_eq!(namespaces_key(""), "namespaces");
}

#[test]
fn namespace_keys_share_a_hex_hash_tag() {
    let keys = namespace_keys("redloop", "ns");
    assert_eq!(keys.cfg, "redloop{6e73}:cfg");
    assert_eq!(keys.failures, "redloop{6e73}:failures");
    assert_eq!(keys.ready, "redloop{6e73}:ready");
    assert_eq!(keys.scheduled, "redloop{6e73}:scheduled");
    assert_eq!(keys.leased, "redloop{6e73}:leased");
    assert_eq!(keys.lease_meta, "redloop{6e73}:lease_meta");
    assert_eq!(keys.rerun, "redloop{6e73}:rerun");
    assert_eq!(keys.failed, "redloop{6e73}:failed");
    assert_eq!(keys.workers_last_seen, "redloop{6e73}:workers:last_seen");
    assert_eq!(keys.workers_config, "redloop{6e73}:workers:config");
    assert_eq!(keys.workers_leases, "redloop{6e73}:workers:leases");
}

#[test]
fn hash_tag_encodes_utf8_bytes_and_empty_prefix() {
    let keys = namespace_keys("", "é{}");
    assert_eq!(keys.ready, "{c3a97b7d}:ready");
}

#[test]
fn distinct_namespaces_get_distinct_keys() {
    let a = namespace_keys("p", "ab");
    let b = namespace_keys("p", "a");
    assert_ne!(a.ready, b.ready);
    assert_ne!(a.ready, a.rerun);
}
