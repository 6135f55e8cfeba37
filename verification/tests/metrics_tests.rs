use concurrency::{AMapMetrics, CMapMetrics, Error, Metrics};

#[test]
fn metrics_counts_per_key() {
    let mut m = Metrics::new();
    m.inc("req.page").unwrap();
    m.inc("req.page").unwrap();
    m.inc("req.api").unwrap();
    m.inc("req.page").unwrap();
    let (keys, counts) = m.snapshot();
    assert_eq!(keys, vec!["req.page".to_string(), "req.api".to_string()]);
    assert_eq!(counts, vec![3, 1]);
}

#[test]
fn metrics_snapshot_of_empty_store() {
    let m = Metrics::new();
    let (keys, counts) = m.snapshot();
    assert!(keys.is_empty());
    assert!(counts.is_empty());
}

#[test]
fn metrics_default_is_empty() {
    let m = Metrics::default();
    let (keys, _) = m.snapshot();
    assert!(keys.is_empty());
}

#[test]
fn amap_increments_registered_keys() {
    let mut m = AMapMetrics::new(&["call.thread.worker.0", "call.thread.worker.1"]);
    assert_eq!(m.get("call.thread.worker.0"), Some(0));
    m.inc("call.thread.worker.0").unwrap();
    m.inc("call.thread.worker.0").unwrap();
    m.inc("call.thread.worker.1").unwrap();
    assert_eq!(m.get("call.thread.worker.0"), Some(2));
    assert_eq!(m.get("call.thread.worker.1"), Some(1));
}

#[test]
fn amap_rejects_unknown_key() {
    let mut m = AMapMetrics::new(&["a"]);
    match m.inc("b") {
        Err(Error::KeyNotFound) => {}
        _ => panic!("expected an unknown-key error"),
    }
    assert_eq!(m.get("b"), None);
}

#[test]
fn amap_registers_duplicate_name_once() {
    let mut m = AMapMetrics::new(&["a", "a"]);
    m.inc("a").unwrap();
    assert_eq!(m.get("a"), Some(1));
}

#[test]
fn amap_clone_copies_counters() {
    let mut m = AMapMetrics::new(&["a"]);
    m.inc("a").unwrap();
    let copy = m.clone();
    assert_eq!(copy.get("a"), Some(1));
    m.inc("a").unwrap();
    assert_eq!(copy.get("a"), Some(1));
    assert_eq!(m.get("a"), Some(2));
}

#[test]
fn cmap_counts_per_key() {
    let mut m = CMapMetrics::new();
    assert_eq!(m.get("hits"), None);
    m.inc("hits").unwrap();
    m.inc("hits").unwrap();
    m.inc("misses").unwrap();
    assert_eq!(m.get("hits"), Some(2));
    assert_eq!(m.get("misses"), Some(1));
    assert_eq!(m.get("other"), None);
}

#[test]
fn cmap_default_is_empty() {
    let m = CMapMetrics::default();
    assert_eq!(m.get("anything"), None);
}
