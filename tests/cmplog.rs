use libafl_core::{
    gen_hashed_cmp_ids, gen_unique_cmp_ids, hash_me, QemuCmpLogChildHelper, QemuCmpLogHelper,
    QemuCmpsMapMetadata, QemuInstrumentationFilter, CMPLOG_MAP_W,
};

#[test]
fn filter_allow_and_deny_lists() {
    let allow = QemuInstrumentationFilter::AllowList(vec![0x1000..0x2000, 0x5000..0x5001]);
    assert!(allow.allowed(0x1000));
    assert!(allow.allowed(0x1fff));
    assert!(!allow.allowed(0x2000));
    assert!(allow.allowed(0x5000));
    assert!(!allow.allowed(0x0fff));
    let deny = QemuInstrumentationFilter::DenyList(vec![0x1000..0x2000]);
    assert!(!deny.allowed(0x1800));
    assert!(deny.allowed(0x2000));
    assert!(QemuInstrumentationFilter::AllowAll.allowed(42));
    assert!(!QemuInstrumentationFilter::AllowList(vec![]).allowed(42));
}

#[test]
fn helpers_follow_their_filter() {
    assert!(QemuCmpLogHelper::new().must_instrument(7));
    assert!(QemuCmpLogHelper::default().must_instrument(7));
    let h = QemuCmpLogHelper::with_instrumentation_filter(QemuInstrumentationFilter::DenyList(vec![5..10]));
    assert!(!h.must_instrument(7));
    assert!(h.must_instrument(10));
    let c = QemuCmpLogChildHelper::with_instrumentation_filter(QemuInstrumentationFilter::AllowList(vec![5..10]));
    assert!(c.must_instrument(5));
    assert!(!c.must_instrument(4));
    assert!(QemuCmpLogChildHelper::new().must_instrument(4));
}

#[test]
fn hash_me_exact_values() {
    assert_eq!(hash_me(0), 0);
    assert_eq!(hash_me(1), 81858539813);
    assert_eq!(hash_me(0x401000), 9031787895292);
    assert_eq!(hash_me(0xdeadbeef), 195908277548813);
}

#[test]
fn hashed_ids_respect_the_filter() {
    assert_eq!(gen_hashed_cmp_ids(None, 1, 4), Some(81858539813));
    let c = QemuCmpLogChildHelper::with_instrumentation_filter(QemuInstrumentationFilter::DenyList(vec![0..2]));
    assert_eq!(gen_hashed_cmp_ids(Some(&c), 1, 4), None);
    assert_eq!(gen_hashed_cmp_ids(Some(&c), 0xdeadbeef, 4), Some(195908277548813));
}

#[test]
fn unique_ids_in_order_of_first_sight() {
    let mut meta = QemuCmpsMapMetadata::new();
    assert_eq!(gen_unique_cmp_ids(None, &mut meta, 0x10, 1), Some(0));
    assert_eq!(gen_unique_cmp_ids(None, &mut meta, 0x20, 1), Some(1));
    assert_eq!(gen_unique_cmp_ids(None, &mut meta, 0x10, 1), Some(0));
    assert_eq!(gen_unique_cmp_ids(None, &mut meta, 0x30, 1), Some(2));
    let h = QemuCmpLogHelper::with_instrumentation_filter(QemuInstrumentationFilter::AllowList(vec![0x10..0x11]));
    assert_eq!(gen_unique_cmp_ids(Some(&h), &mut meta, 0x40, 1), None);
    assert_eq!(gen_unique_cmp_ids(Some(&h), &mut meta, 0x10, 1), Some(0));
    assert_eq!(gen_unique_cmp_ids(None, &mut meta, 0x40, 1), Some(3));
}

#[test]
fn unique_ids_wrap_at_the_log_width() {
    let mut meta = QemuCmpsMapMetadata::default();
    for pc in 0..CMPLOG_MAP_W as u64 {
        assert_eq!(gen_unique_cmp_ids(None, &mut meta, pc, 1), Some(pc));
    }
    assert_eq!(gen_unique_cmp_ids(None, &mut meta, 1 << 40, 1), Some(0));
    assert_eq!(gen_unique_cmp_ids(None, &mut meta, 5, 1), Some(5));
}
