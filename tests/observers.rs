use libafl_core::{
    classify_count, classify_counts, exit_kind_from_jump, jump_code, ExitKind, HasEdgeMap,
    HitcountsMapObserver, Observer, ObserversTuple, StdMapObserver,
};

#[test]
fn hit_counts_fall_in_buckets() {
    let cases: [(u8, u8); 15] = [
        (0, 0), (1, 1), (2, 2), (3, 4), (4, 8), (7, 8), (8, 16), (15, 16), (16, 32),
        (31, 32), (32, 64), (127, 64), (128, 128), (200, 128), (255, 128),
    ];
    for (raw, bucket) in cases {
        assert_eq!(classify_count(raw), bucket, "raw {}", raw);
    }
    let mut map = vec![0, 3, 9, 255];
    classify_counts(&mut map);
    assert_eq!(map, vec![0, 4, 16, 128]);
}

#[test]
fn map_observer_is_reset_before_each_run() {
    let mut o = StdMapObserver::new("edges".to_string(), 3);
    assert_eq!(o.name(), "edges");
    o.hit(1);
    o.hit(1);
    assert_eq!(o.map(), &[0, 2, 0]);
    o.pre_exec();
    assert_eq!(o.map(), &[0, 0, 0]);
    for _ in 0..256 {
        o.hit(2);
    }
    assert_eq!(o.edge_map(), &[0, 0, 0]);
}

#[test]
fn hitcounts_observer_buckets_after_the_run() {
    let mut obs = (HitcountsMapObserver::new(StdMapObserver::new("e".to_string(), 2)), ());
    obs.pre_exec_all();
    for _ in 0..3 {
        obs.0.hit(0);
    }
    obs.post_exec_all(ExitKind::Normal);
    assert_eq!(obs.edge_map(), &[4, 0]);
}

#[test]
fn jump_codes_round_trip() {
    let kinds = [ExitKind::Normal, ExitKind::Crash, ExitKind::Oom, ExitKind::Timeout, ExitKind::Diff];
    for k in kinds {
        assert!(jump_code(k) > 0);
        assert_eq!(exit_kind_from_jump(jump_code(k)), Some(k));
    }
    assert_eq!(jump_code(ExitKind::Crash), 2);
    assert_eq!(exit_kind_from_jump(0), None);
    assert_eq!(exit_kind_from_jump(6), None);
    assert_eq!(exit_kind_from_jump(-1), None);
}
