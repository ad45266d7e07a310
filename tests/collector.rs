use seance::collector::{next_cycle, should_evict, Cycle, Sweep};

#[test]
fn shutdown_stops_the_loop() {
    assert_eq!(next_cycle(true), Cycle::Stop);
    assert_eq!(next_cycle(false), Cycle::Sweep);
}

#[test]
fn eviction_goes_by_age() {
    assert!(should_evict(2, 1, Some(1)));
    assert!(should_evict(100, 10, Some(90)));
    assert!(!should_evict(99, 10, Some(90)));
    assert!(!should_evict(5, 0, Some(6)));
    assert!(should_evict(6, 0, Some(6)));
    assert!(!should_evict(u64::MAX, 1, None));
    assert!(!should_evict(10, u64::MAX, Some(0)));
    assert!(should_evict(u64::MAX, u64::MAX, Some(0)));
}

#[test]
fn young_session_survives_every_cycle() {
    for t in 1000..1060 {
        assert!(!should_evict(t, 60, Some(1000)));
    }
    assert!(should_evict(1060, 60, Some(1000)));
}

#[test]
fn sweep_visits_each_listed_session_once_in_order() {
    let listed = vec!["a".to_string(), "b".to_string(), "c".to_string()];
    let mut sweep = Sweep::new(listed, 100, 10);
    let ages = [Some(90), Some(91), None];
    let mut evicted = Vec::new();
    let mut visited = Vec::new();
    let mut i = 0;
    while let Some(id) = sweep.next_session() {
        visited.push(id.clone());
        if sweep.is_due(ages[i]) {
            evicted.push(id);
        }
        i += 1;
    }
    assert_eq!(visited, vec!["a", "b", "c"]);
    assert_eq!(evicted, vec!["a"]);
    assert!(sweep.next_session().is_none());
}

#[test]
fn empty_listing_is_an_empty_sweep() {
    let mut sweep = Sweep::new(Vec::new(), 0, 0);
    assert!(sweep.next_session().is_none());
}

#[test]
fn session_set_before_a_sweep_is_reclaimed_a_second_later() {
    // created at 100; sweeps every second with a lifetime of one second
    let mut first = Sweep::new(vec!["session-id".to_string()], 100, 1);
    let id = first.next_session().unwrap();
    assert!(!first.is_due(Some(100)));
    assert_eq!(id, "session-id");
    let mut second = Sweep::new(vec!["session-id".to_string()], 101, 1);
    second.next_session().unwrap();
    assert!(second.is_due(Some(100)));
}
