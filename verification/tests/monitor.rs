use uptime_monitor::probe::{classify, ProbeOutcome};
use uptime_monitor::query::{get_recent_observations, list_targets, RECENT_LIMIT};
use uptime_monitor::store::Store;
use uptime_monitor::worker::run_cycle;

#[test]
fn classify_response_keeps_status_and_latency() {
    let (status, latency) = classify(&ProbeOutcome::Responded {
        status_code: 200,
        response_time_ms: 34,
    });
    assert_eq!(status, Some(200));
    assert_eq!(latency, Some(34));
}

#[test]
fn classify_transport_failure_leaves_both_absent() {
    let (status, latency) = classify(&ProbeOutcome::TransportFailed);
    assert_eq!(status, None);
    assert_eq!(latency, None);
}

#[test]
fn successful_probe_records_present_fields() {
    let mut store = Store::new();
    let id = store.add_target(String::from("http://a.example/"));
    let probes = vec![ProbeOutcome::Responded {
        status_code: 204,
        response_time_ms: 120,
    }];
    run_cycle(&mut store, true, &probes, &vec![true]);
    assert_eq!(store.observations.len(), 1);
    let row = &store.observations[0];
    assert_eq!(row.target_id, id);
    assert_eq!(row.status_code, Some(204));
    assert_eq!(row.response_time_ms, Some(120));
    assert!(row.response_time_ms.unwrap() >= 0);
}

#[test]
fn failed_probe_still_records_one_row() {
    let mut store = Store::new();
    let id = store.add_target(String::from("http://down.example/"));
    run_cycle(&mut store, true, &vec![ProbeOutcome::TransportFailed], &vec![true]);
    assert_eq!(store.observations.len(), 1);
    let row = &store.observations[0];
    assert_eq!(row.target_id, id);
    assert_eq!(row.status_code, None);
    assert_eq!(row.response_time_ms, None);
}

#[test]
fn k_cycles_record_exactly_k_rows_per_target() {
    let mut store = Store::new();
    let a = store.add_target(String::from("http://a.example/"));
    let b = store.add_target(String::from("http://b.example/"));
    for k in 0..3 {
        let probes = vec![
            ProbeOutcome::Responded {
                status_code: 200,
                response_time_ms: 10 + k,
            },
            ProbeOutcome::TransportFailed,
        ];
        run_cycle(&mut store, true, &probes, &vec![true, true]);
    }
    assert_eq!(get_recent_observations(&store, a).len(), 3);
    assert_eq!(get_recent_observations(&store, b).len(), 3);
    assert_eq!(store.observations.len(), 6);
}

#[test]
fn write_failure_for_one_target_leaves_others_recorded() {
    let mut store = Store::new();
    let a = store.add_target(String::from("http://a.example/"));
    let b = store.add_target(String::from("http://b.example/"));
    let probes = vec![
        ProbeOutcome::Responded {
            status_code: 200,
            response_time_ms: 5,
        },
        ProbeOutcome::Responded {
            status_code: 503,
            response_time_ms: 7,
        },
    ];
    run_cycle(&mut store, true, &probes, &vec![false, true]);
    assert_eq!(get_recent_observations(&store, a).len(), 0);
    let for_b = get_recent_observations(&store, b);
    assert_eq!(for_b.len(), 1);
    assert_eq!(for_b[0].status_code, Some(503));
}

#[test]
fn load_failure_skips_cycle_and_worker_proceeds() {
    let mut store = Store::new();
    let a = store.add_target(String::from("http://a.example/"));
    let probes = vec![ProbeOutcome::Responded {
        status_code: 200,
        response_time_ms: 8,
    }];
    run_cycle(&mut store, false, &probes, &vec![true]);
    assert_eq!(store.observations.len(), 0);
    run_cycle(&mut store, true, &probes, &vec![true]);
    assert_eq!(store.observations.len(), 1);
    assert_eq!(store.observations[0].target_id, a);
}

#[test]
fn one_cycle_with_fast_and_timed_out_targets() {
    let mut store = Store::new();
    let a = store.add_target(String::from("http://fast.example/"));
    let b = store.add_target(String::from("http://slow.example/"));
    let probes = vec![
        ProbeOutcome::Responded {
            status_code: 200,
            response_time_ms: 12,
        },
        ProbeOutcome::TransportFailed,
    ];
    run_cycle(&mut store, true, &probes, &vec![true, true]);
    let for_a = get_recent_observations(&store, a);
    let for_b = get_recent_observations(&store, b);
    assert_eq!(for_a.len(), 1);
    assert_eq!(for_a[0].status_code, Some(200));
    assert_eq!(for_a[0].response_time_ms, Some(12));
    assert_eq!(for_b.len(), 1);
    assert_eq!(for_b[0].status_code, None);
    assert_eq!(for_b[0].response_time_ms, None);
    assert_ne!(for_a[0].target_id, for_b[0].target_id);
}

#[test]
fn empty_store_lists_nothing_and_cycle_inserts_nothing() {
    let mut store = Store::new();
    assert_eq!(list_targets(&store).len(), 0);
    run_cycle(&mut store, true, &Vec::new(), &Vec::new());
    assert_eq!(store.observations.len(), 0);
}

#[test]
fn recent_history_caps_at_fifty_newest_first() {
    let mut store = Store::new();
    let a = store.add_target(String::from("http://a.example/"));
    for k in 0..60 {
        let probes = vec![ProbeOutcome::Responded {
            status_code: 200,
            response_time_ms: k,
        }];
        run_cycle(&mut store, true, &probes, &vec![true]);
    }
    let recent = get_recent_observations(&store, a);
    assert_eq!(recent.len(), RECENT_LIMIT);
    assert_eq!(recent.len(), 50);
    for row in &recent {
        assert_eq!(row.target_id, a);
    }
    for w in recent.windows(2) {
        assert!(w[0].checked_at > w[1].checked_at);
    }
    // The 50 most recent of 60 rows: latencies 59 down to 10.
    assert_eq!(recent[0].response_time_ms, Some(59));
    assert_eq!(recent[49].response_time_ms, Some(10));
}

#[test]
fn targets_are_listed_by_ascending_id() {
    let mut store = Store::new();
    let a = store.add_target(String::from("http://a.example/"));
    let b = store.add_target(String::from("http://b.example/"));
    let c = store.add_target(String::from("http://c.example/"));
    assert_eq!((a, b, c), (1, 2, 3));
    let listed = list_targets(&store);
    assert_eq!(listed.len(), 3);
    assert!(listed[0].id < listed[1].id && listed[1].id < listed[2].id);
    assert_eq!(listed[0].url, "http://a.example/");
}

#[test]
fn unknown_target_id_yields_empty_history() {
    let mut store = Store::new();
    store.add_target(String::from("http://a.example/"));
    let probes = vec![ProbeOutcome::Responded {
        status_code: 200,
        response_time_ms: 3,
    }];
    run_cycle(&mut store, true, &probes, &vec![true]);
    assert_eq!(get_recent_observations(&store, 999).len(), 0);
}

#[test]
fn store_assigns_ids_and_advancing_timestamps() {
    let mut store = Store::new();
    let a = store.add_target(String::from("http://a.example/"));
    let first = store.insert_observation(a, Some(200), Some(1));
    let second = store.insert_observation(a, None, None);
    assert_eq!(first, 1);
    assert_eq!(second, 2);
    assert!(store.observations[0].checked_at < store.observations[1].checked_at);
}
