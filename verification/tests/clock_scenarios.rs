use sand_clock::ClockEventIntern;
use sand_clock::InsertSync;
use sand_clock::SandClock;
use sand_clock::SandClockConfig;
use sand_clock::SandClockInsertion;

/// Splits one cycle's events into the reported keys and whether the
/// terminal shutdown signal was among them.
fn drain<K: SandClockInsertion>(events: Vec<ClockEventIntern<InsertSync<K>>>) -> (Vec<K>, bool) {
    let mut keys: Vec<K> = Vec::new();
    let mut shutdown = false;
    for ev in events {
        let (update, close) = ev.into_update();
        match update {
            Some(u) => keys.push(u.key()),
            None => {
                assert!(close);
                shutdown = true;
            }
        }
    }
    (keys, shutdown)
}

#[test]
fn single_touch_times_out_in_window() {
    let config = SandClockConfig::new().frequency(500);
    let (mut clock, _handler) = SandClock::<String>::new(config)
        .set_time_out_event(())
        .set_time_out_duration(3000)
        .build()
        .unwrap();

    clock.insert_or_update_timer("a".to_string(), 0);
    assert_eq!(clock.get_entries_count(), 1);

    let mut reports: Vec<(u64, String)> = Vec::new();
    let mut t: u64 = 500;
    while t <= 4000 {
        let (keys, shutdown) = drain(clock.scan_cycle(t));
        assert!(!shutdown);
        for k in keys {
            reports.push((t, k));
        }
        t += 500;
    }

    assert_eq!(reports.len(), 1);
    let (reported_at, ref key) = reports[0];
    assert_eq!(key, "a");
    assert!(reported_at >= 3000 && reported_at <= 3500);
    assert_eq!(clock.get_entries_count(), 0);
}

#[test]
fn refreshed_key_does_not_time_out() {
    let config = SandClockConfig::new().frequency(500);
    let (mut clock, _handler) = SandClock::<String>::new(config)
        .set_time_out_event(())
        .set_time_out_duration(5000)
        .build()
        .unwrap();

    clock.insert_or_update_timer("a".to_string(), 0);
    let mut t: u64 = 500;
    while t < 9000 {
        if t == 4000 {
            clock.insert_or_update_timer("a".to_string(), 4000);
        }
        let (keys, _) = drain(clock.scan_cycle(t));
        assert!(keys.is_empty(), "no timeout may fire before t=9000, got one at t={t}");
        t += 500;
    }
    assert_eq!(clock.get_entries_count(), 1);
}

#[test]
fn remove_twice_unknown_key() {
    let config = SandClockConfig::new();
    let (mut clock, _handler) = SandClock::<String>::new(config)
        .set_time_out_event(())
        .set_time_out_duration(1000)
        .build()
        .unwrap();

    clock.remove_key("x".to_string());
    clock.remove_key("x".to_string());
    assert_eq!(clock.get_entries_count(), 0);
}

#[test]
fn two_keys_one_timeout_each() {
    let config = SandClockConfig::new().frequency(200);
    let (mut clock, _handler) = SandClock::<String>::new(config)
        .set_time_out_event(())
        .set_time_out_duration(1000)
        .build()
        .unwrap();

    clock.insert_or_update_timer("a".to_string(), 0);
    clock.insert_or_update_timer("b".to_string(), 0);

    let mut a_count = 0;
    let mut b_count = 0;
    let mut total = 0;
    let mut t: u64 = 200;
    while t <= 2000 {
        let (keys, _) = drain(clock.scan_cycle(t));
        for k in keys {
            total += 1;
            if k == "a" {
                a_count += 1;
            }
            if k == "b" {
                b_count += 1;
            }
        }
        t += 200;
    }

    assert_eq!(a_count, 1);
    assert_eq!(b_count, 1);
    assert_eq!(total, 2);
}

#[test]
fn expired_key_starts_fresh_lifecycle() {
    let config = SandClockConfig::new().frequency(500);
    let (mut clock, _handler) = SandClock::<String>::new(config)
        .set_time_out_event(())
        .set_time_out_duration(1000)
        .build()
        .unwrap();

    clock.insert_or_update_timer("a".to_string(), 0);
    let (keys, _) = drain(clock.scan_cycle(1000));
    assert_eq!(keys, vec!["a".to_string()]);
    let (keys, _) = drain(clock.scan_cycle(1500));
    assert!(keys.is_empty());
    assert_eq!(clock.get_entries_count(), 0);

    // A new lifecycle: no stale report before its own deadline, one
    // report at it.
    clock.insert_or_update_timer("a".to_string(), 2000);
    assert_eq!(clock.get_entries_count(), 1);
    let (keys, _) = drain(clock.scan_cycle(2500));
    assert!(keys.is_empty());
    let (keys, _) = drain(clock.scan_cycle(3000));
    assert_eq!(keys, vec!["a".to_string()]);
}

#[test]
fn shutdown_signal_exactly_once_and_nothing_after() {
    let config = SandClockConfig::new().frequency(500);
    let (mut clock, _handler) = SandClock::<String>::new(config)
        .set_time_out_event(())
        .set_time_out_duration(1000)
        .build()
        .unwrap();

    clock.insert_or_update_timer("a".to_string(), 0);
    clock.shutdown();
    clock.shutdown();

    let (keys, shutdown) = drain(clock.scan_cycle(5000));
    assert!(keys.is_empty());
    assert!(shutdown);

    let mut t: u64 = 5500;
    while t <= 8000 {
        let (keys, shutdown) = drain(clock.scan_cycle(t));
        assert!(keys.is_empty());
        assert!(!shutdown);
        t += 500;
    }
}

#[test]
fn test_timer() {
    let time_out_duration: u64 = 6000;
    let config = SandClockConfig::new().frequency(200);
    let mut user_0_deconnection_confirmed = false;
    let mut user_1_deconnection_confirmed = false;

    let (mut clock, _handler) = SandClock::<String>::new(config)
        .set_time_out_event(())
        .set_time_out_duration(time_out_duration)
        .build()
        .unwrap();

    clock.insert_or_update_timer("camille".to_string(), 0);
    clock.insert_or_update_timer("alf".to_string(), 0);

    let mut updated = false;
    let mut t: u64 = 200;
    while t <= time_out_duration + 2000 {
        if t > 4000 && !updated {
            clock.insert_or_update_timer("camille".to_string(), t);
            clock.insert_or_update_timer("camille".to_string(), t);
            updated = true;
        }
        let (keys, _) = drain(clock.scan_cycle(t));
        for user_id in keys {
            if user_id == "alf" {
                user_0_deconnection_confirmed = true;
            }
            if user_id == "camille" {
                user_1_deconnection_confirmed = true;
            }
        }
        t += 200;
    }

    assert!(user_0_deconnection_confirmed && !user_1_deconnection_confirmed);
}

#[test]
fn test_users_connection_table() {
    let (mut clock, _handler) = SandClock::<u64>::new(SandClockConfig::default())
        .set_time_out_event(())
        .set_time_out_duration(5000)
        .build()
        .unwrap();
    clock.insert_or_update_timer(0, 0);
    assert_eq!(clock.get_entries_count(), 1);

    let (mut clock, _handler) = SandClock::<String>::new(SandClockConfig::default())
        .set_time_out_event(())
        .set_time_out_duration(5000)
        .build()
        .unwrap();
    clock.insert_or_update_timer("192.168.1.22".to_string(), 0);
    assert_eq!(clock.get_entries_count(), 1);
}

#[test]
fn remove_key() {
    let (mut clock, _handler) = SandClock::<i32>::new(SandClockConfig::default())
        .set_time_out_event(())
        .set_time_out_duration(3000)
        .build()
        .unwrap();

    clock.insert_or_update_timer(0, 0);

    clock.remove_key(0);
    clock.remove_key(0);
    clock.remove_key(1);
    assert!(clock.get_entries_count() == 0);
}
