use sand_clock::ClockEvent;
use sand_clock::ClockEventIntern;
use sand_clock::InsertSync;
use sand_clock::SandClock;
use sand_clock::SandClockConfig;
use sand_clock::SandClockInsertion;
use sand_clock::TimeOutUpdate;
use sand_clock::Timer;
use sand_clock::TimerStatus;
use sand_clock::UserConnectedBaseError;
use sand_clock::DEFAULT_REFRESH_MILLIS;

#[test]
fn config_default_and_frequency() {
    let config = SandClockConfig::new();
    assert_eq!(config.get_timer_loop_refreshing_duration(), DEFAULT_REFRESH_MILLIS);
    let config = SandClockConfig::default();
    assert_eq!(config.get_timer_loop_refreshing_duration(), DEFAULT_REFRESH_MILLIS);
    let config = SandClockConfig::new().frequency(200);
    assert_eq!(config.get_timer_loop_refreshing_duration(), 200);
}

#[test]
fn build_without_handler_fails() {
    let r = SandClock::<u64>::new::<()>(SandClockConfig::new()).build();
    match r {
        Err(e) => assert_eq!(e, UserConnectedBaseError::BuildErrorNoTimeOutSet),
        Ok(_) => panic!("a clock without a handler must not build"),
    }
}

#[test]
fn build_without_duration_fails() {
    let r = SandClock::<u64>::new(SandClockConfig::new()).set_time_out_event(()).build();
    match r {
        Err(e) => assert_eq!(e, UserConnectedBaseError::BuildErrorNoDurationSet),
        Ok(_) => panic!("a clock without a duration must not build"),
    }
}

#[test]
fn build_hands_back_the_handler() {
    let r = SandClock::<u64>::new(SandClockConfig::new())
        .set_time_out_event("notify-me".to_string())
        .set_time_out_duration(1000)
        .build();
    let (clock, handler) = r.unwrap();
    assert_eq!(handler, "notify-me");
    assert_eq!(clock.get_entries_count(), 0);
}

#[test]
fn timer_tracks_last_update() {
    let mut timer = Timer::new(5);
    assert_eq!(timer.get_last_instant_update(), 5);
    timer.update_timer(9);
    assert_eq!(timer.get_last_instant_update(), 9);
    timer.update_timer(3);
    assert_eq!(timer.get_last_instant_update(), 3);
}

#[test]
fn timer_status_lifecycle() {
    let mut status = TimerStatus::new(100);
    assert!(!status.is_expired());
    assert_eq!(status.time_out_info().get_last_instant_update(), 100);
    status.time_out_handler(250);
    assert_eq!(status.time_out_info().get_last_instant_update(), 250);
    assert!(!status.is_expired());
    status.expired();
    assert!(status.is_expired());
    assert_eq!(status.time_out_info().get_last_instant_update(), 250);
}

#[test]
fn time_out_update_carries_key_and_event() {
    let update = TimeOutUpdate::new("carol".to_string(), ClockEvent::TimeOut);
    assert_eq!(update.key(), "carol");
    assert!(matches!(update.event(), ClockEvent::TimeOut));
    let update = TimeOutUpdate::new(7u64, ClockEvent::SandClockDrop);
    assert_eq!(update.key(), 7);
    assert!(matches!(update.event(), ClockEvent::SandClockDrop));
}

#[test]
fn insert_sync_round_trips_small_and_large_keys() {
    // A machine-word key is held by value.
    let handle = 42u64.to_insert_sync();
    assert!(matches!(handle, InsertSync::Plain(_)));
    assert_eq!(handle.into_inner(), 42);

    // A string is wider than a machine word and is held behind shared
    // ownership; the value still comes back unchanged.
    let handle = "a-rather-long-key".to_string().to_insert_sync();
    assert!(matches!(handle, InsertSync::Shared(_)));
    let copy = handle.duplicate();
    assert_eq!(handle.into_inner(), "a-rather-long-key");
    assert_eq!(copy.into_inner(), "a-rather-long-key");
}

#[test]
fn insert_sync_equality_ignores_representation() {
    let plain = InsertSync::Plain("k".to_string());
    let shared = InsertSync::Shared(std::sync::Arc::new("k".to_string()));
    assert!(plain == shared);
    let other = InsertSync::Plain("other".to_string());
    assert!(plain != other);
}

#[test]
fn intern_event_becomes_update_or_close() {
    let ev: ClockEventIntern<InsertSync<String>> =
        ClockEventIntern::TimeOutIntern("dino".to_string().to_insert_sync());
    let (update, close) = ev.into_update();
    assert!(!close);
    let update = update.unwrap();
    assert_eq!(update.key(), "dino");
    assert!(matches!(update.event(), ClockEvent::TimeOut));

    let ev: ClockEventIntern<InsertSync<String>> = ClockEventIntern::SandClockDrop;
    let (update, close) = ev.into_update();
    assert!(close);
    assert!(update.is_none());
}
