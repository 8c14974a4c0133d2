use kdtv::dtv::{DtvTimings, TimingError, MAX_FRAME};
use kdtv::time::Duration;

#[test]
fn timing_documented_values_are_the_documented_values() {
    let t = DtvTimings::documented();
    assert_eq!(t.reply, Duration::from_millis(300));
    assert_eq!(t.address_enquiry_timeout, Duration::from_millis(400));
    assert_eq!(t.max_tx_failures, 250);
    assert_eq!(DtvTimings::default(), t);
}

#[test]
fn both_tick_candidates_are_plumbed_and_the_default_is_the_slow_one() {
    let t = DtvTimings::documented();
    assert_eq!(t.tick_candidate_fast, Duration::from_millis(150));
    assert_eq!(t.tick_candidate_slow, Duration::from_millis(500));
    assert!(
        t.tick == t.tick_candidate_fast || t.tick == t.tick_candidate_slow,
        "the configured tick must be one of the two candidates"
    );
    assert_eq!(t.tick, t.tick_candidate_slow);
    assert_ne!(t.tick, Duration::from_millis(525));
}

#[test]
fn the_tick_has_a_floor_and_selecting_the_fast_candidate_is_allowed() {
    let t = DtvTimings::documented();
    let fast = t.with_tick(DtvTimings::tick_fast()).unwrap();
    assert_eq!(fast.tick, Duration::from_millis(150));
    assert_eq!(
        t.with_tick(Duration::from_millis(149)).unwrap_err(),
        TimingError::TickBelowFloor { requested_ms: 149, floor_ms: 150 }
    );
    assert!(t.with_tick(Duration::from_millis(1000)).is_ok());
}

#[test]
fn both_retry_counts_are_plumbed_and_five_is_the_ceiling() {
    let t = DtvTimings::documented();
    assert_eq!(t.retries, 4);
    assert_eq!(t.retries_alternate, 5);
    assert_eq!(DtvTimings::RETRIES_RECOVERY, 4);
    assert_eq!(DtvTimings::RETRIES_PROTOCOL, 5);
    assert_eq!(t.with_retries(t.retries_alternate).unwrap().retries, 5);
    assert_eq!(
        t.with_retries(6).unwrap_err(),
        TimingError::RetriesAboveMaximum { requested: 6, max: 5 }
    );
    assert!(t.with_retries(0).is_ok());
}

#[test]
fn timing_the_retry_train_can_outrun_the_tick_and_that_is_detected() {
    let d = DtvTimings::documented();
    assert_eq!(d.worst_case_transaction(), Duration::from_millis(1500));
    assert!(d.retry_train_overruns_budget());

    let fast = d.with_tick(DtvTimings::tick_fast()).unwrap();
    let fast = DtvTimings { transaction_budget: fast.tick, ..fast };
    assert!(fast.retry_train_overruns_budget());

    let one = d.with_retries(0).unwrap();
    assert_eq!(one.worst_case_transaction(), Duration::from_millis(300));
    assert!(!one.retry_train_overruns_budget());
}

#[test]
fn timing_there_is_no_echo_timeout() {
    let rendered = format!("{:?}", DtvTimings::documented());
    assert!(
        !rendered.to_ascii_lowercase().contains("echo"),
        "an echo timeout has appeared in DtvTimings: {rendered}"
    );
    assert!(rendered.contains("tick_candidate_fast"));
    assert_eq!(DtvTimings::tick_fast(), Duration::from_millis(150));
}

#[test]
fn timing_line_time_is_computed_not_quoted() {
    let nine = DtvTimings::line_time(9);
    assert!(nine >= Duration::from_micros(9_300) && nine <= Duration::from_micros(9_400));
    assert!(DtvTimings::line_time(MAX_FRAME) < DtvTimings::reply_deadline());
}

#[test]
fn the_floor_and_the_slow_tick_have_their_documented_values() {
    assert_eq!(DtvTimings::tick_floor(), Duration::from_millis(150));
    assert_eq!(DtvTimings::tick_slow(), Duration::from_millis(500));
    assert_eq!(DtvTimings::reply_deadline(), Duration::from_millis(300));
    assert_eq!(DtvTimings::line_time(9).as_nanos(), 9_375_000);
}
