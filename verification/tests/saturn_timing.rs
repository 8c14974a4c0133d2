use kdtv::saturn::timing::RESPONSE_LONG_MS;
use kdtv::saturn::{Timings, BAUD};
use kdtv::time::Duration;

#[test]
fn documented_values_are_the_documented_values() {
    let t = Timings::documented();
    assert_eq!(t.tick, Duration::from_millis(525));
    assert_eq!(t.address_enquiry_timeout, Duration::from_millis(400));
    assert_eq!(t.address_enquiry_rate, Duration::from_millis(2000));
    assert_eq!(t.address_clear_delay, Duration::from_millis(2000));
    assert_eq!(t.stagger, Duration::from_millis(500));
    assert_eq!(t.address_retries, 3);
    assert_eq!(BAUD, 9600);
}

#[test]
fn both_response_timeout_candidates_are_plumbed() {
    let t = Timings::documented();
    assert_eq!(t.response_candidate_long, Duration::from_millis(400));
    assert_eq!(t.response_candidate_short, Duration::from_millis(320));
    assert!(
        t.response == t.response_candidate_short || t.response == t.response_candidate_long,
        "the configured response deadline must be one of the two candidates"
    );
    assert_eq!(t.response, t.response_candidate_short);
}

#[test]
fn both_retry_counts_are_plumbed_and_the_default_is_three() {
    let t = Timings::documented();
    assert_eq!(t.retries, 3);
    assert_eq!(t.retries_alternate, 5);
    assert_eq!(Timings::RETRIES_ROUTINE, 3);
    assert_eq!(Timings::RETRIES_CRITICAL, 5);
    let five = Timings { retries: t.retries_alternate, ..t };
    assert_eq!(five.retries, 5);
}

#[test]
fn the_retry_train_can_outrun_the_tick_and_that_is_detected() {
    let long = Timings { response: Duration::from_millis(RESPONSE_LONG_MS), ..Timings::documented() };
    assert_eq!(long.worst_case_transaction(), Duration::from_millis(1600));
    assert!(long.retry_train_overruns_budget());

    let d = Timings::documented();
    assert_eq!(d.worst_case_transaction(), Duration::from_millis(1280));
    assert!(d.retry_train_overruns_budget());

    let one = Timings { retries: 0, ..Timings::documented() };
    assert_eq!(one.worst_case_transaction(), Duration::from_millis(320));
    assert!(!one.retry_train_overruns_budget());
}

#[test]
fn there_is_no_echo_timeout() {
    let rendered = format!("{:?}", Timings::documented());
    assert!(
        !rendered.to_ascii_lowercase().contains("echo"),
        "an echo timeout has appeared in Timings: {rendered}"
    );
    let t = Timings::documented();
    for d in [
        t.tick,
        t.response,
        t.response_candidate_long,
        t.response_candidate_short,
        t.address_enquiry_timeout,
        t.address_enquiry_rate,
        t.address_clear_delay,
        t.stagger,
        t.transaction_budget,
    ] {
        for echo in [20u64, 70, 150] {
            assert_ne!(d, Duration::from_millis(echo), "an echo figure is plumbed");
        }
    }
}

#[test]
fn line_time_is_computed_not_quoted() {
    let max = Timings::line_time(20);
    assert!(max >= Duration::from_micros(20_800) && max <= Duration::from_micros(20_900));
    let short = Timings::line_time(6);
    assert!(short >= Duration::from_micros(6_200) && short <= Duration::from_micros(6_300));
    assert!(max < Duration::from_millis(50));
}

#[test]
fn line_time_has_an_exact_value() {
    // 20 bytes * 10 bits * 1e9 / 9600 = 20 833 333 ns, rounded down.
    assert_eq!(Timings::line_time(20).as_nanos(), 20_833_333);
    assert_eq!(Timings::line_time(0), Duration::zero());
}

#[test]
fn the_default_is_the_documented_set() {
    assert_eq!(Timings::default(), Timings::documented());
}
