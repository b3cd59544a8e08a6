//! The gates a task has to pass.
use mars_stn::anti_avalanche::{AntiAvalanche, LimitKind};
use mars_stn::config::{ACTIVE_SPEED, INACTIVE_MIN_VOL, INACTIVE_SPEED, MAX_VOL};
use mars_stn::flow_limit::FlowLimit;
use mars_stn::frequency_limit::{
    adler32, AvalancheRecord, FrequencyLimit, MAX_RECORD_COUNT, NOT_CLEAR_INTERCEPT_COUNT_RETRY,
    RECORD_INTERCEPT_COUNT, RUN_CLEAR_RECORDS_INTERVAL,
};
use mars_stn::task::Task;

fn limited() -> Task {
    let mut task = Task::new(1, 2);
    task.limit_flow = true;
    task.limit_frequency = true;
    task
}

#[test]
fn the_adler_of_some_bodies() {
    assert_eq!(adler32(b""), 1);
    assert_eq!(adler32(b"a"), 0x0062_0062);
    assert_eq!(adler32(b"Wikipedia"), 0x11E6_0398);
    // long enough for both sums to go over the modulus
    let long = vec![0xFFu8; 10_000];
    let (mut low, mut high) = (1u64, 0u64);
    for byte in &long {
        low = (low + u64::from(*byte)) % 65_521;
        high = (high + low) % 65_521;
    }
    assert_eq!(u64::from(adler32(&long)), (high << 16) + low);
}

#[test]
fn a_body_goes_out_only_so_often() {
    let mut limit = FrequencyLimit::new_at(0);
    let task = limited();
    for sent in 0..RECORD_INTERCEPT_COUNT {
        let (allowed, span) = limit.check_at(&task, b"body", u64::from(sent) * 10);
        assert!(allowed, "{sent} times is not too often");
        assert_eq!(span, if sent == 0 { 0 } else { 10 });
    }
    assert_eq!(limit.check_at(&task, b"body", 5_000), (false, 5_000 - 1_040));
    // another body is another count
    assert_eq!(limit.check_at(&task, b"other", 5_000), (true, 0));
    assert_eq!(limit.records().len(), 2);
    assert_eq!(limit.records()[0].count, RECORD_INTERCEPT_COUNT + 1);
}

#[test]
fn a_task_without_a_limit_is_not_counted() {
    let mut limit = FrequencyLimit::new_at(0);
    let mut task = limited();
    task.limit_frequency = false;
    assert_eq!(limit.check_at(&task, b"body", 7), (true, 0));
    assert!(limit.records().is_empty());
}

#[test]
fn the_sweep_keeps_what_is_hot_and_cools_it() {
    let mut limit = FrequencyLimit::new_at(0);
    let task = limited();
    let hour = RUN_CLEAR_RECORDS_INTERVAL;
    for _ in 0..110 {
        limit.check_at(&task, b"hot", hour - 1);
    }
    for _ in 0..80 {
        limit.check_at(&task, b"old", 1);
    }
    limit.check_at(&task, b"rare", hour - 1);
    assert_eq!(limit.records().len(), 3);
    assert_eq!(limit.last_clear(), 0);

    // the next check sweeps first: only the hot record is left, cooled
    let (allowed, span) = limit.check_at(&task, b"hot", hour);
    assert!(allowed, "a cooled record may go out again");
    assert_eq!(span, 1);
    assert_eq!(limit.last_clear(), hour);
    assert_eq!(limit.records().len(), 1);
    assert_eq!(limit.records()[0].count, NOT_CLEAR_INTERCEPT_COUNT_RETRY + 1);
}

#[test]
fn a_full_table_loses_the_record_touched_longest_ago() {
    let mut limit = FrequencyLimit::new_at(0);
    let task = limited();
    for n in 0..MAX_RECORD_COUNT {
        let body = [n as u8];
        // the third one is the one that is not touched again
        limit.check_at(&task, &body, if n == 2 { 1 } else { 100 });
    }
    assert_eq!(limit.records().len(), MAX_RECORD_COUNT);
    let gone = adler32(&[2]);
    assert!(limit.records().iter().any(|record| record.hash == gone));

    limit.check_at(&task, b"one more", 200);
    assert_eq!(limit.records().len(), MAX_RECORD_COUNT);
    assert!(limit.records().iter().all(|record| record.hash != gone));
    assert_eq!(
        limit.records()[MAX_RECORD_COUNT - 1],
        AvalancheRecord {
            hash: adler32(b"one more"),
            count: 1,
            last_update: 200,
        }
    );
}

#[test]
fn the_funnel_fills_and_drains() {
    let mut limit = FlowLimit::new_at(true, 1_000);
    let task = limited();
    assert_eq!(limit.funnel_speed(), ACTIVE_SPEED);
    assert!(limit.check_at(&task, MAX_VOL, 1_000));
    assert_eq!(limit.current_volume(), MAX_VOL);
    assert!(!limit.check_at(&task, 1, 1_000), "the funnel is full");

    // less than a second drains nothing, and is not lost
    assert!(!limit.check_at(&task, 1, 1_999));
    assert!(limit.check_at(&task, ACTIVE_SPEED, 2_000));
    assert_eq!(limit.current_volume(), MAX_VOL);

    // a body that is more than the volume never fits
    assert!(!limit.check_at(&task, MAX_VOL + 1, u64::MAX));
    assert_eq!(limit.current_volume(), 0);
    assert!(!limit.check_at(&task, u64::MAX, u64::MAX));
}

#[test]
fn a_task_without_a_flow_limit_is_free() {
    let mut limit = FlowLimit::new_at(false, 0);
    let mut task = limited();
    task.limit_flow = false;
    assert!(limit.check_at(&task, u64::MAX, 10));
    assert_eq!(limit.current_volume(), 0);
}

#[test]
fn leaving_the_foreground_caps_what_is_charged() {
    let mut limit = FlowLimit::new_at(true, 0);
    let task = limited();
    assert!(limit.check_at(&task, MAX_VOL, 0));
    limit.set_active_at(false, 0);
    assert_eq!(limit.current_volume(), INACTIVE_MIN_VOL);
    assert_eq!(limit.funnel_speed(), INACTIVE_SPEED);

    limit.set_active_at(true, 1_000);
    assert_eq!(limit.current_volume(), INACTIVE_MIN_VOL - INACTIVE_SPEED);
    assert_eq!(limit.funnel_speed(), ACTIVE_SPEED);
}

#[test]
fn the_flow_limit_is_mobile_only() {
    let mut gates = AntiAvalanche::new_at(true, 0);
    let mut task = limited();
    task.limit_frequency = false;
    assert!(gates.flow_limit().check_at(&task, MAX_VOL, 0));
    assert_eq!(gates.check_at(&task, b"x", false, 0), Ok(()));
    assert_eq!(gates.check_at(&task, b"x", true, 0), Err(LimitKind::Flow));
    assert_eq!(gates.flow_limit().current_volume(), MAX_VOL);

    gates.set_active_at(false, 0);
    assert_eq!(gates.flow_limit().current_volume(), INACTIVE_MIN_VOL);
    assert_eq!(gates.check_at(&task, b"x", true, 0), Ok(()));
}

#[test]
fn a_body_that_was_sent_too_often_is_refused_before_its_bytes_count() {
    let mut gates = AntiAvalanche::new_at(true, 0);
    let task = limited();
    for _ in 0..RECORD_INTERCEPT_COUNT {
        assert_eq!(gates.check_at(&task, b"body", true, 0), Ok(()));
    }
    let charged = gates.flow_limit().current_volume();
    assert_eq!(charged, u64::from(RECORD_INTERCEPT_COUNT) * 4);
    assert_eq!(
        gates.check_at(&task, b"body", true, 0),
        Err(LimitKind::Frequency)
    );
    assert_eq!(gates.flow_limit().current_volume(), charged);
    assert_eq!(gates.frequency_limit().records().len(), 1);
}
