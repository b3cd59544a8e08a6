//! What the network is taken for.
use mars_stn::config::{
    DYN_TIME_COUNT_EXPIRE_TIME, DYN_TIME_MAX_CONTINUOUS_EXCELLENT_COUNT,
    DYN_TIME_MIN_NORMAL_PKG_COUNT, DYN_TIME_SMALL_PACKAGE_GPRS_COSTTIME, DYN_TIME_SMALL_PACKAGE_LEN,
    DYN_TIME_SMALL_PACKAGE_WIFI_COSTTIME, DYN_TIME_TASK_FAILED_PKG_LEN,
};
use mars_stn::dynamic_timeout::{DynamicTimeout, DynamicTimeoutStatus, NetworkKind, TaskTag};

#[test]
fn a_package_is_good_within_its_budget() {
    let wifi = NetworkKind::Wifi;
    let mobile = NetworkKind::Mobile;
    assert_eq!(
        TaskTag::of(wifi, 1, DYN_TIME_SMALL_PACKAGE_WIFI_COSTTIME),
        TaskTag::MeetExpect
    );
    assert_eq!(
        TaskTag::of(wifi, 1, DYN_TIME_SMALL_PACKAGE_WIFI_COSTTIME + 1),
        TaskTag::Normal
    );
    assert_eq!(
        TaskTag::of(mobile, 1, DYN_TIME_SMALL_PACKAGE_GPRS_COSTTIME),
        TaskTag::MeetExpect
    );
    assert_eq!(TaskTag::of(wifi, 1, 0), TaskTag::Failed);
    assert_eq!(
        TaskTag::of(wifi, DYN_TIME_TASK_FAILED_PKG_LEN, 10),
        TaskTag::Failed
    );
    assert_eq!(
        TaskTag::of(wifi, DYN_TIME_SMALL_PACKAGE_LEN, 1),
        TaskTag::MeetExpect,
        "a package of exactly the small length is a small one"
    );
    assert_eq!(
        TaskTag::of(wifi, DYN_TIME_SMALL_PACKAGE_LEN, 501),
        TaskTag::Normal
    );
    assert_eq!(
        TaskTag::of(wifi, DYN_TIME_SMALL_PACKAGE_LEN + 1, 501),
        TaskTag::MidPkgMeetExpect
    );
    assert_eq!(
        TaskTag::of(wifi, 40 * 1024 * 1024, 1),
        TaskTag::BiggerPkgMeetExpect
    );
}

#[test]
fn good_packages_in_a_row_make_the_network_excellent() {
    let mut timeout = DynamicTimeout::new();
    let now = 1_000;
    for n in 0..DYN_TIME_MAX_CONTINUOUS_EXCELLENT_COUNT {
        assert_eq!(timeout.status(), DynamicTimeoutStatus::Evaluating, "{n}");
        timeout.record_at(NetworkKind::Wifi, DYN_TIME_SMALL_PACKAGE_LEN + 1, 1, now);
    }
    assert_eq!(timeout.status(), DynamicTimeoutStatus::Excellent);

    // one failure and it has to be found out about again
    timeout.status_switch(TaskTag::Failed, now);
    assert_eq!(timeout.status(), DynamicTimeoutStatus::Evaluating);
    assert_eq!(timeout.continuous_good_count(), 0);
}

#[test]
fn failures_make_the_network_bad_and_the_next_window_forgives() {
    let mut timeout = DynamicTimeout::new();
    let now = 1_000;
    let mut failures = 0;
    while timeout.status() != DynamicTimeoutStatus::Bad {
        timeout.status_switch(TaskTag::Failed, now);
        failures += 1;
        assert!(failures <= 10);
    }
    assert_eq!(failures, 10 - DYN_TIME_MIN_NORMAL_PKG_COUNT + 1);
    assert_eq!(timeout.normal_count(), DYN_TIME_MIN_NORMAL_PKG_COUNT - 1);

    // the window starts over with nothing good in it, and fills up again
    let mut good = 0;
    while timeout.status() == DynamicTimeoutStatus::Bad {
        timeout.status_switch(TaskTag::Normal, now);
        good += 1;
        assert!(good <= 10);
    }
    assert_eq!(good, DYN_TIME_MIN_NORMAL_PKG_COUNT);
    assert_eq!(timeout.status(), DynamicTimeoutStatus::Evaluating);
}

#[test]
fn the_window_is_the_last_ten() {
    let mut timeout = DynamicTimeout::new();
    let now = 1_000;
    timeout.status_switch(TaskTag::Failed, now);
    assert_eq!(timeout.normal_count(), 9);
    for _ in 0..9 {
        timeout.status_switch(TaskTag::Normal, now);
    }
    assert_eq!(timeout.normal_count(), 9);
    timeout.status_switch(TaskTag::Normal, now);
    assert_eq!(timeout.normal_count(), 10, "the failure is ten packages ago");

    // a window that ran out starts over
    timeout.status_switch(TaskTag::Failed, now);
    timeout.status_switch(TaskTag::Failed, now + DYN_TIME_COUNT_EXPIRE_TIME + 1);
    assert_eq!(timeout.normal_count(), 9);

    timeout.reset();
    assert_eq!(timeout.status(), DynamicTimeoutStatus::Evaluating);
    assert_eq!(timeout.normal_count(), 10);
}

#[test]
fn four_failures_out_of_ten_are_not_a_bad_network_yet() {
    let mut timeout = DynamicTimeout::new();
    for now in [1_000, 2_000, 3_000, 4_000] {
        timeout.record_at(NetworkKind::Wifi, DYN_TIME_TASK_FAILED_PKG_LEN, 0, now);
    }
    assert_eq!(timeout.normal_count(), DYN_TIME_MIN_NORMAL_PKG_COUNT);
    assert_eq!(timeout.status(), DynamicTimeoutStatus::Evaluating);
    timeout.record_at(NetworkKind::Wifi, DYN_TIME_TASK_FAILED_PKG_LEN, 0, 5_000);
    assert_eq!(timeout.status(), DynamicTimeoutStatus::Bad);
}

#[test]
fn good_packages_in_a_row_are_counted_whatever_the_network_is_taken_for() {
    let mut timeout = DynamicTimeout::new();
    for n in 1..=11 {
        timeout.record_at(NetworkKind::Wifi, 5_000, 100, n * 1_000);
    }
    assert_eq!(timeout.status(), DynamicTimeoutStatus::Excellent);
    assert_eq!(timeout.continuous_good_count(), 11);

    // one that is slower than its budget ends the row, but not the status
    timeout.record_at(NetworkKind::Wifi, 5_000, 3_000, 12_000);
    assert_eq!(timeout.continuous_good_count(), 0);
    assert_eq!(timeout.status(), DynamicTimeoutStatus::Excellent);
}
