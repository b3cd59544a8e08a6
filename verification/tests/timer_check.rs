//! The check a link on a backup ip is made with.
use std::cell::RefCell;
use std::rc::Rc;

use mars_stn::ip_port::IpSourceType;
use mars_stn::netsource_timercheck::{
    NetSourceTimerCheck, TimerCheckHost, TimerTold, INTERVAL_TIME, MAX_SPEED_TEST_COUNT,
    TIME_CHECK_PERIOD,
};
use mars_stn::unwired::Unwired;

/// What the check asked for: the pairs it tested, the bans it lifted, and how
/// many times the app was told to reset the link.
#[derive(Default)]
struct Seen {
    tested: Vec<(String, u16)>,
    unbanned: Vec<String>,
    sucs: usize,
}

type Recorder = Rc<RefCell<Seen>>;

struct Host {
    new_ips: Vec<String>,
    old_ips: Vec<String>,
    ports: Vec<u16>,
    reachable: bool,
    seen: Recorder,
}

impl TimerCheckHost for Host {
    fn new_dns(&mut self, _host: &str) -> Vec<String> {
        self.new_ips.clone()
    }

    fn dns(&mut self, _host: &str) -> Vec<String> {
        self.old_ips.clone()
    }

    fn longlink_ports(&mut self) -> Vec<u16> {
        self.ports.clone()
    }

    fn random(&mut self, _bound: usize) -> usize {
        0
    }

    fn speed_test(&mut self, ip: &str, port: u16) -> bool {
        self.seen.borrow_mut().tested.push((ip.to_string(), port));
        self.reachable
    }

    fn remove_long_ban_ip(&mut self, ip: &str) {
        self.seen.borrow_mut().unbanned.push(ip.to_string());
    }

    fn on_time_check_suc(&mut self) {
        self.seen.borrow_mut().sucs += 1;
    }
}

/// A check whose long link is on a backup ip at `1.2.3.4`, whose new dns knows
/// two other ips, and whose net source offers two ports.
fn a_check() -> (NetSourceTimerCheck<Host>, Recorder) {
    let seen = Recorder::default();
    let host = Host {
        new_ips: vec!["5.6.7.8".to_string(), "9.10.11.12".to_string()],
        old_ips: Vec::new(),
        ports: vec![80, 443],
        reachable: true,
        seen: Rc::clone(&seen),
    };
    let mut check = NetSourceTimerCheck::new_at(host, 0);
    check.set_ip_type(IpSourceType::Backup);
    check.set_host("long.example".to_string());
    check.set_ip("1.2.3.4".to_string());
    (check, seen)
}

#[test]
fn a_check_that_was_never_started_never_runs() {
    let (mut check, seen) = a_check();
    assert_eq!(check.period_due(), None);
    assert_eq!(check.check_at(TIME_CHECK_PERIOD), None);
    assert!(seen.borrow().tested.is_empty());

    // starting it posts one, and a second start does not move it
    check.start_check_at(0);
    assert_eq!(check.period_due(), Some(TIME_CHECK_PERIOD));
    check.start_check_at(1_000);
    assert_eq!(check.period_due(), Some(TIME_CHECK_PERIOD));
}

#[test]
fn a_link_that_is_not_on_a_backup_ip_is_not_checked() {
    let (mut check, seen) = a_check();
    check.set_ip_type(IpSourceType::NewDns);
    check.start_check_at(0);
    assert_eq!(check.check_at(TIME_CHECK_PERIOD), None);
    assert!(seen.borrow().tested.is_empty());
}

#[test]
fn a_successful_test_lifts_the_ban_and_tells_the_app() {
    let (mut check, seen) = a_check();
    check.start_check_at(0);
    assert_eq!(check.check_at(TIME_CHECK_PERIOD), Some(true));
    assert_eq!(
        seen.borrow().tested,
        vec![("5.6.7.8".to_string(), 80)],
        "the first ip and the first port, the random pick pinned to 0"
    );
    assert_eq!(seen.borrow().unbanned, vec!["5.6.7.8".to_string()]);
    assert_eq!(seen.borrow().sucs, 1);
    assert!(!check.is_testing(), "the test is over");
    // ... and the post is armed again
    assert_eq!(check.period_due(), Some(2 * TIME_CHECK_PERIOD));
}

#[test]
fn a_test_that_fails_tells_nobody() {
    let (mut check, seen) = a_check();
    check.checks.reachable = false;
    check.start_check_at(0);
    assert_eq!(check.check_at(TIME_CHECK_PERIOD), Some(false));
    assert!(seen.borrow().unbanned.is_empty());
    assert_eq!(seen.borrow().sucs, 0);
}

#[test]
fn a_host_no_dns_knows_is_not_tested() {
    let (mut check, seen) = a_check();
    check.checks.new_ips = Vec::new();
    check.start_check_at(0);
    assert_eq!(check.check_at(TIME_CHECK_PERIOD), Some(false));
    assert!(seen.borrow().tested.is_empty());

    // the fallback dns is what answers when the new one does not
    let (mut check, seen) = a_check();
    check.checks.new_ips = Vec::new();
    check.checks.old_ips = vec!["13.14.15.16".to_string()];
    check.start_check_at(0);
    assert_eq!(check.check_at(TIME_CHECK_PERIOD), Some(true));
    assert_eq!(seen.borrow().tested, vec![("13.14.15.16".to_string(), 80)]);
}

#[test]
fn the_ip_the_link_is_on_already_is_not_tested() {
    let (mut check, seen) = a_check();
    // the second of the two ips the new dns knows is the one in use
    check.set_ip("9.10.11.12".to_string());
    check.start_check_at(0);
    assert_eq!(check.check_at(TIME_CHECK_PERIOD), Some(false));
    assert!(
        seen.borrow().tested.is_empty(),
        "a dns answer that holds the ip in use rules the host out"
    );
}

#[test]
fn without_ports_there_is_nothing_to_test() {
    let (mut check, seen) = a_check();
    check.checks.ports = Vec::new();
    check.start_check_at(0);
    assert_eq!(check.check_at(TIME_CHECK_PERIOD), Some(false));
    assert!(seen.borrow().tested.is_empty());
}

#[test]
fn the_frequency_limit_is_what_stops_a_burst() {
    let (mut check, seen) = a_check();
    check.start_check_at(0);
    // it is one more than the count, and the hour is what closes the window
    for index in 0..MAX_SPEED_TEST_COUNT + 1 {
        assert_eq!(check.check_at(1_000 * (index as u64 + 1)), Some(true));
    }
    assert_eq!(seen.borrow().tested.len(), MAX_SPEED_TEST_COUNT + 1);
    assert_eq!(
        check.check_at(1_000 * (MAX_SPEED_TEST_COUNT as u64 + 2)),
        None,
        "the rest of the hour is refused"
    );
    // the oldest of them has to be more than an hour old, not an hour
    assert_eq!(
        check.check_at(INTERVAL_TIME + 2_000),
        Some(true),
        "an hour after the first one the window opens again"
    );
}

#[test]
fn the_app_going_to_the_background_stops_a_running_check_and_only_that() {
    let (mut check, _seen) = a_check();
    check.on_active_changed_at(0, true);
    assert_eq!(check.period_due(), Some(TIME_CHECK_PERIOD));

    // nothing is in flight, so the post is left alone
    check.on_active_changed_at(0, false);
    assert_eq!(check.period_due(), Some(TIME_CHECK_PERIOD));

    // a test in flight is what makes stopping it work
    check.testing = true;
    check.on_active_changed_at(0, false);
    assert_eq!(check.period_due(), None);
    assert!(!check.is_testing());
}

#[test]
fn a_check_that_is_running_can_be_cancelled() {
    let (mut check, _seen) = a_check();
    check.start_check_at(0);
    // in flight, so the next post is turned away
    check.testing = true;
    assert_eq!(check.check_at(TIME_CHECK_PERIOD), None);
    check.cancel_connect();
    assert!(!check.is_testing());
    assert_eq!(
        check.check_at(2 * TIME_CHECK_PERIOD),
        Some(true),
        "and the post itself was never cancelled"
    );
}

#[test]
fn netsource_timercheck_without_a_host_nothing_is_asked_for() {
    let mut check = NetSourceTimerCheck::new_at(Unwired::<TimerTold>::new(), 0);
    check.start_check_at(0);
    assert_eq!(check.check_at(0), None, "no host: not on a backup ip");
    assert!(!check.try_connect_at(0));
    check.cancel_connect();
    check.stop_check();
    assert_eq!(
        check.period_due(),
        Some(TIME_CHECK_PERIOD),
        "only a check that is in flight is stopped"
    );
}
