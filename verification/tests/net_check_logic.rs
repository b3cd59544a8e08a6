//! When the network is checked.
use std::cell::RefCell;
use std::rc::Rc;

use mars_stn::net_check_logic::{
    extract_n_bits, set_bit, CheckHost, NetCheckHost, NetCheckLogic, CHECK_TIME_SPAN_INCREMENT_STEP,
    LIMIT_TIME_SPAN, MIN_CHECK_TIME_SPAN, NET_CHECK_MODE, VALID_BITS_FILTER,
};

/// The pairs of the two links a check was started with, and the mode.
type Started = Rc<RefCell<Vec<(Vec<(String, u16)>, Vec<(String, u16)>, i32)>>>;

/// Every pair of a list of hosts, in the order they went in.
fn pairs(hosts: &[CheckHost]) -> Vec<(String, u16)> {
    hosts
        .iter()
        .flat_map(|host| host.pairs.iter().map(|item| (item.ip.clone(), item.port)))
        .collect()
}

/// What the links are reachable at.
#[derive(Default)]
struct Host {
    hosts: Vec<String>,
    ports: Vec<u16>,
    short_port: u16,
    short_hosts: Vec<String>,
    knows_new: bool,
    knows_old: bool,
    started: Started,
    cancelled: Rc<RefCell<usize>>,
}

impl NetCheckHost for Host {
    fn long_link_hosts(&mut self) -> Vec<String> {
        self.hosts.clone()
    }

    fn long_link_ports(&mut self) -> Vec<u16> {
        self.ports.clone()
    }

    fn short_link_port(&mut self) -> u16 {
        self.short_port
    }

    fn request_short_link_hosts(&mut self) -> Vec<String> {
        self.short_hosts.clone()
    }

    fn new_dns(&mut self, host: &str) -> Vec<String> {
        if self.knows_new && host.starts_with("long") {
            vec!["1.2.3.4".to_string()]
        } else {
            Vec::new()
        }
    }

    fn dns(&mut self, _host: &str) -> Vec<String> {
        if self.knows_old {
            vec!["5.6.7.8".to_string()]
        } else {
            Vec::new()
        }
    }

    fn start_active_check(
        &mut self,
        longlink: &Vec<CheckHost>,
        shortlink: &Vec<CheckHost>,
        mode: i32,
    ) {
        self.started
            .borrow_mut()
            .push((pairs(longlink), pairs(shortlink), mode));
    }

    fn cancel_active_check(&mut self) {
        *self.cancelled.borrow_mut() += 1;
    }
}

/// A long link that is reachable at one host and two ports, a short link at one
/// host of its own, and a new dns that only knows the long link's host.
fn a_host() -> Host {
    Host {
        hosts: vec!["long.example".to_string()],
        ports: vec![80, 443],
        short_port: 8080,
        short_hosts: vec!["short.example".to_string()],
        knows_new: true,
        knows_old: true,
        ..Host::default()
    }
}

fn a_logic() -> (NetCheckLogic<Host>, Started) {
    let host = a_host();
    let started = Rc::clone(&host.started);
    (NetCheckLogic::new_at(host, 0), started)
}

/// Sixteen successes and then `failures` failures on the long link: broken now,
/// and fine in the eight tasks before.
fn broken_longlink(logic: &mut NetCheckLogic<Host>, now: u64, failures: usize) {
    for _ in 0..16 {
        logic.update_long_link_info_at(now, 0, true);
    }
    for _ in 0..failures {
        logic.update_long_link_info_at(now, 0, false);
    }
}

#[test]
fn the_window_starts_full_of_successes_and_the_newest_goes_in_the_low_bit() {
    let mut logic = NetCheckLogic::new_at(Host::default(), 0);
    assert_eq!(logic.longlink_records(), VALID_BITS_FILTER);

    // a window that is all successes stays that way when one more comes in
    logic.update_long_link_info_at(1_000, 0, true);
    assert_eq!(logic.longlink_records(), VALID_BITS_FILTER);

    logic.update_long_link_info_at(2_000, 0, false);
    assert_eq!(
        logic.longlink_records(),
        0b1111_1111_1111_1111_1111_1111_1111_1110
    );
    assert_eq!(logic.longlink_last_failed_time(), 2_000);
    assert_eq!(
        logic.shortlink_last_failed_time(),
        0,
        "the other link is not touched"
    );

    // ... and the next success pushes the failure up and takes the low bit
    logic.update_long_link_info_at(3_000, 0, true);
    assert_eq!(
        logic.longlink_records(),
        0b1111_1111_1111_1111_1111_1111_1111_1101
    );
    assert_eq!(
        logic.longlink_last_failed_time(),
        2_000,
        "a success stamps the other time"
    );
}

#[test]
fn the_eight_most_recent_tasks_come_out_of_the_window() {
    // `1` in the bits 8..1
    let records = 0b0000_0000_0000_0000_0000_0001_1111_1110;
    assert_eq!(extract_n_bits(records, 24, 8), 0b1111_1111);
    // ... and the eight before those are the bits 16..9
    assert_eq!(extract_n_bits(records, 16, 8), 0);

    // a start position past the end of the window leaves nothing
    assert_eq!(extract_n_bits(records, 32, 8), 0);
    assert_eq!(extract_n_bits(records, 0, 8), extract_n_bits(records, 1, 8));
    // a part that is too long ends with the window
    assert_eq!(extract_n_bits(records, 24, u32::MAX), extract_n_bits(records, 24, 8));
}

#[test]
fn the_newest_goes_in_the_low_bit() {
    assert_eq!(set_bit(true, 0b101, VALID_BITS_FILTER), 0b1011);
    assert_eq!(set_bit(false, 0b101, VALID_BITS_FILTER), 0b1010);
    assert_eq!(set_bit(true, 0xFFFF_FFFF, 0xFF), 0xFF);
}

#[test]
fn a_link_that_was_fine_and_then_broke_starts_a_check() {
    let (mut logic, started) = a_logic();

    // sixteen successes, then the seven failures it takes for the eight most
    // recent tasks to be mostly failures
    broken_longlink(&mut logic, MIN_CHECK_TIME_SPAN, 7);
    {
        let started = started.borrow();
        assert_eq!(started.len(), 1, "the check started");
        let (longlink, shortlink, mode) = &started[0];
        assert_eq!(*mode, NET_CHECK_MODE);
        assert_eq!(
            *longlink,
            vec![("1.2.3.4".to_string(), 80), ("1.2.3.4".to_string(), 443)],
            "one ip on each port, and the ports walk outside the ips"
        );
        // the short link's host is the one only the old dns knows
        assert_eq!(*shortlink, vec![("5.6.7.8".to_string(), 8080)]);
    }

    // ... and the eighth failure does not start another one: the wait has
    // grown to fifteen minutes and the reading is still the same
    logic.update_long_link_info_at(MIN_CHECK_TIME_SPAN, 0, false);
    assert_eq!(started.borrow().len(), 1);
}

#[test]
fn the_wait_grows_with_every_check_that_gets_through() {
    // no hosts, so there is nothing to resolve against: only the decision
    // itself is observable here
    let mut logic = NetCheckLogic::new_at(Host::default(), 0);

    // six failures: the most recent eight tasks are not broken enough yet
    broken_longlink(&mut logic, MIN_CHECK_TIME_SPAN - 1, 6);
    assert_eq!(logic.increment_steps(), 0);

    // the seventh is, and the process is too young
    logic.update_long_link_info_at(MIN_CHECK_TIME_SPAN - 1, 0, false);
    assert_eq!(logic.increment_steps(), 0, "too soon");

    // five minutes old, the wait is met and grows
    logic.update_long_link_info_at(MIN_CHECK_TIME_SPAN, 0, false);
    assert_eq!(logic.increment_steps(), 1);
    // ... and fifteen minutes is what the next one needs
    logic.update_long_link_info_at(MIN_CHECK_TIME_SPAN, 0, false);
    assert_eq!(logic.increment_steps(), 1);
    logic.update_long_link_info_at(
        MIN_CHECK_TIME_SPAN + CHECK_TIME_SPAN_INCREMENT_STEP,
        0,
        false,
    );
    assert_eq!(logic.increment_steps(), 2);
    logic.update_long_link_info_at(
        MIN_CHECK_TIME_SPAN + 2 * CHECK_TIME_SPAN_INCREMENT_STEP,
        0,
        false,
    );
    assert_eq!(logic.increment_steps(), 3, "twenty-five minutes");
}

#[test]
fn the_frequency_limit_lets_one_more_through_than_its_count() {
    let (mut logic, started) = a_logic();

    // the first check, five minutes in
    broken_longlink(&mut logic, MIN_CHECK_TIME_SPAN, 7);
    assert_eq!(started.borrow().len(), 1);

    // fifteen minutes: the count is one, but it passes while there are no more
    // readings than that, so a second one goes through in the same hour
    logic.update_long_link_info_at(
        MIN_CHECK_TIME_SPAN + CHECK_TIME_SPAN_INCREMENT_STEP,
        0,
        false,
    );
    assert_eq!(started.borrow().len(), 2);

    // twenty-five minutes is refused, and the hour is what it takes
    logic.update_long_link_info_at(
        MIN_CHECK_TIME_SPAN + 2 * CHECK_TIME_SPAN_INCREMENT_STEP,
        0,
        false,
    );
    assert_eq!(started.borrow().len(), 2, "the third is refused");
    logic.update_long_link_info_at(MIN_CHECK_TIME_SPAN + LIMIT_TIME_SPAN + 1, 0, false);
    assert_eq!(started.borrow().len(), 3);
}

#[test]
fn a_link_that_is_fine_again_resets_the_wait() {
    let mut logic = NetCheckLogic::new_at(Host::default(), 0);
    broken_longlink(&mut logic, MIN_CHECK_TIME_SPAN, 7);
    assert_eq!(logic.increment_steps(), 1);

    // seven successes in a row and both links are fine again
    for _ in 0..7 {
        logic.update_long_link_info_at(MIN_CHECK_TIME_SPAN, 0, true);
    }
    assert_eq!(logic.increment_steps(), 0);
}

#[test]
fn a_link_without_hosts_or_ports_or_ips_is_not_checked() {
    // nothing at all: the hosts are the first thing that is given up on
    let host = Host::default();
    let started = Rc::clone(&host.started);
    let mut logic = NetCheckLogic::new_at(host, 0);
    broken_longlink(&mut logic, MIN_CHECK_TIME_SPAN, 7);
    assert_eq!(started.borrow().len(), 0);

    // hosts but no ports
    let mut host = a_host();
    host.ports = Vec::new();
    let started = Rc::clone(&host.started);
    let mut logic = NetCheckLogic::new_at(host, 0);
    broken_longlink(&mut logic, MIN_CHECK_TIME_SPAN, 7);
    assert_eq!(started.borrow().len(), 0, "no ports");

    // hosts and ports, but a dns that knows neither
    let mut host = a_host();
    host.knows_new = false;
    host.knows_old = false;
    let started = Rc::clone(&host.started);
    let mut logic = NetCheckLogic::new_at(host, 0);
    broken_longlink(&mut logic, MIN_CHECK_TIME_SPAN, 7);
    assert_eq!(
        started.borrow().len(),
        0,
        "no ips, so nothing to check"
    );
}

#[test]
fn the_short_link_decides_on_its_own() {
    let mut logic = NetCheckLogic::new_at(Host::default(), 0);
    assert_eq!(logic.shortlink_records(), VALID_BITS_FILTER);

    for _ in 0..16 {
        logic.update_short_link_info_at(0, 0, true);
    }
    for _ in 0..7 {
        logic.update_short_link_info_at(MIN_CHECK_TIME_SPAN, 0, false);
    }
    assert_eq!(logic.increment_steps(), 1, "the short link decided it");
    assert_eq!(logic.longlink_records(), VALID_BITS_FILTER);
}

#[test]
fn net_check_logic_without_a_host_nothing_is_asked_for() {
    let host = Host::default();
    let cancelled = Rc::clone(&host.cancelled);
    let mut logic = NetCheckLogic::new_at(host, 0);
    logic.update_long_link_info_at(0, 0, false);
    logic.update_short_link_info_at(0, 0, false);
    assert_eq!(
        logic.longlink_records(),
        0b1111_1111_1111_1111_1111_1111_1111_1110
    );

    logic.cancel_active_check();
    assert_eq!(*cancelled.borrow(), 1);
}
