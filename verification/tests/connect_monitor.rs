//! When the link is asked for.
use std::cell::RefCell;
use std::rc::Rc;

use mars_stn::longlink_connect_monitor::{
    ActiveState, ConnectType, LinkState, LongLinkConnectMonitor, LongLinkStatus, MonitorHost,
    INTERNAL_MAX_INDEX, INTERVALS, JITTER, NO_ACCOUNT_INFO_INACTIVE_INTERVAL, NO_ACCOUNT_INFO_SALT_RATE,
    NO_ACCOUNT_INFO_SALT_RISE, NO_NET_SALT_RATE, NO_NET_SALT_RISE, UP_OR_DOWN_THRESHOLD,
    WAKE_ALARM_INTERVAL,
};
use mars_stn::net_source::NO_NET;

type Calls = Rc<RefCell<Vec<&'static str>>>;

/// A link that writes down what it is asked for and stays down.
struct Link {
    calls: Calls,
    /// What the link is once it was dropped.
    dropped: LinkState,
    /// The jitter, pinned.
    jitter: usize,
    /// The bound of every number that was drawn.
    bounds: Vec<usize>,
}

impl MonitorHost for Link {
    fn random(&mut self, bound: usize) -> usize {
        self.bounds.push(bound);
        self.jitter
    }

    fn connect(&mut self) -> LongLinkStatus {
        self.calls.borrow_mut().push("connect");
        LongLinkStatus::DisConnected
    }

    fn disconnect(&mut self) -> LinkState {
        self.calls.borrow_mut().push("disconnect");
        self.dropped
    }

    fn longlink_reset(&mut self) {
        self.calls.borrow_mut().push("reset");
    }
}

fn bare(is_keep_alive: bool) -> (LongLinkConnectMonitor<Link>, Calls) {
    let calls: Calls = Rc::default();
    let link = Link {
        calls: Rc::clone(&calls),
        dropped: LinkState {
            is_svr_trig_off: false,
            connect_status: LongLinkStatus::DisConnected,
            dns_time: 0,
        },
        jitter: 0,
        bounds: Vec::new(),
    };
    (LongLinkConnectMonitor::new_at(link, 0, is_keep_alive), calls)
}

/// A monitor whose long link is down, on a network, with an account, and whose
/// app has been in the foreground since `0`.
fn a_monitor() -> (LongLinkConnectMonitor<Link>, Calls) {
    let (mut monitor, calls) = bare(true);
    monitor.set_connect_status(LongLinkStatus::DisConnected);
    monitor.set_net_info(1);
    monitor.set_has_account(true);
    monitor.set_is_active(true);
    monitor.set_is_foreground(true);
    monitor.set_last_foreground_change_time(0);
    (monitor, calls)
}

#[test]
fn the_state_the_app_is_in_picks_the_column_of_the_table() {
    let (mut monitor, _calls) = bare(false);
    monitor.set_is_active(true);
    monitor.set_is_foreground(true);
    monitor.set_last_foreground_change_time(0);
    monitor.set_net_info(1);
    monitor.set_has_account(true);
    // the jitter, pinned
    monitor.host.jitter = 19;

    // foreground for less than a minute: the first column
    assert_eq!(
        monitor.cur_active_state(0),
        ActiveState::ForegroundOneMinute
    );
    assert_eq!(
        monitor.interval(0, ConnectType::LongLink),
        INTERVALS[1][0],
        "the long-link row"
    );
    assert_eq!(monitor.interval(0, ConnectType::Task), INTERVALS[0][0]);

    // ... for more than one, and more than ten
    assert_eq!(
        monitor.cur_active_state(60_000),
        ActiveState::ForegroundTenMinute
    );
    assert_eq!(
        monitor.interval(60_000, ConnectType::LongLink),
        INTERVALS[1][1]
    );
    assert_eq!(
        monitor.cur_active_state(10 * 60 * 1000),
        ActiveState::ForegroundActive
    );
    // the two states the long-link row is salted in are this one and the
    // inactive one, and with a network and an account the salt is jitter
    assert_eq!(
        monitor.interval(10 * 60 * 1000, ConnectType::LongLink),
        INTERVALS[1][2] + 19
    );

    // active but in the background, and not active at all
    monitor.set_is_foreground(false);
    assert_eq!(monitor.cur_active_state(0), ActiveState::BackgroundActive);
    assert_eq!(monitor.interval(0, ConnectType::LongLink), INTERVALS[1][3]);
    monitor.set_is_active(false);
    assert_eq!(monitor.cur_active_state(0), ActiveState::Inactive);
    assert_eq!(
        monitor.interval(0, ConnectType::LongLink),
        INTERVALS[1][4] + 19
    );
}

#[test]
fn what_the_interval_is_salted_with_depends_on_the_network_and_the_account() {
    let (mut monitor, _calls) = bare(false);
    monitor.set_is_active(false);
    monitor.set_is_foreground(false);
    monitor.host.jitter = 19;

    // neither active nor logged in: a week
    assert_eq!(
        monitor.interval(0, ConnectType::LongLink),
        NO_ACCOUNT_INFO_INACTIVE_INTERVAL
    );

    // ... with an account, but no network at all
    monitor.set_has_account(true);
    assert_eq!(
        monitor.interval(0, ConnectType::LongLink),
        INTERVALS[1][4] * NO_NET_SALT_RATE + NO_NET_SALT_RISE
    );

    // ... and on a network, but with no account to connect for, which the
    // foreground-active state is the only one that reaches
    monitor.set_net_info(1);
    monitor.set_has_account(false);
    monitor.set_is_active(true);
    monitor.set_is_foreground(true);
    assert_eq!(
        monitor.cur_active_state(10 * 60 * 1000),
        ActiveState::ForegroundActive
    );
    assert_eq!(
        monitor.interval(10 * 60 * 1000, ConnectType::LongLink),
        INTERVALS[1][2] * NO_ACCOUNT_INFO_SALT_RATE + NO_ACCOUNT_INFO_SALT_RISE
    );

    // a task connect and a network change are never salted
    assert_eq!(monitor.interval(0, ConnectType::Task), INTERVALS[0][0]);
    assert_eq!(monitor.interval(0, ConnectType::NetworkChange), 0);
}

#[test]
fn every_spread_wait_draws_anew_and_no_other_does() {
    let (mut monitor, _calls) = a_monitor();
    let late = 10 * 60 * 1000;
    monitor.set_dns_time(late);
    // foreground for long, on a network and with an account
    monitor.host.jitter = 7;
    assert_eq!(monitor.interval_connect(late, ConnectType::LongLink), 127_000);
    monitor.host.jitter = 19;
    assert_eq!(monitor.interval_connect(late, ConnectType::LongLink), 139_000);
    assert_eq!(monitor.host.bounds, vec![JITTER, JITTER]);
    assert_eq!(JITTER, 20);

    // neither the other connects, nor the other states, nor other salts draw
    monitor.interval_connect(late, ConnectType::Task);
    monitor.interval_connect(0, ConnectType::LongLink);
    monitor.set_net_info(NO_NET);
    monitor.interval_connect(late, ConnectType::LongLink);
    // ... and neither does a link that is up
    monitor.set_net_info(1);
    monitor.set_connect_status(LongLinkStatus::Connected);
    monitor.interval_connect(late, ConnectType::LongLink);
    assert_eq!(monitor.host.bounds.len(), 2);
}

#[test]
fn an_active_app_that_waited_long_enough_connects_at_once() {
    let (mut monitor, calls) = a_monitor();
    // the wait of a task connect is 5s, and the dns was 6s ago
    monitor.set_dns_time(0);
    assert_eq!(monitor.interval_connect(6_000, ConnectType::Task), 0);
    assert_eq!(*calls.borrow(), vec!["connect"]);

    // ... and one that has not waited long enough is told how long is left
    let (mut monitor, calls) = a_monitor();
    monitor.set_dns_time(0);
    assert_eq!(monitor.interval_connect(1_000, ConnectType::Task), 4_000);
    assert!(calls.borrow().is_empty());
}

#[test]
fn a_link_that_is_already_up_or_coming_up_is_not_asked_for() {
    let (mut monitor, calls) = a_monitor();
    monitor.set_connect_status(LongLinkStatus::Connecting);
    assert_eq!(monitor.interval_connect(0, ConnectType::Task), 0);
    monitor.set_connect_status(LongLinkStatus::Connected);
    assert_eq!(monitor.interval_connect(0, ConnectType::Task), 0);
    assert!(calls.borrow().is_empty());
}

#[test]
fn in_the_background_the_wait_walks_the_ladder() {
    let (mut monitor, _calls) = a_monitor();
    monitor.set_is_active(false);
    monitor.set_is_foreground(false);
    monitor.set_dns_time(0);

    // one rung up per call while the link keeps coming back inside ten
    // minutes: the second rung is a minute
    assert_eq!(monitor.interval_connect(0, ConnectType::LongLink), 60_000);
    assert_eq!(monitor.current_interval_index(), 1);
    // ... but the wait is capped
    monitor.current_interval_index = INTERNAL_MAX_INDEX;
    assert_eq!(
        monitor.interval_connect(0, ConnectType::LongLink),
        UP_OR_DOWN_THRESHOLD
    );
    assert_eq!(monitor.current_interval_index(), INTERNAL_MAX_INDEX);

    // a link that held for longer than the threshold walks back down, and as
    // the longest rung is the threshold itself, walking down is always a
    // connect now
    monitor.set_dns_time(0);
    monitor.current_interval_index = 3;
    assert_eq!(
        monitor.interval_connect(UP_OR_DOWN_THRESHOLD, ConnectType::LongLink),
        0,
        "the rung below is shorter than the wait already spent"
    );
    assert_eq!(monitor.current_interval_index(), 2);

    // ... and the ladder does not go below the first rung
    monitor.current_interval_index = 0;
    assert_eq!(
        monitor.interval_connect(UP_OR_DOWN_THRESHOLD, ConnectType::LongLink),
        0
    );
    assert_eq!(monitor.current_interval_index(), 0);
}

#[test]
fn an_alarm_that_rebuilds_the_link_connects_at_once() {
    let (mut monitor, calls) = a_monitor();
    monitor.set_is_active(false);
    monitor.set_is_foreground(false);

    // the wake alarm does not rebuild, so the ladder decides
    assert_eq!(monitor.on_alarm_at(0, false), 60_000);
    assert_eq!(monitor.rebuild_due_time(), Some(60_000));
    assert!(calls.borrow().is_empty());

    // the rebuild alarm: it connects, and no alarm is armed
    assert_eq!(monitor.on_alarm_at(60_000, true), 0);
    assert_eq!(monitor.rebuild_due_time(), None);
    assert_eq!(*calls.borrow(), vec!["connect"]);
}

#[test]
fn a_link_that_went_down_arms_the_wake_alarm() {
    let (mut monitor, _calls) = a_monitor();
    monitor.on_longlink_status_changed_at(1_000, LongLinkStatus::DisConnected);
    assert_eq!(monitor.status(), LongLinkStatus::DisConnected);
    assert_eq!(monitor.last_connect_time(), 1_000);
    assert_eq!(monitor.last_connect_net_type(), 1, "the net it is on");
    assert_eq!(monitor.wake_due_time(), Some(1_000 + WAKE_ALARM_INTERVAL));

    // a link that came up arms neither
    monitor.on_longlink_status_changed_at(2_000, LongLinkStatus::Connected);
    assert_eq!(monitor.wake_due_time(), None);
    assert_eq!(monitor.rebuild_due_time(), None);

    // ... and a failed connect does arm it
    monitor.on_longlink_status_changed_at(3_000, LongLinkStatus::ConnectFailed);
    assert_eq!(monitor.wake_due_time(), Some(3_000 + WAKE_ALARM_INTERVAL));
}

#[test]
fn a_network_change_drops_the_link_and_asks_for_a_new_one() {
    let (mut monitor, calls) = a_monitor();
    monitor.set_dns_time(0);
    // the wait of a network change is none, so it connects at once
    assert!(monitor.network_change_at(0));
    assert_eq!(*calls.borrow(), vec!["disconnect", "connect"]);
}

#[test]
fn a_network_change_goes_by_what_the_link_is_once_it_was_dropped() {
    // a link that was up is asked for again where the drop took it down ...
    let (mut monitor, calls) = a_monitor();
    monitor.set_connect_status(LongLinkStatus::Connected);
    assert!(monitor.network_change_at(0));
    assert_eq!(*calls.borrow(), vec!["disconnect", "connect"]);

    // ... and not where the drop only wrote down why it is going away
    let (mut monitor, calls) = a_monitor();
    monitor.set_connect_status(LongLinkStatus::Connected);
    monitor.host.dropped.connect_status = LongLinkStatus::Connected;
    assert!(monitor.network_change_at(0));
    assert_eq!(*calls.borrow(), vec!["disconnect"]);
}

#[test]
fn network_change_answers_that_a_connect_was_asked_for_and_not_that_the_link_is_up() {
    let (mut monitor, _calls) = a_monitor();
    monitor.set_dns_time(0);
    // the host says the link is down, and saying so is all the connect the
    // monitor asks for does here
    assert!(monitor.network_change_at(0), "the connect was asked for");
    assert!(!monitor.make_sure_connected_at(0), "and the link is not up");

    // a server that turned the trigger off asks for nothing at all, and the
    // answer is the same
    let (mut monitor, calls) = a_monitor();
    monitor.set_is_svr_trig_off(true);
    monitor.host.dropped.is_svr_trig_off = true;
    assert!(monitor.network_change_at(0));
    assert_eq!(
        *calls.borrow(),
        vec!["disconnect"],
        "the link was dropped and nothing was asked for"
    );
}

#[test]
fn make_sure_connected_answers_whether_the_link_is_up() {
    let (mut monitor, _calls) = a_monitor();
    monitor.set_dns_time(0);
    assert!(!monitor.make_sure_connected_at(0), "still disconnected");

    // the link is up now
    monitor.set_connect_status(LongLinkStatus::Connected);
    assert!(monitor.make_sure_connected_at(0));

    // ... and a server that turned the trigger off is never asked
    monitor.set_is_svr_trig_off(true);
    monitor.set_connect_status(LongLinkStatus::DisConnected);
    assert!(!monitor.make_sure_connected_at(0));
    assert_eq!(monitor.interval_connect(0, ConnectType::Task), 0);
}

#[test]
fn without_a_host_the_monitor_still_answers() {
    let (mut monitor, _calls) = bare(false);
    assert!(!monitor.is_keep_alive());
    assert_eq!(monitor.status(), LongLinkStatus::DisConnected);
    assert_eq!(monitor.last_connect_net_type(), NO_NET);

    // inactive and with no account, so the ladder decides, and the first rung
    // of it is a minute from now
    assert_eq!(monitor.on_alarm_at(0, false), 60_000);
    assert_eq!(monitor.rebuild_due_time(), Some(60_000));
    monitor.reconnect();
    monitor.on_heartbeat_alarm_set(1);
    monitor.on_heartbeat_alarm_received(true);
    monitor.on_foreground_changed_at(0, true);
    monitor.on_active_changed_at(0, true);
    monitor.on_longlink_status_changed_at(0, LongLinkStatus::Connected);
    // the wait of a network change is none, so it is now
    assert!(monitor.network_change_at(0));
}

#[test]
fn the_reset_the_apple_paths_call_is_the_one_the_host_set() {
    let (mut monitor, calls) = bare(false);
    monitor.set_longlink_reset();
    monitor.reconnect();
    assert_eq!(*calls.borrow(), vec!["reset"]);

    monitor.clear_longlink_reset();
    monitor.reconnect();
    assert_eq!(*calls.borrow(), vec!["reset"]);
}
