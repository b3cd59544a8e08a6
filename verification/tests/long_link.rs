//! The long link: its runs, its connects and its heartbeats.
use std::cell::RefCell;
use std::rc::Rc;

use mars_stn::config::MIN_HEART_INTERVAL;
use mars_stn::ip_port::{IpPortItem, IpSourceType};
use mars_stn::long_link::{
    Address, AlarmStatus, ConnectFail, DisconnectInternalCode, LinkHost, LocalIpStack, LongLink,
    MakeSure, NoopAlarm, SocketFd, SocketProfile, ECT_DNS_MAKE_SOCKET_PREPARED,
    ECT_SOCKET_MAKE_SOCKET_PREPARED, NOOP_ACTIVE_TIMEOUT, NOOP_TIMEOUT,
};
use mars_stn::longlink::{longlink_pack, longlink_unpack, Unpacked, NOOP_CMDID};
use mars_stn::longlink_connect_monitor::LongLinkStatus;
use mars_stn::longlink_identify_checker::IdentifyBuffer;
use mars_stn::net_source::LonglinkConfig;
use mars_stn::task::Task;
use mars_stn::task_profile::{ConnectProfile, ErrCmdType, ProxyInfo, ProxyType};

const VERSION: u32 = 200;

/// What the host was asked for, and what it answers with.
struct Seen {
    items: Vec<IpPortItem>,
    proxy: ProxyInfo,
    stack: LocalIpStack,
    ips: Vec<String>,
    has_sockets: bool,
    profile: SocketProfile,
    answer: Vec<u8>,
    label: String,
    net_type: i32,
    local: Option<Address>,
    interval: u32,
    check: Option<(Vec<u8>, Vec<u8>, u32)>,
    next: i64,
    proxies: Vec<Option<ProxyInfo>>,
    addresses: Vec<Vec<Address>>,
    sent: Vec<Vec<u8>>,
    responses: Vec<(ErrCmdType, i32)>,
    reported: Vec<(ErrCmdType, i32)>,
    said: Vec<(LongLinkStatus, String)>,
    broadcast: Vec<ConnectProfile>,
    alarms: Vec<bool>,
    established: Vec<(String, i32)>,
    disconnected: usize,
    dozes: Vec<(u64, bool, bool)>,
    started: Vec<u64>,
    results: Vec<(bool, bool)>,
    checked: Vec<(Vec<u8>, bool)>,
}

type Log = Rc<RefCell<Seen>>;

struct Host(Log);

impl LinkHost for Host {
    fn random(&mut self, _bound: usize) -> usize {
        0
    }

    fn items(&mut self, _config: &LonglinkConfig) -> Vec<IpPortItem> {
        self.0.borrow().items.clone()
    }

    fn proxy(&mut self) -> ProxyInfo {
        self.0.borrow().proxy.clone()
    }

    fn dns(&mut self, _host: &str) -> Vec<String> {
        self.0.borrow().ips.clone()
    }

    fn local_ip_stack(&mut self) -> LocalIpStack {
        self.0.borrow().stack
    }

    fn address(&mut self, ip: &str, port: u16, stack: Option<LocalIpStack>) -> Address {
        let is_v6 = ip.contains(':');
        if !is_v6 && stack == Some(LocalIpStack::IPv6) {
            return Address {
                ip: format!("64:ff9b::{ip}"),
                port,
                is_v4: false,
                is_v6: true,
            };
        }
        Address {
            ip: ip.to_string(),
            port,
            is_v4: !is_v6,
            is_v6,
        }
    }

    fn net_label(&mut self) -> String {
        self.0.borrow().label.clone()
    }

    fn net_type(&mut self) -> i32 {
        self.0.borrow().net_type
    }

    fn connect(&mut self, addresses: &Vec<Address>, proxy: &ProxyInfo) -> SocketFd {
        let mut seen = self.0.borrow_mut();
        if !seen.has_sockets {
            return SocketFd(-1);
        }
        seen.addresses.push(addresses.clone());
        seen.proxies.push(if proxy.kind == ProxyType::Absent {
            None
        } else {
            Some(proxy.clone())
        });
        if seen.profile.error_code != 0 {
            return SocketFd(-1);
        }
        seen.next += 1;
        SocketFd(seen.next - 1)
    }

    fn connected(&mut self) -> SocketProfile {
        self.0.borrow().profile
    }

    fn local_address(&mut self, _socket: SocketFd) -> Option<Address> {
        self.0.borrow().local.clone()
    }

    fn write(&mut self, _socket: SocketFd, buffer: &[u8], _timeout_ms: i32) -> Result<usize, i32> {
        self.0.borrow_mut().sent.push(buffer.to_vec());
        Ok(buffer.len())
    }

    fn read(
        &mut self,
        _socket: SocketFd,
        _max_size: usize,
        _timeout_ms: i32,
    ) -> Result<Vec<u8>, i32> {
        Ok(self.0.borrow().answer.clone())
    }

    fn network_report(&mut self, err_type: ErrCmdType, err_code: i32, _ip: &str, _port: u16) {
        self.0.borrow_mut().reported.push((err_type, err_code));
    }

    fn response_error(
        &mut self,
        _name: &str,
        err_type: ErrCmdType,
        err_code: i32,
        _profile: &ConnectProfile,
    ) {
        self.0.borrow_mut().responses.push((err_type, err_code));
    }

    fn connection(&mut self, status: LongLinkStatus, name: &str) {
        self.0.borrow_mut().said.push((status, name.to_string()));
    }

    fn link_status(&mut self, profile: &ConnectProfile) {
        self.0.borrow_mut().broadcast.push(profile.clone());
    }

    fn noop_alarm_received(&mut self, noop_timeout: bool) {
        self.0.borrow_mut().alarms.push(noop_timeout);
    }

    fn heartbeat_interval(&mut self, _is_active: bool) -> u32 {
        self.0.borrow().interval
    }

    fn heartbeat_judge_doze(&mut self, now: u64, is_mobile: bool, is_active: bool) {
        self.0.borrow_mut().dozes.push((now, is_mobile, is_active));
    }

    fn heartbeat_started(&mut self, now: u64) {
        self.0.borrow_mut().started.push(now);
    }

    fn heartbeat_result(&mut self, success: bool, fail_of_timeout: bool, _seconds: i64) {
        self.0.borrow_mut().results.push((success, fail_of_timeout));
    }

    fn heartbeat_established(&mut self, net_detail: &str, net_type: i32) {
        self.0
            .borrow_mut()
            .established
            .push((net_detail.to_string(), net_type));
    }

    fn heartbeat_disconnected(&mut self) {
        self.0.borrow_mut().disconnected += 1;
    }

    fn identify_buffer(&mut self, _channel_id: &str, _cmdid: u32) -> IdentifyBuffer {
        match self.0.borrow().check.clone() {
            Some((buffer, hash, cmdid)) => IdentifyBuffer::now(buffer, hash, cmdid),
            None => IdentifyBuffer::next(Vec::new()),
        }
    }

    fn identify_response(&mut self, _channel_id: &str, response: &[u8], hash: &[u8]) -> bool {
        let accepted = response == hash;
        self.0
            .borrow_mut()
            .checked
            .push((response.to_vec(), accepted));
        accepted
    }

    fn debug_ip(&mut self) -> String {
        String::new()
    }

    fn minorlong_debug_ip(&mut self) -> String {
        String::new()
    }
}

fn item(ip: &str, port: u16, host: &str) -> IpPortItem {
    IpPortItem {
        ip: ip.to_string(),
        port,
        host: host.to_string(),
        source_type: IpSourceType::Dns,
        ..IpPortItem::new(ip, port)
    }
}

fn no_profile() -> SocketProfile {
    SocketProfile {
        rtt: 0,
        index: 0,
        error_code: 0,
        total_cost: 0,
        is_0rtt: false,
    }
}

fn socks5(host: &str, ip: &str) -> ProxyInfo {
    ProxyInfo {
        kind: ProxyType::Socks5,
        host: host.to_string(),
        ip: ip.to_string(),
        port: 1080,
        username: String::new(),
        password: String::new(),
        valid: true,
    }
}

/// A link with nothing behind it.
fn bare() -> (LongLink<Host>, Log) {
    let seen = Rc::new(RefCell::new(Seen {
        items: Vec::new(),
        proxy: ProxyInfo::none(),
        stack: LocalIpStack::Nothing,
        ips: Vec::new(),
        has_sockets: false,
        profile: no_profile(),
        answer: Vec::new(),
        label: String::new(),
        net_type: 0,
        local: None,
        interval: MIN_HEART_INTERVAL,
        check: None,
        next: 3,
        proxies: Vec::new(),
        addresses: Vec::new(),
        sent: Vec::new(),
        responses: Vec::new(),
        reported: Vec::new(),
        said: Vec::new(),
        broadcast: Vec::new(),
        alarms: Vec::new(),
        established: Vec::new(),
        disconnected: 0,
        dozes: Vec::new(),
        started: Vec::new(),
        results: Vec::new(),
        checked: Vec::new(),
    }));
    let host = Host(Rc::clone(&seen));
    let link = LongLink::new(host, LonglinkConfig::new("long.example"), VERSION);
    (link, seen)
}

/// A link with one candidate on `1.1.1.1:80`, and the host's record of it.
fn link() -> (LongLink<Host>, Log) {
    let (link, seen) = bare();
    {
        let mut seen = seen.borrow_mut();
        seen.items = vec![item("1.1.1.1", 80, "long.example")];
        seen.stack = LocalIpStack::IPv4;
        seen.has_sockets = true;
    }
    (link, seen)
}

/// A link that is up: what every heartbeat test starts from.
fn connected() -> (LongLink<Host>, Log) {
    let (mut link, seen) = link();
    link.make_sure_connected();
    assert!(link.connect_at(1_000).is_ok());
    seen.borrow_mut().reported.clear();
    (link, seen)
}

/// What was queued has gone out, so the queue is empty again.
fn written(link: &mut LongLink<Host>) {
    let len = link.queued().first().map_or(0, |data| data.buffer.len());
    link.wrote(len);
}

#[test]
fn a_new_link_is_idle_and_has_not_been_made() {
    let (link, _) = link();
    assert_eq!(link.connect_status(), LongLinkStatus::ConnectIdle);
    assert!(!link.is_running());
    assert_eq!(link.disconnect_code(), DisconnectInternalCode::NotAsked);
    assert!(!link.disconnect_code().is_set());
    assert_eq!(link.config().name, "long.example");
    assert_eq!(link.profile().ip_index, -1);
    assert_eq!(link.profile().link_type, Task::CHANNEL_LONG);
    assert!(!link.heartbeat());
    assert!(!link.is_server_triggered_off());
}

#[test]
fn making_sure_starts_one_run_and_says_which_call_did() {
    let (mut link, _) = link();
    assert_eq!(link.make_sure_connected(), MakeSure::Run { new_one: true });
    // the second call is one on a run that is going already: the state it has
    // is the state it keeps
    link.profile.conn_rtt = 30;
    assert_eq!(link.make_sure_connected(), MakeSure::Run { new_one: false });
    assert_eq!(link.profile().conn_rtt, 30);
    assert!(link.is_running());

    link.set_status(LongLinkStatus::Connected);
    assert_eq!(link.make_sure_connected(), MakeSure::Connected);
}

#[test]
fn a_new_run_carries_the_failure_of_the_one_before_it() {
    let (mut link, _) = link();
    link.profile.disconn_errcode = -10087;
    assert_eq!(link.make_sure_connected(), MakeSure::Run { new_one: true });
    // the reason is the run before this one
    assert_eq!(link.profile().conn_reason, -10087);
    assert_eq!(link.profile().disconn_errcode, 0);

    link.end_run();
    assert!(!link.is_running());
    link.profile.disconn_errcode = 0;
    assert_eq!(link.make_sure_connected(), MakeSure::Run { new_one: true });
    assert_eq!(link.profile().conn_reason, 0);
}

#[test]
fn a_link_that_was_released_will_not_run_again() {
    let (mut link, _) = link();
    link.running = true;
    link.release();
    assert_eq!(
        link.disconnect_code(),
        DisconnectInternalCode::ObjectDestruct
    );
    assert_eq!(link.make_sure_connected(), MakeSure::Released);
}

#[test]
fn disconnecting_a_link_that_is_not_running_does_nothing() {
    let (mut link, _) = link();
    link.disconnect(DisconnectInternalCode::NetworkChange);
    assert_eq!(link.disconnect_code(), DisconnectInternalCode::NotAsked);

    link.running = true;
    link.disconnect(DisconnectInternalCode::NetworkChange);
    assert_eq!(
        link.disconnect_code(),
        DisconnectInternalCode::NetworkChange
    );
}

#[test]
fn a_connect_with_no_candidate_fails_with_dns() {
    let (mut link, seen) = bare();
    assert_eq!(link.make_sure_connected(), MakeSure::Run { new_one: true });
    assert_eq!(link.connect_at(1_000), Err(ConnectFail::NoAddress));
    assert_eq!(link.connect_status(), LongLinkStatus::ConnectFailed);
    assert_eq!(
        seen.borrow().responses,
        vec![(ErrCmdType::Dns, ECT_DNS_MAKE_SOCKET_PREPARED)]
    );
}

#[test]
fn a_connect_that_fails_is_reported_unless_the_app_took_the_link_down() {
    let (mut link, seen) = link();
    // the platform's word for a connect that did not happen
    seen.borrow_mut().profile.error_code = ECT_SOCKET_MAKE_SOCKET_PREPARED;
    link.make_sure_connected();

    assert_eq!(
        link.connect_at(1_000),
        Err(ConnectFail::Connect {
            error_code: ECT_SOCKET_MAKE_SOCKET_PREPARED
        })
    );
    assert_eq!(link.connect_status(), LongLinkStatus::ConnectFailed);
    // the tasks are answered with it, and the network is not told
    assert_eq!(
        seen.borrow().responses,
        vec![(ErrCmdType::Socket, ECT_SOCKET_MAKE_SOCKET_PREPARED)]
    );
    assert!(seen.borrow().reported.is_empty());

    // a link the app disconnected itself is not even answered
    seen.borrow_mut().responses.clear();
    link.disconnect_code = DisconnectInternalCode::NotAsked;
    link.running = true;
    link.disconnect(DisconnectInternalCode::NetworkLost);
    assert_eq!(
        link.connect_at(2_000),
        Err(ConnectFail::Connect {
            error_code: ECT_SOCKET_MAKE_SOCKET_PREPARED
        })
    );
    assert!(seen.borrow().responses.is_empty());
    assert!(seen.borrow().reported.is_empty());
}

#[test]
fn a_connect_fills_the_profile_with_the_pair_that_won() {
    let (mut link, seen) = link();
    {
        let mut seen = seen.borrow_mut();
        seen.profile = SocketProfile {
            rtt: 30,
            index: 1,
            total_cost: 90,
            ..no_profile()
        };
        seen.items = vec![
            item("1.1.1.1", 443, "long.example"),
            item("2.2.2.2", 80, "long.example"),
        ];
        seen.local = Some(Address {
            ip: "10.0.0.1".to_string(),
            port: 40_000,
            is_v4: true,
            is_v6: false,
        });
        seen.label = "wifi".to_string();
    }
    link.make_sure_connected();

    assert_eq!(link.connect_at(1_000), Ok(SocketFd(3)));
    assert_eq!(link.connect_status(), LongLinkStatus::Connected);

    let profile = link.profile();
    assert_eq!(profile.ip, "2.2.2.2");
    assert_eq!(profile.port, 80);
    assert_eq!(profile.ip_index, 1);
    assert_eq!(profile.host, "long.example");
    // the candidate that lost was on 443
    assert_eq!(profile.tried_443port, 1);
    assert_eq!(profile.tried_80port, 0);
    assert_eq!(profile.local_ip, "10.0.0.1");
    assert_eq!(profile.local_port, 40_000);
    assert_eq!(profile.net_type, "wifi");
    assert_eq!(profile.conn_rtt, 30);
    assert_eq!(profile.conn_cost, 90);
    assert_eq!(profile.start_time, 1_000);
    assert_eq!(profile.dns_time, 1_000);
    assert_eq!(profile.dns_endtime, 1_000);
    assert!(!profile.nat64, "the local stack is v4");
    assert_eq!(profile.ip_items.len(), 2);
}

#[test]
fn a_v4_proxy_drops_the_v6_pairs_and_the_one_that_won_is_still_the_one_it_won_on() {
    let (mut link, seen) = link();
    {
        let mut seen = seen.borrow_mut();
        seen.items = vec![
            item("2001:db8::1", 80, "long.example"),
            item("1.1.1.1", 80, "long.example"),
            item("2.2.2.2", 80, "long.example"),
        ];
        seen.proxy = socks5("", "10.0.0.2");
        // the second pair the host was given: `2.2.2.2`, not `1.1.1.1`
        seen.profile.index = 1;
    }
    link.make_sure_connected();
    assert!(link.connect_at(1_000).is_ok());

    assert_eq!(
        seen.borrow().addresses[0].len(),
        2,
        "the v6 pair is not offered"
    );
    assert!(seen.borrow().addresses[0]
        .iter()
        .all(|address| !address.is_v6));
    // and the index is read off what is left, which is the pair itself
    assert_eq!(link.profile().ip, "2.2.2.2");
    assert_eq!(link.profile().ip_index, 1);
}

#[test]
fn a_v6_only_network_makes_the_addresses_nat64_ones() {
    let (mut link, seen) = link();
    seen.borrow_mut().stack = LocalIpStack::IPv6;
    link.make_sure_connected();
    assert!(link.connect_at(1_000).is_ok());
    assert!(link.profile().nat64);
    assert!(
        seen.borrow().addresses[0][0].is_v6,
        "1.1.1.1 became a nat64 one"
    );
}

#[test]
fn a_proxy_is_gone_through_only_when_the_candidates_are_not_debug_ones() {
    for (source_type, want) in [(IpSourceType::Dns, true), (IpSourceType::Debug, false)] {
        let (mut link, seen) = link();
        seen.borrow_mut().items = vec![IpPortItem {
            source_type,
            ..item("1.1.1.1", 80, "long.example")
        }];
        seen.borrow_mut().proxy = socks5("", "10.0.0.2");
        link.make_sure_connected();
        assert!(link.connect_at(1_000).is_ok());
        assert_eq!(
            seen.borrow().proxies[0].is_some(),
            want,
            "a debug ip is where the link goes"
        );
    }
}

#[test]
fn a_v4_proxy_cannot_carry_v6_traffic() {
    let (mut link, seen) = link();
    seen.borrow_mut().items = vec![
        item("1.1.1.1", 80, "long.example"),
        item("::1", 80, "long.example"),
    ];
    seen.borrow_mut().proxy = socks5("", "10.0.0.2");
    link.make_sure_connected();
    assert!(link.connect_at(1_000).is_ok());

    // ... so the v6 candidate is dropped
    assert_eq!(seen.borrow().addresses[0].len(), 1);
    assert!(seen.borrow().addresses[0][0].is_v4);
}

#[test]
fn a_proxy_host_that_does_not_resolve_fails_the_connect() {
    let (mut link, seen) = link();
    seen.borrow_mut().proxy = socks5("proxy.example", "");
    link.make_sure_connected();

    // no dns at all: nothing resolves
    assert_eq!(link.connect_at(1_000), Err(ConnectFail::NoProxyIp));
    assert_eq!(link.connect_status(), LongLinkStatus::ConnectFailed);
    assert!(seen.borrow().proxies.is_empty());

    // ... and with dns for it, the proxy is where the connect goes
    seen.borrow_mut().ips = vec!["10.0.0.3".to_string()];
    link.end_run();
    link.make_sure_connected();
    assert!(link.connect_at(2_000).is_ok());
    assert_eq!(
        seen.borrow().proxies[0].as_ref().unwrap().ip,
        "10.0.0.3"
    );
    // the kind of the pair says proxy until the pair that won overwrites it
    assert_eq!(link.profile().ip_type, IpSourceType::Dns);
}

#[test]
fn the_status_is_said_once_and_a_connected_link_is_reported() {
    let (mut link, seen) = link();
    link.make_sure_connected();
    assert!(link.connect_at(1_000).is_ok());

    assert_eq!(
        seen.borrow().said,
        vec![
            (LongLinkStatus::Connecting, "long.example".to_string()),
            (LongLinkStatus::Connected, "long.example".to_string()),
        ]
    );
    assert_eq!(seen.borrow().reported, vec![(ErrCmdType::NoError, 0)]);

    // and saying it again says nothing
    link.set_status(LongLinkStatus::Connected);
    assert_eq!(seen.borrow().said.len(), 2);
}

#[test]
fn a_link_without_a_socket_operator_has_no_socket() {
    let (mut link, seen) = bare();
    seen.borrow_mut().items = vec![item("1.1.1.1", 80, "long.example")];
    link.make_sure_connected();
    assert_eq!(
        link.connect_at(1_000),
        Err(ConnectFail::Connect { error_code: 0 })
    );
}

#[test]
fn the_verification_is_a_noop_the_server_answers() {
    let (mut link, seen) = link();
    let noop = longlink_pack(VERSION, NOOP_CMDID, Task::NOOP_TASK_ID, &[]);
    seen.borrow_mut().answer = noop.clone();
    link.make_sure_connected();

    assert!(link.verify(SocketFd(3)));
    assert_eq!(seen.borrow().sent, vec![noop]);

    // ... and an answer that is not a package is not an answer
    seen.borrow_mut().answer.clear();
    assert!(!link.verify(SocketFd(3)));
}

#[test]
fn a_profile_of_a_link_that_finished_is_broadcast() {
    let (mut link, seen) = link();

    link.broadcast_profile();
    assert!(seen.borrow().broadcast.is_empty(), "a link that is still up");

    link.profile.disconn_time = 700;
    link.broadcast_profile();
    assert_eq!(seen.borrow().broadcast.len(), 1);
    assert_eq!(seen.borrow().broadcast[0].disconn_time, 700);
}

#[test]
fn a_link_that_came_up_starts_the_heartbeat_over() {
    let (mut link, seen) = link();
    link.set_smart_heartbeat();
    seen.borrow_mut().label = "wifi".to_string();
    seen.borrow_mut().net_type = 1;
    link.make_sure_connected();
    assert!(link.connect_at(1_000).is_ok());

    // the network is written down
    assert_eq!(seen.borrow().established, vec![("wifi".to_string(), 1)]);
}

#[test]
fn the_methods_that_take_no_reading_ask_the_clock_themselves() {
    let (mut link, _) = link();
    link.make_sure_connected();
    assert!(link.connect_at(1_000).is_ok());
    assert_eq!(link.connect_status(), LongLinkStatus::Connected);
    assert_eq!(link.profile().conn_time, link.profile().start_time);

    link.trig_noop_at(1_000);
    assert!(link.is_nooping());
}

#[test]
fn a_link_that_went_away_counts_as_a_heartbeat_that_never_answered() {
    let (mut link, seen) = link();
    link.set_smart_heartbeat();
    link.make_sure_connected();
    link.set_status(LongLinkStatus::DisConnected);

    // whatever the network did is forgotten
    assert_eq!(seen.borrow().disconnected, 1);
}

#[test]
fn an_alarm_is_a_reading_it_is_due_at() {
    let mut alarm = NoopAlarm::new();
    assert_eq!(alarm.status(), AlarmStatus::Init);
    assert_eq!(alarm.due(), None);
    assert!(!alarm.is_waiting());

    alarm.start_at(1_000, 8_000);
    assert_eq!(alarm.status(), AlarmStatus::Start);
    assert_eq!(alarm.after(), 8_000);
    assert_eq!(alarm.due(), Some(9_000));
    assert!(alarm.is_waiting());
    assert!(!alarm.is_due_at(8_999));
    assert!(!alarm.on_alarm_at(8_999));

    // a network that dozes shows itself: the reading came a minute later than
    // the interval it was started with
    assert!(alarm.is_due_at(69_000));
    assert!(alarm.on_alarm_at(69_000));
    assert_eq!(alarm.status(), AlarmStatus::OnAlarm);
    assert_eq!(alarm.elapse_at(69_000), 68_000);
    assert_eq!(alarm.due(), None);
    assert!(!alarm.is_waiting());
    // ... and it goes off once
    assert!(!alarm.on_alarm_at(70_000));

    alarm.cancel();
    assert_eq!(alarm.status(), AlarmStatus::Cancel);
    assert_eq!(alarm.due(), None);
    // what the heartbeat before this one was set to, which is what the next one
    // is judged against
    assert_eq!(alarm.after(), 8_000);
}

#[test]
fn a_task_that_went_out_is_queued_until_the_host_writes_it() {
    let (mut link, _) = connected();
    assert!(!link.has_data_to_send());

    assert!(link.send(Task::new(7, 12), b"hello"));
    assert!(link.has_data_to_send());
    let queued = link.queued();
    assert_eq!(queued.len(), 1);
    assert_eq!(queued[0].task.taskid, 7);
    assert_eq!(queued[0].pos, 0, "nothing of it has gone out");
    assert_eq!(queued[0].buffer, longlink_pack(VERSION, 12, 7, b"hello"));

    // a task that has not started going out is taken out
    assert!(link.stop(7));
    assert!(link.queued().is_empty());
    assert!(!link.stop(7));

    link.send(Task::new(8, 12), b"hello");
    link.queue[0].pos = 4;
    assert!(!link.stop(8), "one that is already going out");

    // and what the host wrote is taken out when the whole of it is out
    link.wrote(3);
    assert_eq!(link.queued()[0].pos, 7);
    let rest = link.queued()[0].buffer.len() - 7;
    link.wrote(rest);
    assert!(link.queued().is_empty());
    link.wrote(1);
    assert!(link.queued().is_empty(), "nothing is waiting");
}

#[test]
fn a_link_that_is_not_up_sends_nothing() {
    let (mut link, _) = link();
    assert!(!link.send(Task::new(7, 12), b"hello"));
    assert!(!link.send_when_no_data(12, 7, b"hello"));
    assert!(link.queued().is_empty());

    // ... and a noop only goes out when nothing else is waiting
    link.set_status(LongLinkStatus::Connected);
    assert!(link.send(Task::new(7, 12), b"hello"));
    assert!(!link.send_when_no_data(NOOP_CMDID, Task::NOOP_TASK_ID, &[]));
}

#[test]
fn the_heartbeat_goes_out_when_its_reading_comes() {
    let (mut link, seen) = connected();
    // the first heartbeat of a run goes out at once: the interval alarm is not
    // waiting yet
    assert_eq!(link.noop_interval_status(), AlarmStatus::Init);
    assert!(link.is_heartbeat_due_at(2_000));

    assert!(link.send_heartbeat_at(2_000, false, false));
    assert!(link.is_nooping());
    assert_eq!(link.last_heartbeat(), 210_000, "the shortest interval");
    assert_eq!(link.noop_due(), Some(2_000 + 210_000));
    assert_eq!(link.noop_timeout_due(), Some(2_000 + NOOP_TIMEOUT));

    // what went out is the noop
    let queued = link.queued();
    assert_eq!(queued.len(), 1);
    assert_eq!(queued[0].task.taskid, Task::NOOP_TASK_ID);
    assert_eq!(queued[0].task.cmdid, NOOP_CMDID);
    assert!(queued[0].task.send_only);

    // and a heartbeat that is waiting does not go out again
    assert!(!link.is_heartbeat_due_at(2_000 + 210_000 - 1));
    assert!(link.is_heartbeat_due_at(2_000 + 210_000));

    // the interval alarm going off is told the same way the timeout one is, and
    // what it says is which of the two it was
    assert!(link.on_noop_alarm_at(2_000 + 210_000, false));
    assert_eq!(seen.borrow().alarms, vec![false]);
}

#[test]
fn the_answer_of_the_heartbeat_is_written_on_the_profile() {
    let (mut link, seen) = connected();
    link.set_smart_heartbeat();
    assert!(link.send_heartbeat_at(1_000, false, false));
    assert_eq!(link.profile().noop_profiles.len(), 1);
    // there was no alarm before this one, so there is no interval to say
    assert_eq!(link.profile().noop_profiles[0].noop_internal, 0);
    assert_eq!(link.profile().noop_profiles[0].noop_actual_internal, 0);
    assert_eq!(link.profile().noop_profiles[0].noop_starttime, 1_000);
    assert!(
        !link.profile().noop_profiles[0].success,
        "it has not answered"
    );
    assert_eq!(seen.borrow().started, vec![1_000]);

    // the noop's answer, 500 later
    assert!(link.noop_resp_at(1_500, NOOP_CMDID, Task::NOOP_TASK_ID, &[]));
    assert!(!link.is_nooping());
    assert_eq!(link.noop_timeout_due(), None, "the alarm was cancelled");
    let noop = link.profile().noop_profiles[0];
    assert!(noop.success);
    assert_eq!(noop.noop_cost, 500);
    assert_eq!(seen.borrow().results, vec![(true, false)]);

    // ... and a package that is neither the noop nor the identify check is not
    // the answer to a heartbeat
    assert!(!link.noop_resp_at(1_600, 12, 7, &[]));
}

#[test]
fn a_heartbeat_that_is_late_is_given_the_short_timeout() {
    let (mut link, _) = connected();
    link.set_smart_heartbeat();
    assert!(link.send_heartbeat_at(1_000, false, false));
    assert_eq!(link.noop_timeout_due(), Some(1_000 + NOOP_TIMEOUT));

    // the next one, twenty minutes after the interval it was set to, which is
    // more than is allowed
    written(&mut link);
    let late = 1_000 + 210_000 + 20 * 60 * 1000;
    assert!(link.is_heartbeat_due_at(late));
    assert!(link.send_heartbeat_at(late, false, false));
    assert_eq!(link.noop_timeout_due(), Some(late + NOOP_ACTIVE_TIMEOUT));

    // and the profile says what the interval was, and what it really was
    let noop = link.profile().noop_profiles[1];
    assert_eq!(noop.noop_internal, 210_000);
    assert_eq!(noop.noop_actual_internal, late - 1_000);
}

#[test]
fn a_network_that_dozed_is_judged_from_the_second_heartbeat_on() {
    let (mut link, seen) = connected();
    link.set_smart_heartbeat();
    // the first heartbeat of a run has no interval to be late for
    assert!(link.send_heartbeat_at(1_000, true, false));
    assert!(seen.borrow().dozes.is_empty());

    // the second one is thirty past its interval
    written(&mut link);
    let late = 1_000 + 210_000 + 30_000;
    assert!(link.send_heartbeat_at(late, true, false));
    assert_eq!(seen.borrow().dozes, vec![(late, true, false)]);

    // ... and the third one makes two of them
    written(&mut link);
    let later = late + 210_000 + 30_000;
    assert!(link.send_heartbeat_at(later, true, false));
    assert_eq!(
        seen.borrow().dozes,
        vec![(late, true, false), (later, true, false)]
    );

    // without a smart heartbeat nothing is judged
    let (mut link, seen) = connected();
    assert!(link.send_heartbeat_at(1_000, false, false));
    written(&mut link);
    assert!(link.send_heartbeat_at(late, false, false));
    assert!(seen.borrow().dozes.is_empty());
}

#[test]
fn the_heartbeat_the_app_asks_for_starts_the_timeout_alarm() {
    let (mut link, seen) = connected();

    // the noop the app asked for is not the one the interval did: the interval
    // alarm is not what it is waiting on
    link.trig_noop_at(3_000);
    assert!(link.is_nooping());
    assert_eq!(link.noop_timeout_due(), Some(3_000 + NOOP_TIMEOUT));
    assert_eq!(link.noop_due(), None);

    assert!(!link.on_noop_alarm_at(3_000 + NOOP_TIMEOUT - 1, true));
    assert!(link.on_noop_alarm_at(3_000 + NOOP_TIMEOUT, true));
    assert_eq!(link.noop_timeout_status(), AlarmStatus::OnAlarm);
    assert_eq!(seen.borrow().alarms, vec![true]);

    // ... and a noop that never went out leaves no alarm waiting
    let (mut down, _) = bare();
    down.trig_noop_at(3_000);
    assert!(!down.is_nooping(), "a link that is not up");
    assert_eq!(down.noop_timeout_due(), None);
}

#[test]
fn the_identify_check_goes_out_before_the_first_noop() {
    let (mut link, seen) = connected();
    seen.borrow_mut().check = Some((b"check".to_vec(), b"hash".to_vec(), 99));

    assert!(link.send_heartbeat_at(1_000, false, false));
    let queued = link.queued();
    assert_eq!(
        queued[0].task.taskid,
        Task::LONG_LINK_IDENTIFY_CHECKER_TASK_ID
    );
    assert_eq!(queued[0].task.cmdid, 99);
    assert_eq!(
        queued[0].buffer,
        longlink_pack(
            VERSION,
            99,
            Task::LONG_LINK_IDENTIFY_CHECKER_TASK_ID,
            b"check"
        )
    );
    assert_eq!(
        link.identify().taskid(),
        Task::LONG_LINK_IDENTIFY_CHECKER_TASK_ID
    );

    // the answer the server sent back is the hash the app handed out
    assert!(link.noop_resp_at(1_100, 99, Task::LONG_LINK_IDENTIFY_CHECKER_TASK_ID, b"hash"));
    assert!(link.identify().has_checked());
    assert!(!link.is_nooping());
    assert_eq!(seen.borrow().checked, vec![(b"hash".to_vec(), true)]);
    assert_eq!(seen.borrow().reported, vec![(ErrCmdType::NoError, 0)]);

    // ... and the next heartbeat is a plain noop, because the link is checked
    // now
    written(&mut link);
    assert!(link.send_heartbeat_at(2_000, false, false));
    assert_eq!(link.queued()[0].task.taskid, Task::NOOP_TASK_ID);
}

#[test]
fn a_new_run_starts_the_heartbeat_over() {
    let (mut link, _) = connected();
    link.set_smart_heartbeat();
    assert!(link.send_heartbeat_at(1_000, false, false));
    assert_eq!(link.queued().len(), 1);
    assert_eq!(link.noop_due(), Some(1_000 + 210_000));
    link.identify
        .set_id(Task::LONG_LINK_IDENTIFY_CHECKER_TASK_ID);

    link.set_status(LongLinkStatus::ConnectFailed);
    link.end_run();
    assert_eq!(link.make_sure_connected(), MakeSure::Run { new_one: true });
    // the check and the queue start over, and so does the interval alarm, which
    // is the one the first heartbeat of a run is sent on
    assert!(link.queued().is_empty());
    assert_eq!(link.identify().taskid(), 0);
    assert_eq!(link.noop_interval_status(), AlarmStatus::Init);
    assert_eq!(link.noop_due(), None);
}

#[test]
fn a_link_with_no_interval_sends_no_more_heartbeats() {
    // an interval of `0` is no interval at all
    let (mut link, seen) = connected();
    link.set_smart_heartbeat();
    seen.borrow_mut().interval = 0;

    assert!(link.send_heartbeat_at(1_000, false, false));
    assert_eq!(link.last_heartbeat(), 0);
    assert_eq!(link.noop_due(), None, "no alarm was started");
    assert!(!link.is_heartbeat_due_at(1_000 + 600_000));
}

#[test]
fn what_is_queued_unpacks() {
    let (mut link, _) = connected();
    assert!(link.send(Task::new(9, 13), b"body"));
    assert_eq!(
        longlink_unpack(VERSION, &link.queued()[0].buffer),
        Unpacked::Package {
            cmdid: 13,
            seq: 9,
            package_len: link.queued()[0].buffer.len(),
            body: b"body".to_vec(),
        }
    );
}
