//! A link and the things that keep it up.
use mars_stn::config::MIN_HEART_INTERVAL;
use mars_stn::ip_port::{IpPortItem, IpSourceType};
use mars_stn::long_link::{
    Address, DisconnectInternalCode, LinkHost, LocalIpStack, LongLink, SocketFd, SocketProfile,
};
use mars_stn::longlink::SIGNALKEEP_CMDID;
use mars_stn::longlink_connect_monitor::LongLinkStatus;
use mars_stn::longlink_identify_checker::IdentifyBuffer;
use mars_stn::longlink_metadata::LongLinkMetaData;
use mars_stn::net_source::LonglinkConfig;
use mars_stn::netsource_timercheck::{TimerCheckHost, TIME_CHECK_PERIOD};
use mars_stn::task::Task;
use mars_stn::task_profile::{ConnectProfile, ErrCmdType, ProxyInfo};

/// The two readings the tests use: the link asked for its ips at `50_000`, and
/// the monitor is asked at `60_000`, ten seconds later.
const DNS_AT: u64 = 50 * 1000;
const NOW: u64 = 60 * 1000;

/// A host that has no sockets.
#[derive(Default)]
struct Host {
    items: Vec<IpPortItem>,
}

impl LinkHost for Host {
    fn random(&mut self, _bound: usize) -> usize {
        0
    }

    fn items(&mut self, _config: &LonglinkConfig) -> Vec<IpPortItem> {
        self.items.clone()
    }

    fn address(&mut self, ip: &str, port: u16, _stack: Option<LocalIpStack>) -> Address {
        Address {
            ip: ip.to_string(),
            port,
            is_v4: true,
            is_v6: false,
        }
    }

    fn proxy(&mut self) -> ProxyInfo {
        ProxyInfo::none()
    }

    fn debug_ip(&mut self) -> String {
        String::new()
    }

    fn minorlong_debug_ip(&mut self) -> String {
        String::new()
    }

    fn dns(&mut self, _host: &str) -> Vec<String> {
        Vec::new()
    }

    fn local_ip_stack(&mut self) -> LocalIpStack {
        LocalIpStack::Nothing
    }

    fn net_label(&mut self) -> String {
        String::new()
    }

    fn net_type(&mut self) -> i32 {
        0
    }

    fn connect(&mut self, _addresses: &Vec<Address>, _proxy: &ProxyInfo) -> SocketFd {
        SocketFd(-1)
    }

    fn connected(&mut self) -> SocketProfile {
        SocketProfile { rtt: 0, index: 0, error_code: 0, total_cost: 0, is_0rtt: false }
    }

    fn local_address(&mut self, _socket: SocketFd) -> Option<Address> {
        None
    }

    fn write(&mut self, _socket: SocketFd, _buffer: &[u8], _timeout_ms: i32) -> Result<usize, i32> {
        Err(0)
    }

    fn read(&mut self, _socket: SocketFd, _max_size: usize, _timeout_ms: i32) -> Result<Vec<u8>, i32> {
        Err(0)
    }

    fn network_report(&mut self, _err_type: ErrCmdType, _err_code: i32, _ip: &str, _port: u16) {}

    fn response_error(
        &mut self,
        _name: &str,
        _err_type: ErrCmdType,
        _err_code: i32,
        _profile: &ConnectProfile,
    ) {}

    fn connection(&mut self, _status: LongLinkStatus, _name: &str) {}

    fn link_status(&mut self, _profile: &ConnectProfile) {}

    fn noop_alarm_received(&mut self, _noop_timeout: bool) {}

    fn heartbeat_interval(&mut self, _is_active: bool) -> u32 {
        MIN_HEART_INTERVAL
    }

    fn heartbeat_judge_doze(&mut self, _now: u64, _is_mobile: bool, _is_active: bool) {}

    fn heartbeat_started(&mut self, _now: u64) {}

    fn heartbeat_result(&mut self, _success: bool, _fail_of_timeout: bool, _seconds: i64) {}

    fn heartbeat_established(&mut self, _net_detail: &str, _net_type: i32) {}

    fn heartbeat_disconnected(&mut self) {}

    fn identify_buffer(&mut self, _channel_id: &str, _cmdid: u32) -> IdentifyBuffer {
        IdentifyBuffer::next(Vec::new())
    }

    fn identify_response(&mut self, _channel_id: &str, _response: &[u8], _hash: &[u8]) -> bool {
        false
    }
}

/// The host of the timer check.
#[derive(Default)]
struct Checks {
    ips: Vec<String>,
    ports: Vec<u16>,
    reachable: bool,
}

impl TimerCheckHost for Checks {
    fn dns(&mut self, _host: &str) -> Vec<String> {
        self.ips.clone()
    }

    fn longlink_ports(&mut self) -> Vec<u16> {
        self.ports.clone()
    }

    fn random(&mut self, _bound: usize) -> usize {
        0
    }

    fn speed_test(&mut self, _ip: &str, _port: u16) -> bool {
        self.reachable
    }

    fn new_dns(&mut self, _host: &str) -> Vec<String> {
        Vec::new()
    }

    fn remove_long_ban_ip(&mut self, _ip: &str) {}

    fn on_time_check_suc(&mut self) {}
}

type Meta = LongLinkMetaData<Host, Checks>;

fn config() -> LonglinkConfig {
    LonglinkConfig::new("long.weixin.qq.com")
}

fn made_from(config: LonglinkConfig) -> Meta {
    let link = LongLink::new(Host::default(), config.clone(), 0);
    LongLinkMetaData::new(config, link, Checks::default(), 0)
}

fn meta() -> Meta {
    made_from(config())
}

/// A run in flight, which is what a disconnect needs to write a scene.
fn start_a_run(meta: &mut Meta) {
    let _ = meta.channel_mut().make_sure_connected();
}

/// The link, connected onto `ip` as a pair of the given kind.
fn connect_on(meta: &mut Meta, ip: &str, source: IpSourceType) {
    let link = meta.channel_mut();
    link.host.items = vec![IpPortItem {
        ip: ip.to_string(),
        port: 80,
        source_type: source,
        host: "long.weixin.qq.com".to_string(),
        transport_protocol: Task::TRANSPORT_PROTOCOL_TCP,
        from_source: 0,
    }];
    // no sockets, so the connect fails, but the pair it was given is the one
    // the profile names
    let _ = link.connect_at(DNS_AT);
    assert_eq!(link.profile().ip_type, source, "the link is on the pair");
}

/// A pair the check can find.
fn offer_a_pair(meta: &mut Meta) {
    let checks = &mut meta.checker().checks;
    checks.ips = vec!["2.2.2.2".to_string()];
    checks.ports = vec![80];
    checks.reachable = true;
    meta.checker().start_check_at(0);
}

#[test]
fn a_link_that_is_not_up_is_not_one_the_metadata_calls_connected() {
    let meta = meta();
    assert!(!meta.is_connected());
    assert_eq!(meta.config().name, "long.weixin.qq.com");
    assert!(!meta.config().is_keep_alive);
}

#[test]
fn the_monitor_is_made_the_way_the_config_asks() {
    let mut config = config();
    config.is_keep_alive = true;
    let mut meta = made_from(config);
    assert!(meta.monitor().is_keep_alive());
    assert!(meta.config().is_keep_alive);
}

#[test]
fn a_monitor_that_waited_long_enough_makes_the_link_it_shares_connected() {
    let mut meta = meta();
    assert!(!meta.channel().is_running(), "no run was started yet");

    assert!(!meta.monitor().make_sure_connected_at(NOW));
    assert!(
        meta.channel().is_running(),
        "the monitor asked the link it shares for a run"
    );
}

#[test]
fn a_link_that_asked_for_its_ips_a_moment_ago_is_not_made_again_yet() {
    let mut meta = meta();
    start_a_run(&mut meta);
    connect_on(&mut meta, "1.1.1.1", IpSourceType::Dns);

    assert!(!meta.monitor().make_sure_connected_at(NOW));
    // ten seconds is under the threshold, so the ladder went *up* and the
    // monitor is waiting out a rung instead of connecting
    assert!(meta.monitor().current_interval_index() > 0);
}

#[test]
fn a_monitor_reads_the_status_of_the_link_off_the_link_itself() {
    let mut meta = meta();
    assert!(!meta.monitor().make_sure_connected_at(NOW));

    meta.channel_mut().set_status(LongLinkStatus::Connected);
    assert!(
        meta.monitor().make_sure_connected_at(NOW),
        "the link is up, which is what the monitor asked it"
    );
    assert!(meta.is_connected());
}

#[test]
fn a_network_change_takes_the_link_the_monitor_shares_down() {
    let mut meta = meta();
    start_a_run(&mut meta);

    let _ = meta.monitor().network_change_at(NOW);
    assert_eq!(
        meta.channel().disconnect_code(),
        DisconnectInternalCode::NetworkChange,
        "the monitor took the link down on the change"
    );
}

#[test]
fn a_timer_check_that_succeeded_takes_a_backup_link_down() {
    let mut meta = meta();
    start_a_run(&mut meta);
    connect_on(&mut meta, "1.1.1.1", IpSourceType::Backup);
    offer_a_pair(&mut meta);

    assert_eq!(meta.check_at(TIME_CHECK_PERIOD), Some(true));
    assert_eq!(
        meta.channel().disconnect_code(),
        DisconnectInternalCode::TimeCheckSucc,
        "the link was taken down for the pair the check found"
    );
}

#[test]
fn a_timer_check_leaves_a_link_that_is_not_on_a_backup_pair_up() {
    let mut meta = meta();
    start_a_run(&mut meta);
    connect_on(&mut meta, "1.1.1.1", IpSourceType::Dns);
    offer_a_pair(&mut meta);

    assert_eq!(
        meta.check_at(TIME_CHECK_PERIOD),
        None,
        "a check of a link that is where dns wanted it finds nothing"
    );
    assert_eq!(
        meta.channel().disconnect_code(),
        DisconnectInternalCode::NotAsked,
        "and it leaves the link alone"
    );
}

#[test]
fn the_keeper_sends_on_the_link_it_shares_with_the_metadata() {
    let mut meta = meta();
    meta.channel_mut().set_status(LongLinkStatus::Connected);

    assert!(meta.send_signal(SIGNALKEEP_CMDID), "one buffer went out");
    // and it went out on the link, which queued it
    assert!(meta.channel().has_data_to_send());
    assert!(
        !meta.send_signal(SIGNALKEEP_CMDID),
        "nothing more goes out while something waits"
    );
}

#[test]
fn the_metadata_is_the_link_and_the_config_it_was_made_with() {
    let meta = meta();
    assert_eq!(meta.config().name, "long.weixin.qq.com");
    assert_eq!(meta.channel().config().name, meta.config().name);
}

#[test]
fn the_task_the_keeper_sends_with_is_the_one_mars_keeps_for_it() {
    assert_eq!(Task::SIGNALLING_KEEPER_TASK_ID, 0xffff_fffd);
}
