//! Hosts nobody has wired: what a piece is answered where an app installed
//! nothing.
use vstd::prelude::*;
use crate::config::MIN_HEART_INTERVAL;
use crate::core_pieces::{LinkParts, OutsideHost};
use crate::dynamic_timeout::{DynamicTimeoutStatus, NetworkKind};
use crate::ip_port::{pair_views, IpPortItem};
use crate::long_link::{
    bytes_read, Address, DisconnectInternalCode, LinkHost, LinkTold, LocalIpStack, LongLink,
    SocketFd, SocketProfile,
};
use crate::longlink::LongLinkEncoder;
use crate::longlink_connect_monitor::LongLinkStatus;
use crate::longlink_identify_checker::{IdentifyBuffer, IdentifyMode};
use crate::longlink_speed_test::{
    item_views, made_view, select_view, IoTold, RaceHost, RaceTold, SocketEvent, SocketIo,
    SpeedTestItem, Stop,
};
use crate::net_check_logic::{by_name, CheckHost, CheckTold, NetCheckHost};
use crate::net_core::{profile_view, CoreTold, NetStatus};
use crate::net_route::{CallFrom, RouteHost, RouteTold, Routing, NET_TYPE_WIFI};
use crate::net_source::{ExtraInfo, LonglinkConfig, SourceHost, SourceTold};
use crate::netsource_timercheck::{TimerCheckHost, TimerTold};
use crate::proxy_test::{
    address_views, read_view, text_view, Heard, ProxyHost, ProxyTold, TestAddress,
};
use crate::queue_host::{kept, request, QueueHost, Told};
use crate::task::{texts, Task};
use crate::task_profile::{
    ConnectProfile, ConnectView, ErrCmdType, PrepareProfile, ProxyInfo, ProxyView, RunId,
    TaskFailHandleType,
};

verus! {

/// A host nobody has wired. It does nothing, and answers what an app that set
/// no hook stands for.
pub struct Unwired<W> {
    /// Everything it was told and asked so far.
    pub heard: Ghost<Seq<W>>,
}

impl<W> Unwired<W> {
    /// A host that has heard nothing yet.
    pub fn new() -> (host: Self)
        ensures
            host.heard@ == Seq::<W>::empty(),
    {
        Unwired { heard: Ghost(Seq::empty()) }
    }

    /// One more thing was told or asked.
    fn hear(&mut self, Ghost(word): Ghost<W>)
        ensures
            final(self).heard@ == old(self).heard@.push(word),
    {
        proof {
            self.heard@ = self.heard@.push(word);
        }
    }
}

impl LinkHost for Unwired<LinkTold> {
    open spec fn heard(&self) -> Seq<LinkTold> {
        self.heard@
    }

    fn items(&mut self, config: &LonglinkConfig) -> (answer: Vec<IpPortItem>)
        ensures
            answer@ == Seq::<IpPortItem>::empty(),
    {
        let answer: Vec<IpPortItem> = Vec::new();
        self.hear(Ghost(LinkTold::Items { answer: answer@ }));
        answer
    }

    fn proxy(&mut self) -> (answer: ProxyInfo)
        ensures
            answer@ == ProxyView::none(),
    {
        let answer: ProxyInfo = ProxyInfo::none();
        self.hear(Ghost(LinkTold::Proxy { answer: answer@ }));
        answer
    }

    fn debug_ip(&mut self) -> (answer: String)
        ensures
            answer@ == Seq::<char>::empty(),
    {
        let answer: String = String::new();
        self.hear(Ghost(LinkTold::DebugIp { answer: answer@ }));
        answer
    }

    fn minorlong_debug_ip(&mut self) -> (answer: String)
        ensures
            answer@ == Seq::<char>::empty(),
    {
        let answer: String = String::new();
        self.hear(Ghost(LinkTold::MinorDebugIp { answer: answer@ }));
        answer
    }

    fn dns(&mut self, host: &str) -> (answer: Vec<String>)
        ensures
            answer@ == Seq::<String>::empty(),
    {
        let answer: Vec<String> = Vec::new();
        self.hear(Ghost(LinkTold::Dns { host: host@, answer: answer@ }));
        answer
    }

    fn local_ip_stack(&mut self) -> (answer: LocalIpStack)
        ensures
            answer == LocalIpStack::Nothing,
    {
        let answer: LocalIpStack = LocalIpStack::Nothing;
        self.hear(Ghost(LinkTold::LocalStack { answer }));
        answer
    }

    fn address(&mut self, ip: &str, port: u16, stack: Option<LocalIpStack>) -> (answer: Address)
        ensures
            answer.ip@ == ip@,
            answer.port == port,
            !answer.is_v4,
            !answer.is_v6,
    {
        let answer: Address = Address { ip: ip.to_owned(), port, is_v4: false, is_v6: false };
        self.hear(Ghost(LinkTold::AddressOf { ip: ip@, port, stack, answer }));
        answer
    }

    fn net_label(&mut self) -> (answer: String)
        ensures
            answer@ == Seq::<char>::empty(),
    {
        let answer: String = String::new();
        self.hear(Ghost(LinkTold::NetLabel { answer: answer@ }));
        answer
    }

    fn net_type(&mut self) -> (answer: i32)
        ensures
            answer == 0,
    {
        let answer: i32 = 0;
        self.hear(Ghost(LinkTold::NetType { answer }));
        answer
    }

    fn connect(&mut self, addresses: &Vec<Address>, proxy: &ProxyInfo) -> (answer: SocketFd)
        ensures
            answer.0 == -1,
    {
        let answer: SocketFd = SocketFd(-1);
        self.hear(Ghost(LinkTold::Connect { addresses: addresses@, proxy: proxy@, answer }));
        answer
    }

    fn connected(&mut self) -> (answer: SocketProfile)
        ensures
            answer == (SocketProfile {
                rtt: 0,
                index: 0,
                error_code: 0,
                total_cost: 0,
                is_0rtt: false,
            }),
    {
        let answer: SocketProfile = SocketProfile {
            rtt: 0,
            index: 0,
            error_code: 0,
            total_cost: 0,
            is_0rtt: false,
        };
        self.hear(Ghost(LinkTold::Connected { answer }));
        answer
    }

    fn local_address(&mut self, socket: SocketFd) -> (answer: Option<Address>)
        ensures
            answer is None,
    {
        let answer: Option<Address> = None;
        self.hear(Ghost(LinkTold::LocalAddress { socket, answer }));
        answer
    }

    fn write(&mut self, socket: SocketFd, buffer: &[u8], timeout_ms: i32) -> (answer: Result<usize, i32>)
        ensures
            answer matches Err(code) && code == 0,
    {
        let answer: Result<usize, i32> = Err(0);
        self.hear(Ghost(LinkTold::Write { socket, buffer: buffer@, timeout_ms, answer }));
        answer
    }

    fn read(&mut self, socket: SocketFd, max_size: usize, timeout_ms: i32) -> (answer: Result<Vec<u8>, i32>)
        ensures
            answer matches Err(code) && code == 0,
    {
        let answer: Result<Vec<u8>, i32> = Err(0);
        self.hear(
            Ghost(LinkTold::Read { socket, max_size, timeout_ms, answer: bytes_read(answer) }),
        );
        answer
    }

    fn network_report(&mut self, err_type: ErrCmdType, err_code: i32, ip: &str, port: u16)
    {
        self.hear(Ghost(LinkTold::NetworkReport { err_type, err_code, ip: ip@, port }));
    }

    fn response_error(
        &mut self,
        name: &str,
        err_type: ErrCmdType,
        err_code: i32,
        profile: &ConnectProfile,
    )
    {
        self.hear(
            Ghost(LinkTold::ResponseError { name: name@, err_type, err_code, profile: profile@ }),
        );
    }

    fn connection(&mut self, status: LongLinkStatus, name: &str)
    {
        self.hear(Ghost(LinkTold::Connection { status, name: name@ }));
    }

    fn link_status(&mut self, profile: &ConnectProfile)
    {
        self.hear(Ghost(LinkTold::LinkStatus { profile: profile@ }));
    }

    fn noop_alarm_received(&mut self, noop_timeout: bool)
    {
        self.hear(Ghost(LinkTold::NoopAlarmReceived { noop_timeout }));
    }

    fn heartbeat_interval(&mut self, is_active: bool) -> (answer: u32)
        ensures
            answer == MIN_HEART_INTERVAL,
    {
        let answer: u32 = MIN_HEART_INTERVAL;
        self.hear(Ghost(LinkTold::HeartbeatInterval { is_active, answer }));
        answer
    }

    fn heartbeat_judge_doze(&mut self, now: u64, is_mobile: bool, is_active: bool)
    {
        self.hear(Ghost(LinkTold::HeartbeatJudgeDoze { now, is_mobile, is_active }));
    }

    fn heartbeat_started(&mut self, now: u64)
    {
        self.hear(Ghost(LinkTold::HeartbeatStarted { now }));
    }

    fn heartbeat_result(&mut self, success: bool, fail_of_timeout: bool, seconds: i64)
    {
        self.hear(Ghost(LinkTold::HeartbeatResult { success, fail_of_timeout, seconds }));
    }

    fn heartbeat_established(&mut self, net_detail: &str, net_type: i32)
    {
        self.hear(Ghost(LinkTold::HeartbeatEstablished { net_detail: net_detail@, net_type }));
    }

    fn heartbeat_disconnected(&mut self)
    {
        self.hear(Ghost(LinkTold::HeartbeatDisconnected));
    }

    fn random(&mut self, bound: usize) -> (answer: usize)
        ensures
            answer == 0,
    {
        let answer: usize = 0;
        self.hear(Ghost(LinkTold::Random { bound, answer }));
        answer
    }

    fn identify_buffer(&mut self, channel_id: &str, cmdid: u32) -> (answer: IdentifyBuffer)
        ensures
            answer.mode == IdentifyMode::CheckNext,
            answer.buffer@ == Seq::<u8>::empty(),
            answer.hash@ == Seq::<u8>::empty(),
            answer.cmdid == 0,
    {
        let answer: IdentifyBuffer = IdentifyBuffer::next(Vec::new());
        self.hear(
            Ghost(
                LinkTold::IdentifyAsked {
                    channel_id: channel_id@,
                    asked: cmdid,
                    mode: answer.mode,
                    buffer: answer.buffer@,
                    hash: answer.hash@,
                    cmdid: answer.cmdid,
                },
            ),
        );
        answer
    }

    fn identify_response(&mut self, channel_id: &str, response: &[u8], hash: &[u8]) -> (answer: bool)
        ensures
            !answer,
    {
        let answer: bool = false;
        self.hear(
            Ghost(
                LinkTold::IdentifyJudged {
                    channel_id: channel_id@,
                    response: response@,
                    hash: hash@,
                    answer,
                },
            ),
        );
        answer
    }
}

impl QueueHost for Unwired<Told> {
    open spec fn heard(&self) -> Seq<Told> {
        self.heard@
    }

    fn ended(
        &mut self,
        err_type: ErrCmdType,
        err_code: i32,
        handle: TaskFailHandleType,
        task: &Task,
        cost: u32,
        profile: &ConnectProfile,
    )
    {
        self.hear(
            Ghost(Told::Ended { err_type, err_code, handle, task: *task, cost, profile: profile@ }),
        );
    }

    fn network_err(&mut self, name: &str, err_type: ErrCmdType, err_code: i32, ip: &str, port: u16)
    {
        self.hear(Ghost(Told::NetworkErr { name: name@, err_type, err_code, ip: ip@, port }));
    }

    fn retry_all_tasks(
        &mut self,
        err_type: ErrCmdType,
        err_code: i32,
        handle: TaskFailHandleType,
        src_taskid: u32,
        user_id: &str,
    )
    {
        self.hear(
            Ghost(
                Told::RetryAllTasks {
                    err_type,
                    err_code,
                    handle,
                    src_taskid,
                    user_id: user_id@,
                },
            ),
        );
    }

    fn push(&mut self, name: &str, cmdid: u32, taskid: u32, body: &[u8])
    {
        self.hear(Ghost(Told::Push { name: name@, cmdid, taskid, body: body@ }));
    }

    fn stop(&mut self, name: &str, taskid: u32)
    {
        self.hear(Ghost(Told::Stop { name: name@, taskid }));
    }

    fn disconnect(&mut self, name: &str, code: DisconnectInternalCode)
    {
        self.hear(Ghost(Told::Disconnect { name: name@, code }));
    }

    fn reset_channel(&mut self, name: &str)
    {
        self.hear(Ghost(Told::ResetChannel { name: name@ }));
    }

    fn keep_answer(&mut self, now: u64, cgi: &str, body: &[u8])
    {
        self.hear(Ghost(Told::KeepAnswer { now, cgi: cgi@, body: body@ }));
    }

    fn kept_answer(&mut self, now: u64, cgi: &str) -> (answer: Option<Vec<u8>>)
        ensures
            answer is None,
    {
        let answer: Option<Vec<u8>> = None;
        self.hear(Ghost(Told::KeptAnswer { now, cgi: cgi@, answer: kept(answer) }));
        answer
    }

    fn should_keep(&mut self, err_code: i32) -> (answer: bool)
        ensures
            !answer,
    {
        let answer: bool = false;
        self.hear(Ghost(Told::ShouldKeep { err_code, answer }));
        answer
    }

    fn network(&mut self) -> (answer: NetworkKind)
        ensures
            answer == NetworkKind::Wifi,
    {
        let answer: NetworkKind = NetworkKind::Wifi;
        self.hear(Ghost(Told::Network { answer }));
        answer
    }

    fn channel_profile(&mut self, name: &str) -> (answer: ConnectProfile)
        ensures
            answer@ == ConnectView::blank(),
    {
        let answer: ConnectProfile = ConnectProfile::new();
        self.hear(Ghost(Told::ChannelProfile { name: name@, answer: answer@ }));
        answer
    }

    fn task_timeout(&mut self, task: &Task) -> (answer: u64)
        ensures
            answer == 0,
    {
        let answer: u64 = 0;
        self.hear(Ghost(Told::TaskTimeout { task: *task, answer }));
        answer
    }

    fn first_pkg_timeout(
        &mut self,
        server_cost: i64,
        send_len: usize,
        sent_count: i32,
        status: DynamicTimeoutStatus,
        mobile: bool,
    ) -> (answer: u64)
        ensures
            answer == 0,
    {
        let answer: u64 = 0;
        self.hear(
            Ghost(
                Told::FirstPkgTimeout {
                    server_cost,
                    send_len,
                    sent_count,
                    status,
                    mobile,
                    answer,
                },
            ),
        );
        answer
    }

    fn read_write_timeout(&mut self, first_pkg: u64, mobile: bool) -> (answer: u64)
        ensures
            answer == 0,
    {
        let answer: u64 = 0;
        self.hear(Ghost(Told::ReadWriteTimeout { first_pkg, mobile, answer }));
        answer
    }

    fn authed(&mut self, host: &str, user_id: &str) -> (answer: bool)
        ensures
            answer,
    {
        let answer: bool = true;
        self.hear(Ghost(Told::Authed { host: host@, user_id: user_id@, answer }));
        answer
    }

    fn sequence_id(&mut self) -> (answer: u16)
        ensures
            answer == 0,
    {
        let answer: u16 = 0;
        self.hear(Ghost(Told::SequenceId { answer }));
        answer
    }

    fn encode(&mut self, task: &Task) -> (answer: Result<Vec<u8>, i32>)
        ensures
            request(answer) == Ok::<Seq<u8>, i32>(Seq::empty()),
    {
        let answer: Result<Vec<u8>, i32> = Ok(Vec::new());
        self.hear(Ghost(Told::Encode { task: *task, answer: request(answer) }));
        answer
    }

    fn decode(&mut self, task: &Task, body: &[u8]) -> (answer: (i32, TaskFailHandleType))
        ensures
            answer == (0i32, TaskFailHandleType::Normal),
    {
        let answer: (i32, TaskFailHandleType) = (0, TaskFailHandleType::Normal);
        self.hear(Ghost(Told::Decode { task: *task, body: body@, answer }));
        answer
    }

    fn allowed(&mut self, task: &Task, body: &[u8]) -> (answer: bool)
        ensures
            answer,
    {
        let answer: bool = true;
        self.hear(Ghost(Told::Allowed { task: *task, body: body@, answer }));
        answer
    }

    fn make_sure_connected(&mut self, name: &str) -> (answer: bool)
        ensures
            answer,
    {
        let answer: bool = true;
        self.hear(Ghost(Told::MakeSureConnected { name: name@, answer }));
        answer
    }

    fn send(&mut self, name: &str, task: &Task, body: &[u8]) -> (answer: Option<RunId>)
        ensures
            answer is None,
    {
        let answer: Option<RunId> = None;
        self.hear(Ghost(Told::Send { name: name@, task: *task, body: body@, answer }));
        answer
    }

    fn network_change(&mut self, name: &str) -> (answer: bool)
        ensures
            answer,
    {
        let answer: bool = true;
        self.hear(Ghost(Told::NetworkChange { name: name@, answer }));
        answer
    }
}

impl RouteHost for Unwired<RouteTold> {
    open spec fn heard(&self) -> Seq<RouteTold> {
        self.heard@
    }

    fn tick(&mut self) -> (answer: u64)
        ensures
            answer == 0,
    {
        let answer: u64 = 0;
        self.hear(Ghost(RouteTold::Tick { answer }));
        answer
    }

    fn task_callback(
        &mut self,
        from: CallFrom,
        err_type: ErrCmdType,
        err_code: i32,
        handle: TaskFailHandleType,
        task: &Task,
    ) -> (answer: i32)
        ensures
            answer == 1,
    {
        let answer: i32 = 1;
        self.hear(
            Ghost(RouteTold::Callback { from, err_type, err_code, handle, task: *task, answer }),
        );
        answer
    }

    fn on_task_end(
        &mut self,
        taskid: u32,
        user_id: &str,
        err_type: ErrCmdType,
        err_code: i32,
        profile: &ConnectProfile,
    ) -> (answer: i32)
        ensures
            answer == 0,
    {
        let answer: i32 = 0;
        self.hear(
            Ghost(
                RouteTold::TaskEnd {
                    taskid,
                    user_id: user_id@,
                    err_type,
                    err_code,
                    profile: profile@,
                    answer,
                },
            ),
        );
        answer
    }

    fn save_zombie(&mut self, now: u64, task: &Task, cost: u32) -> (answer: bool)
        ensures
            !answer,
    {
        let answer: bool = false;
        self.hear(Ghost(RouteTold::Saved { now, task: *task, cost, answer }));
        answer
    }

    fn push_preprocess(&mut self, cmdid: u32, body: &[u8])
    {
        self.hear(Ghost(RouteTold::PushPreprocess { cmdid, body: body@ }));
    }

    fn on_push(&mut self, name: &str, cmdid: u32, taskid: u32, body: &[u8])
    {
        self.hear(Ghost(RouteTold::Push { name: name@, cmdid, taskid, body: body@ }));
    }

    fn net_info(&mut self) -> (answer: i32)
        ensures
            answer == NET_TYPE_WIFI,
    {
        let answer: i32 = NET_TYPE_WIFI;
        self.hear(Ghost(RouteTold::NetInfo { answer }));
        answer
    }
}

impl NetCheckHost for Unwired<CheckTold> {
    open spec fn heard(&self) -> Seq<CheckTold> {
        self.heard@
    }

    fn long_link_hosts(&mut self) -> (answer: Vec<String>)
        ensures
            answer@ == Seq::<String>::empty(),
    {
        let answer: Vec<String> = Vec::new();
        self.hear(Ghost(CheckTold::LongHosts { answer: answer@ }));
        answer
    }

    fn long_link_ports(&mut self) -> (answer: Vec<u16>)
        ensures
            answer@ == Seq::<u16>::empty(),
    {
        let answer: Vec<u16> = Vec::new();
        self.hear(Ghost(CheckTold::LongPorts { answer: answer@ }));
        answer
    }

    fn short_link_port(&mut self) -> (answer: u16)
        ensures
            answer == 0,
    {
        let answer: u16 = 0;
        self.hear(Ghost(CheckTold::ShortPort { answer }));
        answer
    }

    fn request_short_link_hosts(&mut self) -> (answer: Vec<String>)
        ensures
            answer@ == Seq::<String>::empty(),
    {
        let answer: Vec<String> = Vec::new();
        self.hear(Ghost(CheckTold::ShortHosts { answer: answer@ }));
        answer
    }

    fn new_dns(&mut self, host: &str) -> (answer: Vec<String>)
        ensures
            answer@ == Seq::<String>::empty(),
    {
        let answer: Vec<String> = Vec::new();
        self.hear(Ghost(CheckTold::NewDns { host: host@, answer: answer@ }));
        answer
    }

    fn dns(&mut self, host: &str) -> (answer: Vec<String>)
        ensures
            answer@ == Seq::<String>::empty(),
    {
        let answer: Vec<String> = Vec::new();
        self.hear(Ghost(CheckTold::Dns { host: host@, answer: answer@ }));
        answer
    }

    fn start_active_check(
        &mut self,
        longlink: &Vec<CheckHost>,
        shortlink: &Vec<CheckHost>,
        mode: i32,
    )
    {
        self.hear(
            Ghost(
                CheckTold::Started {
                    longlink: by_name(longlink@),
                    shortlink: by_name(shortlink@),
                    mode,
                },
            ),
        );
    }

    fn cancel_active_check(&mut self)
    {
        self.hear(Ghost(CheckTold::Cancelled));
    }
}

impl SourceHost for Unwired<SourceTold> {
    open spec fn heard(&self) -> Seq<SourceTold> {
        self.heard@
    }

    fn new_dns(&mut self, host: &str, is_longlink: bool, extra: &ExtraInfo) -> (answer: Vec<String>)
        ensures
            answer@ == Seq::<String>::empty(),
    {
        let answer: Vec<String> = Vec::new();
        self.hear(
            Ghost(
                SourceTold::NewDns {
                    host: host@,
                    is_longlink,
                    extra: extra@,
                    answer: texts(answer@),
                },
            ),
        );
        answer
    }

    fn dns(&mut self, host: &str) -> (answer: Vec<String>)
        ensures
            answer@ == Seq::<String>::empty(),
    {
        let answer: Vec<String> = Vec::new();
        self.hear(Ghost(SourceTold::Dns { host: host@, answer: texts(answer@) }));
        answer
    }

    fn random(&mut self, bound: usize) -> (answer: usize)
        ensures
            answer == 0,
    {
        let answer: usize = 0;
        self.hear(Ghost(SourceTold::Random { bound: bound as int, answer }));
        answer
    }

    fn sort_and_filter(
        &mut self,
        now: u64,
        items: Vec<IpPortItem>,
        need: i32,
    ) -> (answer: Vec<IpPortItem>)
        ensures
            answer == items,
    {
        let ghost asked = pair_views(items@);
        let answer = items;
        self.hear(
            Ghost(
                SourceTold::Sort {
                    now,
                    items: asked,
                    need: need as int,
                    answer: pair_views(answer@),
                },
            ),
        );
        answer
    }

    fn update(&mut self, now: u64, now_secs: u64, ip: &str, port: u16, is_success: bool)
    {
        self.hear(Ghost(SourceTold::Update { now, now_secs, ip: ip@, port, is_success }));
    }

    fn remove_banned_list(&mut self, ip: &str)
    {
        self.hear(Ghost(SourceTold::BanRemoved { ip: ip@ }));
    }

    fn add_server_ban(&mut self, now: u64, ip: &str)
    {
        self.hear(Ghost(SourceTold::ServerBan { now, ip: ip@ }));
    }

    fn init_history_to_banned_list(&mut self)
    {
        self.hear(Ghost(SourceTold::HistoryInit));
    }
}

impl TimerCheckHost for Unwired<TimerTold> {
    open spec fn heard(&self) -> Seq<TimerTold> {
        self.heard@
    }

    fn new_dns(&mut self, host: &str) -> (answer: Vec<String>)
        ensures
            answer@ == Seq::<String>::empty(),
    {
        let answer: Vec<String> = Vec::new();
        self.hear(Ghost(TimerTold::NewDns { host: host@, answer: answer@ }));
        answer
    }

    fn dns(&mut self, host: &str) -> (answer: Vec<String>)
        ensures
            answer@ == Seq::<String>::empty(),
    {
        let answer: Vec<String> = Vec::new();
        self.hear(Ghost(TimerTold::Dns { host: host@, answer: answer@ }));
        answer
    }

    fn longlink_ports(&mut self) -> (answer: Vec<u16>)
        ensures
            answer@ == Seq::<u16>::empty(),
    {
        let answer: Vec<u16> = Vec::new();
        self.hear(Ghost(TimerTold::Ports { answer: answer@ }));
        answer
    }

    fn random(&mut self, bound: usize) -> (answer: usize)
        ensures
            answer == 0,
    {
        let answer: usize = 0;
        self.hear(Ghost(TimerTold::Random { bound: bound as int, answer }));
        answer
    }

    fn speed_test(&mut self, ip: &str, port: u16) -> (answer: bool)
        ensures
            !answer,
    {
        let answer: bool = false;
        self.hear(Ghost(TimerTold::SpeedTest { ip: ip@, port, answer }));
        answer
    }

    fn remove_long_ban_ip(&mut self, ip: &str)
    {
        self.hear(Ghost(TimerTold::BanRemoved { ip: ip@ }));
    }

    fn on_time_check_suc(&mut self)
    {
        self.hear(Ghost(TimerTold::Suc));
    }
}

impl ProxyHost for Unwired<ProxyTold> {
    open spec fn heard(&self) -> Seq<ProxyTold> {
        self.heard@
    }

    fn dns(&mut self, host: &str) -> (answer: Vec<String>)
        ensures
            answer@ == Seq::<String>::empty(),
    {
        let answer: Vec<String> = Vec::new();
        self.hear(Ghost(ProxyTold::Dns { host: host@, answer: texts(answer@) }));
        answer
    }

    fn set_ip_connection_timeout(&mut self, v4_timeout_ms: u32, v6_timeout_ms: u32)
    {
        self.hear(Ghost(ProxyTold::Timeout { v4: v4_timeout_ms, v6: v6_timeout_ms }));
    }

    fn connect(&mut self, addresses: &Vec<TestAddress>, proxy: &ProxyInfo) -> (answer: Option<i64>)
        ensures
            answer is None,
    {
        let answer: Option<i64> = None;
        self.hear(
            Ghost(
                ProxyTold::Connect {
                    addresses: address_views(addresses@),
                    proxy: proxy@,
                    answer,
                },
            ),
        );
        answer
    }

    fn authorization(&mut self, proxy: &ProxyInfo) -> (answer: Option<String>)
        ensures
            answer is None,
    {
        let answer: Option<String> = None;
        self.hear(Ghost(ProxyTold::Authorization { proxy: proxy@, answer: text_view(answer) }));
        answer
    }

    fn send(&mut self, socket: i64, request: &str) -> (answer: Result<usize, i32>)
        ensures
            answer matches Err(code) && code == 0,
    {
        let answer: Result<usize, i32> = Err(0);
        self.hear(Ghost(ProxyTold::Send { socket, request: request@, answer }));
        answer
    }

    fn is_broken(&mut self) -> (answer: bool)
        ensures
            !answer,
    {
        let answer: bool = false;
        self.hear(Ghost(ProxyTold::Broken { answer }));
        answer
    }

    fn new_answer(&mut self)
    {
        self.hear(Ghost(ProxyTold::NewAnswer));
    }

    fn recv(&mut self, socket: i64) -> (answer: Option<Result<Vec<u8>, i32>>)
        ensures
            answer is None,
    {
        let answer: Option<Result<Vec<u8>, i32>> = None;
        self.hear(Ghost(ProxyTold::Recv { socket, answer: read_view(answer) }));
        answer
    }

    fn feed(&mut self, bytes: &Vec<u8>) -> (answer: Heard)
        ensures
            answer == (Heard { status: None, over: true }),
    {
        let answer: Heard = Heard { status: None, over: true };
        self.hear(Ghost(ProxyTold::Feed { bytes: bytes@, answer }));
        answer
    }

    fn close(&mut self, socket: i64)
    {
        self.hear(Ghost(ProxyTold::Close { socket }));
    }
}

impl SocketIo for Unwired<IoTold> {
    open spec fn id(&self) -> int {
        0
    }

    open spec fn heard(&self) -> Seq<IoTold> {
        self.heard@
    }

    fn send(&mut self, bytes: &[u8]) -> (answer: isize)
        ensures
            answer == -1,
    {
        let answer: isize = -1;
        self.hear(Ghost(IoTold::Sent { bytes: bytes@, answer }));
        answer
    }

    fn recv(&mut self) -> (answer: Vec<u8>)
        ensures
            answer@ == Seq::<u8>::empty(),
    {
        let answer: Vec<u8> = Vec::new();
        self.hear(Ghost(IoTold::Received { answer: answer@ }));
        answer
    }
}

impl RaceHost<Unwired<IoTold>> for Unwired<RaceTold> {
    open spec fn heard(&self) -> Seq<RaceTold> {
        self.heard@
    }

    fn open(&mut self, ip: &str, port: u16) -> (answer: Option<Unwired<IoTold>>)
        ensures
            answer is None,
    {
        let answer: Option<Unwired<IoTold>> = None;
        self.hear(Ghost(RaceTold::Opened { ip: ip@, port, answer: made_view(answer) }));
        answer
    }

    fn select(&mut self, items: &[SpeedTestItem]) -> (answer: Result<Vec<SocketEvent>, Stop>)
        ensures
            answer matches Err(stop) && stop == Stop::Timeout,
    {
        let answer: Result<Vec<SocketEvent>, Stop> = Err(Stop::Timeout);
        self.hear(
            Ghost(RaceTold::Selected { items: item_views(items@), answer: select_view(answer) }),
        );
        answer
    }

    fn tick(&mut self) -> (answer: u64)
        ensures
            answer == 0,
    {
        let answer: u64 = 0;
        self.hear(Ghost(RaceTold::Tick { answer }));
        answer
    }
}

/// An app that set no hook, with no short link, no zombies, no timing sync and no
/// keepers; its links are made on nothing.
impl OutsideHost<
    Unwired<RouteTold>,
    Unwired<Told>,
    Unwired<LinkTold>,
    Unwired<TimerTold>,
> for Unwired<CoreTold> {
    open spec fn heard(&self) -> Seq<CoreTold> {
        self.heard@
    }

    fn task_process(&mut self, task: Task) -> (answer: Task)
        ensures
            answer == task,
    {
        let ghost given = task;
        self.hear(Ghost(CoreTold::TaskProcess { task: given, answer: given }));
        task
    }

    fn on_task_end(
        &mut self,
        taskid: u32,
        user_id: &str,
        err_type: ErrCmdType,
        err_code: i32,
        profile: &ConnectProfile,
    ) -> (answer: i32)
        ensures
            answer == 0,
    {
        let answer: i32 = 0;
        self.hear(
            Ghost(
                CoreTold::TaskEnd {
                    taskid,
                    user_id: user_id@,
                    err_type,
                    err_code,
                    profile: profile@,
                    answer,
                },
            ),
        );
        answer
    }

    fn net_info(&mut self) -> (answer: i32)
        ensures
            answer == NET_TYPE_WIFI,
    {
        let answer: i32 = NET_TYPE_WIFI;
        self.hear(Ghost(CoreTold::NetInfo { answer }));
        answer
    }

    fn unix_secs(&mut self) -> (answer: u64)
        ensures
            answer == 0,
    {
        let answer: u64 = 0;
        self.hear(Ghost(CoreTold::UnixSecs { answer }));
        answer
    }

    fn report_connect_status(&mut self, all: NetStatus, longlink: NetStatus)
    {
        self.hear(Ghost(CoreTold::ConnectStatus { all, longlink }));
    }

    fn on_longlink_network_err(&mut self, err_type: ErrCmdType, err_code: i32, ip: &str, port: u16)
    {
        self.hear(Ghost(CoreTold::LongErr { err_type, err_code, ip: ip@, port }));
    }

    fn on_shortlink_network_err(
        &mut self,
        err_type: ErrCmdType,
        err_code: i32,
        ip: &str,
        host: &str,
        port: u16,
    )
    {
        self.hear(Ghost(CoreTold::ShortErr { err_type, err_code, ip: ip@, host: host@, port }));
    }

    fn on_longlink_status_change(&mut self, status: LongLinkStatus)
    {
        self.hear(Ghost(CoreTold::StatusChange { status }));
    }

    fn shortlink_start(
        &mut self,
        _routing: &mut Routing<Unwired<RouteTold>, Unwired<Told>>,
        now: u64,
        task: &Task,
        prepare: PrepareProfile,
    ) -> (answer: bool)
        ensures
            !answer,
    {
        let answer: bool = false;
        self.hear(Ghost(CoreTold::ShortStart { now, task: *task, prepare, answer }));
        answer
    }

    fn shortlink_stop(&mut self, taskid: u32) -> (answer: bool)
        ensures
            !answer,
    {
        let answer: bool = false;
        self.hear(Ghost(CoreTold::ShortStop { taskid, answer }));
        answer
    }

    fn shortlink_has(&mut self, taskid: u32) -> (answer: bool)
        ensures
            !answer,
    {
        let answer: bool = false;
        self.hear(Ghost(CoreTold::ShortHas { taskid, answer }));
        answer
    }

    fn shortlink_clear(&mut self)
    {
        self.hear(Ghost(CoreTold::ShortClear));
    }

    fn shortlink_redo(
        &mut self,
        _routing: &mut Routing<Unwired<RouteTold>, Unwired<Told>>,
        now: u64,
    )
    {
        self.hear(Ghost(CoreTold::ShortRedo { now }));
    }

    fn shortlink_touch(
        &mut self,
        _routing: &mut Routing<Unwired<RouteTold>, Unwired<Told>>,
        now: u64,
    )
    {
        self.hear(Ghost(CoreTold::ShortTouch { now }));
    }

    fn shortlink_reset_timeout(&mut self)
    {
        self.hear(Ghost(CoreTold::ShortResetTimeout));
    }

    fn shortlink_retry(
        &mut self,
        _routing: &mut Routing<Unwired<RouteTold>, Unwired<Told>>,
        now: u64,
        err_type: ErrCmdType,
        err_code: i32,
        handle: TaskFailHandleType,
        src_taskid: u32,
    )
    {
        self.hear(Ghost(CoreTold::ShortRetry { now, err_type, err_code, handle, src_taskid }));
    }

    fn shortlink_profile(&mut self, taskid: u32) -> (answer: Option<ConnectProfile>)
        ensures
            answer is None,
    {
        let answer: Option<ConnectProfile> = None;
        self.hear(Ghost(CoreTold::ShortProfile { taskid, answer: profile_view(answer) }));
        answer
    }

    fn shortlink_due(&mut self) -> (answer: Option<u64>)
        ensures
            answer is None,
    {
        let answer: Option<u64> = None;
        self.hear(Ghost(CoreTold::ShortDue { answer }));
        answer
    }

    fn shortlink_fails(&mut self) -> (answer: u32)
        ensures
            answer == 0,
    {
        let answer: u32 = 0;
        self.hear(Ghost(CoreTold::ShortFails { answer }));
        answer
    }

    fn zombie_task_started(&mut self, now: u64)
    {
        self.hear(Ghost(CoreTold::ZombieTaskStarted { now }));
    }

    fn zombie_stop(&mut self, taskid: u32) -> (answer: bool)
        ensures
            !answer,
    {
        let answer: bool = false;
        self.hear(Ghost(CoreTold::ZombieStop { taskid, answer }));
        answer
    }

    fn zombie_has(&mut self, taskid: u32) -> (answer: bool)
        ensures
            !answer,
    {
        let answer: bool = false;
        self.hear(Ghost(CoreTold::ZombieHas { taskid, answer }));
        answer
    }

    fn zombie_clear(&mut self)
    {
        self.hear(Ghost(CoreTold::ZombieClear));
    }

    fn zombie_redo(&mut self, now: u64) -> (answer: Vec<Task>)
        ensures
            answer@ == Seq::<Task>::empty(),
    {
        let answer: Vec<Task> = Vec::new();
        self.hear(Ghost(CoreTold::ZombiesGiven { now, answer: answer@ }));
        answer
    }

    fn zombie_due(&mut self) -> (answer: Option<u64>)
        ensures
            answer is None,
    {
        let answer: Option<u64> = None;
        self.hear(Ghost(CoreTold::ZombieDue { answer }));
        answer
    }

    fn sync_network_change(&mut self, now: u64)
    {
        self.hear(Ghost(CoreTold::SyncNetworkChange { now }));
    }

    fn sync_status(&mut self, now: u64, status: LongLinkStatus)
    {
        self.hear(Ghost(CoreTold::SyncStatus { now, status }));
    }

    fn sync_due(&mut self) -> (answer: Option<u64>)
        ensures
            answer is None,
    {
        let answer: Option<u64> = None;
        self.hear(Ghost(CoreTold::SyncDue { answer }));
        answer
    }

    fn sync_cancel(&mut self)
    {
        self.hear(Ghost(CoreTold::SyncCancel));
    }

    fn link_make(
        &mut self,
        config: &LonglinkConfig,
        encoder: LongLinkEncoder,
    ) -> (made: LinkParts<Unwired<LinkTold>, Unwired<TimerTold>>)
        ensures
            made.link@.status == LongLinkStatus::ConnectIdle,
    {
        let given = config.copy();
        let link = LongLink::with_encoder(Unwired::new(), given, encoder, 0);
        let made = LinkParts { link, checks: Unwired::new(), now: 0 };
        self.hear(Ghost(CoreTold::LinkMade { config: *config, encoder, answer: made@ }));
        made
    }

    fn link_drop(&mut self, name: &str)
    {
        self.hear(Ghost(CoreTold::LinkDrop { name: name@ }));
    }

    fn links_clear(&mut self)
    {
        self.hear(Ghost(CoreTold::LinksClear));
    }

    fn link_keep_signal(&mut self, name: &str, now: u64) -> (signals: Vec<u32>)
        ensures
            signals@ == Seq::<u32>::empty(),
    {
        let signals: Vec<u32> = Vec::new();
        self.hear(Ghost(CoreTold::LinkSignals { name: name@, now, answer: signals@ }));
        signals
    }

    fn link_stop_signal(&mut self, name: &str)
    {
        self.hear(Ghost(CoreTold::LinkStopSignal { name: name@ }));
    }
}

} // verus!
