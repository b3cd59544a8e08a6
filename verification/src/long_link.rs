//! The long link, and the connect it is made on.
//!
//! A long link is one socket to one ip/port pair, kept open, with a heartbeat
//! going out on it and the server pushing down it. This is the link itself:
//! [`LongLinkStatus`] is where it is, [`LongLink::make_sure_connected`] is what
//! a task says when it wants one, and [`LongLink::connect_at`] is the dns, the
//! proxy and the socket of it.
//!
//! The link runs nothing by itself: [`LongLink::disconnect`] writes down *why*
//! the link is going away, and the host's run asks
//! [`LongLink::disconnect_code`] between steps. The heartbeat is two alarms the
//! host's run reads instead of waiting on: [`LongLink::noop_due`] is the
//! reading the next noop is due at, and [`LongLink::noop_timeout_due`] the one
//! the noop in flight has to answer by.
//!
//! What the link asks of its host and tells it is in [`LinkHost`]; the contracts
//! speak of what the host heard, in order ([`LinkView::told`]).
use vstd::prelude::*;
use crate::ip_port::{IpPortItem, IpSourceType};
use crate::longlink::{
    law_what_packs_unpacks, longlink_pack, longlink_unpack, packed_bytes, unpacked_bytes,
    LongLinkEncoder, Unpacked, UnpackedView, HEADER_LEN, MAX_PACKAGE_LEN, NOOP_CMDID,
};
use crate::longlink_connect_monitor::LongLinkStatus;
use crate::longlink_identify_checker::{
    CheckerView, IdentifyBuffer, IdentifyMode, LongLinkIdentifyChecker,
};
use crate::net_source::LonglinkConfig;
use crate::queue_spec::since;
use crate::task::Task;
use crate::task_profile::{ConnectProfile, ConnectView, ErrCmdType, ProxyInfo, ProxyType, ProxyView};

verus! {

/// No address to connect to at all.
pub const ECT_DNS_MAKE_SOCKET_PREPARED: i32 = -10606;

/// The connect itself failed.
pub const ECT_SOCKET_MAKE_SOCKET_PREPARED: i32 = -10087;

/// What is reported for an answer that could not be read.
pub const EBADMSG: i32 = 74;

/// How much the connect's verification reads at once.
pub const RECV_BUFFER_LEN: usize = 64 * 1024;

/// How long a noop has to answer.
pub const NOOP_TIMEOUT: u64 = 8 * 1000;

/// The same, for a noop that is going out late.
pub const NOOP_ACTIVE_TIMEOUT: u64 = 5 * 1000;

/// How late a heartbeat has to be before the noop that follows it is given the
/// short timeout.
pub const NOOP_LATE_TOO_MUCH: u64 = 15 * 60 * 1000;

/// Why a link is being taken down.
#[derive(Debug, Clone, Copy, PartialEq, Eq, Structural)]
pub enum DisconnectInternalCode {
    /// Nothing asked for the link to go away.
    NotAsked,
    Reset,
    /// The peer hung up.
    RemoteClosed,
    UnknownErr,
    /// A heartbeat was not answered.
    NoopTimeout,
    DecodeError,
    UnknownRead,
    UnknownWrite,
    DecodeErr,
    TaskTimeout,
    NetworkChange,
    IdcChange,
    NetworkLost,
    SelectError,
    PipeError,
    HasNewDnsIp,
    SelectException,
    LinkCheckTimeout,
    ForceNewGetDns,
    LinkCheckError,
    /// The timer check found a better pair.
    TimeCheckSucc,
    /// The link itself is gone; nothing will run again.
    ObjectDestruct,
    LinkDetectEnd,
}

/// The number a report carries for a reason.
pub open spec fn disconnect_code_of(code: DisconnectInternalCode) -> int {
    match code {
        DisconnectInternalCode::NotAsked => 0,
        DisconnectInternalCode::Reset => 10000,
        DisconnectInternalCode::RemoteClosed => 10001,
        DisconnectInternalCode::UnknownErr => 10002,
        DisconnectInternalCode::NoopTimeout => 10003,
        DisconnectInternalCode::DecodeError => 10004,
        DisconnectInternalCode::UnknownRead => 10005,
        DisconnectInternalCode::UnknownWrite => 10006,
        DisconnectInternalCode::DecodeErr => 10007,
        DisconnectInternalCode::TaskTimeout => 10008,
        DisconnectInternalCode::NetworkChange => 10009,
        DisconnectInternalCode::IdcChange => 10010,
        DisconnectInternalCode::NetworkLost => 10011,
        DisconnectInternalCode::SelectError => 10012,
        DisconnectInternalCode::PipeError => 10013,
        DisconnectInternalCode::HasNewDnsIp => 10014,
        DisconnectInternalCode::SelectException => 10015,
        DisconnectInternalCode::LinkCheckTimeout => 10016,
        DisconnectInternalCode::ForceNewGetDns => 10017,
        DisconnectInternalCode::LinkCheckError => 10018,
        DisconnectInternalCode::TimeCheckSucc => 10019,
        DisconnectInternalCode::ObjectDestruct => 10020,
        DisconnectInternalCode::LinkDetectEnd => 10021,
    }
}

impl DisconnectInternalCode {
    /// Whether something asked for the link to go away.
    pub fn is_set(self) -> (set: bool)
        ensures
            set == (self != DisconnectInternalCode::NotAsked),
    {
        !matches!(self, DisconnectInternalCode::NotAsked)
    }

    /// The number a report carries for it.
    pub fn code(self) -> (code: i32)
        ensures
            code == disconnect_code_of(self),
    {
        match self {
            DisconnectInternalCode::NotAsked => 0,
            DisconnectInternalCode::Reset => 10000,
            DisconnectInternalCode::RemoteClosed => 10001,
            DisconnectInternalCode::UnknownErr => 10002,
            DisconnectInternalCode::NoopTimeout => 10003,
            DisconnectInternalCode::DecodeError => 10004,
            DisconnectInternalCode::UnknownRead => 10005,
            DisconnectInternalCode::UnknownWrite => 10006,
            DisconnectInternalCode::DecodeErr => 10007,
            DisconnectInternalCode::TaskTimeout => 10008,
            DisconnectInternalCode::NetworkChange => 10009,
            DisconnectInternalCode::IdcChange => 10010,
            DisconnectInternalCode::NetworkLost => 10011,
            DisconnectInternalCode::SelectError => 10012,
            DisconnectInternalCode::PipeError => 10013,
            DisconnectInternalCode::HasNewDnsIp => 10014,
            DisconnectInternalCode::SelectException => 10015,
            DisconnectInternalCode::LinkCheckTimeout => 10016,
            DisconnectInternalCode::ForceNewGetDns => 10017,
            DisconnectInternalCode::LinkCheckError => 10018,
            DisconnectInternalCode::TimeCheckSucc => 10019,
            DisconnectInternalCode::ObjectDestruct => 10020,
            DisconnectInternalCode::LinkDetectEnd => 10021,
        }
    }
}

impl Default for DisconnectInternalCode {
    fn default() -> (code: Self)
        ensures
            code == DisconnectInternalCode::NotAsked,
    {
        DisconnectInternalCode::NotAsked
    }
}

/// What [`LongLink::make_sure_connected`] answers.
#[derive(Debug, Clone, Copy, PartialEq, Eq, Structural)]
pub enum MakeSure {
    /// The link is there, nothing to start.
    Connected,
    /// A run has to be going; `new_one` is `true` when this call is what
    /// started it.
    Run { new_one: bool },
    /// The link was released, and will not run again.
    Released,
}

/// Why a connect did not happen.
#[derive(Debug, Clone, Copy, PartialEq, Eq, Structural)]
pub enum ConnectFail {
    /// No candidate at all.
    NoAddress,
    /// The proxy is a host, and dns could not name it.
    NoProxyIp,
    /// The connect failed; the code is the platform's.
    Connect { error_code: i32 },
    /// The socket answered, but not with a package the encoder could read.
    Verify,
}

/// Where a one-shot timer is.
#[derive(Debug, Clone, Copy, PartialEq, Eq, Structural)]
pub enum AlarmStatus {
    /// Never started.
    Init,
    /// Waiting for its reading.
    Start,
    Cancel,
    /// It went off, and nothing has been started on it since.
    OnAlarm,
}

/// A one-shot timer: the reading it is due at, the interval it was started with
/// and the reading it was started at, which is where a network that dozes shows
/// itself.
#[derive(Debug, Clone, Copy, PartialEq, Eq, Structural)]
pub struct NoopAlarm {
    pub due: Option<u64>,
    pub after: u64,
    pub started: u64,
    pub status: AlarmStatus,
}

impl NoopAlarm {
    /// An alarm that was never started.
    pub open spec fn fresh() -> NoopAlarm {
        NoopAlarm { due: None, after: 0, started: 0, status: AlarmStatus::Init }
    }

    /// The alarm is waiting and its reading has come.
    pub open spec fn goes_off(self, now: u64) -> bool {
        self.status == AlarmStatus::Start && (self.due matches Some(due) && now >= due)
    }

    /// The alarm as it is once the reading `now` was looked at.
    pub open spec fn looked_at(self, now: u64) -> NoopAlarm {
        if self.goes_off(now) {
            NoopAlarm { due: None, status: AlarmStatus::OnAlarm, ..self }
        } else {
            self
        }
    }

    /// The alarm waits `wait_ms` from `now`.
    pub open spec fn set(self, now: u64, wait_ms: u64) -> NoopAlarm {
        NoopAlarm {
            due: Some((now + wait_ms) as u64),
            after: wait_ms,
            started: now,
            status: AlarmStatus::Start,
        }
    }

    /// The alarm does not wait any more; what it was set to stays.
    pub open spec fn cancelled(self) -> NoopAlarm {
        NoopAlarm { due: None, status: AlarmStatus::Cancel, ..self }
    }

    /// An alarm that was never started.
    pub fn new() -> (alarm: Self)
        ensures
            alarm == NoopAlarm::fresh(),
    {
        NoopAlarm { due: None, after: 0, started: 0, status: AlarmStatus::Init }
    }

    /// Where the alarm is.
    pub fn status(&self) -> (status: AlarmStatus)
        ensures
            status == self.status,
    {
        self.status
    }

    /// The reading it goes off at; `None` while it is not waiting.
    pub fn due(&self) -> (due: Option<u64>)
        ensures
            due == self.due,
    {
        self.due
    }

    /// The interval it was started with.
    pub fn after(&self) -> (after: u64)
        ensures
            after == self.after,
    {
        self.after
    }

    /// How long ago it was started.
    pub fn elapse_at(&self, now: u64) -> (elapsed: u64)
        ensures
            elapsed == since(now, self.started),
    {
        now.saturating_sub(self.started)
    }

    /// Started, and it has not gone off yet.
    pub fn is_waiting(&self) -> (waiting: bool)
        ensures
            waiting == (self.status == AlarmStatus::Start),
    {
        self.status == AlarmStatus::Start
    }

    /// Whether its reading has come.
    pub fn is_due_at(&self, now: u64) -> (due: bool)
        ensures
            due == (self.due matches Some(at) && now >= at),
    {
        match self.due {
            Some(due) => now >= due,
            None => false,
        }
    }

    /// It waits `wait_ms` from `now`.
    pub fn start_at(&mut self, now: u64, wait_ms: u64)
        requires
            now + wait_ms <= u64::MAX,
        ensures
            *final(self) == old(self).set(now, wait_ms),
    {
        self.due = Some(now + wait_ms);
        self.after = wait_ms;
        self.started = now;
        self.status = AlarmStatus::Start;
    }

    /// It does not wait any more.
    pub fn cancel(&mut self)
        ensures
            *final(self) == old(self).cancelled(),
    {
        self.due = None;
        self.status = AlarmStatus::Cancel;
    }

    /// Whether it went off at `now`. An alarm that is not waiting, or whose
    /// reading has not come, is left alone.
    pub fn on_alarm_at(&mut self, now: u64) -> (went_off: bool)
        ensures
            went_off == old(self).goes_off(now),
            *final(self) == old(self).looked_at(now),
    {
        if self.status != AlarmStatus::Start || !self.is_due_at(now) {
            return false;
        }
        self.due = None;
        self.status = AlarmStatus::OnAlarm;
        true
    }
}

/// An alarm goes off once: looked at again, it does not.
pub proof fn law_an_alarm_goes_off_once(alarm: NoopAlarm, now: u64, later: u64)
    ensures
        alarm.goes_off(now) ==> !alarm.looked_at(now).goes_off(later),
        !alarm.cancelled().goes_off(later),
        alarm.cancelled().after == alarm.after,
{
}

/// One thing queued to go out on the link.
#[derive(Debug, Clone, PartialEq, Eq)]
pub struct SendData {
    /// The task the buffer came from; a noop is one too.
    pub task: Task,
    /// What the encoder made of the body: header first, then the body.
    pub buffer: Vec<u8>,
    /// How much of [`SendData::buffer`] has gone out.
    pub pos: usize,
}

/// The contents of a [`SendData`].
pub struct SendView {
    pub task: Task,
    pub buffer: Seq<u8>,
    pub pos: usize,
}

impl View for SendData {
    type V = SendView;

    open spec fn view(&self) -> SendView {
        SendView { task: self.task, buffer: self.buffer@, pos: self.pos }
    }
}

/// The contents of what is queued.
pub open spec fn sends(queue: Seq<SendData>) -> Seq<SendView> {
    queue.map_values(|d: SendData| d@)
}

/// A socket of the host.
#[derive(Debug, Clone, Copy, PartialEq, Eq, Structural)]
pub struct SocketFd(pub i64);

impl SocketFd {
    /// No socket at all.
    pub fn invalid() -> (socket: Self)
        ensures
            socket.0 == -1,
    {
        SocketFd(-1)
    }

    /// Whether there is a socket.
    pub fn is_valid(&self) -> (valid: bool)
        ensures
            valid == (self.0 >= 0),
    {
        self.0 >= 0
    }
}

/// What a connect of the host came to.
#[derive(Debug, Clone, Copy, PartialEq, Eq, Structural)]
pub struct SocketProfile {
    pub rtt: u32,
    /// The address that won.
    pub index: i32,
    pub error_code: i32,
    pub total_cost: u32,
    pub is_0rtt: bool,
}

/// What the local network carries.
#[derive(Debug, Clone, Copy, PartialEq, Eq, Structural)]
pub enum LocalIpStack {
    Nothing,
    IPv4,
    IPv6,
    Dual,
}

/// An address as the platform reads it.
#[derive(Debug, Clone, PartialEq, Eq)]
pub struct Address {
    pub ip: String,
    pub port: u16,
    pub is_v4: bool,
    pub is_v6: bool,
}

impl Address {
    /// The same address once more.
    pub fn copy(&self) -> (address: Self)
        ensures
            address == *self,
    {
        Address {
            ip: self.ip.clone(),
            port: self.port,
            is_v4: self.is_v4,
            is_v6: self.is_v6,
        }
    }
}

/// One pair the link may be made on, and the address it is reached at: what
/// filters the addresses filters the pairs with them.
#[derive(Debug, Clone, PartialEq, Eq)]
pub struct Candidate {
    pub item: IpPortItem,
    pub address: Address,
}

/// The host of a link: the sockets, the dns, the network and the app.
///
/// A host may answer what it likes; each call is one more thing that it heard.
pub trait LinkHost: Sized {
    /// Everything the host was told and asked so far, in order. Each host says
    /// what that is of it.
    open spec fn heard(&self) -> Seq<LinkTold> {
        Seq::empty()
    }

    /// The candidates, in order.
    fn items(&mut self, config: &LonglinkConfig) -> (answer: Vec<IpPortItem>)
        ensures
            final(self).heard() == old(self).heard().push(LinkTold::Items { answer: answer@ }),
    ;

    /// The proxy to go through, if any.
    fn proxy(&mut self) -> (answer: ProxyInfo)
        ensures
            final(self).heard() == old(self).heard().push(LinkTold::Proxy { answer: answer@ }),
    ;

    /// The ip the app wants the link to go to.
    fn debug_ip(&mut self) -> (answer: String)
        ensures
            final(self).heard() == old(self).heard().push(LinkTold::DebugIp { answer: answer@ }),
    ;

    /// The ip the app wants a minor long link to go to.
    fn minorlong_debug_ip(&mut self) -> (answer: String)
        ensures
            final(self).heard() == old(self).heard().push(
                LinkTold::MinorDebugIp { answer: answer@ },
            ),
    ;

    /// The ips of a host.
    fn dns(&mut self, host: &str) -> (answer: Vec<String>)
        ensures
            final(self).heard() == old(self).heard().push(
                LinkTold::Dns { host: host@, answer: answer@ },
            ),
    ;

    /// What the local network carries.
    fn local_ip_stack(&mut self) -> (answer: LocalIpStack)
        ensures
            final(self).heard() == old(self).heard().push(LinkTold::LocalStack { answer }),
    ;

    /// An ip and a port as an address, mapped onto what the local network
    /// carries where that is given.
    fn address(&mut self, ip: &str, port: u16, stack: Option<LocalIpStack>) -> (answer: Address)
        ensures
            final(self).heard() == old(self).heard().push(
                LinkTold::AddressOf { ip: ip@, port, stack, answer },
            ),
    ;

    /// The network the link is made on, by name.
    fn net_label(&mut self) -> (answer: String)
        ensures
            final(self).heard() == old(self).heard().push(LinkTold::NetLabel { answer: answer@ }),
    ;

    /// The same, as a number.
    fn net_type(&mut self) -> (answer: i32)
        ensures
            final(self).heard() == old(self).heard().push(LinkTold::NetType { answer }),
    ;

    /// A socket to one of the addresses.
    fn connect(&mut self, addresses: &Vec<Address>, proxy: &ProxyInfo) -> (answer: SocketFd)
        ensures
            final(self).heard() == old(self).heard().push(
                LinkTold::Connect { addresses: addresses@, proxy: proxy@, answer },
            ),
    ;

    /// What the last connect came to.
    fn connected(&mut self) -> (answer: SocketProfile)
        ensures
            final(self).heard() == old(self).heard().push(LinkTold::Connected { answer }),
    ;

    /// The near end of a socket.
    fn local_address(&mut self, socket: SocketFd) -> (answer: Option<Address>)
        ensures
            final(self).heard() == old(self).heard().push(
                LinkTold::LocalAddress { socket, answer },
            ),
    ;

    /// Bytes go out on a socket.
    fn write(&mut self, socket: SocketFd, buffer: &[u8], timeout_ms: i32) -> (answer: Result<usize, i32>)
        ensures
            final(self).heard() == old(self).heard().push(
                LinkTold::Write { socket, buffer: buffer@, timeout_ms, answer },
            ),
    ;

    /// Bytes come in on a socket.
    fn read(&mut self, socket: SocketFd, max_size: usize, timeout_ms: i32) -> (answer: Result<Vec<u8>, i32>)
        ensures
            final(self).heard() == old(self).heard().push(
                LinkTold::Read { socket, max_size, timeout_ms, answer: bytes_read(answer) },
            ),
    ;

    /// An error, and the pair it happened on.
    fn network_report(&mut self, err_type: ErrCmdType, err_code: i32, ip: &str, port: u16)
        ensures
            final(self).heard() == old(self).heard().push(
                LinkTold::NetworkReport { err_type, err_code, ip: ip@, port },
            ),
    ;

    /// An error of the link itself, with no task of its own.
    fn response_error(
        &mut self,
        name: &str,
        err_type: ErrCmdType,
        err_code: i32,
        profile: &ConnectProfile,
    )
        ensures
            final(self).heard() == old(self).heard().push(
                LinkTold::ResponseError { name: name@, err_type, err_code, profile: profile@ },
            ),
    ;

    /// The link went from one status to another.
    fn connection(&mut self, status: LongLinkStatus, name: &str)
        ensures
            final(self).heard() == old(self).heard().push(
                LinkTold::Connection { status, name: name@ },
            ),
    ;

    /// The profile of a link that has finished.
    fn link_status(&mut self, profile: &ConnectProfile)
        ensures
            final(self).heard() == old(self).heard().push(
                LinkTold::LinkStatus { profile: profile@ },
            ),
    ;

    /// One of the two noop alarms went off.
    fn noop_alarm_received(&mut self, noop_timeout: bool)
        ensures
            final(self).heard() == old(self).heard().push(
                LinkTold::NoopAlarmReceived { noop_timeout },
            ),
    ;

    /// The heartbeat interval the smart heartbeat is on.
    fn heartbeat_interval(&mut self, is_active: bool) -> (answer: u32)
        ensures
            final(self).heard() == old(self).heard().push(
                LinkTold::HeartbeatInterval { is_active, answer },
            ),
    ;

    /// The smart heartbeat judges whether the network delivered the last
    /// heartbeat when it was due.
    fn heartbeat_judge_doze(&mut self, now: u64, is_mobile: bool, is_active: bool)
        ensures
            final(self).heard() == old(self).heard().push(
                LinkTold::HeartbeatJudgeDoze { now, is_mobile, is_active },
            ),
    ;

    /// A heartbeat went out.
    fn heartbeat_started(&mut self, now: u64)
        ensures
            final(self).heard() == old(self).heard().push(LinkTold::HeartbeatStarted { now }),
    ;

    /// A heartbeat answered, or did not; `seconds` is the reading.
    fn heartbeat_result(&mut self, success: bool, fail_of_timeout: bool, seconds: i64)
        ensures
            final(self).heard() == old(self).heard().push(
                LinkTold::HeartbeatResult { success, fail_of_timeout, seconds },
            ),
    ;

    /// The link came up: the smart heartbeat starts over on that network.
    fn heartbeat_established(&mut self, net_detail: &str, net_type: i32)
        ensures
            final(self).heard() == old(self).heard().push(
                LinkTold::HeartbeatEstablished { net_detail: net_detail@, net_type },
            ),
    ;

    /// The link went away: a heartbeat that never answered.
    fn heartbeat_disconnected(&mut self)
        ensures
            final(self).heard() == old(self).heard().push(LinkTold::HeartbeatDisconnected),
    ;

    /// A number below `bound`.
    fn random(&mut self, bound: usize) -> (answer: usize)
        requires
            bound > 0,
        ensures
            answer < bound,
            final(self).heard() == old(self).heard().push(LinkTold::Random { bound, answer }),
    ;

    /// What the app answers the identify check with.
    fn identify_buffer(&mut self, channel_id: &str, cmdid: u32) -> (answer: IdentifyBuffer)
        ensures
            final(self).heard() == old(self).heard().push(
                LinkTold::IdentifyAsked {
                    channel_id: channel_id@,
                    asked: cmdid,
                    mode: answer.mode,
                    buffer: answer.buffer@,
                    hash: answer.hash@,
                    cmdid: answer.cmdid,
                },
            ),
    ;

    /// The app's verdict on what the server answered.
    fn identify_response(&mut self, channel_id: &str, response: &[u8], hash: &[u8]) -> (answer: bool)
        ensures
            final(self).heard() == old(self).heard().push(
                LinkTold::IdentifyJudged {
                    channel_id: channel_id@,
                    response: response@,
                    hash: hash@,
                    answer,
                },
            ),
    ;
}

/// One thing the link told its host, or one thing it asked and the answer.
#[allow(inconsistent_fields)]
pub enum LinkTold {
    Items { answer: Seq<IpPortItem> },
    Proxy { answer: ProxyView },
    DebugIp { answer: Seq<char> },
    MinorDebugIp { answer: Seq<char> },
    Dns { host: Seq<char>, answer: Seq<String> },
    LocalStack { answer: LocalIpStack },
    AddressOf { ip: Seq<char>, port: u16, stack: Option<LocalIpStack>, answer: Address },
    NetLabel { answer: Seq<char> },
    NetType { answer: i32 },
    Connect { addresses: Seq<Address>, proxy: ProxyView, answer: SocketFd },
    Connected { answer: SocketProfile },
    LocalAddress { socket: SocketFd, answer: Option<Address> },
    Write { socket: SocketFd, buffer: Seq<u8>, timeout_ms: i32, answer: Result<usize, i32> },
    Read { socket: SocketFd, max_size: usize, timeout_ms: i32, answer: Result<Seq<u8>, i32> },
    NetworkReport { err_type: ErrCmdType, err_code: i32, ip: Seq<char>, port: u16 },
    ResponseError { name: Seq<char>, err_type: ErrCmdType, err_code: i32, profile: ConnectView },
    Connection { status: LongLinkStatus, name: Seq<char> },
    LinkStatus { profile: ConnectView },
    NoopAlarmReceived { noop_timeout: bool },
    HeartbeatInterval { is_active: bool, answer: u32 },
    HeartbeatJudgeDoze { now: u64, is_mobile: bool, is_active: bool },
    HeartbeatStarted { now: u64 },
    HeartbeatResult { success: bool, fail_of_timeout: bool, seconds: i64 },
    HeartbeatEstablished { net_detail: Seq<char>, net_type: i32 },
    HeartbeatDisconnected,
    Random { bound: usize, answer: usize },
    IdentifyAsked {
        channel_id: Seq<char>,
        asked: u32,
        mode: IdentifyMode,
        buffer: Seq<u8>,
        hash: Seq<u8>,
        cmdid: u32,
    },
    IdentifyJudged { channel_id: Seq<char>, response: Seq<u8>, hash: Seq<u8>, answer: bool },
}

/// One long link.
pub struct LongLink<H> {
    /// The sockets, the dns, the network and the app.
    pub host: H,
    pub config: LonglinkConfig,
    pub encoder: LongLinkEncoder,
    /// The version the packages are stamped with.
    pub client_version: u32,
    pub profile: ConnectProfile,
    pub status: LongLinkStatus,
    pub disconnect_code: DisconnectInternalCode,
    /// A run is in flight.
    pub running: bool,
    /// The server hung up on the link.
    pub server_triggered_off: bool,
    /// The host has a smart heartbeat for the link.
    pub heartbeat: bool,
    /// The check the app answers before the link is used.
    pub identify: LongLinkIdentifyChecker,
    /// What is queued to go out, in order.
    pub queue: Vec<SendData>,
    /// A heartbeat is out and has not answered.
    pub nooping: bool,
    /// The interval the heartbeat in force is on.
    pub last_heartbeat: u64,
    /// When the next heartbeat is due.
    pub noop_interval: NoopAlarm,
    /// When the heartbeat in flight has to answer by.
    pub noop_timeout: NoopAlarm,
    /// The first heartbeat of the run has gone out: there is an interval to
    /// judge the network by.
    pub first_noop_sent: bool,
}

/// The contents of a [`LongLink`].
pub struct LinkView {
    pub config: LonglinkConfig,
    pub encoder: LongLinkEncoder,
    pub client_version: u32,
    pub profile: ConnectView,
    pub status: LongLinkStatus,
    pub disconnect_code: DisconnectInternalCode,
    pub running: bool,
    pub server_triggered_off: bool,
    pub heartbeat: bool,
    pub identify: CheckerView,
    pub queue: Seq<SendView>,
    pub nooping: bool,
    pub last_heartbeat: u64,
    pub noop_interval: NoopAlarm,
    pub noop_timeout: NoopAlarm,
    pub first_noop_sent: bool,
    pub told: Seq<LinkTold>,
}

impl<H: LinkHost> View for LongLink<H> {
    type V = LinkView;

    open spec fn view(&self) -> LinkView {
        LinkView {
            config: self.config,
            encoder: self.encoder,
            client_version: self.client_version,
            profile: self.profile@,
            status: self.status,
            disconnect_code: self.disconnect_code,
            running: self.running,
            server_triggered_off: self.server_triggered_off,
            heartbeat: self.heartbeat,
            identify: self.identify@,
            queue: sends(self.queue@),
            nooping: self.nooping,
            last_heartbeat: self.last_heartbeat,
            noop_interval: self.noop_interval,
            noop_timeout: self.noop_timeout,
            first_noop_sent: self.first_noop_sent,
            told: self.host.heard(),
        }
    }
}

/// What a connect was answered, question by question.
pub struct LinkAnswers {
    pub label: Seq<char>,
    pub items: Seq<IpPortItem>,
    pub proxy: ProxyView,
    pub debug_ip: Seq<char>,
    pub minor_debug_ip: Seq<char>,
    pub stack: LocalIpStack,
    pub addresses: Seq<Address>,
    pub dns: Seq<String>,
    pub proxy_address: Address,
    pub socket: SocketFd,
    pub connected: SocketProfile,
    pub local: Option<Address>,
    pub up_label: Seq<char>,
    pub up_type: i32,
}

impl LinkView {
    /// A link that has not been made.
    pub open spec fn fresh(
        config: LonglinkConfig,
        encoder: LongLinkEncoder,
        version: u32,
        told: Seq<LinkTold>,
    ) -> LinkView {
        LinkView {
            config,
            encoder,
            client_version: version,
            profile: ConnectView { link_type: config.link_type, ..ConnectView::blank() },
            status: LongLinkStatus::ConnectIdle,
            disconnect_code: DisconnectInternalCode::NotAsked,
            running: false,
            server_triggered_off: false,
            heartbeat: false,
            identify: CheckerView {
                encoder,
                ..CheckerView::fresh(
                    config.name@,
                    config.link_type == Task::CHANNEL_MINOR_LONG,
                )
            },
            queue: Seq::empty(),
            nooping: false,
            last_heartbeat: 0,
            noop_interval: NoopAlarm::fresh(),
            noop_timeout: NoopAlarm::fresh(),
            first_noop_sent: false,
            told,
        }
    }

    /// The host was told one thing, or asked one.
    pub open spec fn heard(self, event: LinkTold) -> LinkView {
        LinkView { told: self.told.push(event), ..self }
    }

    /// The host was told several things in a row, or asked them.
    pub open spec fn heard_all(self, events: Seq<LinkTold>) -> LinkView {
        LinkView { told: self.told + events, ..self }
    }

    /// A run starts from scratch: only why the one before it failed is kept.
    pub open spec fn run_started(self) -> LinkView {
        LinkView {
            running: true,
            profile: ConnectView {
                link_type: self.config.link_type,
                conn_reason: self.profile.disconn_errcode,
                ..ConnectView::blank()
            },
            status: LongLinkStatus::ConnectIdle,
            disconnect_code: DisconnectInternalCode::NotAsked,
            server_triggered_off: false,
            identify: self.identify.restarted(),
            queue: Seq::empty(),
            noop_interval: NoopAlarm::fresh(),
            noop_timeout: NoopAlarm::fresh(),
            first_noop_sent: false,
            ..self
        }
    }

    /// An error is reported, with the pair of the profile.
    pub open spec fn reported(self, err_type: ErrCmdType, err_code: i32) -> LinkView {
        self.heard(
            LinkTold::NetworkReport {
                err_type,
                err_code,
                ip: self.profile.ip,
                port: self.profile.port,
            },
        )
    }

    /// An error of the link itself is told, and reported where `report` says
    /// so.
    #[verifier::opaque]
    pub open spec fn errored(self, err_type: ErrCmdType, err_code: i32, report: bool) -> LinkView {
        let told = self.heard(
            LinkTold::ResponseError {
                name: self.config.name@,
                err_type,
                err_code,
                profile: self.profile,
            },
        );
        if report {
            told.reported(err_type, err_code)
        } else {
            told
        }
    }

    /// The smart heartbeat hears of a link that came up and of one that went
    /// away.
    #[verifier::opaque]
    pub open spec fn heartbeat_words(
        heartbeat: bool,
        status: LongLinkStatus,
        label: Seq<char>,
        net_type: i32,
    ) -> Seq<LinkTold> {
        match status {
            LongLinkStatus::Connected => {
                let asked = seq![
                    LinkTold::NetLabel { answer: label },
                    LinkTold::NetType { answer: net_type },
                ];
                if heartbeat {
                    asked.push(LinkTold::HeartbeatEstablished { net_detail: label, net_type })
                } else {
                    asked
                }
            },
            LongLinkStatus::ConnectFailed | LongLinkStatus::DisConnected => if heartbeat {
                seq![LinkTold::HeartbeatDisconnected]
            } else {
                seq![]
            },
            _ => seq![],
        }
    }

    /// The status went from one thing to another: the smart heartbeat hears of
    /// a link that came up and of one that went away, a link that came up is
    /// reported, and the app is told. A status the link is already at is said
    /// once.
    #[verifier::opaque]
    pub open spec fn status_set(
        self,
        status: LongLinkStatus,
        label: Seq<char>,
        net_type: i32,
    ) -> LinkView {
        if status == self.status {
            self
        } else {
            LinkView { status, ..self }.heard_all(
                self.status_words(status, label, net_type),
            )
        }
    }

    /// What is said when the status goes to `status`.
    pub open spec fn status_words(
        self,
        status: LongLinkStatus,
        label: Seq<char>,
        net_type: i32,
    ) -> Seq<LinkTold> {
        let reported: Seq<LinkTold> = if status == LongLinkStatus::Connected {
            seq![
                LinkTold::NetworkReport {
                    err_type: ErrCmdType::NoError,
                    err_code: 0,
                    ip: self.profile.ip,
                    port: self.profile.port,
                },
            ]
        } else {
            seq![]
        };
        LinkView::heartbeat_words(self.heartbeat, status, label, net_type) + reported + seq![
            LinkTold::Connection { status, name: self.config.name@ },
        ]
    }

    /// The same, for a status that nothing is asked about.
    pub open spec fn status_said(self, status: LongLinkStatus) -> LinkView {
        self.status_set(status, Seq::empty(), 0)
    }

    /// The connect begins.
    #[verifier::opaque]
    pub open spec fn connect_begun(self, now: u64, label: Seq<char>) -> LinkView {
        let asked = self.heard(LinkTold::NetLabel { answer: label });
        let named = LinkView {
            profile: ConnectView { net_type: label, start_time: now, ..asked.profile },
            ..asked
        }.status_said(LongLinkStatus::Connecting);
        LinkView { profile: ConnectView { dns_time: now, ..named.profile }, ..named }
    }

    /// The proxy is one a long link can go through.
    pub open spec fn proxy_usable(proxy: ProxyView) -> bool {
        proxy.valid && proxy.kind != ProxyType::Absent && proxy.kind != ProxyType::Http
    }

    /// The connect goes through the proxy: a debug ip is where the link goes,
    /// so there is no proxy with one.
    pub open spec fn uses_proxy(link_type: i32, a: LinkAnswers) -> bool {
        &&& LinkView::proxy_usable(a.proxy)
        &&& a.debug_ip.len() == 0
        &&& !(link_type == Task::CHANNEL_MINOR_LONG && a.minor_debug_ip.len() > 0)
    }

    /// The debug ips are asked about only where they decide.
    pub open spec fn debug_ips_asked(self, a: LinkAnswers) -> LinkView {
        self.heard_all(LinkView::debug_questions(self.config.link_type, a))
    }

    /// What is asked about the debug ips.
    #[verifier::opaque]
    pub open spec fn debug_questions(link_type: i32, a: LinkAnswers) -> Seq<LinkTold> {
        if !LinkView::proxy_usable(a.proxy) {
            seq![]
        } else if a.debug_ip.len() == 0 && link_type == Task::CHANNEL_MINOR_LONG {
            seq![
                LinkTold::DebugIp { answer: a.debug_ip },
                LinkTold::MinorDebugIp { answer: a.minor_debug_ip },
            ]
        } else {
            seq![LinkTold::DebugIp { answer: a.debug_ip }]
        }
    }

    /// What the local network carries is asked about.
    pub open spec fn stack_asked(self, stack: LocalIpStack) -> LinkView {
        let asked = self.heard(LinkTold::LocalStack { answer: stack });
        LinkView {
            profile: ConnectView { nat64: stack == LocalIpStack::IPv6, ..asked.profile },
            ..asked
        }
    }

    /// What the connect has to go by: the candidates, the proxy, and what the
    /// local network carries.
    #[verifier::opaque]
    pub open spec fn connect_asked(self, a: LinkAnswers) -> LinkView {
        self.heard(LinkTold::Items { answer: a.items }).heard(
            LinkTold::Proxy { answer: a.proxy },
        ).debug_ips_asked(a).stack_asked(a.stack)
    }

    /// The first `n` candidates are turned into addresses: a proxy is reached
    /// at the address it is, anything else is mapped onto what the local
    /// network carries.
    pub open spec fn addressed(
        self,
        items: Seq<IpPortItem>,
        stack: Option<LocalIpStack>,
        addresses: Seq<Address>,
        n: int,
    ) -> LinkView
        decreases n,
    {
        if n <= 0 {
            self
        } else {
            self.addressed(items, stack, addresses, n - 1).heard(
                LinkTold::AddressOf {
                    ip: items[n - 1].ip@,
                    port: items[n - 1].port,
                    stack,
                    answer: addresses[n - 1],
                },
            )
        }
    }

    /// What the profile says of a pair.
    pub open spec fn on_pair(self, item: IpPortItem) -> LinkView {
        LinkView {
            profile: ConnectView {
                host: item.host@,
                ip_type: item.source_type,
                ip: item.ip@,
                port: item.port,
                ..self.profile
            },
            ..self
        }
    }

    /// What the profile says until the connect comes back with the pair that
    /// won: the first candidate's.
    #[verifier::opaque]
    pub open spec fn prepared(self, now: u64, a: LinkAnswers) -> LinkView {
        let named = self.on_pair(a.items[0]);
        LinkView {
            profile: ConnectView {
                proxy_info: a.proxy,
                ip_items: a.items,
                dns_endtime: now,
                ..named.profile
            },
            ..named
        }
    }
}

/// The pairs with their addresses.
pub open spec fn candidates_of(items: Seq<IpPortItem>, addresses: Seq<Address>) -> Seq<Candidate> {
    Seq::new(
        items.len(),
        |i: int| Candidate { item: items[i], address: addresses[i] },
    )
}

/// A v4 proxy cannot carry v6 traffic, so those candidates go; a single one
/// stays.
pub open spec fn carried(candidates: Seq<Candidate>, proxy: Address) -> Seq<Candidate> {
    if proxy.is_v4 && candidates.len() > 1 {
        candidates.filter(|c: Candidate| !c.address.is_v6)
    } else {
        candidates
    }
}

/// The addresses of the candidates.
pub open spec fn addresses_of(candidates: Seq<Candidate>) -> Seq<Address> {
    candidates.map_values(|c: Candidate| c.address)
}

/// One of the first `n` candidates is on that port.
pub open spec fn tries_port(candidates: Seq<Candidate>, n: int, port: u16) -> bool {
    exists|i: int|
        0 <= i < n && i < candidates.len() && (#[trigger] candidates[i]).address.port == port
}

/// How the proxy of a connect is reached.
pub enum ProxyFound {
    /// There is none to go through.
    Direct,
    /// Dns could not name it.
    Unnamed,
    At(Address),
}

impl LinkView {
    /// The proxy is named by its host alone.
    pub open spec fn proxy_named_by_host(a: LinkAnswers) -> bool {
        a.proxy.ip.len() == 0 && a.proxy.host.len() > 0
    }

    /// Where the proxy is; a debug pair is where the link goes.
    pub open spec fn proxy_found(self, use_proxy: bool, a: LinkAnswers) -> ProxyFound {
        if !use_proxy || self.profile.ip_type == IpSourceType::Debug {
            ProxyFound::Direct
        } else if LinkView::proxy_named_by_host(a) && a.dns.len() == 0 {
            ProxyFound::Unnamed
        } else {
            ProxyFound::At(a.proxy_address)
        }
    }

    /// The proxy is found at an ip.
    #[verifier::opaque]
    pub open spec fn proxied(
        self,
        ip: Seq<char>,
        port: u16,
        stack: LocalIpStack,
        answer: Address,
    ) -> LinkView {
        LinkView {
            profile: ConnectView { ip_type: IpSourceType::Proxy, ..self.profile },
            ..self
        }.heard(LinkTold::AddressOf { ip, port, stack: Some(stack), answer })
    }

    /// What finding the proxy asked, and what the profile says of it.
    #[verifier::opaque]
    pub open spec fn proxy_asked(self, use_proxy: bool, a: LinkAnswers) -> LinkView {
        if !use_proxy || self.profile.ip_type == IpSourceType::Debug {
            self
        } else if !LinkView::proxy_named_by_host(a) {
            self.proxied(a.proxy.ip, a.proxy.port, a.stack, a.proxy_address)
        } else {
            let named = self.heard(LinkTold::Dns { host: a.proxy.host, answer: a.dns });
            if a.dns.len() == 0 {
                named
            } else {
                named.proxied(a.dns[0]@, a.proxy.port, a.stack, a.proxy_address)
            }
        }
    }

    /// The socket is asked for, and what it came to is written down.
    #[verifier::opaque]
    pub open spec fn opened(
        self,
        now: u64,
        candidates: Seq<Candidate>,
        proxy: ProxyView,
        a: LinkAnswers,
    ) -> LinkView {
        let asked = self.heard(
            LinkTold::Connect { addresses: addresses_of(candidates), proxy, answer: a.socket },
        ).heard(LinkTold::Connected { answer: a.connected });
        LinkView {
            profile: ConnectView {
                conn_time: now,
                conn_errcode: a.connected.error_code,
                conn_rtt: a.connected.rtt,
                conn_cost: a.connected.total_cost as u64,
                is0rtt: a.connected.is_0rtt,
                ..asked.profile
            },
            ..asked
        }
    }

    /// The pair that won is written down.
    #[verifier::opaque]
    pub open spec fn pair_won(self, candidates: Seq<Candidate>, index: i32) -> LinkView {
        let indexed = LinkView {
            profile: ConnectView { ip_index: index, ..self.profile },
            ..self
        };
        if 0 <= index < candidates.len() {
            indexed.on_pair(candidates[index as int].item)
        } else {
            indexed
        }
    }

    /// The well known ports of the first `n` candidates are written down.
    #[verifier::opaque]
    pub open spec fn ports_tried(self, candidates: Seq<Candidate>, n: int) -> LinkView {
        LinkView {
            profile: ConnectView {
                tried_443port: if tries_port(candidates, n, 443) {
                    1
                } else {
                    self.profile.tried_443port
                },
                tried_80port: if tries_port(candidates, n, 80) {
                    1
                } else {
                    self.profile.tried_80port
                },
                ..self.profile
            },
            ..self
        }
    }

    /// The near end of the socket is written down.
    #[verifier::opaque]
    pub open spec fn local_asked(self, socket: SocketFd, local: Option<Address>) -> LinkView {
        let asked = self.heard(LinkTold::LocalAddress { socket, answer: local });
        match local {
            Some(address) => LinkView {
                profile: ConnectView {
                    local_ip: address.ip@,
                    local_port: address.port,
                    ..asked.profile
                },
                ..asked
            },
            None => asked,
        }
    }

    /// The pair that won is written down, with the ports of those that lost.
    #[verifier::opaque]
    pub open spec fn won(self, candidates: Seq<Candidate>, a: LinkAnswers) -> LinkView {
        self.pair_won(candidates, a.connected.index).ports_tried(
            candidates,
            a.connected.index as int,
        ).local_asked(a.socket, a.local)
    }

    /// The proxy a connect is handed: the one that was found, by the address
    /// it was found at.
    pub open spec fn connect_proxy(a: LinkAnswers, found: ProxyFound) -> ProxyView {
        match found {
            ProxyFound::At(address) => ProxyView {
                ip: address.ip@,
                port: address.port,
                ..a.proxy
            },
            _ => ProxyView::none(),
        }
    }

    /// A connect that came to nothing.
    #[verifier::opaque]
    pub open spec fn connect_failed(
        self,
        err_type: ErrCmdType,
        err_code: i32,
        report: bool,
    ) -> LinkView {
        self.status_said(LongLinkStatus::ConnectFailed).errored(err_type, err_code, report)
    }

    /// The link is up, on the pair that won.
    #[verifier::opaque]
    pub open spec fn came_up(self, candidates: Seq<Candidate>, a: LinkAnswers) -> LinkView {
        self.won(candidates, a).status_set(LongLinkStatus::Connected, a.up_label, a.up_type)
    }

    /// The socket is opened to the candidates, and the link is up with it or
    /// has failed: a link the app took down itself does not report the
    /// connect.
    #[verifier::opaque]
    pub open spec fn connect_ended(
        self,
        now: u64,
        candidates: Seq<Candidate>,
        proxy: ProxyView,
        a: LinkAnswers,
    ) -> (LinkView, Result<SocketFd, ConnectFail>) {
        let open = self.opened(now, candidates, proxy, a);
        if a.socket.0 >= 0 {
            (open.came_up(candidates, a), Ok(a.socket))
        } else {
            let failed = if open.disconnect_code == DisconnectInternalCode::NotAsked {
                open.connect_failed(ErrCmdType::Socket, ECT_SOCKET_MAKE_SOCKET_PREPARED, false)
            } else {
                open.status_said(LongLinkStatus::ConnectFailed)
            };
            (failed, Err(ConnectFail::Connect { error_code: a.connected.error_code }))
        }
    }

    /// What the connect has to go by, with the candidates turned into
    /// addresses.
    #[verifier::opaque]
    pub open spec fn gathered(self, now: u64, a: LinkAnswers) -> LinkView {
        let stack = if LinkView::uses_proxy(self.config.link_type, a) {
            None
        } else {
            Some(a.stack)
        };
        self.connect_begun(now, a.label).connect_asked(a).addressed(
            a.items,
            stack,
            a.addresses,
            a.items.len() as int,
        )
    }

    /// A connect, from the candidates to the socket, or why there is none.
    #[verifier::opaque]
    pub open spec fn connect(self, now: u64, a: LinkAnswers) -> (
        LinkView,
        Result<SocketFd, ConnectFail>,
    ) {
        let use_proxy = LinkView::uses_proxy(self.config.link_type, a);
        let asked = self.gathered(now, a);
        if a.items.len() == 0 {
            (
                asked.connect_failed(ErrCmdType::Dns, ECT_DNS_MAKE_SOCKET_PREPARED, true),
                Err(ConnectFail::NoAddress),
            )
        } else {
            let prepared = asked.prepared(now, a);
            let found = prepared.proxy_found(use_proxy, a);
            let named = prepared.proxy_asked(use_proxy, a);
            let all = candidates_of(a.items, a.addresses);
            let proxy = LinkView::connect_proxy(a, found);
            match found {
                ProxyFound::Unnamed => (
                    named.connect_failed(ErrCmdType::Dns, ECT_DNS_MAKE_SOCKET_PREPARED, true),
                    Err(ConnectFail::NoProxyIp),
                ),
                ProxyFound::Direct => named.connect_ended(now, all, proxy, a),
                ProxyFound::At(address) => named.connect_ended(
                    now,
                    carried(all, address),
                    proxy,
                    a,
                ),
            }
        }
    }
}

/// The contents of what a read came to.
pub open spec fn bytes_read(read: Result<Vec<u8>, i32>) -> Result<Seq<u8>, i32> {
    match read {
        Ok(bytes) => Ok(bytes@),
        Err(code) => Err(code),
    }
}

/// `len` bytes of what is at the head of a queue went out: a thing that is
/// fully written is done with.
pub open spec fn queue_written(queue: Seq<SendView>, len: usize) -> Seq<SendView> {
    let pos = queue[0].pos + len;
    if queue.len() == 0 {
        queue
    } else if pos >= queue[0].buffer.len() {
        queue.drop_first()
    } else {
        queue.update(0, SendView { pos: pos as usize, ..queue[0] })
    }
}

/// The head of a queue moves on.
fn move_on(queue: &mut Vec<SendData>, len: usize)
    requires
        old(queue)@.len() > 0 ==> old(queue)@[0].pos + len <= usize::MAX,
    ensures
        sends(final(queue)@) == queue_written(sends(old(queue)@), len),
{
    if queue.len() == 0 {
        return;
    }
    let ghost before = queue@;
    assert(sends(before)[0] == before[0]@);
    let pos: usize = queue[0].pos + len;
    if pos >= queue[0].buffer.len() {
        let _sent = queue.remove(0);
        assert(sends(queue@) =~= sends(before).drop_first());
    } else {
        queue[0].pos = pos;
        assert(sends(queue@) =~= sends(before).update(0, SendView { pos, ..before[0]@ }));
    }
}

/// The first thing of a task that has not started to go out, or the end of the
/// queue.
pub open spec fn first_unsent(queue: Seq<SendView>, taskid: u32) -> int
    decreases queue.len(),
{
    if queue.len() == 0 {
        0
    } else if queue[0].task.taskid == taskid && queue[0].pos == 0 {
        0
    } else {
        1 + first_unsent(queue.drop_first(), taskid)
    }
}

impl LinkView {
    /// A task wants a link: one that is up is there, one that was released is
    /// not made again, and a run that is in flight carries on with the state it
    /// has.
    pub open spec fn made_sure(self) -> (LinkView, MakeSure) {
        let calm = LinkView { server_triggered_off: false, ..self };
        if self.status == LongLinkStatus::Connected {
            (calm, MakeSure::Connected)
        } else if self.disconnect_code == DisconnectInternalCode::ObjectDestruct {
            (calm, MakeSure::Released)
        } else if self.running {
            (calm, MakeSure::Run { new_one: false })
        } else {
            (calm.run_started(), MakeSure::Run { new_one: true })
        }
    }

    /// The link is going away; one with no run in flight is left alone.
    pub open spec fn disconnected(self, scene: DisconnectInternalCode) -> LinkView {
        LinkView {
            disconnect_code: if self.running {
                scene
            } else {
                self.disconnect_code
            },
            ..self
        }
    }

    /// One more thing waits to go out.
    pub open spec fn pushed(self, task: Task, body: Seq<u8>) -> LinkView {
        LinkView {
            queue: self.queue.push(
                SendView {
                    task,
                    buffer: packed_bytes(self.client_version, task.cmdid, task.taskid, body),
                    pos: 0,
                },
            ),
            ..self
        }
    }

    /// Nothing else waits, on a link that is up.
    pub open spec fn is_quiet(self) -> bool {
        self.status == LongLinkStatus::Connected && self.queue.len() == 0
    }

    /// A task that has not started going out is taken out of the queue.
    pub open spec fn stopped(self, taskid: u32) -> LinkView {
        let at = first_unsent(self.queue, taskid);
        LinkView {
            queue: if at < self.queue.len() {
                self.queue.remove(at)
            } else {
                self.queue
            },
            ..self
        }
    }

    /// `len` bytes of what is at the head of the queue went out.
    pub open spec fn written(self, len: usize) -> LinkView {
        LinkView { queue: queue_written(self.queue, len), ..self }
    }

    /// A noop on a socket that is already up: the server has to answer with a
    /// package.
    pub open spec fn verified(
        self,
        socket: SocketFd,
        wrote: Result<usize, i32>,
        read: Result<Seq<u8>, i32>,
    ) -> (LinkView, bool) {
        let asked = self.heard(
            LinkTold::Write {
                socket,
                buffer: packed_bytes(
                    self.client_version,
                    NOOP_CMDID,
                    Task::NOOP_TASK_ID,
                    Seq::empty(),
                ),
                timeout_ms: (-1) as i32,
                answer: wrote,
            },
        );
        match wrote {
            Err(code) => (asked.reported(ErrCmdType::Socket, code), false),
            Ok(_) => {
                let heard = asked.heard(
                    LinkTold::Read {
                        socket,
                        max_size: RECV_BUFFER_LEN,
                        timeout_ms: (-1) as i32,
                        answer: read,
                    },
                );
                match read {
                    Err(code) => (heard.reported(ErrCmdType::Socket, code), false),
                    Ok(bytes) => match unpacked_bytes(self.client_version, bytes) {
                        UnpackedView::Package { .. } => (heard, true),
                        _ => (heard.reported(ErrCmdType::Socket, EBADMSG), false),
                    },
                }
            },
        }
    }

    /// The profile of a link that has finished is told.
    pub open spec fn profile_told(self) -> LinkView {
        LinkView {
            told: if self.profile.disconn_time != 0 {
                self.told.push(LinkTold::LinkStatus { profile: self.profile })
            } else {
                self.told
            },
            ..self
        }
    }
}

impl<H: LinkHost> LongLink<H> {
    /// A link that has not been made, with the default encoder.
    pub fn new(host: H, config: LonglinkConfig, client_version: u32) -> (link: Self)
        ensures
            link@ == LinkView::fresh(
                config,
                LongLinkEncoder {
                    packer_encoder_version: crate::longlink::PackerEncoderVersion::Old,
                },
                client_version,
                host.heard(),
            ),
    {
        LongLink::with_encoder(host, config, LongLinkEncoder::new(), client_version)
    }

    /// The same, with the encoder the app asked for.
    pub fn with_encoder(
        host: H,
        config: LonglinkConfig,
        encoder: LongLinkEncoder,
        client_version: u32,
    ) -> (link: Self)
        ensures
            link@ == LinkView::fresh(config, encoder, client_version, host.heard()),
    {
        let mut identify = LongLinkIdentifyChecker::new(
            config.name.as_str(),
            config.link_type == Task::CHANNEL_MINOR_LONG,
        );
        identify.set_encoder(encoder);
        let mut profile = ConnectProfile::new();
        profile.link_type = config.link_type;
        let link = LongLink {
            host,
            config,
            encoder,
            client_version,
            profile,
            status: LongLinkStatus::ConnectIdle,
            disconnect_code: DisconnectInternalCode::NotAsked,
            running: false,
            server_triggered_off: false,
            heartbeat: false,
            identify,
            queue: Vec::new(),
            nooping: false,
            last_heartbeat: 0,
            noop_interval: NoopAlarm::new(),
            noop_timeout: NoopAlarm::new(),
            first_noop_sent: false,
        };
        assert(link@.queue =~= Seq::<SendView>::empty());
        link
    }

    /// What the link is to.
    pub fn config(&self) -> (config: &LonglinkConfig)
        ensures
            *config == self@.config,
    {
        &self.config
    }

    /// What the connect found out.
    pub fn profile(&self) -> (profile: &ConnectProfile)
        ensures
            profile@ == self@.profile,
    {
        &self.profile
    }

    /// The version every package is stamped with from here on, and one that comes in
    /// has to have.
    pub fn set_client_version(&mut self, client_version: u32)
        ensures
            final(self)@ == (LinkView { client_version, ..old(self)@ }),
            final(self).host == old(self).host,
    {
        self.client_version = client_version;
    }

    /// Where the link is.
    pub fn connect_status(&self) -> (status: LongLinkStatus)
        ensures
            status == self@.status,
    {
        self.status
    }

    /// Whether a run is in flight.
    pub fn is_running(&self) -> (running: bool)
        ensures
            running == self@.running,
    {
        self.running
    }

    /// The run is over: the next task that wants a link starts another one.
    pub fn end_run(&mut self)
        ensures
            final(self)@ == (LinkView { running: false, ..old(self)@ }),
    {
        self.running = false;
    }

    /// Why the link is going away.
    pub fn disconnect_code(&self) -> (code: DisconnectInternalCode)
        ensures
            code == self@.disconnect_code,
    {
        self.disconnect_code
    }

    /// Whether the server hung up on the link.
    pub fn is_server_triggered_off(&self) -> (off: bool)
        ensures
            off == self@.server_triggered_off,
    {
        self.server_triggered_off
    }

    /// Whether the host has a smart heartbeat for the link.
    pub fn heartbeat(&self) -> (heartbeat: bool)
        ensures
            heartbeat == self@.heartbeat,
    {
        self.heartbeat
    }

    /// The host has a smart heartbeat for the link.
    pub fn set_smart_heartbeat(&mut self)
        ensures
            final(self)@ == (LinkView { heartbeat: true, ..old(self)@ }),
    {
        self.heartbeat = true;
    }

    /// Whether a heartbeat is out and has not answered.
    pub fn is_nooping(&self) -> (nooping: bool)
        ensures
            nooping == self@.nooping,
    {
        self.nooping
    }

    /// The interval the heartbeat in force is on.
    pub fn last_heartbeat(&self) -> (interval: u64)
        ensures
            interval == self@.last_heartbeat,
    {
        self.last_heartbeat
    }

    /// The check the app answers before the link is used.
    pub fn identify(&self) -> (identify: &LongLinkIdentifyChecker)
        ensures
            identify@ == self@.identify,
    {
        &self.identify
    }

    /// What is queued to go out, in order.
    pub fn queued(&self) -> (queue: &[SendData])
        ensures
            sends(queue@) == self@.queue,
    {
        self.queue.as_slice()
    }

    /// Whether anything is queued to go out.
    pub fn has_data_to_send(&self) -> (has: bool)
        ensures
            has == (self@.queue.len() > 0),
    {
        self.queue.len() > 0
    }

    /// What a task says when it wants a link.
    ///
    /// What comes back is what the host has to do: nothing, start a run, or
    /// give up on a link that was released.
    pub fn make_sure_connected(&mut self) -> (sure: MakeSure)
        ensures
            (final(self)@, sure) == old(self)@.made_sure(),
    {
        self.server_triggered_off = false;
        if self.status == LongLinkStatus::Connected {
            return MakeSure::Connected;
        }
        if self.disconnect_code == DisconnectInternalCode::ObjectDestruct {
            return MakeSure::Released;
        }
        if self.running {
            return MakeSure::Run { new_one: false };
        }
        self.start_run();
        MakeSure::Run { new_one: true }
    }

    /// A run starts from scratch: only why the one before it failed is kept.
    fn start_run(&mut self)
        ensures
            final(self)@ == old(self)@.run_started(),
    {
        self.running = true;
        let reason: i32 = self.profile.disconn_errcode;
        self.profile = ConnectProfile::new();
        self.profile.link_type = self.config.link_type;
        self.profile.conn_reason = reason;
        self.status = LongLinkStatus::ConnectIdle;
        self.disconnect_code = DisconnectInternalCode::NotAsked;
        self.server_triggered_off = false;
        self.identify.reset();
        self.queue.clear();
        assert(sends(self.queue@) =~= Seq::<SendView>::empty());
        self.noop_interval = NoopAlarm::new();
        self.noop_timeout = NoopAlarm::new();
        self.first_noop_sent = false;
    }

    /// Why the link is going away is written down for the host's run to see; a
    /// link with no run in flight is left alone.
    pub fn disconnect(&mut self, scene: DisconnectInternalCode)
        ensures
            final(self)@ == old(self)@.disconnected(scene),
    {
        if self.running {
            self.disconnect_code = scene;
        }
    }

    /// The link is not to be made again.
    pub fn release(&mut self)
        ensures
            final(self)@ == old(self)@.disconnected(DisconnectInternalCode::ObjectDestruct),
    {
        self.disconnect(DisconnectInternalCode::ObjectDestruct);
    }

    /// The profile of a link that has finished is told.
    pub fn broadcast_profile(&mut self)
        ensures
            final(self)@ == old(self)@.profile_told(),
    {
        if self.profile.is_finished() {
            self.host.link_status(&self.profile);
        }
    }

    /// One more thing waits to go out.
    fn push(&mut self, task: Task, body: &[u8])
        ensures
            final(self)@ == old(self)@.pushed(task, body@),
    {
        let buffer = longlink_pack(self.client_version, task.cmdid, task.taskid, body);
        self.queue.push(SendData { task, buffer, pos: 0 });
        assert(sends(self.queue@) =~= old(self)@.pushed(task, body@).queue);
    }

    /// A task goes out on the link: what the encoder made of the body waits in
    /// the queue until the host writes it. A link that is not up sends
    /// nothing.
    pub fn send(&mut self, task: Task, body: &[u8]) -> (sent: bool)
        ensures
            sent == (old(self)@.status == LongLinkStatus::Connected),
            sent ==> final(self)@ == old(self)@.pushed(task, body@),
            !sent ==> final(self)@ == old(self)@,
    {
        if self.status != LongLinkStatus::Connected {
            return false;
        }
        self.push(task, body);
        true
    }

    /// The same, but only when nothing else is waiting: a heartbeat queued
    /// behind a task would not be answered any sooner than the task is.
    pub fn send_when_no_data(&mut self, cmdid: u32, taskid: u32, body: &[u8]) -> (sent: bool)
        ensures
            sent == old(self)@.is_quiet(),
            sent ==> exists|task: Task| #[trigger]
                task.is_plain_of(taskid, cmdid) && final(self)@ == old(self)@.pushed(
                    Task { send_only: true, ..task },
                    body@,
                ),
            !sent ==> final(self)@ == old(self)@,
    {
        if self.status != LongLinkStatus::Connected {
            return false;
        }
        if self.queue.len() > 0 {
            return false;
        }
        let mut task = Task::new(taskid, cmdid);
        let ghost plain = task;
        task.send_only = true;
        self.push(task, body);
        assert(plain.is_plain_of(taskid, cmdid));
        true
    }

    /// A task that has not started going out is taken out of the queue; one
    /// that has stays.
    pub fn stop(&mut self, taskid: u32) -> (stopped: bool)
        ensures
            stopped == (first_unsent(old(self)@.queue, taskid) < old(self)@.queue.len()),
            final(self)@ == old(self)@.stopped(taskid),
    {
        let ghost queue = self@.queue;
        assert(queue.skip(0) =~= queue);
        let mut i: usize = 0;
        while i < self.queue.len()
            invariant
                i <= self.queue@.len(),
                queue == sends(self.queue@),
                *self == *old(self),
                first_unsent(queue, taskid) == i + first_unsent(queue.skip(i as int), taskid),
            decreases self.queue@.len() - i,
        {
            assert(queue.skip(i as int)[0] == self.queue@[i as int]@);
            assert(queue.skip(i as int).drop_first() =~= queue.skip(i + 1));
            if self.queue[i].task.taskid == taskid && self.queue[i].pos == 0 {
                let _stopped = self.queue.remove(i);
                assert(sends(self.queue@) =~= queue.remove(i as int));
                return true;
            }
            i += 1;
        }
        false
    }

    /// `len` bytes of what is at the head of the queue went out, and a thing
    /// that is fully written is done with.
    pub fn wrote(&mut self, len: usize)
        requires
            old(self)@.queue.len() > 0 ==> old(self)@.queue[0].pos + len <= usize::MAX,
        ensures
            final(self)@ == old(self)@.written(len),
    {
        assert(self.queue@.len() > 0 ==> old(self)@.queue[0] == self.queue@[0]@);
        move_on(&mut self.queue, len);
    }

    /// A noop on a socket that is already up, which is how a host checks that
    /// the connect really reached the server.
    pub fn verify(&mut self, socket: SocketFd) -> (reached: bool)
        ensures
            exists|wrote: Result<usize, i32>, read: Result<Seq<u8>, i32>|
                (final(self)@, reached) == #[trigger] old(self)@.verified(socket, wrote, read),
    {
        let ghost before = self@;
        let nothing: Vec<u8> = Vec::new();
        let request = longlink_pack(
            self.client_version,
            self.encoder.noop_cmdid(),
            Task::NOOP_TASK_ID,
            nothing.as_slice(),
        );
        assert(nothing@ =~= Seq::<u8>::empty());
        let wrote = self.host.write(socket, request.as_slice(), -1);
        if let Err(code) = wrote {
            self.network_report(ErrCmdType::Socket, code);
            assert((self@, false) == before.verified(socket, wrote, Err(0)));
            return false;
        }
        let read = self.host.read(socket, RECV_BUFFER_LEN, -1);
        let ghost answer = bytes_read(read);
        match read {
            Err(code) => {
                self.network_report(ErrCmdType::Socket, code);
                assert((self@, false) == before.verified(socket, wrote, answer));
                false
            },
            Ok(bytes) => {
                match longlink_unpack(self.client_version, bytes.as_slice()) {
                    Unpacked::Package { .. } => {
                        assert((self@, true) == before.verified(socket, wrote, answer));
                        true
                    },
                    _ => {
                        self.network_report(ErrCmdType::Socket, EBADMSG);
                        assert((self@, false) == before.verified(socket, wrote, answer));
                        false
                    },
                }
            },
        }
    }
}

/// A run that is in flight carries on: only the first task that wants a link
/// starts one, which says why the one before it failed, and a link that was
/// released is not made again.
pub proof fn law_one_run_at_a_time(link: LinkView)
    ensures
        link.made_sure().1 == (MakeSure::Run { new_one: true }) ==> link.made_sure().0.made_sure().1
            == (MakeSure::Run { new_one: false }),
        link.running && link.status != LongLinkStatus::Connected ==> link.disconnected(
            DisconnectInternalCode::ObjectDestruct,
        ).made_sure().1 == MakeSure::Released,
        link.made_sure().1 == (MakeSure::Run { new_one: true })
            ==> link.made_sure().0.profile.conn_reason == link.profile.disconn_errcode,
{
}

/// Nothing that has started to go out is taken back, and nothing of another
/// task is.
pub proof fn law_what_has_started_is_not_stopped(link: LinkView, taskid: u32, at: int)
    requires
        0 <= at < link.queue.len(),
        link.queue[at].task.taskid != taskid || link.queue[at].pos > 0,
    ensures
        link.stopped(taskid).queue.contains(link.queue[at]),
{
    let first = first_unsent(link.queue, taskid);
    lemma_first_unsent(link.queue, taskid);
    if first < link.queue.len() {
        assert(at != first);
        if at < first {
            assert(link.stopped(taskid).queue[at] == link.queue[at]);
        } else {
            assert(link.stopped(taskid).queue[at - 1] == link.queue[at]);
        }
    } else {
        assert(link.stopped(taskid).queue[at] == link.queue[at]);
    }
}

/// What is first is of the task, and has not started; nothing before it is
/// both.
proof fn lemma_first_unsent(queue: Seq<SendView>, taskid: u32)
    ensures
        0 <= first_unsent(queue, taskid) <= queue.len(),
        first_unsent(queue, taskid) < queue.len() ==> queue[first_unsent(
            queue,
            taskid,
        )].task.taskid == taskid && queue[first_unsent(queue, taskid)].pos == 0,
    decreases queue.len(),
{
    if queue.len() > 0 && !(queue[0].task.taskid == taskid && queue[0].pos == 0) {
        lemma_first_unsent(queue.drop_first(), taskid);
    }
}

/// What the server reads of a task that went out is what the task's own link
/// packed: the cmdid, the task and the body, whatever was queued before it.
pub proof fn law_what_is_queued_unpacks(link: LinkView, task: Task, body: Seq<u8>)
    requires
        HEADER_LEN + body.len() <= MAX_PACKAGE_LEN,
    ensures
        unpacked_bytes(link.client_version, link.pushed(task, body).queue.last().buffer) == (
        UnpackedView::Package {
            cmdid: task.cmdid as int,
            seq: task.taskid as int,
            package_len: HEADER_LEN + body.len(),
            body,
        }),
{
    law_what_packs_unpacks(
        link.client_version,
        task.cmdid,
        task.taskid,
        body,
        Seq::empty(),
    );
    assert(packed_bytes(link.client_version, task.cmdid, task.taskid, body) + Seq::<u8>::empty()
        =~= packed_bytes(link.client_version, task.cmdid, task.taskid, body));
}

} // verus!
