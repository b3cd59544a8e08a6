//! What a task and a connect leave behind: how they failed, how far they got
//! and the readings their timeouts are counted from.
use vstd::prelude::*;
use crate::dynamic_timeout::DynamicTimeoutStatus;
use crate::ip_port::{IpPortItem, IpSourceType};
use crate::task::Task;

verus! {

/// Which part of the stack an error came from.
#[derive(Debug, Clone, Copy, PartialEq, Eq, Structural)]
pub enum ErrCmdType {
    /// No error.
    NoError,
    /// Refused.
    False,
    Dial,
    Dns,
    Socket,
    Http,
    /// The long link's own protocol.
    NetMsgXp,
    EnDecode,
    Server,
    /// The pipeline itself.
    Local,
    Canceld,
}

/// What the app says is to be done about a task that failed.
#[derive(Debug, Clone, Copy, PartialEq, Eq, Structural)]
pub enum TaskFailHandleType {
    /// It did not fail.
    Normal,
    /// Try again, and fail the channel.
    Default,
    /// Every task of the user is tried again.
    RetryAllTasks,
    /// The session is over: the app is asked first.
    SessionTimeout,
    /// The task is over.
    TaskEnd,
    /// The task ran out of time.
    TaskTimeout,
    /// The task is over, and the app is not told.
    SlientTaskEnd,
}

impl TaskFailHandleType {
    /// The number a report carries for it.
    pub fn code(self) -> (code: i32)
        ensures
            code == fail_handle_code(self),
    {
        match self {
            TaskFailHandleType::Normal => 0,
            TaskFailHandleType::Default => -1,
            TaskFailHandleType::RetryAllTasks => -12,
            TaskFailHandleType::SessionTimeout => -13,
            TaskFailHandleType::TaskEnd => -14,
            TaskFailHandleType::TaskTimeout => -15,
            TaskFailHandleType::SlientTaskEnd => -16,
        }
    }
}

/// The number a report carries for a handle.
pub open spec fn fail_handle_code(handle: TaskFailHandleType) -> int {
    match handle {
        TaskFailHandleType::Normal => 0int,
        TaskFailHandleType::Default => -1,
        TaskFailHandleType::RetryAllTasks => -12,
        TaskFailHandleType::SessionTimeout => -13,
        TaskFailHandleType::TaskEnd => -14,
        TaskFailHandleType::TaskTimeout => -15,
        TaskFailHandleType::SlientTaskEnd => -16,
    }
}

pub const LOCAL_TASK_TIMEOUT: i32 = -1;

pub const LOCAL_START_TASK_FAIL: i32 = -3;

pub const LOCAL_ANTI_AVALANCHE: i32 = -4;

pub const LOCAL_CHANNEL_SELECT: i32 = -5;

pub const LOCAL_NO_NET: i32 = -6;

pub const LOCAL_CANCEL: i32 = -7;

pub const LOCAL_RESET: i32 = -9;

pub const LOCAL_TASK_PARAM: i32 = -12;

pub const LOCAL_CHANNEL_ID: i32 = -14;

pub const LOCAL_LONG_LINK_RELEASED: i32 = -15;

pub const LOCAL_LONG_LINK_UNAVAILABLE: i32 = -16;

pub const LONG_FIRST_PKG_TIMEOUT: i32 = -500;

pub const LONG_PKG_PKG_TIMEOUT: i32 = -501;

pub const LONG_READ_WRITE_TIMEOUT: i32 = -502;

pub const LONG_TASK_TIMEOUT: i32 = -503;

/// The two ends did not agree on the handshake.
pub const HANDSHAKE_MISUNDERSTAND: i32 = -10503;

/// A run a task is out on.
#[derive(Debug, Clone, Copy, PartialEq, Eq, Structural)]
pub struct RunId(pub u64);

/// What a proxy is.
#[derive(Debug, Clone, Copy, PartialEq, Eq, Structural)]
pub enum ProxyType {
    Absent,
    Http,
    HttpTunnel,
    Socks5,
}

/// The proxy a connect goes through.
#[derive(Debug, Clone, PartialEq, Eq)]
pub struct ProxyInfo {
    pub kind: ProxyType,
    pub host: String,
    pub ip: String,
    pub port: u16,
    pub username: String,
    pub password: String,
    /// Whether the platform takes the whole of it for a proxy it can use.
    pub valid: bool,
}

/// The contents of a [`ProxyInfo`].
pub struct ProxyView {
    pub kind: ProxyType,
    pub host: Seq<char>,
    pub ip: Seq<char>,
    pub port: u16,
    pub username: Seq<char>,
    pub password: Seq<char>,
    pub valid: bool,
}

impl View for ProxyInfo {
    type V = ProxyView;

    open spec fn view(&self) -> ProxyView {
        ProxyView {
            kind: self.kind,
            host: self.host@,
            ip: self.ip@,
            port: self.port,
            username: self.username@,
            password: self.password@,
            valid: self.valid,
        }
    }
}

impl ProxyView {
    /// No proxy at all.
    pub open spec fn none() -> ProxyView {
        ProxyView {
            kind: ProxyType::Absent,
            host: Seq::empty(),
            ip: Seq::empty(),
            port: 0,
            username: Seq::empty(),
            password: Seq::empty(),
            valid: true,
        }
    }
}

impl ProxyInfo {
    /// No proxy at all.
    pub fn none() -> (proxy: Self)
        ensures
            proxy@ == ProxyView::none(),
    {
        ProxyInfo {
            kind: ProxyType::Absent,
            host: String::new(),
            ip: String::new(),
            port: 0,
            username: String::new(),
            password: String::new(),
            valid: true,
        }
    }

    /// The same proxy once more.
    pub fn copy(&self) -> (proxy: Self)
        ensures
            proxy == *self,
    {
        ProxyInfo {
            kind: self.kind,
            host: self.host.clone(),
            ip: self.ip.clone(),
            port: self.port,
            username: self.username.clone(),
            password: self.password.clone(),
            valid: self.valid,
        }
    }
}

/// One heartbeat of a link.
#[derive(Debug, Clone, Copy, PartialEq, Eq, Structural)]
pub struct NoopProfile {
    pub success: bool,
    /// The interval the alarm was set to.
    pub noop_internal: u64,
    /// The interval it really was.
    pub noop_actual_internal: u64,
    /// How long the answer took.
    pub noop_cost: u64,
    pub noop_starttime: u64,
}

/// What one connect found out.
#[derive(Debug, Clone, PartialEq, Eq)]
pub struct ConnectProfile {
    pub net_type: String,
    pub start_time: u64,
    pub dns_time: u64,
    pub dns_endtime: u64,
    pub conn_time: u64,
    pub conn_errcode: i32,
    pub conn_rtt: u32,
    pub conn_cost: u64,
    pub is0rtt: bool,
    pub nat64: bool,
    pub ip_items: Vec<IpPortItem>,
    pub ip_index: i32,
    pub host: String,
    pub ip_type: IpSourceType,
    pub ip: String,
    pub port: u16,
    pub proxy_info: ProxyInfo,
    pub tried_443port: u8,
    pub tried_80port: u8,
    pub local_ip: String,
    pub local_port: u16,
    pub link_type: i32,
    pub conn_reason: i32,
    pub disconn_time: u64,
    pub disconn_errtype: ErrCmdType,
    pub disconn_errcode: i32,
    pub noop_profiles: Vec<NoopProfile>,
}

/// The contents of a [`ConnectProfile`].
pub struct ConnectView {
    pub net_type: Seq<char>,
    pub start_time: u64,
    pub dns_time: u64,
    pub dns_endtime: u64,
    pub conn_time: u64,
    pub conn_errcode: i32,
    pub conn_rtt: u32,
    pub conn_cost: u64,
    pub is0rtt: bool,
    pub nat64: bool,
    pub ip_items: Seq<IpPortItem>,
    pub ip_index: i32,
    pub host: Seq<char>,
    pub ip_type: IpSourceType,
    pub ip: Seq<char>,
    pub port: u16,
    pub proxy_info: ProxyView,
    pub tried_443port: u8,
    pub tried_80port: u8,
    pub local_ip: Seq<char>,
    pub local_port: u16,
    pub link_type: i32,
    pub conn_reason: i32,
    pub disconn_time: u64,
    pub disconn_errtype: ErrCmdType,
    pub disconn_errcode: i32,
    pub noop_profiles: Seq<NoopProfile>,
}

impl View for ConnectProfile {
    type V = ConnectView;

    open spec fn view(&self) -> ConnectView {
        ConnectView {
            net_type: self.net_type@,
            start_time: self.start_time,
            dns_time: self.dns_time,
            dns_endtime: self.dns_endtime,
            conn_time: self.conn_time,
            conn_errcode: self.conn_errcode,
            conn_rtt: self.conn_rtt,
            conn_cost: self.conn_cost,
            is0rtt: self.is0rtt,
            nat64: self.nat64,
            ip_items: self.ip_items@,
            ip_index: self.ip_index,
            host: self.host@,
            ip_type: self.ip_type,
            ip: self.ip@,
            port: self.port,
            proxy_info: self.proxy_info@,
            tried_443port: self.tried_443port,
            tried_80port: self.tried_80port,
            local_ip: self.local_ip@,
            local_port: self.local_port,
            link_type: self.link_type,
            conn_reason: self.conn_reason,
            disconn_time: self.disconn_time,
            disconn_errtype: self.disconn_errtype,
            disconn_errcode: self.disconn_errcode,
            noop_profiles: self.noop_profiles@,
        }
    }
}

impl ConnectView {
    /// A connect that has not been made.
    pub open spec fn blank() -> ConnectView {
        ConnectView {
            net_type: Seq::empty(),
            start_time: 0,
            dns_time: 0,
            dns_endtime: 0,
            conn_time: 0,
            conn_errcode: 0,
            conn_rtt: 0,
            conn_cost: 0,
            is0rtt: false,
            nat64: false,
            ip_items: Seq::empty(),
            ip_index: (-1) as i32,
            host: Seq::empty(),
            ip_type: IpSourceType::Null,
            ip: Seq::empty(),
            port: 0,
            proxy_info: ProxyView::none(),
            tried_443port: 0,
            tried_80port: 0,
            local_ip: Seq::empty(),
            local_port: 0,
            link_type: Task::CHANNEL_LONG,
            conn_reason: 0,
            disconn_time: 0,
            disconn_errtype: ErrCmdType::NoError,
            disconn_errcode: 0,
            noop_profiles: Seq::empty(),
        }
    }

    /// The connect of a link that is not there.
    pub open spec fn unavailable() -> ConnectView {
        ConnectView {
            disconn_errtype: ErrCmdType::Local,
            conn_errcode: LOCAL_LONG_LINK_UNAVAILABLE,
            ..ConnectView::blank()
        }
    }
}

impl ConnectProfile {
    /// A connect that has not been made.
    pub fn new() -> (profile: Self)
        ensures
            profile@ == ConnectView::blank(),
    {
        ConnectProfile {
            net_type: String::new(),
            start_time: 0,
            dns_time: 0,
            dns_endtime: 0,
            conn_time: 0,
            conn_errcode: 0,
            conn_rtt: 0,
            conn_cost: 0,
            is0rtt: false,
            nat64: false,
            ip_items: Vec::new(),
            ip_index: -1,
            host: String::new(),
            ip_type: IpSourceType::Null,
            ip: String::new(),
            port: 0,
            proxy_info: ProxyInfo::none(),
            tried_443port: 0,
            tried_80port: 0,
            local_ip: String::new(),
            local_port: 0,
            link_type: Task::CHANNEL_LONG,
            conn_reason: 0,
            disconn_time: 0,
            disconn_errtype: ErrCmdType::NoError,
            disconn_errcode: 0,
            noop_profiles: Vec::new(),
        }
    }

    /// The connect of a link that is not there.
    pub fn unavailable() -> (profile: Self)
        ensures
            profile@ == ConnectView::unavailable(),
    {
        let mut profile = ConnectProfile::new();
        profile.disconn_errtype = ErrCmdType::Local;
        profile.conn_errcode = LOCAL_LONG_LINK_UNAVAILABLE;
        profile
    }

    /// Whether the link the connect was for has gone away since.
    pub fn is_finished(&self) -> (finished: bool)
        ensures
            finished == (self.disconn_time != 0),
    {
        self.disconn_time != 0
    }
}

/// When the hosts of a task were worked out.
#[derive(Debug, Clone, Copy, PartialEq, Eq, Structural)]
pub struct PrepareProfile {
    pub start_task_call_time: u64,
    pub begin_process_hosts_time: u64,
    pub end_process_hosts_time: u64,
}

/// One try of a task.
#[derive(Debug, Clone, PartialEq, Eq)]
pub struct TransferProfile {
    pub connect_profile: ConnectProfile,
    pub loop_start_task_time: u64,
    pub first_start_send_time: u64,
    pub start_send_time: u64,
    pub last_receive_pkg_time: u64,
    pub first_pkg_timeout: u64,
    pub read_write_timeout: u64,
    pub send_data_size: usize,
    pub received_size: usize,
    pub receive_data_size: usize,
    pub error_type: ErrCmdType,
    pub error_code: i32,
}

/// The contents of a [`TransferProfile`].
pub struct TransferView {
    pub connect_profile: ConnectView,
    pub loop_start_task_time: u64,
    pub first_start_send_time: u64,
    pub start_send_time: u64,
    pub last_receive_pkg_time: u64,
    pub first_pkg_timeout: u64,
    pub read_write_timeout: u64,
    pub send_data_size: usize,
    pub received_size: usize,
    pub receive_data_size: usize,
    pub error_type: ErrCmdType,
    pub error_code: i32,
}

impl View for TransferProfile {
    type V = TransferView;

    open spec fn view(&self) -> TransferView {
        TransferView {
            connect_profile: self.connect_profile@,
            loop_start_task_time: self.loop_start_task_time,
            first_start_send_time: self.first_start_send_time,
            start_send_time: self.start_send_time,
            last_receive_pkg_time: self.last_receive_pkg_time,
            first_pkg_timeout: self.first_pkg_timeout,
            read_write_timeout: self.read_write_timeout,
            send_data_size: self.send_data_size,
            received_size: self.received_size,
            receive_data_size: self.receive_data_size,
            error_type: self.error_type,
            error_code: self.error_code,
        }
    }
}

impl TransferView {
    /// A try that has not gone out.
    pub open spec fn blank() -> TransferView {
        TransferView {
            connect_profile: ConnectView::blank(),
            loop_start_task_time: 0,
            first_start_send_time: 0,
            start_send_time: 0,
            last_receive_pkg_time: 0,
            first_pkg_timeout: 0,
            read_write_timeout: 0,
            send_data_size: 0,
            received_size: 0,
            receive_data_size: 0,
            error_type: ErrCmdType::NoError,
            error_code: 0,
        }
    }
}

impl TransferProfile {
    /// A try that has not gone out.
    pub fn new() -> (profile: Self)
        ensures
            profile@ == TransferView::blank(),
    {
        TransferProfile {
            connect_profile: ConnectProfile::new(),
            loop_start_task_time: 0,
            first_start_send_time: 0,
            start_send_time: 0,
            last_receive_pkg_time: 0,
            first_pkg_timeout: 0,
            read_write_timeout: 0,
            send_data_size: 0,
            received_size: 0,
            receive_data_size: 0,
            error_type: ErrCmdType::NoError,
            error_code: 0,
        }
    }
}

/// A task in a queue.
#[derive(Debug, Clone, PartialEq, Eq)]
pub struct TaskProfile {
    pub task: Task,
    /// The channel the task is going out on.
    pub channel_name: String,
    /// What kind of link that is.
    pub link_type: i32,
    pub start_task_time: u64,
    pub end_task_time: u64,
    /// How long the task may take in all, tries and waits included.
    pub task_timeout: u64,
    /// The tries the task still has.
    pub remain_retry_count: i32,
    /// The run the task is out on; `None` is a task that is not out.
    pub running: Option<RunId>,
    pub antiavalanche_checked: bool,
    pub last_failed_dyntime_status: DynamicTimeoutStatus,
    pub current_dyntime_status: DynamicTimeoutStatus,
    pub err_type: ErrCmdType,
    pub err_code: i32,
    /// The try the task is on.
    pub transfer_profile: TransferProfile,
    /// The tries before it.
    pub history: Vec<TransferProfile>,
}

/// The contents of a [`TaskProfile`].
pub struct TaskView {
    pub task: Task,
    pub channel_name: Seq<char>,
    pub link_type: i32,
    pub start_task_time: u64,
    pub end_task_time: u64,
    pub task_timeout: u64,
    pub remain_retry_count: i32,
    pub running: Option<RunId>,
    pub antiavalanche_checked: bool,
    pub last_failed_dyntime_status: DynamicTimeoutStatus,
    pub current_dyntime_status: DynamicTimeoutStatus,
    pub err_type: ErrCmdType,
    pub err_code: i32,
    pub transfer_profile: TransferView,
    pub history: Seq<TransferView>,
}

impl View for TaskProfile {
    type V = TaskView;

    open spec fn view(&self) -> TaskView {
        TaskView {
            task: self.task,
            channel_name: self.channel_name@,
            link_type: self.link_type,
            start_task_time: self.start_task_time,
            end_task_time: self.end_task_time,
            task_timeout: self.task_timeout,
            remain_retry_count: self.remain_retry_count,
            running: self.running,
            antiavalanche_checked: self.antiavalanche_checked,
            last_failed_dyntime_status: self.last_failed_dyntime_status,
            current_dyntime_status: self.current_dyntime_status,
            err_type: self.err_type,
            err_code: self.err_code,
            transfer_profile: self.transfer_profile@,
            history: self.history@.map_values(|t: TransferProfile| t@),
        }
    }
}

impl TaskView {
    /// A task that was just asked for.
    pub open spec fn fresh(now: u64, task: Task, task_timeout: u64) -> TaskView {
        TaskView {
            task,
            channel_name: Seq::empty(),
            link_type: 0,
            start_task_time: now,
            end_task_time: 0,
            task_timeout,
            remain_retry_count: task.retry_count,
            running: None,
            antiavalanche_checked: false,
            last_failed_dyntime_status: DynamicTimeoutStatus::Evaluating,
            current_dyntime_status: DynamicTimeoutStatus::Evaluating,
            err_type: ErrCmdType::NoError,
            err_code: 0,
            transfer_profile: TransferView::blank(),
            history: Seq::empty(),
        }
    }

    /// The task is out.
    pub open spec fn is_running(self) -> bool {
        self.running is Some
    }

    /// The task has spent one of its tries.
    pub open spec fn retried(self) -> bool {
        self.task.retry_count > self.remain_retry_count
    }

    /// The try is over and the next one has not gone out: the readings are
    /// kept in the history and cleared.
    pub open spec fn tried(self) -> TaskView {
        TaskView {
            history: self.history.push(self.transfer_profile),
            transfer_profile: TransferView::blank(),
            running: None,
            ..self
        }
    }
}

impl TaskProfile {
    /// A task that was just asked for.
    pub fn new_at(now: u64, task: Task, task_timeout: u64) -> (profile: Self)
        ensures
            profile@ == TaskView::fresh(now, task, task_timeout),
    {
        let remain_retry_count: i32 = task.retry_count;
        let profile = TaskProfile {
            task,
            channel_name: String::new(),
            link_type: 0,
            start_task_time: now,
            end_task_time: 0,
            task_timeout,
            remain_retry_count,
            running: None,
            antiavalanche_checked: false,
            last_failed_dyntime_status: DynamicTimeoutStatus::Evaluating,
            current_dyntime_status: DynamicTimeoutStatus::Evaluating,
            err_type: ErrCmdType::NoError,
            err_code: 0,
            transfer_profile: TransferProfile::new(),
            history: Vec::new(),
        };
        assert(profile@.history == Seq::<TransferView>::empty());
        profile
    }

    /// Whether the task is out.
    pub fn is_running(&self) -> (running: bool)
        ensures
            running == self@.is_running(),
    {
        self.running.is_some()
    }

    /// Whether the task has spent one of its tries.
    pub fn retried(&self) -> (retried: bool)
        ensures
            retried == self@.retried(),
    {
        self.task.retry_count > self.remain_retry_count
    }

    /// The first package did not come on the network as it was judged then:
    /// what is remembered of a task that has another try coming.
    pub fn set_last_failed_status(&mut self)
        ensures
            final(self)@ == last_failed_noted(old(self)@),
    {
        if self.remain_retry_count > 0 {
            self.last_failed_dyntime_status = self.current_dyntime_status;
        }
    }

    /// The try is over: its readings are kept, and the next one starts with
    /// none.
    pub fn end_try(&mut self)
        ensures
            final(self)@ == old(self)@.tried(),
    {
        let mut was = TransferProfile::new();
        std::mem::swap(&mut self.transfer_profile, &mut was);
        self.history.push(was);
        self.running = None;
        assert(self@.history == old(self)@.history.push(old(self)@.transfer_profile));
    }
}

/// The network as it was judged when the try went out is what a task that has
/// another one coming is remembered with.
pub open spec fn last_failed_noted(profile: TaskView) -> TaskView {
    if profile.remain_retry_count > 0 {
        TaskView { last_failed_dyntime_status: profile.current_dyntime_status, ..profile }
    } else {
        profile
    }
}

} // verus!
