//! The net core: the two queues, the pieces they share, and which of them talks
//! to which.
//!
//! Which queue a task is started on, who is told about an error, and what the
//! app is told the connection is like are decided here. What the queues ask of
//! it while they run is collected in [`crate::net_route::Routing`] and handed
//! to [`NetCore::follow_up_at`] afterwards.
//!
//! The pieces themselves are behind [`CoreHost`], which
//! [`crate::core_pieces::CorePieces`] is for those the library holds; the
//! contracts speak of what they heard, in order ([`CoreView::told`]).
use vstd::prelude::*;
use crate::dynamic_timeout::{DynamicTimeout, DynamicView};
use crate::history::{lemma_grouped, lemma_said, lemma_words};
use crate::long_link::{DisconnectInternalCode, LinkView};
use crate::longlink::LongLinkEncoder;
use crate::longlink_connect_monitor::LongLinkStatus;
use crate::net_route::{Ending, FollowUp, FollowView};
use crate::net_source::{LonglinkConfig, DEFAULT_LONGLINK_GROUP, NO_NET};
use crate::netsource_timercheck::TimerTold;
use crate::queue_spec::{RespHandle, ResponseView};
use crate::task::{copy_texts, holds_text, same_text, texts, Task};
use crate::task_profile::{
    ConnectProfile, ConnectView, ErrCmdType, PrepareProfile, TaskFailHandleType,
    LOCAL_CHANNEL_SELECT, LOCAL_NO_NET, LOCAL_START_TASK_FAIL, LOCAL_TASK_PARAM,
};

verus! {

/// The channel every task with an empty channel name is started on.
pub const DEFAULT_LONGLINK_NAME: &'static str = "default-longlink";

/// What a task that asked for a negative retry count gets.
pub const DEF_TASK_RETRY_COUNT: i32 = 1;

/// A fast task is only put on the long link while no other task of that channel
/// is out.
pub const FAST_SEND_LONGLINK_TASK_CNT_LIMIT: usize = 0;

/// How many short-link errors in a row make the whole connection a failed one.
pub const SHORTLINK_ERR_TIME: i32 = 3;

/// The longest a server may take, in milliseconds.
pub const MAX_SERVER_PROCESS_COST: i32 = 2 * 60 * 1000;

/// The most tries a task may ask for.
pub const MAX_RETRY_COUNT: i32 = 30;

/// The longest a task may take, in milliseconds.
pub const MAX_TOTAL_TIMEOUT: i32 = 10 * 60 * 1000;

/// How many things the queues asked for are done in one go.
pub const MAX_FOLLOW_UPS: u64 = u64::MAX;

/// The connection as the app is asked to see it: one answer for whether
/// anything can be reached at all and one for the long link.
#[derive(Debug, Clone, Copy, PartialEq, Eq, Structural)]
pub enum NetStatus {
    /// Nothing has tried yet.
    Unknown,
    Unavailable,
    GatewayFailed,
    ServerFailed,
    Connecting,
    Connected,
    ServerDown,
}

impl Default for NetStatus {
    fn default() -> (status: Self)
        ensures
            status == NetStatus::Unknown,
    {
        NetStatus::Unknown
    }
}

/// The number a status is reported as.
pub open spec fn status_code(status: NetStatus) -> int {
    match status {
        NetStatus::Unknown => -1,
        NetStatus::Unavailable => 0,
        NetStatus::GatewayFailed => 1,
        NetStatus::ServerFailed => 2,
        NetStatus::Connecting => 3,
        NetStatus::Connected => 4,
        NetStatus::ServerDown => 5,
    }
}

impl NetStatus {
    /// The number the status is reported as.
    pub fn code(self) -> (code: i32)
        ensures
            code == status_code(self),
    {
        match self {
            NetStatus::Unknown => -1,
            NetStatus::Unavailable => 0,
            NetStatus::GatewayFailed => 1,
            NetStatus::ServerFailed => 2,
            NetStatus::Connecting => 3,
            NetStatus::Connected => 4,
            NetStatus::ServerDown => 5,
        }
    }
}

/// A task the net core will start.
pub open spec fn is_acceptable(task: Task) -> bool {
    &&& task.server_process_cost <= MAX_SERVER_PROCESS_COST
    &&& task.retry_count <= MAX_RETRY_COUNT
    &&& task.total_timeout <= MAX_TOTAL_TIMEOUT
}

/// The channels of a task without the long link.
pub open spec fn without_long(task: Task) -> Task {
    if task.channel_select & Task::CHANNEL_LONG != 0 && task.cmdid == 0 {
        Task { channel_select: task.channel_select & !Task::CHANNEL_LONG, ..task }
    } else {
        task
    }
}

/// The channels of a task without the short link.
pub open spec fn without_short(task: Task) -> Task {
    if task.channel_select & Task::CHANNEL_SHORT != 0 && task.cgi@.len() == 0 {
        Task { channel_select: task.channel_select & !Task::CHANNEL_SHORT, ..task }
    } else {
        task
    }
}

/// What is filled in for a task that is started: a long-link task without a
/// cmdid is not a long-link task, a short-link task without a cgi is not a
/// short-link one, and a negative retry count is the default one.
pub open spec fn with_defaults(task: Task) -> Task {
    let fitting = without_short(without_long(task));
    if task.retry_count < 0 {
        Task { retry_count: DEF_TASK_RETRY_COUNT, ..fitting }
    } else {
        fitting
    }
}

/// Whether the net core starts a task, with the defaults of one it does filled
/// in.
pub fn valid_and_init_default(task: &mut Task) -> (valid: bool)
    ensures
        valid == is_acceptable(*old(task)),
        *final(task) == if valid {
            with_defaults(*old(task))
        } else {
            *old(task)
        },
{
    if task.server_process_cost > MAX_SERVER_PROCESS_COST {
        return false;
    }
    if task.retry_count > MAX_RETRY_COUNT {
        return false;
    }
    if task.total_timeout > MAX_TOTAL_TIMEOUT {
        return false;
    }
    if task.channel_select & Task::CHANNEL_LONG != 0 && task.cmdid == 0 {
        task.channel_select = task.channel_select & !Task::CHANNEL_LONG;
    }
    if task.channel_select & Task::CHANNEL_SHORT != 0 && task.cgi.as_str().is_empty() {
        task.channel_select = task.channel_select & !Task::CHANNEL_SHORT;
    }
    if task.retry_count < 0 {
        task.retry_count = DEF_TASK_RETRY_COUNT;
    }
    true
}

/// What so many short-link errors in a row are to the app.
pub open spec fn status_of_errors(error_count: i32) -> NetStatus {
    if error_count >= SHORTLINK_ERR_TIME {
        NetStatus::ServerFailed
    } else if error_count == 0 {
        NetStatus::Connected
    } else {
        NetStatus::Unknown
    }
}

/// What so many short-link errors in a row are to the app.
pub fn shortlink_status(error_count: i32) -> (status: NetStatus)
    ensures
        status == status_of_errors(error_count),
{
    if error_count >= SHORTLINK_ERR_TIME {
        NetStatus::ServerFailed
    } else if error_count == 0 {
        NetStatus::Connected
    } else {
        NetStatus::Unknown
    }
}

/// The earlier of two readings, where there are two.
pub open spec fn earlier(left: Option<u64>, right: Option<u64>) -> Option<u64> {
    match (left, right) {
        (Some(l), Some(r)) => Some(if l <= r {
            l
        } else {
            r
        }),
        (Some(l), None) => Some(l),
        (None, _) => right,
    }
}

/// The earlier of two readings, where there are two.
pub fn min_due(left: Option<u64>, right: Option<u64>) -> (due: Option<u64>)
    ensures
        due == earlier(left, right),
{
    match (left, right) {
        (Some(l), Some(r)) => if l <= r {
            Some(l)
        } else {
            Some(r)
        },
        (Some(l), None) => Some(l),
        (None, _) => right,
    }
}

/// Where a link is; one there is not is idle.
pub open spec fn status_in(
    links: Map<Seq<char>, LongLinkStatus>,
    name: Seq<char>,
) -> LongLinkStatus {
    if links.contains_key(name) {
        links[name]
    } else {
        LongLinkStatus::ConnectIdle
    }
}

/// At most that link is somewhere else than before.
pub open spec fn moved_at(
    before: Map<Seq<char>, LongLinkStatus>,
    after: Map<Seq<char>, LongLinkStatus>,
    name: Seq<char>,
) -> bool {
    after == if before.contains_key(name) {
        before.insert(name, after[name])
    } else {
        before
    }
}

/// What the core settled with the pieces.
pub struct Setting {
    /// A task that failed may be saved, for a long link that is used.
    pub use_long_link: bool,
    /// Where each link that was made is.
    pub links: Map<Seq<char>, LongLinkStatus>,
}

/// The pieces the net core keeps, and the app.
///
/// A host may answer what it likes; each call is one more thing that it heard.
pub trait CoreHost: Sized {
    /// Everything the host was told and asked so far, in order. Each host says
    /// what that is of it.
    open spec fn heard(&self) -> Seq<CoreTold> {
        Seq::empty()
    }

    /// The pieces are sound. Each host says what that takes; a call keeps it so.
    open spec fn ready(&self) -> bool {
        true
    }

    /// What the core settled, and the links there are. Each host says what that
    /// is of it.
    open spec fn setting(&self) -> Setting {
        Setting { use_long_link: true, links: Map::empty() }
    }

    /// The last chance to change a task before it goes out.
    fn task_process(&mut self, task: Task) -> (answer: Task)
        requires
            old(self).ready(),
        ensures
            final(self).ready(),
            final(self).setting() == old(self).setting(),
            final(self).heard() == old(self).heard().push(CoreTold::TaskProcess { task, answer }),
    ;

    /// A task is over. The answer is the code it is remembered with.
    fn on_task_end(
        &mut self,
        taskid: u32,
        user_id: &str,
        err_type: ErrCmdType,
        err_code: i32,
        profile: &ConnectProfile,
    ) -> (answer: i32)
        requires
            old(self).ready(),
        ensures
            final(self).ready(),
            final(self).setting() == old(self).setting(),
            final(self).heard() == old(self).heard().push(
                CoreTold::TaskEnd {
                    taskid,
                    user_id: user_id@,
                    err_type,
                    err_code,
                    profile: profile@,
                    answer,
                },
            ),
    ;

    /// Which network it is, as the platform numbers it.
    fn net_info(&mut self) -> (answer: i32)
        requires
            old(self).ready(),
        ensures
            final(self).ready(),
            final(self).setting() == old(self).setting(),
            final(self).heard() == old(self).heard().push(CoreTold::NetInfo { answer }),
    ;

    /// The unix second.
    fn unix_secs(&mut self) -> (answer: u64)
        requires
            old(self).ready(),
        ensures
            final(self).ready(),
            final(self).setting() == old(self).setting(),
            final(self).heard() == old(self).heard().push(CoreTold::UnixSecs { answer }),
    ;

    /// What the connection is like.
    fn report_connect_status(&mut self, all: NetStatus, longlink: NetStatus)
        requires
            old(self).ready(),
        ensures
            final(self).ready(),
            final(self).setting() == old(self).setting(),
            final(self).heard() == old(self).heard().push(
                CoreTold::ConnectStatus { all, longlink },
            ),
    ;

    /// An error of the main long link.
    fn on_longlink_network_err(&mut self, err_type: ErrCmdType, err_code: i32, ip: &str, port: u16)
        requires
            old(self).ready(),
        ensures
            final(self).ready(),
            final(self).setting() == old(self).setting(),
            final(self).heard() == old(self).heard().push(
                CoreTold::LongErr { err_type, err_code, ip: ip@, port },
            ),
    ;

    /// An error of a short link.
    fn on_shortlink_network_err(
        &mut self,
        err_type: ErrCmdType,
        err_code: i32,
        ip: &str,
        host: &str,
        port: u16,
    )
        requires
            old(self).ready(),
        ensures
            final(self).ready(),
            final(self).setting() == old(self).setting(),
            final(self).heard() == old(self).heard().push(
                CoreTold::ShortErr { err_type, err_code, ip: ip@, host: host@, port },
            ),
    ;

    /// The long link went from one status to another.
    fn on_longlink_status_change(&mut self, status: LongLinkStatus)
        requires
            old(self).ready(),
        ensures
            final(self).ready(),
            final(self).setting() == old(self).setting(),
            final(self).heard() == old(self).heard().push(CoreTold::StatusChange { status }),
    ;

    /// A task is put on the long-link queue.
    fn longlink_start(&mut self, now: u64, task: &Task, channel: i32) -> (answer: bool)
        requires
            old(self).ready(),
        ensures
            final(self).ready(),
            final(self).setting() == old(self).setting(),
            final(self).heard() == old(self).heard().push(
                CoreTold::LongStart { now, task: *task, channel, answer },
            ),
    ;

    /// A task is taken off the long-link queue.
    fn longlink_stop(&mut self, taskid: u32) -> (answer: bool)
        requires
            old(self).ready(),
        ensures
            final(self).ready(),
            final(self).setting() == old(self).setting(),
            final(self).heard() == old(self).heard().push(CoreTold::LongStop { taskid, answer }),
    ;

    /// Whether the long-link queue has a task.
    fn longlink_has(&mut self, taskid: u32) -> (answer: bool)
        requires
            old(self).ready(),
        ensures
            final(self).ready(),
            final(self).setting() == old(self).setting(),
            final(self).heard() == old(self).heard().push(CoreTold::LongHas { taskid, answer }),
    ;

    /// How many tasks of a channel are out.
    fn longlink_count(&mut self, name: &str) -> (answer: usize)
        requires
            old(self).ready(),
        ensures
            final(self).ready(),
            final(self).setting() == old(self).setting(),
            final(self).heard() == old(self).heard().push(
                CoreTold::LongCount { name: name@, answer },
            ),
    ;

    /// The long-link queue drops everything.
    fn longlink_clear(&mut self)
        requires
            old(self).ready(),
        ensures
            final(self).ready(),
            final(self).setting() == old(self).setting(),
            final(self).heard() == old(self).heard().push(CoreTold::LongClear),
    ;

    /// Every task that was out on the long link is tried again.
    fn longlink_redo(&mut self, now: u64)
        requires
            old(self).ready(),
        ensures
            final(self).ready(),
            final(self).setting() == old(self).setting(),
            final(self).heard() == old(self).heard().push(CoreTold::LongRedo { now }),
    ;

    /// The timeouts of the long-link queue are looked at.
    fn longlink_touch(&mut self, now: u64)
        requires
            old(self).ready(),
        ensures
            final(self).ready(),
            final(self).setting() == old(self).setting(),
            final(self).heard() == old(self).heard().push(CoreTold::LongTouch { now }),
    ;

    /// The network the long links were on is another one.
    fn longlink_network_change(&mut self, now: u64)
        requires
            old(self).ready(),
        ensures
            final(self).ready(),
            final(self).setting() == old(self).setting(),
            final(self).heard() == old(self).heard().push(CoreTold::LongNetworkChange { now }),
    ;

    /// The long-link queue forgets the network it learned.
    fn longlink_reset_timeout(&mut self)
        requires
            old(self).ready(),
        ensures
            final(self).ready(),
            final(self).setting() == old(self).setting(),
            final(self).heard() == old(self).heard().push(CoreTold::LongResetTimeout),
    ;

    /// Every task of a user on the long link is looked at again.
    fn longlink_retry(
        &mut self,
        now: u64,
        err_type: ErrCmdType,
        err_code: i32,
        handle: TaskFailHandleType,
        src_taskid: u32,
        user_id: &str,
    )
        requires
            old(self).ready(),
        ensures
            final(self).ready(),
            final(self).setting() == old(self).setting(),
            final(self).heard() == old(self).heard().push(
                CoreTold::LongRetry {
                    now,
                    err_type,
                    err_code,
                    handle,
                    src_taskid,
                    user_id: user_id@,
                },
            ),
    ;

    /// The connect a long-link task ran on.
    fn longlink_profile(&mut self, taskid: u32) -> (answer: ConnectProfile)
        requires
            old(self).ready(),
        ensures
            final(self).ready(),
            final(self).setting() == old(self).setting(),
            final(self).heard() == old(self).heard().push(
                CoreTold::LongProfile { taskid, answer: answer@ },
            ),
    ;

    /// When the long-link queue next has something to do.
    fn longlink_due(&mut self) -> (answer: Option<u64>)
        requires
            old(self).ready(),
        ensures
            final(self).ready(),
            final(self).setting() == old(self).setting(),
            final(self).heard() == old(self).heard().push(CoreTold::LongDue { answer }),
    ;

    /// How many long-link tasks failed in a row.
    fn longlink_fails(&mut self) -> (answer: u32)
        requires
            old(self).ready(),
        ensures
            final(self).ready(),
            final(self).setting() == old(self).setting(),
            final(self).heard() == old(self).heard().push(CoreTold::LongFails { answer }),
    ;

    /// The long-link queue gets a channel.
    fn longlink_add(&mut self, config: &LonglinkConfig) -> (answer: bool)
        requires
            old(self).ready(),
        ensures
            final(self).ready(),
            final(self).setting() == old(self).setting(),
            final(self).heard() == old(self).heard().push(
                CoreTold::LongAdd { config: *config, answer },
            ),
    ;

    /// The long-link queue loses a channel, and fails its tasks.
    fn longlink_remove(&mut self, now: u64, name: &str)
        requires
            old(self).ready(),
        ensures
            final(self).ready(),
            final(self).setting() == old(self).setting(),
            final(self).heard() == old(self).heard().push(
                CoreTold::LongRemove { now, name: name@ },
            ),
    ;

    /// The link a task is out on is taken down.
    fn longlink_disconnect(&mut self, taskid: u32, code: DisconnectInternalCode) -> (answer: bool)
        requires
            old(self).ready(),
        ensures
            final(self).ready(),
            final(self).setting() == old(self).setting(),
            final(self).heard() == old(self).heard().push(
                CoreTold::LongDisconnect { taskid, code, answer },
            ),
    ;

    /// A task is put on the short-link queue.
    fn shortlink_start(&mut self, now: u64, task: &Task, prepare: PrepareProfile) -> (answer: bool)
        requires
            old(self).ready(),
        ensures
            final(self).ready(),
            final(self).setting() == old(self).setting(),
            final(self).heard() == old(self).heard().push(
                CoreTold::ShortStart { now, task: *task, prepare, answer },
            ),
    ;

    /// A task is taken off the short-link queue.
    fn shortlink_stop(&mut self, taskid: u32) -> (answer: bool)
        requires
            old(self).ready(),
        ensures
            final(self).ready(),
            final(self).setting() == old(self).setting(),
            final(self).heard() == old(self).heard().push(CoreTold::ShortStop { taskid, answer }),
    ;

    /// Whether the short-link queue has a task.
    fn shortlink_has(&mut self, taskid: u32) -> (answer: bool)
        requires
            old(self).ready(),
        ensures
            final(self).ready(),
            final(self).setting() == old(self).setting(),
            final(self).heard() == old(self).heard().push(CoreTold::ShortHas { taskid, answer }),
    ;

    /// The short-link queue drops everything.
    fn shortlink_clear(&mut self)
        requires
            old(self).ready(),
        ensures
            final(self).ready(),
            final(self).setting() == old(self).setting(),
            final(self).heard() == old(self).heard().push(CoreTold::ShortClear),
    ;

    /// Every task that was out on the short link is tried again.
    fn shortlink_redo(&mut self, now: u64)
        requires
            old(self).ready(),
        ensures
            final(self).ready(),
            final(self).setting() == old(self).setting(),
            final(self).heard() == old(self).heard().push(CoreTold::ShortRedo { now }),
    ;

    /// The timeouts of the short-link queue are looked at.
    fn shortlink_touch(&mut self, now: u64)
        requires
            old(self).ready(),
        ensures
            final(self).ready(),
            final(self).setting() == old(self).setting(),
            final(self).heard() == old(self).heard().push(CoreTold::ShortTouch { now }),
    ;

    /// The short-link queue forgets the network it learned.
    fn shortlink_reset_timeout(&mut self)
        requires
            old(self).ready(),
        ensures
            final(self).ready(),
            final(self).setting() == old(self).setting(),
            final(self).heard() == old(self).heard().push(CoreTold::ShortResetTimeout),
    ;

    /// Every task on the short link is looked at again.
    fn shortlink_retry(
        &mut self,
        now: u64,
        err_type: ErrCmdType,
        err_code: i32,
        handle: TaskFailHandleType,
        src_taskid: u32,
    )
        requires
            old(self).ready(),
        ensures
            final(self).ready(),
            final(self).setting() == old(self).setting(),
            final(self).heard() == old(self).heard().push(
                CoreTold::ShortRetry { now, err_type, err_code, handle, src_taskid },
            ),
    ;

    /// The connect a short-link task ran on, if the queue has the task.
    fn shortlink_profile(&mut self, taskid: u32) -> (answer: Option<ConnectProfile>)
        requires
            old(self).ready(),
        ensures
            final(self).ready(),
            final(self).setting() == old(self).setting(),
            final(self).heard() == old(self).heard().push(
                CoreTold::ShortProfile { taskid, answer: profile_view(answer) },
            ),
    ;

    /// When the short-link queue next has something to do.
    fn shortlink_due(&mut self) -> (answer: Option<u64>)
        requires
            old(self).ready(),
        ensures
            final(self).ready(),
            final(self).setting() == old(self).setting(),
            final(self).heard() == old(self).heard().push(CoreTold::ShortDue { answer }),
    ;

    /// How many short-link tasks failed in a row.
    fn shortlink_fails(&mut self) -> (answer: u32)
        requires
            old(self).ready(),
        ensures
            final(self).ready(),
            final(self).setting() == old(self).setting(),
            final(self).heard() == old(self).heard().push(CoreTold::ShortFails { answer }),
    ;

    /// The zombies hear of a task that was started.
    fn zombie_task_started(&mut self, now: u64)
        requires
            old(self).ready(),
        ensures
            final(self).ready(),
            final(self).setting() == old(self).setting(),
            final(self).heard() == old(self).heard().push(CoreTold::ZombieTaskStarted { now }),
    ;

    /// A zombie is dropped.
    fn zombie_stop(&mut self, taskid: u32) -> (answer: bool)
        requires
            old(self).ready(),
        ensures
            final(self).ready(),
            final(self).setting() == old(self).setting(),
            final(self).heard() == old(self).heard().push(CoreTold::ZombieStop { taskid, answer }),
    ;

    /// Whether a task is a zombie.
    fn zombie_has(&mut self, taskid: u32) -> (answer: bool)
        requires
            old(self).ready(),
        ensures
            final(self).ready(),
            final(self).setting() == old(self).setting(),
            final(self).heard() == old(self).heard().push(CoreTold::ZombieHas { taskid, answer }),
    ;

    /// Every zombie is dropped.
    fn zombie_clear(&mut self)
        requires
            old(self).ready(),
        ensures
            final(self).ready(),
            final(self).setting() == old(self).setting(),
            final(self).heard() == old(self).heard().push(CoreTold::ZombieClear),
    ;

    /// Every zombie is started again.
    fn zombie_redo(&mut self, now: u64)
        requires
            old(self).ready(),
        ensures
            final(self).ready(),
            final(self).setting() == old(self).setting(),
            final(self).heard() == old(self).heard().push(CoreTold::ZombieRedo { now }),
    ;

    /// When the zombies are next looked at.
    fn zombie_due(&mut self) -> (answer: Option<u64>)
        requires
            old(self).ready(),
        ensures
            final(self).ready(),
            final(self).setting() == old(self).setting(),
            final(self).heard() == old(self).heard().push(CoreTold::ZombieDue { answer }),
    ;

    /// The hosts the net source resolved are thrown away.
    fn source_clear_cache(&mut self)
        requires
            old(self).ready(),
        ensures
            final(self).ready(),
            final(self).setting() == old(self).setting(),
            final(self).heard() == old(self).heard().push(CoreTold::ClearCache),
    ;

    /// The net source hears how a pair of a long link did.
    fn source_report_long(&mut self, now: u64, secs: u64, ok: bool, ip: &str, port: u16)
        requires
            old(self).ready(),
        ensures
            final(self).ready(),
            final(self).setting() == old(self).setting(),
            final(self).heard() == old(self).heard().push(
                CoreTold::ReportLong { now, secs, ok, ip: ip@, port },
            ),
    ;

    /// The net source hears how a pair of a short link did.
    fn source_report_short(
        &mut self,
        now: u64,
        secs: u64,
        ok: bool,
        ip: &str,
        host: &str,
        port: u16,
    )
        requires
            old(self).ready(),
        ensures
            final(self).ready(),
            final(self).setting() == old(self).setting(),
            final(self).heard() == old(self).heard().push(
                CoreTold::ReportShort { now, secs, ok, ip: ip@, host: host@, port },
            ),
    ;

    /// The diagnosis hears how a long-link task did.
    fn check_long(&mut self, now: u64, fails: u32, ok: bool)
        requires
            old(self).ready(),
        ensures
            final(self).ready(),
            final(self).setting() == old(self).setting(),
            final(self).heard() == old(self).heard().push(CoreTold::CheckLong { now, fails, ok }),
    ;

    /// The diagnosis hears how a short-link task did.
    fn check_short(&mut self, now: u64, fails: u32, ok: bool)
        requires
            old(self).ready(),
        ensures
            final(self).ready(),
            final(self).setting() == old(self).setting(),
            final(self).heard() == old(self).heard().push(CoreTold::CheckShort { now, fails, ok }),
    ;

    /// The timing sync hears of another network.
    fn sync_network_change(&mut self, now: u64)
        requires
            old(self).ready(),
        ensures
            final(self).ready(),
            final(self).setting() == old(self).setting(),
            final(self).heard() == old(self).heard().push(CoreTold::SyncNetworkChange { now }),
    ;

    /// The timing sync hears of a status of the long link.
    fn sync_status(&mut self, now: u64, status: LongLinkStatus)
        requires
            old(self).ready(),
        ensures
            final(self).ready(),
            final(self).setting() == old(self).setting(),
            final(self).heard() == old(self).heard().push(CoreTold::SyncStatus { now, status }),
    ;

    /// When the timing sync next has something to do.
    fn sync_due(&mut self) -> (answer: Option<u64>)
        requires
            old(self).ready(),
        ensures
            final(self).ready(),
            final(self).setting() == old(self).setting(),
            final(self).heard() == old(self).heard().push(CoreTold::SyncDue { answer }),
    ;

    /// The timing sync stops.
    fn sync_cancel(&mut self)
        requires
            old(self).ready(),
        ensures
            final(self).ready(),
            final(self).setting() == old(self).setting(),
            final(self).heard() == old(self).heard().push(CoreTold::SyncCancel),
    ;

    /// A link is made.
    fn link_make(&mut self, config: &LonglinkConfig, encoder: LongLinkEncoder)
        requires
            old(self).ready(),
        ensures
            final(self).ready(),
            final(self).setting() == (Setting {
                links: old(self).setting().links.insert(
                    config.name@,
                    final(self).setting().links[config.name@],
                ),
                ..old(self).setting()
            }),
            final(self).heard() == old(self).heard().push(
                CoreTold::LinkMake { config: *config, encoder },
            ),
    ;

    /// A link is let go.
    fn link_drop(&mut self, name: &str)
        requires
            old(self).ready(),
        ensures
            final(self).ready(),
            final(self).setting() == (Setting {
                links: old(self).setting().links.remove(name@),
                ..old(self).setting()
            }),
            final(self).heard() == old(self).heard().push(CoreTold::LinkDrop { name: name@ }),
    ;

    /// Every link is let go.
    fn links_clear(&mut self)
        requires
            old(self).ready(),
        ensures
            final(self).ready(),
            final(self).setting() == (Setting { links: Map::empty(), ..old(self).setting() }),
            final(self).heard() == old(self).heard().push(CoreTold::LinksClear),
    ;

    /// Where a link is.
    fn link_status(&mut self, name: &str) -> (answer: LongLinkStatus)
        requires
            old(self).ready(),
        ensures
            final(self).ready(),
            final(self).setting() == old(self).setting(),
            answer == status_in(old(self).setting().links, name@),
            final(self).heard() == old(self).heard().push(
                CoreTold::LinkStatus { name: name@, answer },
            ),
    ;

    /// A link is made sure of.
    fn link_make_sure(&mut self, name: &str)
        requires
            old(self).ready(),
        ensures
            final(self).ready(),
            final(self).setting() == (Setting {
                links: final(self).setting().links,
                ..old(self).setting()
            }),
            moved_at(old(self).setting().links, final(self).setting().links, name@),
            final(self).heard() == old(self).heard().push(CoreTold::LinkMakeSure { name: name@ }),
    ;

    /// The keeper of a link holds a mapping up.
    fn link_keep_signal(&mut self, name: &str, now: u64)
        requires
            old(self).ready(),
        ensures
            final(self).ready(),
            final(self).setting() == (Setting {
                links: final(self).setting().links,
                ..old(self).setting()
            }),
            moved_at(old(self).setting().links, final(self).setting().links, name@),
            final(self).heard() == old(self).heard().push(
                CoreTold::LinkKeepSignal { name: name@, now },
            ),
    ;

    /// The keeper of a link stops.
    fn link_stop_signal(&mut self, name: &str)
        requires
            old(self).ready(),
        ensures
            final(self).ready(),
            final(self).setting() == old(self).setting(),
            final(self).heard() == old(self).heard().push(CoreTold::LinkStopSignal { name: name@ }),
    ;

    /// Whether the long link is used: the queues go by it where a task that failed
    /// may be saved.
    fn use_long_link(&mut self, use_long_link: bool)
        requires
            old(self).ready(),
        ensures
            final(self).ready(),
            final(self).setting() == (Setting { use_long_link, ..old(self).setting() }),
            final(self).heard() == old(self).heard().push(CoreTold::UseLongLink { use_long_link }),
    ;

    /// The oldest thing a queue asked of the core while it was running.
    fn next_pending(&mut self) -> (answer: Option<FollowUp>)
        requires
            old(self).ready(),
        ensures
            final(self).ready(),
            final(self).setting() == old(self).setting(),
            final(self).heard() == old(self).heard().push(
                CoreTold::NextPending { answer: followed_by(answer) },
            ),
    ;
}

/// What the oldest thing that was asked is.
pub open spec fn followed_by(next: Option<FollowUp>) -> Option<FollowView> {
    match next {
        Some(follow_up) => Some(follow_up@),
        None => None,
    }
}

/// A link that was made outside.
pub struct MadeView {
    pub link: LinkView,
    /// What its checks had heard by then.
    pub checks: Seq<TimerTold>,
    /// The reading it was made at.
    pub now: u64,
}

/// One thing a piece was told, or one thing it was asked and the answer.
#[allow(inconsistent_fields)]
pub enum CoreTold {
    TaskProcess { task: Task, answer: Task },
    TaskEnd {
        taskid: u32,
        user_id: Seq<char>,
        err_type: ErrCmdType,
        err_code: i32,
        profile: ConnectView,
        answer: i32,
    },
    NetInfo { answer: i32 },
    UnixSecs { answer: u64 },
    ConnectStatus { all: NetStatus, longlink: NetStatus },
    LongErr { err_type: ErrCmdType, err_code: i32, ip: Seq<char>, port: u16 },
    ShortErr { err_type: ErrCmdType, err_code: i32, ip: Seq<char>, host: Seq<char>, port: u16 },
    StatusChange { status: LongLinkStatus },
    LongStart { now: u64, task: Task, channel: i32, answer: bool },
    LongStop { taskid: u32, answer: bool },
    LongHas { taskid: u32, answer: bool },
    LongCount { name: Seq<char>, answer: usize },
    LongClear,
    LongRedo { now: u64 },
    LongTouch { now: u64 },
    LongNetworkChange { now: u64 },
    LongResetTimeout,
    LongRetry {
        now: u64,
        err_type: ErrCmdType,
        err_code: i32,
        handle: TaskFailHandleType,
        src_taskid: u32,
        user_id: Seq<char>,
    },
    LongProfile { taskid: u32, answer: ConnectView },
    LongDue { answer: Option<u64> },
    LongFails { answer: u32 },
    LongAdd { config: LonglinkConfig, answer: bool },
    LongRemove { now: u64, name: Seq<char> },
    LongDisconnect { taskid: u32, code: DisconnectInternalCode, answer: bool },
    ShortStart { now: u64, task: Task, prepare: PrepareProfile, answer: bool },
    ShortStop { taskid: u32, answer: bool },
    ShortHas { taskid: u32, answer: bool },
    ShortClear,
    ShortRedo { now: u64 },
    ShortTouch { now: u64 },
    ShortResetTimeout,
    ShortRetry {
        now: u64,
        err_type: ErrCmdType,
        err_code: i32,
        handle: TaskFailHandleType,
        src_taskid: u32,
    },
    ShortProfile { taskid: u32, answer: Option<ConnectView> },
    ShortDue { answer: Option<u64> },
    ShortFails { answer: u32 },
    ZombieTaskStarted { now: u64 },
    ZombieStop { taskid: u32, answer: bool },
    ZombieHas { taskid: u32, answer: bool },
    ZombieClear,
    ZombieRedo { now: u64 },
    ZombieDue { answer: Option<u64> },
    ClearCache,
    ReportLong { now: u64, secs: u64, ok: bool, ip: Seq<char>, port: u16 },
    ReportShort { now: u64, secs: u64, ok: bool, ip: Seq<char>, host: Seq<char>, port: u16 },
    CheckLong { now: u64, fails: u32, ok: bool },
    CheckShort { now: u64, fails: u32, ok: bool },
    SyncNetworkChange { now: u64 },
    SyncStatus { now: u64, status: LongLinkStatus },
    SyncDue { answer: Option<u64> },
    SyncCancel,
    LinkMake { config: LonglinkConfig, encoder: LongLinkEncoder },
    LinkDrop { name: Seq<char> },
    LinksClear,
    LinkStatus { name: Seq<char>, answer: LongLinkStatus },
    LinkMakeSure { name: Seq<char> },
    LinkKeepSignal { name: Seq<char>, now: u64 },
    LinkStopSignal { name: Seq<char> },
    UseLongLink { use_long_link: bool },
    NextPending { answer: Option<FollowView> },
    /// The zombies were asked which tasks to start again.
    ZombiesGiven { now: u64, answer: Seq<Task> },
    /// A link was made outside.
    LinkMade { config: LonglinkConfig, encoder: LongLinkEncoder, answer: MadeView },
    /// The keeper of a link was asked which signals it wants on it.
    LinkSignals { name: Seq<char>, now: u64, answer: Seq<u32> },
    /// The long-link queue was run, past the core.
    QueueRan { now: u64 },
    /// A task of the long-link queue went out.
    QueueSent { now: u64, taskid: u32, answer: bool },
    /// Some of an answer came in.
    QueueReceived { now: u64, taskid: u32, cached_size: usize, total_size: usize, answer: bool },
    /// Every task that was out on a channel was tried again.
    QueueRedone { now: u64, name: Seq<char> },
    /// The long-link queue went away.
    QueueClosed { now: u64 },
    /// A task ended, past the long-link queue.
    CalledBack { ending: Ending, answer: i32 },
    /// A queue outside asked something of the core.
    Asked { next: FollowView },
    /// Hosts were added to those a long link may not use tls for.
    QueueForbidTls { hosts: Seq<Seq<char>> },
    /// A long link answered the queue.
    QueueAnswered { now: u64, response: ResponseView, answer: Option<RespHandle> },
}

/// The net core.
pub struct NetCore<H> {
    /// The pieces, and the app.
    pub host: H,
    /// The names of the long links there are.
    pub links: Vec<String>,
    /// The main one of them.
    pub default_link: Option<String>,
    pub use_long_link: bool,
    pub released: bool,
    /// How many short-link errors there were in a row.
    pub shortlink_error_count: i32,
    /// A short link has tried.
    pub shortlink_try_flag: bool,
    pub all_status: NetStatus,
    pub longlink_status: NetStatus,
    pub packer_encoder_version: i32,
    pub packer_encoder_name: String,
    pub dynamic_timeout: DynamicTimeout,
    /// The encoder every long link is made with.
    pub encoder: LongLinkEncoder,
}

/// The contents of a [`NetCore`].
pub struct CoreView {
    pub links: Set<Seq<char>>,
    pub default_link: Option<String>,
    pub use_long_link: bool,
    pub released: bool,
    pub error_count: i32,
    pub try_flag: bool,
    pub all_status: NetStatus,
    pub longlink_status: NetStatus,
    pub encoder_version: i32,
    pub encoder_name: Seq<char>,
    pub timeout: DynamicView,
    pub encoder: LongLinkEncoder,
    /// Where each link is.
    pub statuses: Map<Seq<char>, LongLinkStatus>,
    pub told: Seq<CoreTold>,
    /// The pieces are sound, they go by the long link as the core does, and the
    /// links there are are those the core knows.
    pub ready: bool,
}

impl<H: CoreHost> View for NetCore<H> {
    type V = CoreView;

    open spec fn view(&self) -> CoreView {
        CoreView {
            links: texts(self.links@).to_set(),
            default_link: self.default_link,
            use_long_link: self.use_long_link,
            released: self.released,
            error_count: self.shortlink_error_count,
            try_flag: self.shortlink_try_flag,
            all_status: self.all_status,
            longlink_status: self.longlink_status,
            encoder_version: self.packer_encoder_version,
            encoder_name: self.packer_encoder_name@,
            timeout: self.dynamic_timeout@,
            encoder: self.encoder,
            statuses: self.host.setting().links,
            told: self.host.heard(),
            ready: {
                &&& self.host.ready()
                &&& self.host.setting().use_long_link == self.use_long_link
                &&& self.host.setting().links.dom() == texts(self.links@).to_set()
            },
        }
    }
}

/// What the start of a task was answered, question by question.
pub struct StartAnswers {
    /// The task as the app left it.
    pub processed: Task,
    pub net: i32,
    /// How many tasks of the channel were out.
    pub count: usize,
    /// The task the queue was handed.
    pub handed: Task,
    /// The queue took it.
    pub started: bool,
    /// The code the app remembers the end with.
    pub end: i32,
}

/// What is said of a task that is over before it started.
pub open spec fn end_word(task: Task, err_code: i32, answer: i32) -> CoreTold {
    CoreTold::TaskEnd {
        taskid: task.taskid,
        user_id: task.user_id@,
        err_type: ErrCmdType::Local,
        err_code,
        profile: ConnectView::blank(),
        answer,
    }
}

/// The same task, with the fallback hosts of the short link its hosts.
pub open spec fn falls_back(handed: Task, task: Task) -> bool {
    &&& handed == (Task {
        shortlink_fallback_hostlist: handed.shortlink_fallback_hostlist,
        ..task
    })
    &&& handed.shortlink_fallback_hostlist@ == task.shortlink_host_list@
}

impl CoreView {
    /// Things were said.
    pub open spec fn heard_all(self, words: Seq<CoreTold>) -> CoreView {
        CoreView { told: self.told + words, ..self }
    }

    /// There is a link of that name.
    pub open spec fn has_link(self, name: Seq<char>) -> bool {
        self.links.contains(name)
    }

    /// A task without a channel name is one of the main link.
    pub open spec fn named(self, task: Task) -> Task {
        match self.default_link {
            Some(name) => if task.channel_name@.len() == 0 {
                Task { channel_name: name, ..task }
            } else {
                task
            },
            None => task,
        }
    }

    /// Where the link of a task is.
    pub open spec fn link_of(self, task: Task) -> LongLinkStatus {
        status_in(self.statuses, task.channel_name@)
    }

    /// A task that cares about the network asks about it, and about its link
    /// where there is no network.
    #[verifier::opaque]
    pub open spec fn network_words(self, task: Task, a: StartAnswers) -> Seq<CoreTold> {
        if !task.network_status_sensitive {
            seq![]
        } else if a.net == NO_NET && self.use_long_link && self.has_link(task.channel_name@) {
            seq![
                CoreTold::NetInfo { answer: a.net },
                CoreTold::LinkStatus { name: task.channel_name@, answer: self.link_of(task) },
            ]
        } else {
            seq![CoreTold::NetInfo { answer: a.net }]
        }
    }

    /// There is no network for a task that cares, and its link is down.
    pub open spec fn no_network(self, task: Task, a: StartAnswers) -> bool {
        &&& task.network_status_sensitive
        &&& a.net == NO_NET
        &&& self.use_long_link
        &&& self.has_link(task.channel_name@)
        &&& self.link_of(task) != LongLinkStatus::Connected
    }

    /// The link of a task is up.
    pub open spec fn link_up(self, task: Task) -> bool {
        self.has_link(task.channel_name@) && self.link_of(task) == LongLinkStatus::Connected
    }

    /// What is asked to choose the channel.
    #[verifier::opaque]
    pub open spec fn choose_words(self, task: Task, a: StartAnswers) -> Seq<CoreTold> {
        let asked = CoreTold::LinkStatus { name: task.channel_name@, answer: self.link_of(task) };
        if !self.has_link(task.channel_name@) {
            seq![]
        } else if self.link_up(task) && task.channel_strategy == Task::CHANNEL_FAST_STRATEGY {
            seq![asked, CoreTold::LongCount { name: task.channel_name@, answer: a.count }]
        } else {
            seq![asked]
        }
    }

    /// The long link takes the task: it is up, and for a fast task nothing else
    /// of that channel is out.
    pub open spec fn long_takes(self, task: Task, a: StartAnswers) -> bool {
        self.link_up(task) && !(task.channel_strategy == Task::CHANNEL_FAST_STRATEGY && a.count
            > FAST_SEND_LONGLINK_TASK_CNT_LIMIT)
    }

    /// The channel a task goes out on: a task that may use either is put on the
    /// long link while that takes it.
    pub open spec fn channel(self, task: Task, a: StartAnswers) -> i32 {
        if !self.use_long_link {
            Task::CHANNEL_SHORT
        } else if task.channel_select == Task::CHANNEL_ALL || task.channel_select
            == Task::CHANNEL_BOTH {
            if self.long_takes(task, a) {
                Task::CHANNEL_LONG
            } else {
                Task::CHANNEL_SHORT
            }
        } else if task.channel_select == Task::CHANNEL_NORMAL {
            Task::CHANNEL_SHORT
        } else {
            task.channel_select
        }
    }

    /// A channel is one of the two queues'.
    pub open spec fn is_queue(channel: i32) -> bool {
        channel == Task::CHANNEL_MINOR_LONG || channel == Task::CHANNEL_LONG || channel
            == Task::CHANNEL_SHORT
    }

    /// The task is put on the queue of its channel.
    #[verifier::opaque]
    pub open spec fn put_words(self, now: u64, channel: i32, a: StartAnswers) -> Seq<CoreTold> {
        if channel == Task::CHANNEL_MINOR_LONG || channel == Task::CHANNEL_LONG {
            seq![CoreTold::LongStart { now, task: a.handed, channel, answer: a.started }]
        } else if channel == Task::CHANNEL_SHORT {
            seq![
                CoreTold::ShortStart {
                    now,
                    task: a.handed,
                    prepare: PrepareProfile {
                        start_task_call_time: now,
                        begin_process_hosts_time: now,
                        end_process_hosts_time: now,
                    },
                    answer: a.started,
                },
            ]
        } else {
            seq![]
        }
    }

    /// The task a queue is handed: a task that is put on the short link while
    /// the long link is used falls back to its own hosts.
    pub open spec fn hands(self, task: Task, a: StartAnswers) -> bool {
        if self.channel(task, a) == Task::CHANNEL_SHORT && self.use_long_link {
            falls_back(a.handed, task)
        } else {
            a.handed == task
        }
    }

    /// A queue took the task.
    pub open spec fn queue_takes(self, task: Task, a: StartAnswers) -> bool {
        CoreView::is_queue(self.channel(task, a)) && a.started
    }

    /// What becomes of a task whose channel is chosen.
    #[verifier::opaque]
    pub open spec fn out_words(self, now: u64, task: Task, a: StartAnswers) -> Seq<CoreTold> {
        let put = self.choose_words(task, a) + self.put_words(now, self.channel(task, a), a);
        if !self.queue_takes(task, a) {
            put.push(end_word(task, LOCAL_START_TASK_FAIL, a.end))
        } else if self.use_long_link {
            put.push(CoreTold::ZombieTaskStarted { now })
        } else {
            put
        }
    }

    /// What is said of a task that is started, or of why it is not.
    #[verifier::opaque]
    pub open spec fn start_words(self, now: u64, task: Task, a: StartAnswers) -> Seq<CoreTold> {
        let processed = CoreTold::TaskProcess { task: with_defaults(task), answer: a.processed };
        let named = self.named(a.processed);
        if self.released {
            seq![]
        } else if !is_acceptable(task) {
            seq![end_word(task, LOCAL_TASK_PARAM, a.end)]
        } else if a.processed.channel_select == 0 {
            seq![processed, end_word(a.processed, LOCAL_CHANNEL_SELECT, a.end)]
        } else if self.no_network(named, a) {
            (seq![processed] + self.network_words(named, a)).push(
                end_word(named, LOCAL_NO_NET, a.end),
            )
        } else {
            (seq![processed] + self.network_words(named, a)) + self.out_words(now, named, a)
        }
    }

    /// The task gets as far as its queue.
    pub open spec fn gets_out(self, task: Task, a: StartAnswers) -> bool {
        &&& !self.released
        &&& is_acceptable(task)
        &&& a.processed.channel_select != 0
        &&& !self.no_network(self.named(a.processed), a)
    }

    /// A queue took the task that was started.
    pub open spec fn starts(self, task: Task, a: StartAnswers) -> bool {
        self.gets_out(task, a) && self.queue_takes(self.named(a.processed), a)
    }
}

/// What was said in two goes was said.
proof fn lemma_heard(core: CoreView, a: Seq<CoreTold>, b: Seq<CoreTold>)
    ensures
        core.heard_all(a).heard_all(b) == core.heard_all(a + b),
{
    lemma_grouped(core.told, a, b);
}

impl<H: CoreHost> NetCore<H> {
    /// Something is said that there is one word for.
    proof fn lemma_one(before: CoreView, word: CoreTold)
        ensures
            before.heard_all(seq![word]) == (CoreView { told: before.told.push(word), ..before }),
    {
        lemma_said(before.told, word, word, word);
    }

    /// A task is over before it started.
    fn end_task(&mut self, task: &Task, err_code: i32) -> (answer: i32)
        requires
            old(self)@.ready,
        ensures
            final(self)@.ready,
            final(self)@ == old(self)@.heard_all(seq![end_word(*task, err_code, answer)]),
    {
        let blank = ConnectProfile::new();
        let answer: i32 = self.host.on_task_end(
            task.taskid,
            task.user_id.as_str(),
            ErrCmdType::Local,
            err_code,
            &blank,
        );
        proof {
            Self::lemma_one(old(self)@, end_word(*task, err_code, answer));
        }
        answer
    }

    /// Where a link is.
    fn ask_link(&mut self, name: &str) -> (status: LongLinkStatus)
        requires
            old(self)@.ready,
        ensures
            final(self)@.ready,
            status == status_in(old(self)@.statuses, name@),
            final(self)@ == old(self)@.heard_all(
                seq![CoreTold::LinkStatus { name: name@, answer: status }],
            ),
    {
        let status = self.host.link_status(name);
        proof {
            Self::lemma_one(old(self)@, CoreTold::LinkStatus { name: name@, answer: status });
        }
        status
    }

    /// Whether there is a link of that name.
    fn is_link(&self, name: &str) -> (is: bool)
        ensures
            is == self@.has_link(name@),
    {
        let found = holds_text(&self.links, name);
        found
    }

    /// Whether there is no network for a task that cares.
    fn find_no_network(&mut self, task: &Task, Ghost(a): Ghost<StartAnswers>) -> (r: (
        bool,
        Ghost<StartAnswers>,
    ))
        requires
            old(self)@.ready,
        ensures
            final(self)@.ready,
            r.1@ == (StartAnswers { net: r.1@.net, ..a }),
            r.0 == old(self)@.no_network(*task, r.1@),
            final(self)@ == old(self)@.heard_all(old(self)@.network_words(*task, r.1@)),
    {
        proof {
            reveal(CoreView::network_words);
            lemma_said(
                self.host.heard(),
                CoreTold::LongClear,
                CoreTold::LongClear,
                CoreTold::LongClear,
            );
        }
        if !task.network_status_sensitive {
            return (false, Ghost(a));
        }
        let net: i32 = self.host.net_info();
        let ghost b = StartAnswers { net, ..a };
        proof {
            Self::lemma_one(old(self)@, CoreTold::NetInfo { answer: net });
        }
        if net != NO_NET || !self.use_long_link || !self.is_link(task.channel_name.as_str()) {
            return (false, Ghost(b));
        }
        let status = self.ask_link(task.channel_name.as_str());
        proof {
            let first = CoreTold::NetInfo { answer: net };
            let second = CoreTold::LinkStatus { name: task.channel_name@, answer: status };
            lemma_heard(old(self)@, seq![first], seq![second]);
            assert(seq![first] + seq![second] =~= seq![first, second]);
        }
        (status != LongLinkStatus::Connected, Ghost(b))
    }

    /// The channel a task goes out on.
    fn choose_channel(&mut self, task: &Task, Ghost(a): Ghost<StartAnswers>) -> (r: (
        i32,
        Ghost<StartAnswers>,
    ))
        requires
            old(self)@.ready,
        ensures
            final(self)@.ready,
            r.1@ == (StartAnswers { count: r.1@.count, ..a }),
            r.0 == old(self)@.channel(*task, r.1@),
            final(self)@ == old(self)@.heard_all(old(self)@.choose_words(*task, r.1@)),
    {
        let (up, Ghost(b)) = self.ask_long(task, Ghost(a));
        if !self.use_long_link {
            return (Task::CHANNEL_SHORT, Ghost(b));
        }
        let select: i32 = task.channel_select;
        let channel: i32 = if select == Task::CHANNEL_ALL || select == Task::CHANNEL_BOTH {
            if up {
                Task::CHANNEL_LONG
            } else {
                Task::CHANNEL_SHORT
            }
        } else if select == Task::CHANNEL_NORMAL {
            Task::CHANNEL_SHORT
        } else {
            select
        };
        (channel, Ghost(b))
    }

    /// Whether the long link takes a task.
    fn ask_long(&mut self, task: &Task, Ghost(a): Ghost<StartAnswers>) -> (r: (
        bool,
        Ghost<StartAnswers>,
    ))
        requires
            old(self)@.ready,
        ensures
            final(self)@.ready,
            r.1@ == (StartAnswers { count: r.1@.count, ..a }),
            r.0 == old(self)@.long_takes(*task, r.1@),
            final(self)@ == old(self)@.heard_all(old(self)@.choose_words(*task, r.1@)),
    {
        proof {
            reveal(CoreView::choose_words);
            lemma_said(
                self.host.heard(),
                CoreTold::LongClear,
                CoreTold::LongClear,
                CoreTold::LongClear,
            );
        }
        if !self.is_link(task.channel_name.as_str()) {
            return (false, Ghost(a));
        }
        let chosen = self.ask_link(task.channel_name.as_str());
        if chosen != LongLinkStatus::Connected {
            return (false, Ghost(a));
        }
        if task.channel_strategy != Task::CHANNEL_FAST_STRATEGY {
            return (true, Ghost(a));
        }
        let count: usize = self.host.longlink_count(task.channel_name.as_str());
        let ghost b = StartAnswers { count, ..a };
        proof {
            let first = CoreTold::LinkStatus { name: task.channel_name@, answer: chosen };
            let second = CoreTold::LongCount { name: task.channel_name@, answer: count };
            lemma_said(old(self).host.heard(), first, second, second);
        }
        (count <= FAST_SEND_LONGLINK_TASK_CNT_LIMIT, Ghost(b))
    }
}

impl<H: CoreHost> NetCore<H> {
    /// The task is put on the queue of its channel.
    fn put_task(&mut self, now: u64, task: Task, channel: i32, Ghost(a): Ghost<StartAnswers>) -> (r:
        (bool, Task, Ghost<StartAnswers>))
        requires
            old(self)@.ready,
        ensures
            final(self)@.ready,
            r.2@ == (StartAnswers { handed: r.1, started: r.2@.started, ..a }),
            r.0 == (CoreView::is_queue(channel) && r.2@.started),
            if channel == Task::CHANNEL_SHORT && old(self)@.use_long_link {
                falls_back(r.1, task)
            } else {
                r.1 == task
            },
            final(self)@ == old(self)@.heard_all(old(self)@.put_words(now, channel, r.2@)),
    {
        proof {
            reveal(CoreView::put_words);
            lemma_said(
                self.host.heard(),
                CoreTold::LongClear,
                CoreTold::LongClear,
                CoreTold::LongClear,
            );
        }
        if channel == Task::CHANNEL_MINOR_LONG || channel == Task::CHANNEL_LONG {
            let started = self.host.longlink_start(now, &task, channel);
            proof {
                let word = CoreTold::LongStart { now, task, channel, answer: started };
                Self::lemma_one(old(self)@, word);
            }
            return (started, task, Ghost(StartAnswers { handed: task, started, ..a }));
        }
        if channel != Task::CHANNEL_SHORT {
            return (false, task, Ghost(StartAnswers { handed: task, ..a }));
        }
        let mut handed = task;
        if self.use_long_link {
            handed.shortlink_fallback_hostlist = copy_texts(&handed.shortlink_host_list);
        }
        let prepare = PrepareProfile {
            start_task_call_time: now,
            begin_process_hosts_time: now,
            end_process_hosts_time: now,
        };
        let started = self.host.shortlink_start(now, &handed, prepare);
        proof {
            let word = CoreTold::ShortStart { now, task: handed, prepare, answer: started };
            Self::lemma_one(old(self)@, word);
        }
        (started, handed, Ghost(StartAnswers { handed, started, ..a }))
    }

    /// The channel is chosen and the task goes out, or is over.
    fn send_out(&mut self, now: u64, task: Task, Ghost(a): Ghost<StartAnswers>) -> (r: (
        bool,
        Ghost<StartAnswers>,
    ))
        requires
            old(self)@.ready,
        ensures
            final(self)@.ready,
            r.1@ == (StartAnswers {
                count: r.1@.count,
                handed: r.1@.handed,
                started: r.1@.started,
                end: r.1@.end,
                ..a
            }),
            old(self)@.hands(task, r.1@),
            r.0 == old(self)@.queue_takes(task, r.1@),
            final(self)@ == old(self)@.heard_all(old(self)@.out_words(now, task, r.1@)),
    {
        let ghost before = self@;
        let (channel, Ghost(b)) = self.choose_channel(&task, Ghost(a));
        let ghost chosen = self@;
        let (started, handed, Ghost(c)) = self.put_task(now, task, channel, Ghost(b));
        proof {
            lemma_chosen(before, task, b, c);
            lemma_put_core(before, chosen, now, channel, c);
            lemma_heard(
                before,
                before.choose_words(task, b),
                before.put_words(now, channel, c),
            );
        }
        if !started {
            let end: i32 = self.end_task(&handed, LOCAL_START_TASK_FAIL);
            let ghost d = StartAnswers { end, ..c };
            proof {
                lemma_chosen(before, task, c, d);
                lemma_put(before, now, channel, c, d);
                let put = before.choose_words(task, d) + before.put_words(now, channel, d);
                let word = end_word(task, LOCAL_START_TASK_FAIL, end);
                assert(end_word(handed, LOCAL_START_TASK_FAIL, end) == word);
                lemma_heard(before, put, seq![word]);
                lemma_said(put, word, word, word);
                reveal(CoreView::out_words);
            }
            return (false, Ghost(d));
        }
        if self.use_long_link {
            self.host.zombie_task_started(now);
            proof {
                let word = CoreTold::ZombieTaskStarted { now };
                let put = before.choose_words(task, c) + before.put_words(now, channel, c);
                Self::lemma_one(before.heard_all(put), word);
                lemma_heard(before, put, seq![word]);
                lemma_said(put, word, word, word);
                reveal(CoreView::out_words);
            }
        } else {
            proof {
                reveal(CoreView::out_words);
            }
        }
        (true, Ghost(c))
    }

    /// The app has its chance to change a task.
    fn process_task(&mut self, task: Task) -> (processed: Task)
        requires
            old(self)@.ready,
        ensures
            final(self)@.ready,
            final(self)@ == old(self)@.heard_all(
                seq![CoreTold::TaskProcess { task, answer: processed }],
            ),
    {
        let ghost before = task;
        let processed = self.host.task_process(task);
        proof {
            let word = CoreTold::TaskProcess { task: before, answer: processed };
            Self::lemma_one(old(self)@, word);
        }
        processed
    }

    /// Which queue the task goes out on, and what happens when it cannot go out
    /// at all. `true` is a task a queue took.
    pub fn start_task_at(&mut self, now: u64, task: Task) -> (started: bool)
        requires
            old(self)@.ready,
        ensures
            final(self)@.ready,
            exists|a: StartAnswers|
                {
                    &&& started == #[trigger] old(self)@.starts(task, a)
                    &&& final(self)@ == old(self)@.heard_all(
                        old(self)@.start_words(now, task, a),
                    )
                    &&& old(self)@.gets_out(task, a) ==> old(self)@.hands(
                        old(self)@.named(a.processed),
                        a,
                    )
                },
    {
        let ghost before = self@;
        let ghost first = task;
        let mut task = task;
        let ghost a = StartAnswers {
            processed: task,
            net: 0,
            count: 0,
            handed: task,
            started: false,
            end: 0,
        };
        proof {
            reveal(CoreView::start_words);
            lemma_said(
                self.host.heard(),
                CoreTold::LongClear,
                CoreTold::LongClear,
                CoreTold::LongClear,
            );
        }
        if self.released {
            assert(!before.starts(first, a));
            return false;
        }
        if !valid_and_init_default(&mut task) {
            let end: i32 = self.end_task(&task, LOCAL_TASK_PARAM);
            assert(!before.starts(first, StartAnswers { end, ..a }));
            return false;
        }
        let mut task = self.process_task(task);
        let ghost processed = CoreTold::TaskProcess { task: with_defaults(first), answer: task };
        let ghost b = StartAnswers { processed: task, ..a };
        if task.channel_select == 0 {
            let end: i32 = self.end_task(&task, LOCAL_CHANNEL_SELECT);
            let ghost c = StartAnswers { end, ..b };
            proof {
                let word = end_word(task, LOCAL_CHANNEL_SELECT, end);
                lemma_heard(before, seq![processed], seq![word]);
                assert(seq![processed] + seq![word] =~= seq![processed, word]);
            }
            assert(!before.starts(first, c));
            return false;
        }
        if task.channel_name.as_str().is_empty() {
            if let Some(name) = &self.default_link {
                task.channel_name = name.clone();
            }
        }
        assert(task == before.named(b.processed));
        self.start_named(now, task, Ghost(before), Ghost(first), Ghost(b))
    }

    /// The start of a task whose channel has a name.
    fn start_named(
        &mut self,
        now: u64,
        task: Task,
        Ghost(before): Ghost<CoreView>,
        Ghost(first): Ghost<Task>,
        Ghost(b): Ghost<StartAnswers>,
    ) -> (started: bool)
        requires
            old(self)@.ready,
            !before.released,
            is_acceptable(first),
            b.processed.channel_select != 0,
            task == before.named(b.processed),
            old(self)@ == before.heard_all(
                seq![CoreTold::TaskProcess { task: with_defaults(first), answer: b.processed }],
            ),
        ensures
            final(self)@.ready,
            exists|a: StartAnswers|
                {
                    &&& started == #[trigger] before.starts(first, a)
                    &&& final(self)@ == before.heard_all(before.start_words(now, first, a))
                    &&& before.gets_out(first, a) ==> before.hands(before.named(a.processed), a)
                },
    {
        let ghost processed = CoreTold::TaskProcess {
            task: with_defaults(first),
            answer: b.processed,
        };
        let ghost mid = self@;
        let (none, Ghost(c)) = self.find_no_network(&task, Ghost(b));
        proof {
            reveal(CoreView::start_words);
            lemma_same_core(before, mid, now, task, c);
            lemma_heard(before, seq![processed], before.network_words(task, c));
        }
        let ghost asked = seq![processed] + before.network_words(task, c);
        if none {
            let end: i32 = self.end_task(&task, LOCAL_NO_NET);
            let ghost d = StartAnswers { end, ..c };
            proof {
                let word = end_word(task, LOCAL_NO_NET, end);
                lemma_heard(before, asked, seq![word]);
                lemma_said(asked, word, word, word);
                lemma_network(before, task, c, d);
            }
            assert(!before.starts(first, d));
            return false;
        }
        let ghost at = self@;
        let (started, Ghost(d)) = self.send_out(now, task, Ghost(c));
        proof {
            lemma_network(before, task, c, d);
            lemma_same_core(before, at, now, task, d);
            lemma_heard(before, asked, before.out_words(now, task, d));
        }
        assert(started == before.starts(first, d));
        started
    }
}

/// What the channel is chosen by does not depend on what came later.
proof fn lemma_chosen(core: CoreView, task: Task, a: StartAnswers, b: StartAnswers)
    requires
        a.count == b.count,
    ensures
        core.choose_words(task, a) == core.choose_words(task, b),
        core.channel(task, a) == core.channel(task, b),
{
    reveal(CoreView::choose_words);
}

/// Neither does what the queue was handed.
proof fn lemma_put(core: CoreView, now: u64, channel: i32, a: StartAnswers, b: StartAnswers)
    requires
        a.handed == b.handed,
        a.started == b.started,
    ensures
        core.put_words(now, channel, a) == core.put_words(now, channel, b),
{
    reveal(CoreView::put_words);
}

/// Nor what was said before it.
proof fn lemma_put_core(
    core: CoreView,
    later: CoreView,
    now: u64,
    channel: i32,
    a: StartAnswers,
)
    ensures
        core.put_words(now, channel, a) == later.put_words(now, channel, a),
{
    reveal(CoreView::put_words);
}

/// Nor what the network was.
proof fn lemma_network(core: CoreView, task: Task, a: StartAnswers, b: StartAnswers)
    requires
        a.net == b.net,
    ensures
        core.network_words(task, a) == core.network_words(task, b),
        core.no_network(task, a) == core.no_network(task, b),
{
    reveal(CoreView::network_words);
}

/// What is decided does not depend on what was said before.
proof fn lemma_same_core(core: CoreView, later: CoreView, now: u64, task: Task, a: StartAnswers)
    requires
        later == (CoreView { told: later.told, ..core }),
    ensures
        later.network_words(task, a) == core.network_words(task, a),
        later.no_network(task, a) == core.no_network(task, a),
        later.out_words(now, task, a) == core.out_words(now, task, a),
        later.hands(task, a) == core.hands(task, a),
        later.queue_takes(task, a) == core.queue_takes(task, a),
{
    reveal(CoreView::network_words);
    reveal(CoreView::choose_words);
    reveal(CoreView::put_words);
    reveal(CoreView::out_words);
}

impl CoreView {
    /// The answers the app is given: a core that does not use the long link
    /// has only the short link's; a link that went down is not one the app is
    /// told about at all.
    pub open spec fn answers(self, link: LongLinkStatus) -> Option<(NetStatus, NetStatus)> {
        let tried = if self.try_flag {
            status_of_errors(self.error_count)
        } else {
            NetStatus::Unknown
        };
        match link {
            LongLinkStatus::DisConnected => None,
            LongLinkStatus::ConnectFailed => Some((tried, NetStatus::ServerFailed)),
            LongLinkStatus::ConnectIdle | LongLinkStatus::Connecting => Some(
                (
                    if tried == NetStatus::Unknown {
                        NetStatus::Connecting
                    } else {
                        tried
                    },
                    NetStatus::Connecting,
                ),
            ),
            LongLinkStatus::Connected => Some((NetStatus::Connected, NetStatus::Connected)),
        }
    }

    /// The two answers are remembered, and the app is given them.
    pub open spec fn status_told(self, all: NetStatus, longlink: NetStatus) -> CoreView {
        CoreView {
            all_status: all,
            longlink_status: longlink,
            told: self.told.push(CoreTold::ConnectStatus { all, longlink }),
            ..self
        }
    }

    /// The main link is there to ask about.
    pub open spec fn has_default(self) -> bool {
        self.default_link matches Some(name) && self.has_link(name@)
    }

    /// Where the main link is; one there is not is idle.
    pub open spec fn default_status(self) -> LongLinkStatus {
        match self.default_link {
            Some(name) => status_in(self.statuses, name@),
            None => LongLinkStatus::ConnectIdle,
        }
    }

    /// The main link is asked where it is.
    pub open spec fn default_asked(self, link: LongLinkStatus) -> CoreView {
        CoreView {
            told: self.told.push(
                CoreTold::LinkStatus { name: self.default_link.unwrap()@, answer: link },
            ),
            ..self
        }
    }

    /// A long link that is up starts the count of short-link errors over.
    pub open spec fn calmed(self, link: LongLinkStatus) -> CoreView {
        CoreView {
            error_count: if link == LongLinkStatus::Connected {
                0
            } else {
                self.error_count
            },
            try_flag: self.try_flag && link != LongLinkStatus::Connected,
            ..self
        }
    }

    /// The app is told what the connection is like.
    #[verifier::opaque]
    pub open spec fn status_called(self) -> CoreView {
        let link = self.default_status();
        if !self.use_long_link {
            self.status_told(
                if self.error_count >= SHORTLINK_ERR_TIME {
                    NetStatus::ServerFailed
                } else {
                    NetStatus::Connected
                },
                NetStatus::Unknown,
            )
        } else if !self.has_default() {
            self
        } else {
            match self.answers(link) {
                Some((all, longlink)) => self.default_asked(link).calmed(link).status_told(
                    all,
                    longlink,
                ),
                None => self.default_asked(link),
            }
        }
    }
}

impl<H: CoreHost> NetCore<H> {
    /// The two answers are remembered, and the app is given them.
    fn report_status(&mut self, all: NetStatus, longlink: NetStatus)
        requires
            old(self)@.ready,
        ensures
            final(self)@.ready,
            final(self)@ == old(self)@.status_told(all, longlink),
    {
        self.all_status = all;
        self.longlink_status = longlink;
        self.host.report_connect_status(all, longlink);
    }

    /// How many short-link errors there have been, as the answer the app is
    /// given.
    fn shortlink_all_status(&self) -> (status: NetStatus)
        ensures
            status == if self@.try_flag {
                status_of_errors(self@.error_count)
            } else {
                NetStatus::Unknown
            },
    {
        if self.shortlink_try_flag {
            shortlink_status(self.shortlink_error_count)
        } else {
            NetStatus::Unknown
        }
    }

    /// Where the main link is.
    fn default_link_status(&mut self) -> (r: Option<LongLinkStatus>)
        requires
            old(self)@.ready,
        ensures
            final(self)@.ready,
            match r {
                Some(link) => {
                    &&& old(self)@.has_default()
                    &&& link == old(self)@.default_status()
                    &&& final(self)@ == old(self)@.default_asked(link)
                },
                None => !old(self)@.has_default() && final(self)@ == old(self)@,
            },
    {
        let name = match &self.default_link {
            Some(name) => name.clone(),
            None => {
                return None;
            },
        };
        if !self.is_link(name.as_str()) {
            return None;
        }
        let status = self.host.link_status(name.as_str());
        Some(status)
    }

    /// The app is told what the connection is like, out of the long link's
    /// status and how many short-link errors there have been.
    fn conn_status_call_back(&mut self)
        requires
            old(self)@.ready,
        ensures
            final(self)@.ready,
            final(self)@ == old(self)@.status_called(),
    {
        proof {
            reveal(CoreView::status_called);
        }
        if !self.use_long_link {
            let all = if self.shortlink_error_count >= SHORTLINK_ERR_TIME {
                NetStatus::ServerFailed
            } else {
                NetStatus::Connected
            };
            self.report_status(all, NetStatus::Unknown);
            return;
        }
        let link = match self.default_link_status() {
            Some(link) => link,
            None => {
                return;
            },
        };
        match link {
            LongLinkStatus::DisConnected => {},
            LongLinkStatus::ConnectFailed => {
                let all = self.shortlink_all_status();
                self.report_status(all, NetStatus::ServerFailed);
            },
            LongLinkStatus::ConnectIdle | LongLinkStatus::Connecting => {
                let tried = self.shortlink_all_status();
                let all = if tried == NetStatus::Unknown {
                    NetStatus::Connecting
                } else {
                    tried
                };
                self.report_status(all, NetStatus::Connecting);
            },
            LongLinkStatus::Connected => {
                self.shortlink_error_count = 0;
                self.shortlink_try_flag = false;
                self.report_status(NetStatus::Connected, NetStatus::Connected);
            },
        }
    }
}

/// What an error of a link was answered, question by question.
pub struct ErrorAnswers {
    /// How many tasks failed in a row.
    pub fails: u32,
    /// The unix second.
    pub secs: u64,
}

impl CoreView {
    /// The main link has that name.
    pub open spec fn is_default(self, name: Seq<char>) -> bool {
        self.default_link matches Some(main) && main@ == name
    }

    /// The error is about the pair the long link was on.
    pub open spec fn is_long_pair_error(err_type: ErrCmdType) -> bool {
        !(err_type == ErrCmdType::Dial || err_type == ErrCmdType::Http || err_type
            == ErrCmdType::Server || err_type == ErrCmdType::Local)
    }

    /// The error is about the pair the short link was on.
    pub open spec fn is_short_pair_error(err_type: ErrCmdType) -> bool {
        !(err_type == ErrCmdType::Dial || err_type == ErrCmdType::NetMsgXp || err_type
            == ErrCmdType::Server || err_type == ErrCmdType::Local)
    }

    /// An error of a long link: the diagnosis is told, the app is told when it
    /// is the main link, an answer that came back starts the zombies again, and
    /// the pair is reported to the net source.
    #[verifier::opaque]
    pub open spec fn long_error_words(
        self,
        now: u64,
        name: Seq<char>,
        err_type: ErrCmdType,
        err_code: i32,
        ip: Seq<char>,
        port: u16,
        a: ErrorAnswers,
    ) -> Seq<CoreTold> {
        let ok = err_type == ErrCmdType::NoError;
        let judged = seq![CoreTold::LongFails { answer: a.fails }].push(
            CoreTold::CheckLong { now, fails: a.fails, ok },
        );
        let told: Seq<CoreTold> = if self.is_default(name) {
            judged.push(CoreTold::LongErr { err_type, err_code, ip, port })
        } else {
            judged
        };
        let redone: Seq<CoreTold> = if ok {
            told.push(CoreTold::ZombieRedo { now })
        } else {
            told
        };
        if !self.use_long_link || self.released {
            seq![]
        } else if CoreView::is_long_pair_error(err_type) {
            redone.push(CoreTold::UnixSecs { answer: a.secs }).push(
                CoreTold::ReportLong { now, secs: a.secs, ok, ip, port },
            )
        } else {
            redone
        }
    }

    /// How many short-link errors there were in a row, after one more answer.
    pub open spec fn errors_after(self, err_type: ErrCmdType) -> i32 {
        if err_type == ErrCmdType::NoError {
            0
        } else if self.error_count == i32::MAX {
            i32::MAX
        } else {
            (self.error_count + 1) as i32
        }
    }

    /// The diagnosis and the app are told of an error of a short link.
    pub open spec fn short_error_told(
        self,
        now: u64,
        err_type: ErrCmdType,
        err_code: i32,
        ip: Seq<char>,
        host: Seq<char>,
        port: u16,
        a: ErrorAnswers,
    ) -> CoreView {
        CoreView {
            try_flag: true,
            error_count: self.errors_after(err_type),
            ..self
        }.heard_all(
            seq![CoreTold::ShortFails { answer: a.fails }].push(
                CoreTold::CheckShort {
                    now,
                    fails: a.fails,
                    ok: err_type == ErrCmdType::NoError,
                },
            ).push(CoreTold::ShortErr { err_type, err_code, ip, host, port }),
        )
    }

    /// An answer that came back starts the zombies again, and the pair is
    /// reported to the net source.
    #[verifier::opaque]
    pub open spec fn short_pair_words(
        self,
        now: u64,
        err_type: ErrCmdType,
        ip: Seq<char>,
        host: Seq<char>,
        port: u16,
        a: ErrorAnswers,
    ) -> Seq<CoreTold> {
        let ok = err_type == ErrCmdType::NoError;
        let redone: Seq<CoreTold> = if self.use_long_link && ok {
            seq![CoreTold::ZombieRedo { now }]
        } else {
            seq![]
        };
        if CoreView::is_short_pair_error(err_type) {
            redone.push(CoreTold::UnixSecs { answer: a.secs }).push(
                CoreTold::ReportShort { now, secs: a.secs, ok, ip, host, port },
            )
        } else {
            redone
        }
    }

    /// An error of a short link: the same, plus the two counters the connect
    /// status is worked out from.
    #[verifier::opaque]
    pub open spec fn short_error(
        self,
        now: u64,
        err_type: ErrCmdType,
        err_code: i32,
        ip: Seq<char>,
        host: Seq<char>,
        port: u16,
        a: ErrorAnswers,
    ) -> CoreView {
        if self.released {
            self
        } else {
            let told = self.short_error_told(now, err_type, err_code, ip, host, port, a);
            told.status_called().heard_all(
                self.short_pair_words(now, err_type, ip, host, port, a),
            )
        }
    }
}

impl<H: CoreHost> NetCore<H> {
    /// The unix second, and the pair of a long link with it.
    fn report_long(&mut self, now: u64, ok: bool, ip: &str, port: u16) -> (secs: Ghost<u64>)
        requires
            old(self)@.ready,
        ensures
            final(self)@.ready,
            final(self)@ == (CoreView {
                told: old(self)@.told.push(CoreTold::UnixSecs { answer: secs@ }).push(
                    CoreTold::ReportLong { now, secs: secs@, ok, ip: ip@, port },
                ),
                ..old(self)@
            }),
    {
        let secs: u64 = self.host.unix_secs();
        self.host.source_report_long(now, secs, ok, ip, port);
        Ghost(secs)
    }

    /// The unix second, and the pair of a short link with it.
    fn report_short(&mut self, now: u64, ok: bool, ip: &str, host: &str, port: u16) -> (secs: Ghost<
        u64,
    >)
        requires
            old(self)@.ready,
        ensures
            final(self)@.ready,
            final(self)@ == (CoreView {
                told: old(self)@.told.push(CoreTold::UnixSecs { answer: secs@ }).push(
                    CoreTold::ReportShort { now, secs: secs@, ok, ip: ip@, host: host@, port },
                ),
                ..old(self)@
            }),
    {
        let secs: u64 = self.host.unix_secs();
        self.host.source_report_short(now, secs, ok, ip, host, port);
        Ghost(secs)
    }

    /// Every zombie is started again.
    fn redo_zombies(&mut self, now: u64)
        requires
            old(self)@.ready,
        ensures
            final(self)@.ready,
            final(self)@ == (CoreView {
                told: old(self)@.told.push(CoreTold::ZombieRedo { now }),
                ..old(self)@
            }),
    {
        self.host.zombie_redo(now);
    }

    /// Whether the main link has that name.
    fn is_main(&self, name: &str) -> (is: bool)
        ensures
            is == self@.is_default(name@),
    {
        match &self.default_link {
            Some(main) => same_text(main.as_str(), name),
            None => false,
        }
    }

    /// An error of a long link.
    pub fn on_longlink_network_error_at(
        &mut self,
        now: u64,
        name: &str,
        err_type: ErrCmdType,
        err_code: i32,
        ip: &str,
        port: u16,
    )
        requires
            old(self)@.ready,
        ensures
            final(self)@.ready,
            exists|a: ErrorAnswers|
                final(self)@ == old(self)@.heard_all(
                    #[trigger] old(self)@.long_error_words(
                        now,
                        name@,
                        err_type,
                        err_code,
                        ip@,
                        port,
                        a,
                    ),
                ),
    {
        let ghost before = self@;
        let ghost a = ErrorAnswers { fails: 0, secs: 0 };
        proof {
            reveal(CoreView::long_error_words);
            lemma_words(self.host.heard());
        }
        if !self.use_long_link || self.released {
            assert(before.heard_all(
                before.long_error_words(now, name@, err_type, err_code, ip@, port, a),
            ) == before);
            return;
        }
        let fails: u32 = self.host.longlink_fails();
        let ok = err_type == ErrCmdType::NoError;
        self.host.check_long(now, fails, ok);
        if self.is_main(name) {
            self.host.on_longlink_network_err(err_type, err_code, ip, port);
        }
        if ok {
            self.redo_zombies(now);
        }
        let ghost b = ErrorAnswers { fails, ..a };
        if err_type == ErrCmdType::Dial || err_type == ErrCmdType::Http || err_type
            == ErrCmdType::Server || err_type == ErrCmdType::Local {
            assert(self@ == before.heard_all(
                before.long_error_words(now, name@, err_type, err_code, ip@, port, b),
            ));
            return;
        }
        let Ghost(secs) = self.report_long(now, ok, ip, port);
        assert(self@ == before.heard_all(
            before.long_error_words(
                now,
                name@,
                err_type,
                err_code,
                ip@,
                port,
                ErrorAnswers { secs, ..b },
            ),
        ));
    }

    /// An answer that came back starts the zombies again, and the pair is
    /// reported to the net source.
    fn end_short_error(
        &mut self,
        now: u64,
        err_type: ErrCmdType,
        ip: &str,
        host: &str,
        port: u16,
        Ghost(a): Ghost<ErrorAnswers>,
    ) -> (r: Ghost<ErrorAnswers>)
        requires
            old(self)@.ready,
        ensures
            final(self)@.ready,
            r@ == (ErrorAnswers { secs: r@.secs, ..a }),
            final(self)@ == old(self)@.heard_all(
                old(self)@.short_pair_words(now, err_type, ip@, host@, port, r@),
            ),
    {
        proof {
            reveal(CoreView::short_pair_words);
            lemma_words(self.host.heard());
        }
        let ok = err_type == ErrCmdType::NoError;
        if self.use_long_link && ok {
            self.redo_zombies(now);
        }
        if err_type == ErrCmdType::Dial || err_type == ErrCmdType::NetMsgXp || err_type
            == ErrCmdType::Server || err_type == ErrCmdType::Local {
            return Ghost(a);
        }
        let Ghost(secs) = self.report_short(now, ok, ip, host, port);
        Ghost(ErrorAnswers { secs, ..a })
    }

    /// An error of a short link.
    pub fn on_shortlink_network_error_at(
        &mut self,
        now: u64,
        err_type: ErrCmdType,
        err_code: i32,
        ip: &str,
        host: &str,
        port: u16,
    )
        requires
            old(self)@.ready,
        ensures
            final(self)@.ready,
            exists|a: ErrorAnswers|
                final(self)@ == #[trigger] old(self)@.short_error(
                    now,
                    err_type,
                    err_code,
                    ip@,
                    host@,
                    port,
                    a,
                ),
    {
        let ghost before = self@;
        let ghost a = ErrorAnswers { fails: 0, secs: 0 };
        proof {
            reveal(CoreView::short_error);
            lemma_words(self.host.heard());
        }
        if self.released {
            assert(self@ == before.short_error(now, err_type, err_code, ip@, host@, port, a));
            return;
        }
        let fails: u32 = self.host.shortlink_fails();
        let ok = err_type == ErrCmdType::NoError;
        self.host.check_short(now, fails, ok);
        self.host.on_shortlink_network_err(err_type, err_code, ip, host, port);
        self.shortlink_try_flag = true;
        if ok {
            self.shortlink_error_count = 0;
        } else if self.shortlink_error_count < i32::MAX {
            self.shortlink_error_count = self.shortlink_error_count + 1;
        }
        let ghost b = ErrorAnswers { fails, ..a };
        assert(self@ == before.short_error_told(
            now,
            err_type,
            err_code,
            ip@,
            host@,
            port,
            b,
        ));
        self.conn_status_call_back();
        let ghost called = self@;
        let Ghost(d) = self.end_short_error(now, err_type, ip, host, port, Ghost(b));
        proof {
            lemma_called(
                before.short_error_told(now, err_type, err_code, ip@, host@, port, b),
            );
            lemma_pair_words(before, called, now, err_type, ip@, host@, port, d);
        }
        assert(self@ == before.short_error(now, err_type, err_code, ip@, host@, port, d));
    }

    /// The long link went from one status to another: the timing sync is told,
    /// a link that came up starts the zombies again, and the app is told.
    pub fn on_longlink_status_changed_at(&mut self, now: u64, status: LongLinkStatus)
        requires
            old(self)@.ready,
        ensures
            final(self)@.ready,
            final(self)@ == old(self)@.status_changed(now, status),
    {
        let ghost before = self@;
        proof {
            reveal(CoreView::status_changed);
        }
        if !self.use_long_link {
            return;
        }
        self.host.sync_status(now, status);
        if status == LongLinkStatus::Connected {
            self.redo_zombies(now);
        }
        self.conn_status_call_back();
        self.host.on_longlink_status_change(status);
        assert(self@ == before.status_changed(now, status));
    }
}

impl CoreView {
    /// The long link went from one status to another.
    #[verifier::opaque]
    pub open spec fn status_changed(self, now: u64, status: LongLinkStatus) -> CoreView {
        let synced = self.told.push(CoreTold::SyncStatus { now, status });
        let redone = CoreView {
            told: if status == LongLinkStatus::Connected {
                synced.push(CoreTold::ZombieRedo { now })
            } else {
                synced
            },
            ..self
        };
        if !self.use_long_link {
            self
        } else {
            let called = redone.status_called();
            CoreView { told: called.told.push(CoreTold::StatusChange { status }), ..called }
        }
    }
}

/// Telling the app what the connection is like leaves the rest alone.
proof fn lemma_called(core: CoreView)
    ensures
        core.status_called().use_long_link == core.use_long_link,
        core.status_called().released == core.released,
        core.status_called().links == core.links,
        core.status_called().default_link == core.default_link,
{
    reveal(CoreView::status_called);
}

/// What is said of a pair depends on nothing else.
proof fn lemma_pair_words(
    core: CoreView,
    later: CoreView,
    now: u64,
    err_type: ErrCmdType,
    ip: Seq<char>,
    host: Seq<char>,
    port: u16,
    a: ErrorAnswers,
)
    requires
        core.use_long_link == later.use_long_link,
    ensures
        core.short_pair_words(now, err_type, ip, host, port, a) == later.short_pair_words(
            now,
            err_type,
            ip,
            host,
            port,
            a,
        ),
{
    reveal(CoreView::short_pair_words);
}

/// The contents of a connect that may not be there.
pub open spec fn profile_view(profile: Option<ConnectProfile>) -> Option<ConnectView> {
    match profile {
        Some(found) => Some(found@),
        None => None,
    }
}

impl CoreView {
    /// A task is looked for on the long link, among the zombies and on the
    /// short link, until one of them drops it.
    pub open spec fn stop_words(taskid: u32, long: bool, zombie: bool, short: bool) -> Seq<
        CoreTold,
    > {
        let first = seq![CoreTold::LongStop { taskid, answer: long }];
        let second = first.push(CoreTold::ZombieStop { taskid, answer: zombie });
        if long {
            first
        } else if zombie {
            second
        } else {
            second.push(CoreTold::ShortStop { taskid, answer: short })
        }
    }

    /// A task is looked for among the zombies, on the long link and on the
    /// short link, until one of them has it.
    pub open spec fn has_words(taskid: u32, zombie: bool, long: bool, short: bool) -> Seq<
        CoreTold,
    > {
        let first = seq![CoreTold::ZombieHas { taskid, answer: zombie }];
        let second = first.push(CoreTold::LongHas { taskid, answer: long });
        if zombie {
            first
        } else if long {
            second
        } else {
            second.push(CoreTold::ShortHas { taskid, answer: short })
        }
    }

    /// Every queue drops everything.
    pub open spec fn clear_words() -> Seq<CoreTold> {
        seq![CoreTold::LongClear].push(CoreTold::ZombieClear).push(CoreTold::ShortClear)
    }

    /// Every task that was out is cancelled and tried again.
    pub open spec fn redo_words(self, now: u64) -> Seq<CoreTold> {
        let cleared = seq![CoreTold::ClearCache];
        let long = if self.use_long_link {
            cleared.push(CoreTold::LongRedo { now }).push(CoreTold::ZombieRedo { now })
        } else {
            cleared
        };
        long.push(CoreTold::ShortRedo { now })
    }

    /// The network is another one: the hosts that were resolved are thrown
    /// away, the timeouts start over, and every task is looked at again.
    pub open spec fn network_change_words(self, now: u64) -> Seq<CoreTold> {
        let reset = seq![CoreTold::ClearCache].push(CoreTold::ShortResetTimeout).push(
            CoreTold::LongResetTimeout,
        );
        let long = if self.use_long_link {
            reset.push(CoreTold::SyncNetworkChange { now }).push(
                CoreTold::LongNetworkChange { now },
            ).push(CoreTold::ZombieRedo { now })
        } else {
            reset
        };
        long.push(CoreTold::ShortRedo { now })
    }

    /// Both queues are looked at again.
    pub open spec fn touch_words(now: u64) -> Seq<CoreTold> {
        seq![CoreTold::LongTouch { now }].push(CoreTold::ShortTouch { now })
    }

    /// The network is another one.
    pub open spec fn network_changed(self, now: u64) -> CoreView {
        CoreView {
            timeout: DynamicView::fresh(),
            try_flag: false,
            error_count: 0,
            ..self
        }.heard_all(self.network_change_words(now))
    }

    /// Every task of a user is looked at again, on both queues.
    pub open spec fn retry_words(
        self,
        now: u64,
        err_type: ErrCmdType,
        err_code: i32,
        handle: TaskFailHandleType,
        src_taskid: u32,
        user_id: Seq<char>,
    ) -> Seq<CoreTold> {
        let short = seq![CoreTold::ShortRetry { now, err_type, err_code, handle, src_taskid }];
        if self.use_long_link {
            short.push(
                CoreTold::LongRetry { now, err_type, err_code, handle, src_taskid, user_id },
            )
        } else {
            short
        }
    }

    /// A connect is one the long-link queue is asked about.
    pub open spec fn asks_long_profile(self, channel_select: i32) -> bool {
        self.use_long_link && (channel_select == Task::CHANNEL_LONG || channel_select
            == Task::CHANNEL_MINOR_LONG || channel_select == Task::CHANNEL_BOTH)
    }

    /// The connect a task ran on is asked for.
    pub open spec fn profile_words(
        self,
        taskid: u32,
        channel_select: i32,
        short: Option<ConnectView>,
        long: ConnectView,
    ) -> Seq<CoreTold> {
        if channel_select == Task::CHANNEL_SHORT {
            seq![CoreTold::ShortProfile { taskid, answer: short }]
        } else if self.asks_long_profile(channel_select) {
            seq![CoreTold::LongProfile { taskid, answer: long }]
        } else {
            seq![]
        }
    }

    /// The connect a task ran on: a task that no queue knows ran on none.
    pub open spec fn profile_found(
        self,
        channel_select: i32,
        short: Option<ConnectView>,
        long: ConnectView,
    ) -> ConnectView {
        if channel_select == Task::CHANNEL_SHORT {
            match short {
                Some(profile) => profile,
                None => ConnectView::blank(),
            }
        } else if self.asks_long_profile(channel_select) {
            long
        } else {
            ConnectView::blank()
        }
    }

    /// When there is next something to do.
    pub open spec fn due_words(
        zombie: Option<u64>,
        short: Option<u64>,
        long: Option<u64>,
        sync: Option<u64>,
    ) -> Seq<CoreTold> {
        seq![CoreTold::ZombieDue { answer: zombie }].push(
            CoreTold::ShortDue { answer: short },
        ).push(CoreTold::LongDue { answer: long }).push(CoreTold::SyncDue { answer: sync })
    }

    /// The earliest of the four.
    pub open spec fn earliest(
        zombie: Option<u64>,
        short: Option<u64>,
        long: Option<u64>,
        sync: Option<u64>,
    ) -> Option<u64> {
        earlier(earlier(earlier(short, long), zombie), sync)
    }
}

impl<H: CoreHost> NetCore<H> {
    /// A task is dropped, wherever it is.
    pub fn stop_task(&mut self, taskid: u32) -> (stopped: bool)
        requires
            old(self)@.ready,
        ensures
            final(self)@.ready,
            exists|long: bool, zombie: bool, short: bool|
                stopped == (long || zombie || short) && final(self)@ == old(self)@.heard_all(
                    #[trigger] CoreView::stop_words(taskid, long, zombie, short),
                ),
    {
        let ghost before = self@;
        proof {
            lemma_words(self.host.heard());
        }
        let long = self.host.longlink_stop(taskid);
        if long {
            assert(self@ == before.heard_all(CoreView::stop_words(taskid, true, false, false)));
            return true;
        }
        let zombie = self.host.zombie_stop(taskid);
        if zombie {
            assert(self@ == before.heard_all(CoreView::stop_words(taskid, false, true, false)));
            return true;
        }
        let short = self.host.shortlink_stop(taskid);
        assert(self@ == before.heard_all(CoreView::stop_words(taskid, false, false, short)));
        short
    }

    /// Whether a task is anywhere.
    pub fn has_task(&mut self, taskid: u32) -> (has: bool)
        requires
            old(self)@.ready,
        ensures
            final(self)@.ready,
            exists|zombie: bool, long: bool, short: bool|
                has == (zombie || long || short) && final(self)@ == old(self)@.heard_all(
                    #[trigger] CoreView::has_words(taskid, zombie, long, short),
                ),
    {
        let ghost before = self@;
        proof {
            lemma_words(self.host.heard());
        }
        let zombie = self.host.zombie_has(taskid);
        if zombie {
            assert(self@ == before.heard_all(CoreView::has_words(taskid, true, false, false)));
            return true;
        }
        let long = self.host.longlink_has(taskid);
        if long {
            assert(self@ == before.heard_all(CoreView::has_words(taskid, false, true, false)));
            return true;
        }
        let short = self.host.shortlink_has(taskid);
        assert(self@ == before.heard_all(CoreView::has_words(taskid, false, false, short)));
        short
    }

    /// Every queue drops everything.
    pub fn clear_tasks(&mut self)
        requires
            old(self)@.ready,
        ensures
            final(self)@.ready,
            final(self)@ == old(self)@.heard_all(CoreView::clear_words()),
    {
        self.host.longlink_clear();
        self.host.zombie_clear();
        self.host.shortlink_clear();
        proof {
            lemma_words(old(self).host.heard());
        }
    }

    /// Every task that was out is cancelled and tried again.
    pub fn redo_tasks_at(&mut self, now: u64)
        requires
            old(self)@.ready,
        ensures
            final(self)@.ready,
            final(self)@ == old(self)@.heard_all(old(self)@.redo_words(now)),
    {
        proof {
            lemma_words(self.host.heard());
        }
        self.host.source_clear_cache();
        if self.use_long_link {
            self.host.longlink_redo(now);
            self.host.zombie_redo(now);
        }
        self.host.shortlink_redo(now);
    }

    /// The queues' own timeouts are looked at.
    pub fn touch_tasks_at(&mut self, now: u64)
        requires
            old(self)@.ready,
        ensures
            final(self)@.ready,
            final(self)@ == old(self)@.heard_all(CoreView::touch_words(now)),
    {
        self.host.longlink_touch(now);
        self.host.shortlink_touch(now);
        proof {
            lemma_words(old(self).host.heard());
        }
    }

    /// The network is another one: the hosts that were resolved are thrown
    /// away, the timeouts start over, and every task is looked at again.
    pub fn on_network_change_at(&mut self, now: u64)
        requires
            old(self)@.ready,
        ensures
            final(self)@.ready,
            final(self)@ == old(self)@.network_changed(now),
    {
        proof {
            lemma_words(self.host.heard());
        }
        self.host.source_clear_cache();
        self.dynamic_timeout.reset();
        self.host.shortlink_reset_timeout();
        self.host.longlink_reset_timeout();
        if self.use_long_link {
            self.host.sync_network_change(now);
            self.host.longlink_network_change(now);
            self.host.zombie_redo(now);
        }
        self.host.shortlink_redo(now);
        self.shortlink_try_flag = false;
        self.shortlink_error_count = 0;
    }

    /// A session timeout, or an answer that could not be read: every task of
    /// that user is looked at again, on both queues.
    pub fn retry_tasks_at(
        &mut self,
        now: u64,
        err_type: ErrCmdType,
        err_code: i32,
        handle: TaskFailHandleType,
        src_taskid: u32,
        user_id: &str,
    )
        requires
            old(self)@.ready,
        ensures
            final(self)@.ready,
            final(self)@ == old(self)@.heard_all(
                old(self)@.retry_words(now, err_type, err_code, handle, src_taskid, user_id@),
            ),
    {
        proof {
            lemma_words(self.host.heard());
        }
        self.host.shortlink_retry(now, err_type, err_code, handle, src_taskid);
        if self.use_long_link {
            self.host.longlink_retry(now, err_type, err_code, handle, src_taskid, user_id);
        }
    }

    /// The connect a task ran on.
    pub fn connect_profile(&mut self, taskid: u32, channel_select: i32) -> (profile: ConnectProfile)
        requires
            old(self)@.ready,
        ensures
            final(self)@.ready,
            exists|short: Option<ConnectView>, long: ConnectView|
                profile@ == old(self)@.profile_found(channel_select, short, long) && final(self)@
                    == old(self)@.heard_all(
                    #[trigger] old(self)@.profile_words(taskid, channel_select, short, long),
                ),
    {
        let ghost before = self@;
        proof {
            lemma_words(self.host.heard());
        }
        if channel_select == Task::CHANNEL_SHORT {
            let found = self.host.shortlink_profile(taskid);
            let ghost answer = profile_view(found);
            assert(self@ == before.heard_all(
                before.profile_words(taskid, channel_select, answer, ConnectView::blank()),
            ));
            return match found {
                Some(profile) => profile,
                None => ConnectProfile::new(),
            };
        }
        if self.use_long_link && (channel_select == Task::CHANNEL_LONG || channel_select
            == Task::CHANNEL_MINOR_LONG || channel_select == Task::CHANNEL_BOTH) {
            let found = self.host.longlink_profile(taskid);
            assert(self@ == before.heard_all(
                before.profile_words(taskid, channel_select, None, found@),
            ));
            return found;
        }
        assert(self@ == before.heard_all(
            before.profile_words(taskid, channel_select, None, ConnectView::blank()),
        ));
        ConnectProfile::new()
    }

    /// When the net core next has something to do: the earliest of the two
    /// queues, the zombies and the timing sync.
    pub fn due_time(&mut self) -> (due: Option<u64>)
        requires
            old(self)@.ready,
        ensures
            final(self)@.ready,
            exists|zombie: Option<u64>, short: Option<u64>, long: Option<u64>, sync: Option<u64>|
                due == CoreView::earliest(zombie, short, long, sync) && final(self)@ == old(
                    self,
                )@.heard_all(#[trigger] CoreView::due_words(zombie, short, long, sync)),
    {
        let ghost before = self@;
        let zombie = self.host.zombie_due();
        let short = self.host.shortlink_due();
        let long = self.host.longlink_due();
        let sync = self.host.sync_due();
        proof {
            lemma_words(old(self).host.heard());
        }
        assert(self@ == before.heard_all(CoreView::due_words(zombie, short, long, sync)));
        min_due(min_due(min_due(short, long), zombie), sync)
    }
}

impl CoreView {
    /// A core with nothing in it, which told the pieces whether the long link is
    /// used.
    pub open spec fn fresh(
        use_long_link: bool,
        encoder: LongLinkEncoder,
        told: Seq<CoreTold>,
    ) -> CoreView {
        CoreView {
            links: Set::empty(),
            default_link: None,
            use_long_link,
            released: false,
            error_count: 0,
            try_flag: false,
            all_status: NetStatus::Unavailable,
            longlink_status: NetStatus::Unavailable,
            encoder_version: 0,
            encoder_name: seq![],
            timeout: DynamicView::fresh(),
            encoder,
            statuses: Map::empty(),
            told: told.push(CoreTold::UseLongLink { use_long_link }),
            ready: true,
        }
    }

    /// A link is made, where the queue takes its channel: a channel there is
    /// already is not made again.
    pub open spec fn link_made(
        self,
        config: LonglinkConfig,
        added: bool,
        status: LongLinkStatus,
    ) -> (CoreView, bool) {
        let asked = CoreView {
            told: self.told.push(CoreTold::LongAdd { config, answer: added }),
            ..self
        };
        if !self.use_long_link {
            (self, false)
        } else if !added {
            (asked, self.has_link(config.name@))
        } else {
            (
                CoreView {
                    links: self.links.insert(config.name@),
                    default_link: if config.is_main {
                        Some(config.name)
                    } else {
                        self.default_link
                    },
                    statuses: self.statuses.insert(config.name@, status),
                    told: asked.told.push(
                        CoreTold::LinkMake { config, encoder: self.encoder },
                    ),
                    ..self
                },
                true,
            )
        }
    }

    /// The link is gone, and every task that was going out on it is failed.
    pub open spec fn link_destroyed(self, now: u64, name: Seq<char>) -> CoreView {
        CoreView {
            links: self.links.remove(name),
            default_link: if self.is_default(name) {
                None
            } else {
                self.default_link
            },
            statuses: self.statuses.remove(name),
            told: self.told.push(CoreTold::LongRemove { now, name }).push(
                CoreTold::LinkDrop { name },
            ),
            ..self
        }
    }

    /// The tasks are dropped and the links are gone.
    pub open spec fn let_go(self) -> CoreView {
        CoreView {
            links: Set::empty(),
            default_link: None,
            statuses: Map::empty(),
            released: true,
            ..self
        }.heard_all(
            CoreView::clear_words().push(CoreTold::LinksClear).push(CoreTold::SyncCancel),
        )
    }

    /// What a queue asked for is done.
    pub open spec fn followed(self, now: u64, follow_up: FollowView, after: CoreView) -> bool {
        match follow_up {
            FollowView::Start(task) => exists|a: StartAnswers|
                {
                    &&& after == self.heard_all(#[trigger] self.start_words(now, task, a))
                    &&& self.gets_out(task, a) ==> self.hands(self.named(a.processed), a)
                },
            FollowView::Retry { err_type, err_code, handle, src_taskid, user_id } => after
                == self.heard_all(
                self.retry_words(now, err_type, err_code, handle, src_taskid, user_id),
            ),
            FollowView::LongLinkError { name, err_type, err_code, ip, port } => exists|
                a: ErrorAnswers,
            |
                after == self.heard_all(
                    #[trigger] self.long_error_words(now, name, err_type, err_code, ip, port, a),
                ),
            FollowView::ShortLinkError { err_type, err_code, ip, host, port } => exists|
                a: ErrorAnswers,
            |
                after == #[trigger] self.short_error(now, err_type, err_code, ip, host, port, a),
        }
    }

    /// The oldest thing a queue asked for is taken, and done.
    pub open spec fn took(self, now: u64, next: FollowView, after: CoreView) -> bool {
        self.heard_all(seq![CoreTold::NextPending { answer: Some(next) }]).followed(
            now,
            next,
            after,
        )
    }

    /// Everything the queues asked for was done, the oldest first, and what
    /// that asked for in turn: the core went through `states`, and the last
    /// thing it heard is that nothing is left.
    pub open spec fn drained(
        self,
        now: u64,
        asked: Seq<FollowView>,
        states: Seq<CoreView>,
        after: CoreView,
    ) -> bool {
        &&& states.len() == asked.len() + 1
        &&& states[0] == self
        &&& forall|i: int|
            0 <= i < asked.len() ==> states[i].took(now, #[trigger] asked[i], states[i + 1])
        &&& asked.len() <= MAX_FOLLOW_UPS
        &&& after == if asked.len() < MAX_FOLLOW_UPS {
            states.last().heard_all(seq![CoreTold::NextPending { answer: None }])
        } else {
            states.last()
        }
    }
}

/// The names, with one more where it was not one of them.
fn add_name(names: &mut Vec<String>, name: &str)
    ensures
        texts(final(names)@).to_set() == texts(old(names)@).to_set().insert(name@),
{
    let ghost before = texts(names@);
    if holds_text(names, name) {
        assert(before.to_set().insert(name@) =~= before.to_set());
        return;
    }
    names.push(name.to_owned());
    proof {
        let after = texts(names@);
        assert(after =~= before.push(name@));
        assert forall|t: Seq<char>|
            after.to_set().contains(t) == before.to_set().insert(name@).contains(t) by {
            if before.contains(t) {
                let k = choose|k: int| 0 <= k < before.len() && before[k] == t;
                assert(after[k] == t);
            }
            assert(after[before.len() as int] == name@);
            if after.contains(t) && t != name@ {
                let k = choose|k: int| 0 <= k < after.len() && after[k] == t;
                assert(before[k] == t);
            }
        }
        assert(after.to_set() =~= before.to_set().insert(name@));
    }
}

/// The names without one of them.
fn names_without(names: &Vec<String>, name: &str) -> (kept: Vec<String>)
    ensures
        texts(kept@).to_set() == texts(names@).to_set().remove(name@),
{
    let mut kept: Vec<String> = Vec::new();
    let mut i: usize = 0;
    while i < names.len()
        invariant
            i <= names@.len(),
            forall|k: int| 0 <= k < kept@.len() ==> (#[trigger] kept@[k])@ != name@ && texts(
                names@,
            ).contains(kept@[k]@),
            forall|k: int|
                0 <= k < i && (#[trigger] names@[k])@ != name@ ==> texts(kept@).contains(
                    names@[k]@,
                ),
        decreases names@.len() - i,
    {
        let ghost before = kept@;
        if !same_text(names[i].as_str(), name) {
            kept.push(names[i].clone());
            proof {
                assert(texts(names@)[i as int] == names@[i as int]@);
                assert(texts(kept@)[before.len() as int] == names@[i as int]@);
                assert forall|k: int|
                    0 <= k < i && (#[trigger] names@[k])@ != name@ implies texts(kept@).contains(
                    names@[k]@,
                ) by {
                    let j = choose|j: int|
                        0 <= j < texts(before).len() && texts(before)[j] == names@[k]@;
                    assert(texts(kept@)[j] == names@[k]@);
                }
            }
        }
        i += 1;
    }
    proof {
        let after = texts(kept@).to_set();
        let wanted = texts(names@).to_set().remove(name@);
        assert forall|t: Seq<char>| after.contains(t) == wanted.contains(t) by {
            if after.contains(t) {
                let k = choose|k: int| 0 <= k < texts(kept@).len() && texts(kept@)[k] == t;
                assert(kept@[k]@ == t);
            }
            if wanted.contains(t) {
                let k = choose|k: int| 0 <= k < texts(names@).len() && texts(names@)[k] == t;
                assert(names@[k]@ == t);
            }
        }
        assert(after =~= wanted);
    }
    kept
}

impl<H: CoreHost> NetCore<H> {
    /// A core with one long link, which is the main one.
    pub fn new(host: H) -> (core: Self)
        requires
            host.ready(),
            host.setting().links == Map::<Seq<char>, LongLinkStatus>::empty(),
        ensures
            exists|config: LonglinkConfig, added: bool, status: LongLinkStatus|
                core@ == (#[trigger] CoreView::fresh(
                    true,
                    default_encoder(),
                    host.heard(),
                ).link_made(
                    config,
                    added,
                    status,
                )).0 && is_default_config(config),
            core@.ready,
    {
        let encoder = LongLinkEncoder::new();
        assert(encoder == default_encoder());
        NetCore::with_encoder(host, true, encoder)
    }

    /// The same, for an app that may not use the long link, and that has an
    /// encoder of its own.
    pub fn with_encoder(host: H, use_long_link: bool, encoder: LongLinkEncoder) -> (core: Self)
        requires
            host.ready(),
            host.setting().links == Map::<Seq<char>, LongLinkStatus>::empty(),
        ensures
            exists|config: LonglinkConfig, added: bool, status: LongLinkStatus|
                core@ == (#[trigger] CoreView::fresh(
                    use_long_link,
                    encoder,
                    host.heard(),
                ).link_made(
                    config,
                    added,
                    status,
                )).0 && is_default_config(config),
            core@.ready,
    {
        let mut core = NetCore {
            host,
            links: Vec::new(),
            default_link: None,
            use_long_link,
            released: false,
            shortlink_error_count: 0,
            shortlink_try_flag: false,
            all_status: NetStatus::Unavailable,
            longlink_status: NetStatus::Unavailable,
            packer_encoder_version: 0,
            packer_encoder_name: String::new(),
            dynamic_timeout: DynamicTimeout::new(),
            encoder,
        };
        core.host.use_long_link(use_long_link);
        proof {
            assert(core@.links =~= Set::empty());
            assert(core@.statuses.dom() =~= Set::empty());
            assert(core@.encoder_name =~= seq![]);
        }
        let mut config = LonglinkConfig::new(DEFAULT_LONGLINK_NAME);
        config.is_keep_alive = true;
        config.is_main = true;
        config.group = DEFAULT_LONGLINK_GROUP.to_owned();
        let ghost made = config;
        let ghost before = core@;
        let (_there, Ghost(a)) = core.make_link(config);
        assert(core@ == before.link_made(made, a.0, a.1).0);
        core
    }

    /// A link is made, where the queue takes its channel.
    fn make_link(&mut self, config: LonglinkConfig) -> (r: (bool, Ghost<(bool, LongLinkStatus)>))
        requires
            old(self)@.ready,
        ensures
            final(self)@.ready,
            (final(self)@, r.0) == old(self)@.link_made(config, r.1@.0, r.1@.1),
    {
        if !self.use_long_link {
            return (false, Ghost((false, LongLinkStatus::ConnectIdle)));
        }
        let added = self.host.longlink_add(&config);
        if !added {
            let there = self.is_link(config.name.as_str());
            return (there, Ghost((added, LongLinkStatus::ConnectIdle)));
        }
        self.host.link_make(&config, self.encoder);
        let ghost status = self.host.setting().links[config.name@];
        add_name(&mut self.links, config.name.as_str());
        assert(self.host.setting().links.dom() =~= texts(self.links@).to_set());
        if config.is_main() {
            self.default_link = Some(config.name);
        }
        (true, Ghost((added, status)))
    }

    /// A link is made; `false` is a core that does not use the long link, or a
    /// channel the queue would not take and that is not there.
    pub fn create_long_link(&mut self, config: LonglinkConfig) -> (there: bool)
        requires
            old(self)@.ready,
        ensures
            final(self)@.ready,
            exists|added: bool, status: LongLinkStatus|
                (final(self)@, there) == #[trigger] old(self)@.link_made(config, added, status),
    {
        let (there, Ghost(_a)) = self.make_link(config);
        there
    }

    /// A link is let go; `false` is one there is not.
    pub fn destroy_long_link_at(&mut self, now: u64, name: &str) -> (gone: bool)
        requires
            old(self)@.ready,
        ensures
            final(self)@.ready,
            gone == (old(self)@.use_long_link && old(self)@.has_link(name@)),
            gone ==> final(self)@ == old(self)@.link_destroyed(now, name@),
            !gone ==> final(self)@ == old(self)@,
    {
        if !self.use_long_link || !self.is_link(name) {
            return false;
        }
        self.host.longlink_remove(now, name);
        self.host.link_drop(name);
        self.links = names_without(&self.links, name);
        assert(self.host.setting().links.dom() =~= texts(self.links@).to_set());
        if self.is_main(name) {
            self.default_link = None;
        }
        true
    }

    /// Another link is the main one; `false` is a link there is not, or the one
    /// that is the main one already.
    pub fn mark_main_longlink(&mut self, name: &str) -> (marked: bool)
        requires
            old(self)@.ready,
        ensures
            final(self)@.ready,
            marked == (old(self)@.has_link(name@) && !old(self)@.is_default(name@)),
            final(self)@ == (CoreView {
                default_link: final(self)@.default_link,
                ..old(self)@
            }),
            marked ==> final(self)@.is_default(name@),
            !marked ==> final(self)@ == old(self)@,
    {
        if !self.is_link(name) || self.is_main(name) {
            return false;
        }
        self.default_link = Some(name.to_owned());
        true
    }

    /// The name of the main link.
    pub fn default_link(&self) -> (name: Option<&str>)
        ensures
            match name {
                Some(main) => self@.is_default(main@),
                None => self@.default_link is None,
            },
    {
        match &self.default_link {
            Some(main) => Some(main.as_str()),
            None => None,
        }
    }

    /// Whether there is a link of that name.
    pub fn long_link(&self, name: &str) -> (there: bool)
        ensures
            there == self@.has_link(name@),
    {
        self.is_link(name)
    }

    /// Whether a link is up.
    pub fn is_long_link_connected(&mut self, name: &str) -> (connected: bool)
        requires
            old(self)@.ready,
        ensures
            final(self)@.ready,
            !old(self)@.has_link(name@) ==> !connected && final(self)@ == old(self)@,
            old(self)@.has_link(name@) ==> connected == (old(self)@.statuses[name@]
                == LongLinkStatus::Connected) && final(self)@ == old(self)@.heard_all(
                seq![link_word(name@, old(self)@.statuses[name@])],
            ),
    {
        if !self.is_link(name) {
            return false;
        }
        let status = self.ask_link(name);
        assert(link_word(name@, status) == (CoreTold::LinkStatus { name: name@, answer: status }));
        status == LongLinkStatus::Connected
    }

    /// Whether the main link is up.
    pub fn is_default_long_link_connected(&mut self) -> (connected: bool)
        requires
            old(self)@.ready,
        ensures
            final(self)@.ready,
            !old(self)@.has_default() ==> !connected && final(self)@ == old(self)@,
            old(self)@.has_default() ==> ({
                let status = old(self)@.default_status();
                &&& connected == (status == LongLinkStatus::Connected)
                &&& final(self)@ == old(self)@.default_asked(status)
            }),
    {
        match self.default_link_status() {
            Some(status) => status == LongLinkStatus::Connected,
            None => false,
        }
    }

    /// A link is made sure of.
    pub fn make_sure_long_link_connected(&mut self, name: &str)
        requires
            old(self)@.ready,
        ensures
            final(self)@.ready,
            final(self)@ == (CoreView {
                told: if old(self)@.has_link(name@) {
                    old(self)@.told.push(CoreTold::LinkMakeSure { name: name@ })
                } else {
                    old(self)@.told
                },
                statuses: final(self)@.statuses,
                ..old(self)@
            }),
            moved_at(old(self)@.statuses, final(self)@.statuses, name@),
    {
        if self.is_link(name) {
            self.host.link_make_sure(name);
            assert(self.host.setting().links.dom() =~= old(self).host.setting().links.dom());
        }
    }

    /// The main link is made sure of.
    pub fn make_sure_default_long_link_connected(&mut self)
        requires
            old(self)@.ready,
        ensures
            final(self)@.ready,
            final(self)@ == (CoreView {
                told: if old(self)@.has_default() {
                    old(self)@.told.push(
                        CoreTold::LinkMakeSure { name: old(self)@.default_link.unwrap()@ },
                    )
                } else {
                    old(self)@.told
                },
                statuses: final(self)@.statuses,
                ..old(self)@
            }),
            if old(self)@.default_link is Some {
                moved_at(
                    old(self)@.statuses,
                    final(self)@.statuses,
                    old(self)@.default_link.unwrap()@,
                )
            } else {
                final(self)@.statuses == old(self)@.statuses
            },
    {
        let name = match &self.default_link {
            Some(name) => name.clone(),
            None => {
                return;
            },
        };
        self.make_sure_long_link_connected(name.as_str());
    }

    /// The keeper of the main link holds a mapping up.
    pub fn keep_signal_at(&mut self, now: u64)
        requires
            old(self)@.ready,
        ensures
            final(self)@.ready,
            final(self)@ == (CoreView {
                told: if old(self)@.has_default() {
                    old(self)@.told.push(
                        CoreTold::LinkKeepSignal {
                            name: old(self)@.default_link.unwrap()@,
                            now,
                        },
                    )
                } else {
                    old(self)@.told
                },
                statuses: final(self)@.statuses,
                ..old(self)@
            }),
            if old(self)@.default_link is Some {
                moved_at(
                    old(self)@.statuses,
                    final(self)@.statuses,
                    old(self)@.default_link.unwrap()@,
                )
            } else {
                final(self)@.statuses == old(self)@.statuses
            },
    {
        let name = match &self.default_link {
            Some(name) => name.clone(),
            None => {
                return;
            },
        };
        if self.is_link(name.as_str()) {
            self.host.link_keep_signal(name.as_str(), now);
            assert(self.host.setting().links.dom() =~= old(self).host.setting().links.dom());
        }
    }

    /// The keeper of the main link stops.
    pub fn stop_signal(&mut self)
        requires
            old(self)@.ready,
        ensures
            final(self)@.ready,
            final(self)@ == (CoreView {
                told: if old(self)@.has_default() {
                    old(self)@.told.push(
                        CoreTold::LinkStopSignal { name: old(self)@.default_link.unwrap()@ },
                    )
                } else {
                    old(self)@.told
                },
                ..old(self)@
            }),
    {
        let name = match &self.default_link {
            Some(name) => name.clone(),
            None => {
                return;
            },
        };
        if self.is_link(name.as_str()) {
            self.host.link_stop_signal(name.as_str());
        }
    }

    /// The link a task is out on is taken down.
    pub fn disconnect_long_link_by_taskid(
        &mut self,
        taskid: u32,
        code: DisconnectInternalCode,
    ) -> (down: bool)
        requires
            old(self)@.ready,
        ensures
            final(self)@.ready,
            !old(self)@.use_long_link ==> !down && final(self)@ == old(self)@,
            old(self)@.use_long_link ==> final(self)@ == (CoreView {
                told: old(self)@.told.push(
                    CoreTold::LongDisconnect { taskid, code, answer: down },
                ),
                ..old(self)@
            }),
    {
        if !self.use_long_link {
            return false;
        }
        let down = self.host.longlink_disconnect(taskid, code);
        down
    }

    /// Whether the long link is used. The queues are told too: they decide whether
    /// a task that failed is saved.
    pub fn set_need_use_long_link(&mut self, use_long_link: bool)
        requires
            old(self)@.ready,
        ensures
            final(self)@.ready,
            final(self)@ == (CoreView {
                use_long_link,
                told: old(self)@.told.push(CoreTold::UseLongLink { use_long_link }),
                ..old(self)@
            }),
    {
        self.use_long_link = use_long_link;
        self.host.use_long_link(use_long_link);
    }

    /// Whether the long link is used.
    pub fn use_long_link(&self) -> (used: bool)
        ensures
            used == self@.use_long_link,
    {
        self.use_long_link
    }

    /// The tasks are dropped and the links are gone.
    pub fn release(&mut self)
        requires
            old(self)@.ready,
        ensures
            final(self)@.ready,
            final(self)@ == old(self)@.let_go(),
    {
        proof {
            lemma_words(self.host.heard());
        }
        self.clear_tasks();
        self.host.links_clear();
        self.host.sync_cancel();
        self.links = Vec::new();
        assert(texts(self.links@).to_set() =~= Set::empty());
        self.default_link = None;
        self.released = true;
    }

    /// Whether the core was released.
    pub fn is_released(&self) -> (released: bool)
        ensures
            released == self@.released,
    {
        self.released
    }

    /// The packer the app goes by, for it to read back.
    pub fn set_packer_encoder(&mut self, version: i32, name: String)
        requires
            old(self)@.ready,
        ensures
            final(self)@.ready,
            final(self)@ == (CoreView {
                encoder_version: version,
                encoder_name: name@,
                ..old(self)@
            }),
    {
        self.packer_encoder_version = version;
        self.packer_encoder_name = name;
    }

    /// The version of the packer the app goes by.
    pub fn packer_encoder_version(&self) -> (version: i32)
        ensures
            version == self@.encoder_version,
    {
        self.packer_encoder_version
    }

    /// The name of the packer the app goes by.
    pub fn packer_encoder_name(&self) -> (name: &str)
        ensures
            name@ == self@.encoder_name,
    {
        self.packer_encoder_name.as_str()
    }

    /// What the network has shown so far.
    pub fn dynamic_timeout(&mut self) -> (timeout: &mut DynamicTimeout)
        requires
            old(self)@.ready,
        ensures
            final(self)@.ready,
            *timeout == old(self).dynamic_timeout,
            final(self)@ == (CoreView { timeout: final(timeout)@, ..old(self)@ }),
    {
        &mut self.dynamic_timeout
    }

    /// What a queue asked for while it was running is done.
    pub fn follow_up_at(&mut self, now: u64, follow_up: FollowUp)
        requires
            old(self)@.ready,
        ensures
            final(self)@.ready,
            old(self)@.followed(now, follow_up@, final(self)@),
    {
        match follow_up {
            FollowUp::Start(task) => {
                let _started = self.start_task_at(now, task);
            },
            FollowUp::Retry { err_type, err_code, handle, src_taskid, user_id } => {
                self.retry_tasks_at(now, err_type, err_code, handle, src_taskid, user_id.as_str());
            },
            FollowUp::LongLinkError { name, err_type, err_code, ip, port } => {
                self.on_longlink_network_error_at(
                    now,
                    name.as_str(),
                    err_type,
                    err_code,
                    ip.as_str(),
                    port,
                );
            },
            FollowUp::ShortLinkError { err_type, err_code, ip, host, port } => {
                self.on_shortlink_network_error_at(
                    now,
                    err_type,
                    err_code,
                    ip.as_str(),
                    host.as_str(),
                    port,
                );
            },
        }
    }
}

impl<H: CoreHost> NetCore<H> {
    /// Everything the queues asked for while they were running is done, and
    /// what that asks for in turn.
    pub fn run_pending_at(&mut self, now: u64)
        requires
            old(self)@.ready,
        ensures
            final(self)@.ready,
            exists|asked: Seq<FollowView>, states: Seq<CoreView>| #[trigger]
                old(self)@.drained(now, asked, states, final(self)@),
    {
        let ghost before = self@;
        let ghost mut asked: Seq<FollowView> = seq![];
        let ghost mut states: Seq<CoreView> = seq![before];
        let mut left: u64 = MAX_FOLLOW_UPS;
        while left > 0
            invariant
                self@.ready,
                before == old(self)@,
                asked.len() == MAX_FOLLOW_UPS - left,
                states.len() == asked.len() + 1,
                states[0] == before,
                states.last() == self@,
                forall|i: int|
                    0 <= i < asked.len() ==> states[i].took(
                        now,
                        #[trigger] asked[i],
                        states[i + 1],
                    ),
            decreases left,
        {
            let ghost told = self.host.heard();
            let next = self.host.next_pending();
            match next {
                None => {
                    proof {
                        let word = CoreTold::NextPending { answer: None };
                        lemma_said(told, word, word, word);
                        assert(before.drained(now, asked, states, self@));
                    }
                    return ;
                },
                Some(follow_up) => {
                    let ghost word = CoreTold::NextPending { answer: Some(follow_up@) };
                    proof {
                        lemma_said(told, word, word, word);
                        asked = asked.push(follow_up@);
                    }
                    self.follow_up_at(now, follow_up);
                    proof {
                        states = states.push(self@);
                    }
                },
            }
            left -= 1;
        }
        assert(before.drained(now, asked, states, self@));
    }
}

/// Where a link was said to be.
pub open spec fn link_word(name: Seq<char>, status: LongLinkStatus) -> CoreTold {
    CoreTold::LinkStatus { name, answer: status }
}

/// The encoder of an app that asked for none.
pub open spec fn default_encoder() -> LongLinkEncoder {
    LongLinkEncoder { packer_encoder_version: crate::longlink::PackerEncoderVersion::Old }
}

/// The long link a core is made with: it is kept alive, and the main one.
pub open spec fn is_default_config(config: LonglinkConfig) -> bool {
    &&& config.name@ == DEFAULT_LONGLINK_NAME@
    &&& config.host_list@.len() == 0
    &&& config.is_keep_alive
    &&& config.is_main
    &&& config.group@ == DEFAULT_LONGLINK_GROUP@
    &&& config.link_type == Task::CHANNEL_LONG
    &&& config.need_tls
}

/// A task that is not started is one the app hears the end of, once and last;
/// of a task that a queue took it hears no end.
#[verifier::spinoff_prover]
#[verifier::rlimit(60)]
pub proof fn law_what_does_not_start_ends(core: CoreView, now: u64, task: Task, a: StartAnswers)
    requires
        !core.released,
    ensures
        !core.starts(task, a) ==> core.start_words(now, task, a).len() > 0 && core.start_words(
            now,
            task,
            a,
        ).last() is TaskEnd,
        forall|i: int|
            0 <= i < core.start_words(now, task, a).len() && (core.starts(task, a) || i
                < core.start_words(now, task, a).len() - 1) ==> !((#[trigger] core.start_words(
                now,
                task,
                a,
            )[i]) is TaskEnd),
{
    reveal(CoreView::start_words);
    reveal(CoreView::network_words);
    reveal(CoreView::choose_words);
    reveal(CoreView::put_words);
    reveal(CoreView::out_words);
}

/// A core that was released starts nothing and says nothing.
pub proof fn law_a_released_core_is_silent(
    core: CoreView,
    now: u64,
    task: Task,
    a: StartAnswers,
    e: ErrorAnswers,
    name: Seq<char>,
    err_type: ErrCmdType,
    err_code: i32,
    ip: Seq<char>,
    host: Seq<char>,
    port: u16,
)
    ensures
        !core.let_go().starts(task, a),
        core.let_go().start_words(now, task, a).len() == 0,
        core.let_go().long_error_words(now, name, err_type, err_code, ip, port, e).len() == 0,
        core.let_go().short_error(now, err_type, err_code, ip, host, port, e) == core.let_go(),
        !core.let_go().has_link(name),
{
    reveal(CoreView::start_words);
    reveal(CoreView::long_error_words);
    reveal(CoreView::short_error);
}

/// Without the long link every task goes out on the short one, whatever
/// channels it may use.
pub proof fn law_without_the_long_link_all_is_short(core: CoreView, task: Task, a: StartAnswers)
    requires
        !core.use_long_link,
    ensures
        core.channel(task, a) == Task::CHANNEL_SHORT,
        a.handed == task ==> core.hands(task, a),
        !core.no_network(task, a),
{
}

/// A fast task that may use either link is put on the long one only while it is
/// up and nothing else of its channel is out.
pub proof fn law_a_fast_task_waits_behind_nothing(core: CoreView, task: Task, a: StartAnswers)
    requires
        task.channel_strategy == Task::CHANNEL_FAST_STRATEGY,
        task.channel_select == Task::CHANNEL_ALL || task.channel_select == Task::CHANNEL_BOTH,
    ensures
        core.channel(task, a) == Task::CHANNEL_LONG <==> core.use_long_link && core.link_up(task)
            && a.count == 0,
{
}

/// The defaults of a task are filled in once.
pub proof fn law_defaults_are_filled_in_once(task: Task)
    requires
        is_acceptable(task),
    ensures
        is_acceptable(with_defaults(task)),
        with_defaults(with_defaults(task)) == with_defaults(task),
        with_defaults(task).retry_count >= 0,
{
    let c = task.channel_select;
    assert((c & !2i32) & 2i32 == 0) by (bit_vector);
    assert((c & !1i32) & 1i32 == 0) by (bit_vector);
    assert(((c & !2i32) & !1i32) & 2i32 == 0) by (bit_vector);
    assert(((c & !2i32) & !1i32) & 1i32 == 0) by (bit_vector);
    assert(c & 2i32 == 0 ==> (c & !1i32) & 2i32 == 0) by (bit_vector);
    assert(((c & !2i32) & 1i32 == 0) == (c & 1i32 == 0)) by (bit_vector);
}

/// A long link that is up is what ends a run of short-link errors: the app is
/// told that everything is connected, and the count starts over. Of a long link that
/// went down it is told nothing.
pub proof fn law_a_long_link_that_is_up_is_all(core: CoreView)
    requires
        core.use_long_link,
        core.has_default(),
    ensures
        ({
            let after = core.status_called();
            core.default_status() == LongLinkStatus::Connected ==> {
                &&& after.error_count == 0
                &&& !after.try_flag
                &&& after.all_status == NetStatus::Connected
                &&& after.longlink_status == NetStatus::Connected
            }
        }),
        ({
            let after = core.status_called();
            core.default_status() == LongLinkStatus::DisConnected ==> {
                &&& after.all_status == core.all_status
                &&& after.longlink_status == core.longlink_status
                &&& after.error_count == core.error_count
            }
        }),
{
    reveal(CoreView::status_called);
}

} // verus!
