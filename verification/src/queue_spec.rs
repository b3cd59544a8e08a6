//! What the long-link queue does, said over its contents.
//!
//! Every step is a function of the queue before it and of the answers its host
//! gave; what was asked and what was told is part of the queue after it, in
//! order.
use vstd::prelude::*;
use crate::config::{MOBILE_PACKAGE_INTERVAL, WIFI_PACKAGE_INTERVAL};
use crate::dynamic_timeout::{tag_of, DynamicTimeoutStatus, DynamicView, NetworkKind};
use crate::long_link::DisconnectInternalCode;
use crate::longlink::{LongLinkEncoder, PUSH_DATA_TASKID};
use crate::net_source::LonglinkConfig;
use crate::queue_host::{Fixed, Told};
use crate::task::Task;
use crate::task_profile::{
    last_failed_noted, ConnectView, ErrCmdType, RunId, TaskFailHandleType, TaskView, TransferView,
    HANDSHAKE_MISUNDERSTAND, LOCAL_ANTI_AVALANCHE, LOCAL_CANCEL, LOCAL_CHANNEL_ID,
    LOCAL_LONG_LINK_RELEASED, LOCAL_TASK_TIMEOUT, LONG_FIRST_PKG_TIMEOUT, LONG_PKG_PKG_TIMEOUT,
    LONG_READ_WRITE_TIMEOUT, LONG_TASK_TIMEOUT,
};

verus! {

/// How long every task of the queue waits after a whole channel was failed, in
/// milliseconds.
pub const RETRY_INTERNAL: u64 = 1000;

/// One of the four ways a task that answered nothing is noticed.
#[derive(Debug, Clone, Copy, PartialEq, Eq, Structural)]
pub enum Timeout {
    /// The task ran out of time, retries and all. It is the one timeout that
    /// applies to a task that never went out.
    Task,
    /// The first package never came.
    FirstPkg,
    /// A package came, and then nothing for longer than the network is given
    /// between two of them.
    PkgPkg,
    /// The whole read took too long.
    ReadWrite,
}

/// One answer for a whole channel: what failed, how, what is to be done about
/// it, and the task it was about.
#[derive(Debug, Clone, Copy, PartialEq, Eq, Structural)]
pub struct Failure {
    pub err_type: ErrCmdType,
    /// What the task the answer was about is failed with; the rest of the
    /// channel gets `0`.
    pub err_code: i32,
    pub fail_handle: TaskFailHandleType,
    /// [`Task::INVALID_TASK_ID`] is every task of the channel.
    pub src_taskid: u32,
}

/// What an answer made of the task it was about.
#[derive(Debug, Clone, Copy, PartialEq, Eq, Structural)]
pub enum RespHandle {
    /// The task left the queue.
    Ended,
    /// The task has another try coming.
    Retried,
    /// The app is asked first.
    Deferred,
}

/// The contents of the queue.
pub struct QueueView {
    pub tasks: Seq<TaskView>,
    pub channels: Seq<LonglinkConfig>,
    pub last_batch_error_time: u64,
    pub retry_interval: u64,
    pub fail_count: u32,
    pub timeout: DynamicView,
    pub forbid_tls_hosts: Seq<Seq<char>>,
    pub encoder: LongLinkEncoder,
    /// Everything the host was told and asked so far, in order.
    pub told: Seq<Told>,
    /// What no call changes of the host.
    pub fixed: Fixed,
}

/// How long ago `then` was; a reading that has not come yet is no time ago.
pub open spec fn since(now: u64, then: u64) -> u64 {
    if now >= then {
        (now - then) as u64
    } else {
        0
    }
}

/// The reading `wait` after `at`, or the last one there is.
pub open spec fn after(at: u64, wait: u64) -> u64 {
    if at + wait <= u64::MAX {
        (at + wait) as u64
    } else {
        u64::MAX
    }
}

/// How long a package may be in coming after the one before it.
pub open spec fn package_interval(network: NetworkKind) -> u64 {
    match network {
        NetworkKind::Mobile => MOBILE_PACKAGE_INTERVAL,
        NetworkKind::Wifi => WIFI_PACKAGE_INTERVAL,
    }
}

/// The deadlines a task is waiting on: its own, and, once its request has gone
/// out, the one of the next package and the one of the whole answer.
pub open spec fn deadlines_of(t: TaskView, network: NetworkKind) -> Seq<(Timeout, u64)> {
    let own = (Timeout::Task, after(t.start_task_time, t.task_timeout));
    let sent = t.transfer_profile.start_send_time;
    let last = t.transfer_profile.last_receive_pkg_time;
    if !t.is_running() || sent == 0 {
        seq![own]
    } else {
        seq![
            own,
            if last == 0 {
                (Timeout::FirstPkg, after(sent, t.transfer_profile.first_pkg_timeout))
            } else {
                (Timeout::PkgPkg, after(last, package_interval(network)))
            },
            (Timeout::ReadWrite, after(sent, t.transfer_profile.read_write_timeout)),
        ]
    }
}

/// Whether one of the timeouts has run out at `now`.
pub open spec fn is_due(t: TaskView, now: u64, network: NetworkKind, timeout: Timeout) -> bool {
    exists|k: int|
        0 <= k < deadlines_of(t, network).len() && (#[trigger] deadlines_of(t, network)[k]).0
            == timeout && deadlines_of(t, network)[k].1 <= now
}

/// The read timeout a task ran into: the last of them when two ran out at once.
pub open spec fn read_due(t: TaskView, now: u64, network: NetworkKind) -> Option<Timeout> {
    if is_due(t, now, network, Timeout::ReadWrite) {
        Some(Timeout::ReadWrite)
    } else if is_due(t, now, network, Timeout::PkgPkg) {
        Some(Timeout::PkgPkg)
    } else if is_due(t, now, network, Timeout::FirstPkg) {
        Some(Timeout::FirstPkg)
    } else {
        None
    }
}

/// The code a timeout is reported with.
pub open spec fn timeout_code(timeout: Timeout) -> i32 {
    match timeout {
        Timeout::Task => LOCAL_TASK_TIMEOUT,
        Timeout::FirstPkg => LONG_FIRST_PKG_TIMEOUT,
        Timeout::PkgPkg => LONG_PKG_PKG_TIMEOUT,
        Timeout::ReadWrite => LONG_READ_WRITE_TIMEOUT,
    }
}

/// One of the channels has that name.
pub open spec fn names_channel(channels: Seq<LonglinkConfig>, name: Seq<char>) -> bool {
    exists|i: int| 0 <= i < channels.len() && (#[trigger] channels[i]).name@ == name
}

/// One of the tasks has that id.
pub open spec fn names_task(tasks: Seq<TaskView>, taskid: u32) -> bool {
    exists|i: int| 0 <= i < tasks.len() && (#[trigger] tasks[i]).task.taskid == taskid
}

/// No two channels have one name.
#[verifier::opaque]
pub open spec fn distinct_names(channels: Seq<LonglinkConfig>) -> bool {
    forall|i: int, j: int|
        0 <= i < j < channels.len() ==> (#[trigger] channels[i]).name@ != (
        #[trigger] channels[j]).name@
}

/// Tasks of a smaller priority stand first.
#[verifier::opaque]
pub open spec fn by_priority(tasks: Seq<TaskView>) -> bool {
    forall|i: int, j: int|
        0 <= i <= j < tasks.len() ==> (#[trigger] tasks[i]).task.priority <= (
        #[trigger] tasks[j]).task.priority
}

/// `p` is behind every task of that priority or a smaller one, and before
/// every other.
pub open spec fn is_slot(tasks: Seq<TaskView>, priority: i32, p: int) -> bool {
    &&& 0 <= p <= tasks.len()
    &&& forall|j: int| 0 <= j < p ==> (#[trigger] tasks[j]).task.priority <= priority
    &&& forall|j: int| p <= j < tasks.len() ==> (#[trigger] tasks[j]).task.priority > priority
}

/// Where a new task of that priority stands: two tasks of one priority stay in
/// the order they were asked for.
pub open spec fn slot(tasks: Seq<TaskView>, priority: i32) -> int {
    choose|p: int| is_slot(tasks, priority, p)
}

/// `i` is the first task with that id.
pub open spec fn is_first(tasks: Seq<TaskView>, taskid: u32, i: int) -> bool {
    &&& 0 <= i < tasks.len()
    &&& tasks[i].task.taskid == taskid
    &&& forall|j: int| 0 <= j < i ==> (#[trigger] tasks[j]).task.taskid != taskid
}

/// The first task with that id; no task has [`Task::INVALID_TASK_ID`].
pub open spec fn located(tasks: Seq<TaskView>, taskid: u32) -> Option<int> {
    if taskid != Task::INVALID_TASK_ID && exists|i: int| is_first(tasks, taskid, i) {
        Some(choose|i: int| is_first(tasks, taskid, i))
    } else {
        None
    }
}

/// The first host of a list; nothing where there is none.
pub open spec fn first_text(list: Seq<String>) -> Seq<char> {
    if list.len() > 0 {
        list[0]@
    } else {
        Seq::empty()
    }
}

/// The channel a task goes out on: a minor long link is named after the first
/// host it came with, any other is the one the task names.
pub open spec fn channel_of(task: Task, channel: i32) -> Seq<char> {
    if channel == Task::CHANNEL_MINOR_LONG {
        first_text(task.minorlong_host_list@)
    } else {
        task.channel_name@
    }
}

/// A pass over the queue: what it has become, and the task it is at.
pub struct Cursor {
    pub q: QueueView,
    pub i: int,
}

impl Cursor {
    /// Every task has been looked at.
    pub open spec fn done(self) -> bool {
        self.i >= self.q.tasks.len()
    }
}

impl QueueView {
    /// A queue with nothing in it and no channels.
    pub open spec fn fresh(told: Seq<Told>, fixed: Fixed) -> QueueView {
        QueueView {
            tasks: Seq::empty(),
            channels: Seq::empty(),
            last_batch_error_time: 0,
            retry_interval: 0,
            fail_count: 0,
            timeout: DynamicView::fresh(),
            forbid_tls_hosts: Seq::empty(),
            encoder: LongLinkEncoder {
                packer_encoder_version: crate::longlink::PackerEncoderVersion::Old,
            },
            told,
            fixed,
        }
    }

    /// The tasks stand by priority, no two channels have one name, and the
    /// window of the dynamic timeout is whole.
    pub open spec fn wf(self) -> bool {
        &&& by_priority(self.tasks)
        &&& distinct_names(self.channels)
        &&& self.timeout.wf()
        &&& self.tasks.len() <= i32::MAX
    }

    /// The host was told one thing, or asked one.
    pub open spec fn heard(self, event: Told) -> QueueView {
        QueueView { told: self.told.push(event), ..self }
    }

    pub open spec fn with_task(self, i: int, t: TaskView) -> QueueView {
        QueueView { tasks: self.tasks.update(i, t), ..self }
    }

    pub open spec fn has_channel(self, name: Seq<char>) -> bool {
        names_channel(self.channels, name)
    }

    pub open spec fn has_task(self, taskid: u32) -> bool {
        names_task(self.tasks, taskid)
    }

    /// The connect of a channel is asked for; a channel the queue does not
    /// have is one that is not available, and nobody is asked.
    pub open spec fn profile_asked(self, name: Seq<char>, answer: ConnectView) -> QueueView {
        if self.has_channel(name) {
            self.heard(Told::ChannelProfile { name, answer })
        } else {
            self
        }
    }

    /// What the question comes to.
    pub open spec fn profile_of(self, name: Seq<char>, answer: ConnectView) -> ConnectView {
        if self.has_channel(name) {
            answer
        } else {
            ConnectView::unavailable()
        }
    }

    /// A channel the queue has is taken down.
    pub open spec fn disconnected(self, name: Seq<char>, code: DisconnectInternalCode) -> QueueView {
        if self.has_channel(name) {
            self.heard(Told::Disconnect { name, code })
        } else {
            self
        }
    }

    /// A task is over after this answer.
    pub open spec fn is_over(
        self,
        at: int,
        err_type: ErrCmdType,
        handle: TaskFailHandleType,
    ) -> bool {
        ||| self.tasks[at].remain_retry_count <= 0
        ||| err_type == ErrCmdType::NoError
        ||| handle == TaskFailHandleType::TaskEnd
        ||| handle == TaskFailHandleType::TaskTimeout
    }

    /// One answer, for one task: a task that is over is told to the app and
    /// leaves; any other spends one of its tries and waits for the next.
    pub open spec fn single_resp(
        self,
        now: u64,
        at: int,
        err_type: ErrCmdType,
        err_code: i32,
        handle: TaskFailHandleType,
        profile: ConnectView,
    ) -> QueueView {
        let t = self.tasks[at];
        let ok = err_type == ErrCmdType::NoError;
        let counted = QueueView {
            retry_interval: if ok { 0 } else { self.retry_interval },
            fail_count: if ok {
                0
            } else if self.fail_count == u32::MAX {
                u32::MAX
            } else {
                (self.fail_count + 1) as u32
            },
            ..self
        };
        if self.is_over(at, err_type, handle) {
            QueueView { tasks: self.tasks.remove(at), ..counted }.heard(
                Told::Ended {
                    err_type,
                    err_code,
                    handle,
                    task: t.task,
                    cost: since(now, t.start_task_time) as u32,
                    profile,
                },
            )
        } else {
            counted.with_task(
                at,
                TaskView {
                    link_type: profile.link_type,
                    remain_retry_count: (t.remain_retry_count - 1) as i32,
                    err_type,
                    err_code,
                    transfer_profile: TransferView {
                        connect_profile: profile,
                        error_type: err_type,
                        error_code: err_code,
                        ..t.transfer_profile
                    },
                    ..t
                }.tried(),
            )
        }
    }

    /// The task at `i` is failed with the connect of its channel; the pass
    /// goes on with the task that stands at its place, or behind it.
    pub open spec fn failed_at(
        self,
        now: u64,
        i: int,
        err_type: ErrCmdType,
        err_code: i32,
        handle: TaskFailHandleType,
        answer: ConnectView,
    ) -> Cursor {
        let name = self.tasks[i].channel_name;
        let asked = self.profile_asked(name, answer);
        Cursor {
            q: asked.single_resp(now, i, err_type, err_code, handle, self.profile_of(name, answer)),
            i: if self.is_over(i, err_type, handle) { i } else { i + 1 },
        }
    }
}

// ---- one answer for a whole channel -----------------------------------------

/// The task at the cursor is one the failure is for.
pub open spec fn batch_hits(c: Cursor, name: Seq<char>, running_only: bool) -> bool {
    let t = c.q.tasks[c.i];
    (!running_only || t.is_running()) && (name.len() == 0 || t.channel_name == name)
}

/// One task of the pass: it is failed where the failure is for it, with the
/// code where the failure is about it.
pub open spec fn batch_step(
    c: Cursor,
    now: u64,
    name: Seq<char>,
    failure: Failure,
    running_only: bool,
    answer: ConnectView,
) -> Cursor {
    if c.done() {
        c
    } else if !batch_hits(c, name, running_only) {
        Cursor { i: c.i + 1, ..c }
    } else {
        let about = failure.src_taskid == Task::INVALID_TASK_ID || failure.src_taskid
            == c.q.tasks[c.i].task.taskid;
        c.q.failed_at(
            now,
            c.i,
            failure.err_type,
            if about { failure.err_code } else { 0 },
            failure.fail_handle,
            answer,
        )
    }
}

/// The first tasks of the pass, one answer each.
pub open spec fn batch_steps(
    q: QueueView,
    now: u64,
    name: Seq<char>,
    failure: Failure,
    running_only: bool,
    answers: Seq<ConnectView>,
) -> Cursor
    decreases answers.len(),
{
    if answers.len() == 0 {
        Cursor { q, i: 0 }
    } else {
        batch_step(
            batch_steps(q, now, name, failure, running_only, answers.drop_last()),
            now,
            name,
            failure,
            running_only,
            answers.last(),
        )
    }
}

/// What a channel that was failed comes to once its tasks are: the wait every
/// task owes the queue, and the link taken down for a session that is over,
/// for an answer nobody could read, and for a timeout.
pub open spec fn batch_end(q: QueueView, now: u64, name: Seq<char>, failure: Failure) -> QueueView {
    let err_type = failure.err_type;
    let handle = failure.fail_handle;
    let all = handle == TaskFailHandleType::SessionTimeout || handle
        == TaskFailHandleType::RetryAllTasks;
    let own = err_type == ErrCmdType::Dns || err_type == ErrCmdType::Socket || err_type
        == ErrCmdType::Canceld;
    let q1 = QueueView {
        last_batch_error_time: now,
        retry_interval: if all {
            0
        } else if err_type != ErrCmdType::Local && q.tasks.len() > 0 {
            RETRY_INTERNAL
        } else {
            q.retry_interval
        },
        ..q
    };
    let q2 = if all { q1.disconnected(name, DisconnectInternalCode::DecodeErr) } else { q1 };
    let q3 = if handle == TaskFailHandleType::Default && !own {
        q2.disconnected(name, DisconnectInternalCode::DecodeErr)
    } else {
        q2
    };
    if err_type == ErrCmdType::NetMsgXp {
        q3.disconnected(name, DisconnectInternalCode::TaskTimeout)
    } else {
        q3
    }
}

/// One answer for every task of a channel, or of the queue where `name` is
/// empty.
pub open spec fn batch_error(
    pre: QueueView,
    now: u64,
    name: Seq<char>,
    failure: Failure,
    running_only: bool,
    answers: Seq<ConnectView>,
    post: QueueView,
) -> bool {
    let c = batch_steps(pre, now, name, failure, running_only, answers);
    c.done() && post == batch_end(c.q, now, name, failure)
}

// ---- a channel that is gone --------------------------------------------------

/// One task of a channel that is gone is failed; any other is left alone.
pub open spec fn release_step(c: Cursor, now: u64, name: Seq<char>, answer: ConnectView) -> Cursor {
    if c.done() {
        c
    } else if c.q.tasks[c.i].channel_name != name {
        Cursor { i: c.i + 1, ..c }
    } else {
        c.q.failed_at(
            now,
            c.i,
            ErrCmdType::Local,
            LOCAL_LONG_LINK_RELEASED,
            TaskFailHandleType::TaskEnd,
            answer,
        )
    }
}

pub open spec fn release_steps(
    q: QueueView,
    now: u64,
    name: Seq<char>,
    answers: Seq<ConnectView>,
) -> Cursor
    decreases answers.len(),
{
    if answers.len() == 0 {
        Cursor { q, i: 0 }
    } else {
        release_step(release_steps(q, now, name, answers.drop_last()), now, name, answers.last())
    }
}

/// The channels but those of that name.
pub open spec fn channels_without(
    channels: Seq<LonglinkConfig>,
    name: Seq<char>,
) -> Seq<LonglinkConfig> {
    channels.filter(|channel: LonglinkConfig| channel.name@ != name)
}

/// The channel is gone, and every task that was going out on it is failed.
pub open spec fn released(
    pre: QueueView,
    now: u64,
    name: Seq<char>,
    answers: Seq<ConnectView>,
    post: QueueView,
) -> bool {
    let c = release_steps(pre, now, name, answers);
    c.done() && post == (QueueView {
        channels: channels_without(c.q.channels, name),
        ..c.q
    })
}

// ---- the tasks that may go out ---------------------------------------------

/// What sending the request of a task was answered.
pub struct SendAnswers {
    pub first_pkg: u64,
    pub read_write: u64,
    pub run: Option<RunId>,
    /// The connect a task that is only sent is over on.
    pub profile: ConnectView,
}

/// What was answered about the link of a task.
pub struct ConnectAnswers {
    pub connected: bool,
    pub profile: ConnectView,
    pub kept: Option<Seq<u8>>,
    pub decoded: (i32, TaskFailHandleType),
    pub send: SendAnswers,
}

/// What was answered about the request of a task.
pub struct EncodeAnswers {
    pub sequence_id: u16,
    pub encoded: Result<Seq<u8>, i32>,
    pub allowed: bool,
    /// The connect a task that may not go out is over on.
    pub profile: ConnectView,
    pub connect: ConnectAnswers,
}

/// What one look at a task was answered.
pub struct TurnAnswers {
    pub authed: bool,
    pub encode: EncodeAnswers,
}

impl SendAnswers {
    /// Nothing was asked.
    pub open spec fn nothing() -> SendAnswers {
        SendAnswers { first_pkg: 0, read_write: 0, run: None, profile: ConnectView::blank() }
    }
}

impl ConnectAnswers {
    /// Nothing was asked.
    pub open spec fn nothing() -> ConnectAnswers {
        ConnectAnswers {
            connected: true,
            profile: ConnectView::blank(),
            kept: None,
            decoded: (0, TaskFailHandleType::Normal),
            send: SendAnswers::nothing(),
        }
    }
}

impl EncodeAnswers {
    /// Nothing was asked.
    pub open spec fn nothing() -> EncodeAnswers {
        EncodeAnswers {
            sequence_id: 0,
            encoded: Ok(Seq::empty()),
            allowed: true,
            profile: ConnectView::blank(),
            connect: ConnectAnswers::nothing(),
        }
    }
}

impl TurnAnswers {
    /// Nothing was asked.
    pub open spec fn nothing() -> TurnAnswers {
        TurnAnswers { authed: true, encode: EncodeAnswers::nothing() }
    }
}

/// What is the same for every task of one pass.
#[derive(Debug, Clone, Copy, PartialEq, Eq, Structural)]
pub struct Pass {
    pub now: u64,
    pub mobile: bool,
    pub can_retry: bool,
}

/// A pass of sends: what the queue has become, the task it is at, and how many
/// tasks are out.
pub struct SendCursor {
    pub q: QueueView,
    pub i: int,
    pub sent: int,
}

impl SendCursor {
    pub open spec fn done(self) -> bool {
        self.i >= self.q.tasks.len()
    }

    /// The task is left where it is.
    pub open spec fn passed(self) -> SendCursor {
        SendCursor { i: self.i + 1, ..self }
    }

    pub open spec fn heard(self, event: Told) -> SendCursor {
        SendCursor { q: self.q.heard(event), ..self }
    }

    pub open spec fn task(self) -> TaskView {
        self.q.tasks[self.i]
    }

    pub open spec fn with_task(self, t: TaskView) -> SendCursor {
        SendCursor { q: self.q.with_task(self.i, t), ..self }
    }

    /// The id the task is reported under is written down.
    pub open spec fn stamped(self, id: Option<u16>) -> SendCursor {
        match id {
            Some(client_sequence_id) => self.with_task(
                TaskView { task: Task { client_sequence_id, ..self.task().task }, ..self.task() },
            ),
            None => self,
        }
    }

    /// The look ends with an answer for the task.
    pub open spec fn answered(
        self,
        now: u64,
        err_type: ErrCmdType,
        err_code: i32,
        handle: TaskFailHandleType,
        profile: ConnectView,
    ) -> SendCursor {
        SendCursor {
            q: self.q.single_resp(now, self.i, err_type, err_code, handle, profile),
            i: if self.q.is_over(self.i, err_type, handle) { self.i } else { self.i + 1 },
            sent: self.sent,
        }
    }

    /// The look ends with the task failed, on the connect of its channel.
    pub open spec fn refused(
        self,
        now: u64,
        err_type: ErrCmdType,
        err_code: i32,
        answer: ConnectView,
    ) -> SendCursor {
        let name = self.task().channel_name;
        let asked = SendCursor { q: self.q.profile_asked(name, answer), ..self };
        asked.answered(
            now,
            err_type,
            err_code,
            TaskFailHandleType::TaskEnd,
            self.q.profile_of(name, answer),
        )
    }
}

/// The task has to wait: it is out, it owes the queue a wait, its user is not
/// authenticated, or its channel is not there.
#[verifier::opaque]
pub open spec fn turn_gate(c: SendCursor, pass: Pass, a: TurnAnswers) -> SendCursor {
    let t = c.task();
    if t.is_running() {
        SendCursor { i: c.i + 1, sent: c.sent + 1, ..c }
    } else if t.retried() && !pass.can_retry {
        c.passed()
    } else {
        let asked = if t.task.need_authed {
            c.heard(
                Told::Authed {
                    host: first_text(t.task.longlink_host_list@),
                    user_id: t.task.user_id@,
                    answer: a.authed,
                },
            )
        } else {
            c
        };
        if t.task.need_authed && !a.authed {
            asked.passed()
        } else if !c.q.has_channel(t.channel_name) {
            asked.passed()
        } else {
            turn_encode(asked, pass, a.encode)
        }
    }
}

/// The request is made, and asked about: a task gets an id to be reported
/// under once, before its first request.
#[verifier::opaque]
pub open spec fn turn_encode(c: SendCursor, pass: Pass, a: EncodeAnswers) -> SendCursor {
    let t = c.task();
    let id = if t.antiavalanche_checked { None } else { Some(a.sequence_id) };
    let c1 = if t.antiavalanche_checked {
        c
    } else {
        c.heard(Told::SequenceId { answer: a.sequence_id })
    };
    let c2 = c1.heard(Told::Encode { task: t.task, answer: a.encoded });
    match a.encoded {
        Err(code) => c2.stamped(id).refused(pass.now, ErrCmdType::EnDecode, code, a.profile),
        Ok(body) => {
            let c3 = c2.heard(Told::Allowed { task: t.task, body, answer: a.allowed });
            if !a.allowed {
                c3.stamped(id).refused(
                    pass.now,
                    ErrCmdType::Local,
                    LOCAL_ANTI_AVALANCHE,
                    a.profile,
                )
            } else {
                turn_connect(
                    c3.with_task(TaskView { antiavalanche_checked: true, ..t }),
                    pass,
                    id,
                    body,
                    a.connect,
                )
            }
        },
    }
}

/// The link has to be up, and the one the task asked for where it asked for
/// one; an answer that was kept for its cgi is given to it instead.
#[verifier::opaque]
pub open spec fn turn_connect(
    c: SendCursor,
    pass: Pass,
    id: Option<u16>,
    body: Seq<u8>,
    a: ConnectAnswers,
) -> SendCursor {
    let t = c.task();
    let name = t.channel_name;
    let c1 = c.heard(Told::MakeSureConnected { name, answer: a.connected });
    if !a.connected {
        if t.task.channel_id != 0 {
            c1.stamped(id).refused(pass.now, ErrCmdType::Local, LOCAL_CHANNEL_ID, a.profile)
        } else {
            c1.stamped(id).passed()
        }
    } else {
        let p = c1.q.profile_of(name, a.profile);
        let c2 = SendCursor { q: c1.q.profile_asked(name, a.profile), ..c1 };
        if t.task.channel_id != 0 && p.start_time != t.task.channel_id {
            c2.stamped(id).answered(
                pass.now,
                ErrCmdType::Local,
                LOCAL_CHANNEL_ID,
                TaskFailHandleType::TaskEnd,
                p,
            )
        } else {
            let c3 = c2.heard(
                Told::KeptAnswer { now: pass.now, cgi: t.task.cgi@, answer: a.kept },
            );
            match a.kept {
                Some(answer) => {
                    let c4 = c3.heard(
                        Told::Decode { task: t.task, body: answer, answer: a.decoded },
                    );
                    c4.with_task(received(t, answer.len() as usize, pass.now)).stamped(id).answered(
                        pass.now,
                        ErrCmdType::EnDecode,
                        a.decoded.0,
                        a.decoded.1,
                        ConnectView::blank(),
                    )
                },
                None => turn_send(c3, pass, id, body, a.send),
            }
        }
    }
}

/// An answer of `len` bytes came in.
pub open spec fn received(t: TaskView, len: usize, now: u64) -> TaskView {
    TaskView {
        transfer_profile: TransferView {
            received_size: len,
            receive_data_size: len,
            last_receive_pkg_time: now,
            ..t.transfer_profile
        },
        ..t
    }
}

/// The timeouts are worked out and the request goes out; a task that is only
/// sent is over with that.
#[verifier::opaque]
pub open spec fn turn_send(
    c: SendCursor,
    pass: Pass,
    id: Option<u16>,
    body: Seq<u8>,
    a: SendAnswers,
) -> SendCursor {
    let t = c.task();
    let status = c.q.timeout.status;
    let c1 = c.heard(
        Told::FirstPkgTimeout {
            server_cost: t.task.server_process_cost as i64,
            send_len: body.len() as usize,
            sent_count: c.sent as i32,
            status,
            mobile: pass.mobile,
            answer: a.first_pkg,
        },
    ).heard(
        Told::ReadWriteTimeout { first_pkg: a.first_pkg, mobile: pass.mobile, answer: a.read_write },
    );
    let timed = TaskView {
        transfer_profile: TransferView {
            loop_start_task_time: pass.now,
            first_pkg_timeout: a.first_pkg,
            read_write_timeout: a.read_write,
            send_data_size: body.len() as usize,
            ..t.transfer_profile
        },
        current_dyntime_status: if t.task.server_process_cost <= 0 {
            status
        } else {
            DynamicTimeoutStatus::Evaluating
        },
        ..t
    };
    let c2 = c1.with_task(timed).heard(
        Told::Send { name: t.channel_name, task: t.task, body, answer: a.run },
    );
    match a.run {
        None => c2.stamped(id).passed(),
        Some(run) => {
            let out = SendCursor { sent: c.sent + 1, ..c2 }.with_task(
                TaskView { running: Some(run), ..timed },
            ).stamped(id);
            if t.task.send_only {
                let name = t.channel_name;
                SendCursor { q: out.q.profile_asked(name, a.profile), ..out }.answered(
                    pass.now,
                    ErrCmdType::NoError,
                    0,
                    TaskFailHandleType::Normal,
                    out.q.profile_of(name, a.profile),
                )
            } else {
                out.passed()
            }
        },
    }
}

/// One look at the task at the cursor.
pub open spec fn turn(c: SendCursor, pass: Pass, a: TurnAnswers) -> SendCursor {
    if c.done() {
        c
    } else {
        turn_gate(c, pass, a)
    }
}

pub open spec fn turns(q: QueueView, pass: Pass, answers: Seq<TurnAnswers>) -> SendCursor
    decreases answers.len(),
{
    if answers.len() == 0 {
        SendCursor { q, i: 0, sent: 0 }
    } else {
        turn(turns(q, pass, answers.drop_last()), pass, answers.last())
    }
}

/// What a pass of sends was answered.
pub struct StartAnswers {
    pub network: NetworkKind,
    pub turns: Seq<TurnAnswers>,
}

/// The wait after a failed channel is one gate for the whole queue.
pub open spec fn start_pass(q: QueueView, now: u64, network: NetworkKind) -> Pass {
    Pass {
        now,
        mobile: network == NetworkKind::Mobile,
        can_retry: since(now, q.last_batch_error_time) >= q.retry_interval,
    }
}

/// Every task that may go out now does.
pub open spec fn starts(pre: QueueView, now: u64, a: StartAnswers, post: QueueView) -> bool {
    let c = turns(
        pre.heard(Told::Network { answer: a.network }),
        start_pass(pre, now, a.network),
        a.turns,
    );
    c.done() && post == c.q
}

// ---- the tasks that answered nothing ---------------------------------------

/// What one task ran into when the pass began.
pub struct Expired {
    pub taskid: u32,
    pub name: Seq<char>,
    pub read: Option<Timeout>,
    pub over: bool,
}

/// What every task ran into at `now`.
pub open spec fn expired(tasks: Seq<TaskView>, now: u64, network: NetworkKind) -> Seq<Expired> {
    tasks.map_values(
        |t: TaskView|
            Expired {
                taskid: t.task.taskid,
                name: t.channel_name,
                read: read_due(t, now, network),
                over: is_due(t, now, network, Timeout::Task),
            },
    )
}

/// One channel to fail, the code, and the task it is failed for.
pub struct BatchEntry {
    pub name: Seq<char>,
    pub code: i32,
    pub src_taskid: u32,
}

/// `i` is the entry of that channel.
pub open spec fn is_entry(batch: Seq<BatchEntry>, name: Seq<char>, i: int) -> bool {
    &&& 0 <= i < batch.len()
    &&& batch[i].name == name
    &&& forall|j: int| 0 <= j < i ==> (#[trigger] batch[j]).name != name
}

/// One entry per channel: the last task of a channel that timed out is the one
/// the channel is failed for.
pub open spec fn upserted(
    batch: Seq<BatchEntry>,
    name: Seq<char>,
    code: i32,
    taskid: u32,
) -> Seq<BatchEntry> {
    if exists|i: int| is_entry(batch, name, i) {
        let i = choose|i: int| is_entry(batch, name, i);
        batch.update(i, BatchEntry { name, code, src_taskid: taskid })
    } else {
        batch.push(BatchEntry { name, code, src_taskid: taskid })
    }
}

/// A channel none of whose tasks ran into a read timeout is failed for the one
/// that ran out of its own time.
pub open spec fn over_noted(
    batch: Seq<BatchEntry>,
    name: Seq<char>,
    taskid: u32,
) -> Seq<BatchEntry> {
    if exists|i: int| is_entry(batch, name, i) {
        batch
    } else {
        batch.push(BatchEntry { name, code: LONG_TASK_TIMEOUT, src_taskid: taskid })
    }
}

/// A pass of timeouts: what the queue has become, and the channels to fail.
pub struct ExpireCursor {
    pub q: QueueView,
    pub batch: Seq<BatchEntry>,
}

/// One task that ran into something: its channel is to be failed, and a task
/// that ran out of its own time is failed at once.
pub open spec fn expire_step(c: ExpireCursor, now: u64, e: Expired, answer: ConnectView) -> ExpireCursor {
    match located(c.q.tasks, e.taskid) {
        None => c,
        Some(at) => {
            let q1 = if e.read == Some(Timeout::FirstPkg) {
                c.q.with_task(at, last_failed_noted(c.q.tasks[at]))
            } else {
                c.q
            };
            let b1 = match e.read {
                Some(timeout) => upserted(c.batch, e.name, timeout_code(timeout), e.taskid),
                None => c.batch,
            };
            if e.over {
                ExpireCursor {
                    q: q1.profile_asked(e.name, answer).single_resp(
                        now,
                        at,
                        ErrCmdType::Local,
                        LOCAL_TASK_TIMEOUT,
                        TaskFailHandleType::TaskTimeout,
                        q1.profile_of(e.name, answer),
                    ),
                    batch: over_noted(b1, e.name, e.taskid),
                }
            } else {
                ExpireCursor { q: q1, batch: b1 }
            }
        },
    }
}

/// The first tasks of the pass, one answer each.
pub open spec fn expire_steps(
    q: QueueView,
    now: u64,
    entries: Seq<Expired>,
    answers: Seq<ConnectView>,
) -> ExpireCursor
    decreases answers.len(),
{
    if answers.len() == 0 {
        ExpireCursor { q, batch: Seq::empty() }
    } else {
        expire_step(
            expire_steps(q, now, entries, answers.drop_last()),
            now,
            entries[answers.len() - 1],
            answers.last(),
        )
    }
}

/// What failing one channel was answered, and what it left.
pub struct BatchAnswers {
    pub profile: ConnectView,
    pub each: Seq<ConnectView>,
    pub left: QueueView,
}

/// The failure a channel is failed with for a timeout.
pub open spec fn timeout_failure(entry: BatchEntry) -> Failure {
    Failure {
        err_type: ErrCmdType::NetMsgXp,
        err_code: if entry.code == LONG_TASK_TIMEOUT { LOCAL_TASK_TIMEOUT } else { entry.code },
        fail_handle: TaskFailHandleType::Default,
        src_taskid: entry.src_taskid,
    }
}

/// What is told about a channel before it is failed: nothing where a task only
/// ran out of its own time.
pub open spec fn timeout_noted(q: QueueView, entry: BatchEntry, answer: ConnectView) -> QueueView {
    if entry.code == LONG_TASK_TIMEOUT {
        q
    } else {
        let p = q.profile_of(entry.name, answer);
        q.profile_asked(entry.name, answer).heard(
            Told::NetworkErr {
                name: entry.name,
                err_type: ErrCmdType::NetMsgXp,
                err_code: entry.code,
                ip: p.ip,
                port: p.port,
            },
        )
    }
}

/// What the `k`th channel found.
pub open spec fn batch_found(pre: QueueView, answers: Seq<BatchAnswers>, k: int) -> QueueView {
    if k <= 0 {
        pre
    } else {
        answers[k - 1].left
    }
}

/// The channels are failed, one after the other.
pub open spec fn channels_failed(
    pre: QueueView,
    now: u64,
    batch: Seq<BatchEntry>,
    answers: Seq<BatchAnswers>,
    post: QueueView,
) -> bool {
    &&& post == batch_found(pre, answers, answers.len() as int)
    &&& forall|k: int|
        0 <= k < answers.len() ==> channel_failed(
            #[trigger] batch_found(pre, answers, k),
            now,
            batch[k],
            answers[k],
        )
}

/// One channel is failed for a timeout.
pub open spec fn channel_failed(pre: QueueView, now: u64, entry: BatchEntry, a: BatchAnswers) -> bool {
    batch_error(
        timeout_noted(pre, entry, a.profile),
        now,
        entry.name,
        timeout_failure(entry),
        true,
        a.each,
        a.left,
    )
}

/// What a pass of timeouts was answered.
pub struct TimeoutAnswers {
    pub network: NetworkKind,
    pub overs: Seq<ConnectView>,
    pub batches: Seq<BatchAnswers>,
}

/// Every task that answered nothing in time is dealt with: a channel is failed
/// once, not once per task.
pub open spec fn timeouts(pre: QueueView, now: u64, a: TimeoutAnswers, post: QueueView) -> bool {
    let asked = pre.heard(Told::Network { answer: a.network });
    let c = expire_steps(asked, now, expired(pre.tasks, now, a.network), a.overs);
    &&& a.overs.len() == pre.tasks.len()
    &&& a.batches.len() == c.batch.len()
    &&& channels_failed(c.q, now, c.batch, a.batches, post)
}

/// What one pass of the queue was answered.
pub struct LoopAnswers {
    pub timeouts: TimeoutAnswers,
    pub mid: QueueView,
    pub starts: StartAnswers,
}

/// One pass of the queue: the tasks that answered nothing, and then the tasks
/// that may go out. A queue with nothing in it is left alone.
pub open spec fn run_loop(pre: QueueView, now: u64, a: LoopAnswers, post: QueueView) -> bool {
    if pre.tasks.len() == 0 {
        post == pre
    } else {
        timeouts(pre, now, a.timeouts, a.mid) && starts(a.mid, now, a.starts, post)
    }
}

// ---- a task is asked for ---------------------------------------------------

/// The task is put in the queue, behind every task of its priority.
pub open spec fn queued(q: QueueView, now: u64, task: Task, channel: i32, timeout: u64) -> QueueView {
    QueueView {
        tasks: q.tasks.insert(
            slot(q.tasks, task.priority),
            TaskView {
                link_type: channel,
                channel_name: channel_of(task, channel),
                ..TaskView::fresh(now, task, timeout)
            },
        ),
        ..q.heard(Told::TaskTimeout { task, answer: timeout })
    }
}

// ---- the tasks are tried again ---------------------------------------------

/// One task that was out is cancelled; what the network was last taken for is
/// forgotten with it.
pub open spec fn redo_step(c: Cursor, now: u64, name: Seq<char>, answer: ConnectView) -> Cursor {
    if c.done() {
        c
    } else if name.len() != 0 && c.q.tasks[c.i].channel_name != name {
        Cursor { i: c.i + 1, ..c }
    } else {
        let q = c.q.with_task(
            c.i,
            TaskView {
                last_failed_dyntime_status: DynamicTimeoutStatus::Evaluating,
                ..c.q.tasks[c.i]
            },
        );
        if c.q.tasks[c.i].is_running() {
            q.failed_at(
                now,
                c.i,
                ErrCmdType::Local,
                LOCAL_CANCEL,
                TaskFailHandleType::Default,
                answer,
            )
        } else {
            Cursor { q, i: c.i + 1 }
        }
    }
}

pub open spec fn redo_steps(
    q: QueueView,
    now: u64,
    name: Seq<char>,
    answers: Seq<ConnectView>,
) -> Cursor
    decreases answers.len(),
{
    if answers.len() == 0 {
        Cursor { q, i: 0 }
    } else {
        redo_step(redo_steps(q, now, name, answers.drop_last()), now, name, answers.last())
    }
}

/// What trying the tasks again was answered.
pub struct RedoAnswers {
    pub each: Seq<ConnectView>,
    pub pass: LoopAnswers,
}

/// The tasks of one channel, or of the queue where `name` is empty, are
/// cancelled and go out again without waiting.
pub open spec fn redone(
    pre: QueueView,
    now: u64,
    name: Seq<char>,
    a: RedoAnswers,
    post: QueueView,
) -> bool {
    let c = redo_steps(pre, now, name, a.each);
    c.done() && run_loop(QueueView { retry_interval: 0, ..c.q }, now, a.pass, post)
}

/// Every channel is taken apart and made again.
pub open spec fn channels_reset(q: QueueView, n: int) -> QueueView
    decreases n,
{
    if n <= 0 {
        q
    } else {
        channels_reset(q, n - 1).heard(Told::ResetChannel { name: q.channels[n - 1].name@ })
    }
}

/// Every channel is taken down with a reset.
pub open spec fn channels_dropped(q: QueueView, n: int) -> QueueView
    decreases n,
{
    if n <= 0 {
        q
    } else {
        channels_dropped(q, n - 1).disconnected(
            q.channels[n - 1].name@,
            DisconnectInternalCode::Reset,
        )
    }
}

/// What one channel of a network change was answered, and what it left.
pub struct ChangeAnswers {
    pub changed: bool,
    pub redo: RedoAnswers,
    pub left: QueueView,
}

/// What the `k`th channel found.
pub open spec fn change_found(pre: QueueView, answers: Seq<ChangeAnswers>, k: int) -> QueueView {
    if k <= 0 {
        pre
    } else {
        answers[k - 1].left
    }
}

/// One channel is asked whether the network is another one for it; the tasks
/// of one that says so are tried again.
pub open spec fn channel_changed(
    pre: QueueView,
    now: u64,
    name: Seq<char>,
    a: ChangeAnswers,
) -> bool {
    let asked = pre.heard(Told::NetworkChange { name, answer: a.changed });
    if a.changed {
        redone(asked, now, name, a.redo, a.left)
    } else {
        a.left == asked
    }
}

/// Every channel is asked, one after the other.
pub open spec fn network_changed(
    pre: QueueView,
    now: u64,
    answers: Seq<ChangeAnswers>,
    post: QueueView,
) -> bool {
    &&& answers.len() == pre.channels.len()
    &&& post == change_found(pre, answers, answers.len() as int)
    &&& forall|k: int|
        0 <= k < answers.len() ==> channel_changed(
            #[trigger] change_found(pre, answers, k),
            now,
            pre.channels[k].name@,
            answers[k],
        )
}

/// The channels of a user's tasks, one for each task.
pub open spec fn channels_of_user(tasks: Seq<TaskView>, user_id: Seq<char>) -> Seq<Seq<char>>
    decreases tasks.len(),
{
    if tasks.len() == 0 {
        Seq::empty()
    } else if tasks.last().task.user_id@ == user_id {
        channels_of_user(tasks.drop_last(), user_id).push(tasks.last().channel_name)
    } else {
        channels_of_user(tasks.drop_last(), user_id)
    }
}

/// What failing one channel of a user was answered, and what it left.
pub struct NameAnswers {
    pub each: Seq<ConnectView>,
    pub left: QueueView,
}

/// What the `k`th channel found.
pub open spec fn name_found(pre: QueueView, answers: Seq<NameAnswers>, k: int) -> QueueView {
    if k <= 0 {
        pre
    } else {
        answers[k - 1].left
    }
}

/// The channels are failed, one after the other.
pub open spec fn names_failed(
    pre: QueueView,
    now: u64,
    names: Seq<Seq<char>>,
    failure: Failure,
    answers: Seq<NameAnswers>,
    post: QueueView,
) -> bool {
    &&& post == name_found(pre, answers, answers.len() as int)
    &&& forall|k: int|
        0 <= k < answers.len() ==> batch_error(
            #[trigger] name_found(pre, answers, k),
            now,
            names[k],
            failure,
            true,
            answers[k].each,
            answers[k].left,
        )
}

/// What retrying a user's tasks was answered.
pub struct RetryAnswers {
    pub each: Seq<NameAnswers>,
    pub mid: QueueView,
    pub pass: LoopAnswers,
}

/// The app said what is to be done about a user's tasks: the channel of each
/// of them is failed, and the queue is looked at again.
pub open spec fn users_retried(
    pre: QueueView,
    now: u64,
    failure: Failure,
    user_id: Seq<char>,
    a: RetryAnswers,
    post: QueueView,
) -> bool {
    let names = channels_of_user(pre.tasks, user_id);
    &&& a.each.len() == names.len()
    &&& names_failed(pre, now, names, failure, a.each, a.mid)
    &&& run_loop(a.mid, now, a.pass, post)
}

// ---- an answer came in -----------------------------------------------------

/// The contents of an answer.
pub struct ResponseView {
    pub name: Seq<char>,
    pub err_type: ErrCmdType,
    pub err_code: i32,
    pub cmdid: u32,
    pub taskid: u32,
    pub body: Seq<u8>,
    pub profile: ConnectView,
}

/// What handling an answer was answered.
pub struct ResponseAnswers {
    pub decoded: (i32, TaskFailHandleType),
    pub keep: bool,
    pub network: NetworkKind,
    pub each: Seq<ConnectView>,
}

/// The failure of an error that came in for a channel.
pub open spec fn error_failure(r: ResponseView) -> Failure {
    Failure {
        err_type: r.err_type,
        err_code: r.err_code,
        fail_handle: TaskFailHandleType::Default,
        src_taskid: Task::INVALID_TASK_ID,
    }
}

/// The handshake the two ends did not agree on is not a try of the task's own.
pub open spec fn handshake_given_back(q: QueueView, r: ResponseView) -> QueueView {
    match located(q.tasks, r.taskid) {
        Some(at) if r.err_code == HANDSHAKE_MISUNDERSTAND => q.with_task(
            at,
            TaskView {
                remain_retry_count: (q.tasks[at].remain_retry_count + 1) as i32,
                ..q.tasks[at]
            },
        ),
        _ => q,
    }
}

/// An error fails the whole channel it came in on. What comes back is whether a
/// task still waits: the one the error names, or any task of the channel where it
/// names none.
pub open spec fn error_came(
    pre: QueueView,
    now: u64,
    r: ResponseView,
    each: Seq<ConnectView>,
    post: QueueView,
    handle: Option<RespHandle>,
) -> bool {
    let waiting = if r.taskid == Task::INVALID_TASK_ID {
        count_on(post.tasks, r.name) > 0
    } else {
        post.has_task(r.taskid)
    };
    &&& batch_error(
        handshake_given_back(pre, r),
        now,
        r.name,
        error_failure(r),
        true,
        each,
        post,
    )
    &&& handle == Some(if waiting { RespHandle::Retried } else { RespHandle::Ended })
}

/// The answer is read: it is written down on the task, and kept where the app
/// says so.
pub open spec fn answer_read(q: QueueView, now: u64, at: int, r: ResponseView, a: ResponseAnswers) -> QueueView {
    let t = q.tasks[at];
    let q1 = q.with_task(at, received(t, r.body.len() as usize, now)).heard(
        Told::Decode { task: t.task, body: r.body, answer: a.decoded },
    ).heard(Told::ShouldKeep { err_code: a.decoded.0, answer: a.keep });
    if a.keep {
        q1.heard(Told::KeepAnswer { now, cgi: t.task.cgi@, body: r.body })
    } else {
        q1
    }
}

/// A good answer is taken into account by the dynamic timeout, ends the task
/// and tells the app the pair is a good one.
pub open spec fn answered_well(q: QueueView, now: u64, at: int, r: ResponseView, a: ResponseAnswers) -> QueueView {
    let t = q.tasks[at];
    let size = (t.transfer_profile.send_data_size + r.body.len()) as u32;
    let cost = since(now, t.transfer_profile.start_send_time);
    let q1 = q.heard(Told::Network { answer: a.network });
    QueueView {
        timeout: q1.timeout.recorded(tag_of(a.network, size, cost), now),
        ..q1
    }.single_resp(
        now,
        at,
        ErrCmdType::NoError,
        a.decoded.0,
        TaskFailHandleType::Normal,
        r.profile,
    ).heard(
        Told::NetworkErr {
            name: r.name,
            err_type: ErrCmdType::NoError,
            err_code: a.decoded.0,
            ip: r.profile.ip,
            port: r.profile.port,
        },
    )
}

/// An answer for a task the queue knows, by what the app made of it.
pub open spec fn answer_came(
    pre: QueueView,
    now: u64,
    at: int,
    r: ResponseView,
    a: ResponseAnswers,
    post: QueueView,
    handle: Option<RespHandle>,
) -> bool {
    let t = pre.tasks[at];
    let read = answer_read(pre, now, at, r, a);
    let code = a.decoded.0;
    match a.decoded.1 {
        TaskFailHandleType::Normal => {
            &&& post == answered_well(read, now, at, r, a)
            &&& handle == Some(RespHandle::Ended)
        },
        TaskFailHandleType::SessionTimeout | TaskFailHandleType::RetryAllTasks => {
            &&& post == read.heard(
                Told::RetryAllTasks {
                    err_type: ErrCmdType::EnDecode,
                    err_code: code,
                    handle: a.decoded.1,
                    src_taskid: t.task.taskid,
                    user_id: t.task.user_id@,
                },
            )
            &&& handle == Some(RespHandle::Deferred)
        },
        TaskFailHandleType::TaskEnd => {
            &&& post == read.single_resp(
                now,
                at,
                ErrCmdType::EnDecode,
                code,
                TaskFailHandleType::TaskEnd,
                r.profile,
            )
            &&& handle == Some(RespHandle::Ended)
        },
        TaskFailHandleType::SlientTaskEnd => {
            &&& post == (QueueView { tasks: read.tasks.remove(at), ..read })
            &&& handle == Some(RespHandle::Ended)
        },
        TaskFailHandleType::Default | TaskFailHandleType::TaskTimeout => {
            exists|mid: QueueView|
                {
                    &&& #[trigger] batch_error(
                        read,
                        now,
                        t.channel_name,
                        Failure {
                            err_type: ErrCmdType::EnDecode,
                            err_code: code,
                            fail_handle: a.decoded.1,
                            src_taskid: r.taskid,
                        },
                        true,
                        a.each,
                        mid,
                    )
                    &&& post == mid.heard(
                        Told::NetworkErr {
                            name: r.name,
                            err_type: ErrCmdType::EnDecode,
                            err_code: crate::task_profile::fail_handle_code(a.decoded.1) as i32,
                            ip: r.profile.ip,
                            port: r.profile.port,
                        },
                    )
                    &&& handle == Some(
                        if post.has_task(r.taskid) { RespHandle::Retried } else { RespHandle::Ended },
                    )
                }
        },
    }
}

/// What a channel answered with: nothing comes of an answer on a channel the
/// queue does not have, of the server pushing, and of an answer for a task
/// that is over.
pub open spec fn responded(
    pre: QueueView,
    now: u64,
    r: ResponseView,
    a: ResponseAnswers,
    post: QueueView,
    handle: Option<RespHandle>,
) -> bool {
    if !pre.has_channel(r.name) {
        post == pre && handle is None
    } else if r.err_type == ErrCmdType::NoError && r.taskid == PUSH_DATA_TASKID {
        &&& post == pre.heard(
            Told::Push { name: r.name, cmdid: r.cmdid, taskid: r.taskid, body: r.body },
        )
        &&& handle is None
    } else if r.err_type != ErrCmdType::NoError {
        error_came(pre, now, r, a.each, post, handle)
    } else {
        match located(pre.tasks, r.taskid) {
            None => post == pre && handle is None,
            Some(at) => answer_came(pre, now, at, r, a, post, handle),
        }
    }
}

// ---- when the queue has to be looked at again ------------------------------

/// `at` is one of the readings the queue waits for: a deadline of a task, or
/// the end of the wait a task that has been tried owes.
pub open spec fn is_waited_for(q: QueueView, network: NetworkKind, at: u64) -> bool {
    ||| exists|i: int, k: int|
        0 <= i < q.tasks.len() && 0 <= k < deadlines_of(q.tasks[i], network).len()
            && #[trigger] deadlines_of(q.tasks[i], network)[k].1 == at
    ||| exists|i: int|
        0 <= i < q.tasks.len() && !(#[trigger] q.tasks[i]).is_running() && q.tasks[i].retried()
            && after(q.last_batch_error_time, q.retry_interval) == at
}

/// When the queue has to be looked at again: the earliest reading it waits
/// for; a queue with nothing in it waits for none.
pub open spec fn due_at(q: QueueView, network: NetworkKind, due: Option<u64>) -> bool {
    match due {
        None => q.tasks.len() == 0,
        Some(at) => {
            &&& is_waited_for(q, network, at)
            &&& forall|other: u64| #[trigger] is_waited_for(q, network, other) ==> at <= other
        },
    }
}

/// What the queue counts of the answer can be written down: the tries of a task
/// that gets one back, and the bytes of a task that went well.
pub open spec fn countable(q: QueueView, r: ResponseView) -> bool {
    q.has_channel(r.name) && located(q.tasks, r.taskid) is Some ==> {
        let t = q.tasks[located(q.tasks, r.taskid)->0];
        &&& r.err_type != ErrCmdType::NoError && r.err_code == HANDSHAKE_MISUNDERSTAND
            ==> t.remain_retry_count < i32::MAX
        &&& r.err_type == ErrCmdType::NoError && r.taskid != PUSH_DATA_TASKID
            ==> t.transfer_profile.send_data_size + r.body.len() <= usize::MAX
    }
}

/// `i` is the first channel that says it is the main one.
pub open spec fn is_main_channel(channels: Seq<LonglinkConfig>, i: int) -> bool {
    &&& 0 <= i < channels.len()
    &&& channels[i].is_main
    &&& forall|j: int| 0 <= j < i ==> !(#[trigger] channels[j]).is_main
}

/// How many of the tasks go out on that channel.
pub open spec fn count_on(tasks: Seq<TaskView>, name: Seq<char>) -> nat
    decreases tasks.len(),
{
    if tasks.len() == 0 {
        0
    } else {
        count_on(tasks.drop_last(), name) + if tasks.last().channel_name == name {
            1nat
        } else {
            0nat
        }
    }
}

/// One of the hosts is one the app forbade tls for.
pub open spec fn forbids_tls(forbidden: Seq<Seq<char>>, hosts: Seq<Seq<char>>) -> bool {
    exists|i: int| 0 <= i < hosts.len() && forbidden.contains(#[trigger] hosts[i])
}

/// The hosts the app forbade tls for, with those of a list that are new and
/// have "long" in them.
pub open spec fn forbidden_with(forbidden: Seq<Seq<char>>, hosts: Seq<Seq<char>>) -> Seq<Seq<char>>
    decreases hosts.len(),
{
    if hosts.len() == 0 {
        forbidden
    } else {
        let before = forbidden_with(forbidden, hosts.drop_last());
        if crate::task::has_part(hosts.last(), "long"@) && !before.contains(hosts.last()) {
            before.push(hosts.last())
        } else {
            before
        }
    }
}

} // verus!
