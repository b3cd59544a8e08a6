//! The queue of long-link tasks.
//!
//! The queue is about *channels*: a task names the long link it wants, and
//! everything that is asked of a long link is asked of a name.
//!
//! * **A channel is what the queue talks to**: its profile, whether it is up,
//!   the send, the stop, the disconnect and what a network change does to it
//!   are all questions to the host ([`QueueHost`]).
//! * **An answer is for a channel, not for a task**: a timeout and an error
//!   that came in are batched per channel, so one task that heard nothing
//!   fails with everything else that was out on the same link, and the link
//!   itself is taken down ([`DisconnectInternalCode`]).
//!
//! A task that is over is not taken off the link: a task is stopped on the
//! link only when the app asked to stop it
//! ([`LongLinkTaskManager::stop_task`]).
use vstd::prelude::*;
use crate::config::{MOBILE_PACKAGE_INTERVAL, WIFI_PACKAGE_INTERVAL};
use crate::dynamic_timeout::{DynamicTimeout, DynamicTimeoutStatus, NetworkKind};
use crate::long_link::DisconnectInternalCode;
use crate::longlink::{LongLinkEncoder, PUSH_DATA_TASKID};
use crate::net_source::LonglinkConfig;
use crate::queue_host::{kept, request, QueueHost, Told};
use crate::queue_spec::{
    after, answer_came, answer_read, answered_well, batch_end, batch_error, batch_found, batch_hits,
    batch_steps, by_priority, change_found, channel_changed, channel_failed, channel_of,
    channels_dropped, channels_failed, channels_of_user, channels_reset, channels_without, count_on,
    countable, deadlines_of, distinct_names, due_at, error_came, expire_step, expire_steps, expired,
    first_text, forbidden_with, forbids_tls, handshake_given_back, is_due, is_entry, is_first,
    is_main_channel, is_slot, is_waited_for, located, name_found, names_channel, names_failed,
    network_changed, over_noted, package_interval, queued, read_due, received, redo_steps, redone,
    release_steps, released, responded, run_loop, slot, start_pass, starts, timeout_code,
    timeout_noted, timeouts, turn, turn_connect, turn_encode, turn_gate, turn_send, turns, upserted,
    users_retried, BatchAnswers, BatchEntry, ChangeAnswers, ConnectAnswers, Cursor, EncodeAnswers,
    ExpireCursor, Expired, Failure, LoopAnswers, NameAnswers, Pass, QueueView, RedoAnswers,
    RespHandle, ResponseAnswers, ResponseView, RetryAnswers, SendAnswers, SendCursor, StartAnswers,
    Timeout, TimeoutAnswers, TurnAnswers, RETRY_INTERNAL,
};
use crate::task::{contains_text, holds_text, texts, Task};
use crate::task_profile::{
    last_failed_noted, ConnectProfile, ConnectView, ErrCmdType, RunId, TaskFailHandleType,
    TaskProfile, TaskView, TransferView, HANDSHAKE_MISUNDERSTAND, LOCAL_ANTI_AVALANCHE,
    LOCAL_CANCEL, LOCAL_CHANNEL_ID, LOCAL_LONG_LINK_RELEASED, LOCAL_RESET, LOCAL_TASK_TIMEOUT,
    LONG_FIRST_PKG_TIMEOUT, LONG_PKG_PKG_TIMEOUT, LONG_READ_WRITE_TIMEOUT, LONG_TASK_TIMEOUT,
};

verus! {

impl Timeout {
    /// The task's own timeout is the pipeline's, and fails it on its own; the
    /// other three are the link's, and fail the whole channel.
    pub fn err_type(self) -> (err_type: ErrCmdType)
        ensures
            err_type == (if self == Timeout::Task { ErrCmdType::Local } else { ErrCmdType::NetMsgXp }),
    {
        match self {
            Timeout::Task => ErrCmdType::Local,
            _ => ErrCmdType::NetMsgXp,
        }
    }

    /// The error code of this timeout.
    pub fn err_code(self) -> (code: i32)
        ensures
            code == timeout_code(self),
    {
        match self {
            Timeout::Task => LOCAL_TASK_TIMEOUT,
            Timeout::FirstPkg => LONG_FIRST_PKG_TIMEOUT,
            Timeout::PkgPkg => LONG_PKG_PKG_TIMEOUT,
            Timeout::ReadWrite => LONG_READ_WRITE_TIMEOUT,
        }
    }
}

/// What a channel answered with: the answer of a task, and the name of the
/// long link it came in on.
#[derive(Debug, Clone, PartialEq)]
pub struct Response {
    /// The channel the answer came in on.
    pub name: String,
    pub err_type: ErrCmdType,
    pub err_code: i32,
    pub cmdid: u32,
    /// What the queue finds the task by. [`Task::INVALID_TASK_ID`] is the
    /// server pushing.
    pub taskid: u32,
    pub body: Vec<u8>,
    pub profile: ConnectProfile,
}

impl View for Response {
    type V = ResponseView;

    open spec fn view(&self) -> ResponseView {
        ResponseView {
            name: self.name@,
            err_type: self.err_type,
            err_code: self.err_code,
            cmdid: self.cmdid,
            taskid: self.taskid,
            body: self.body@,
            profile: self.profile@,
        }
    }
}

/// The queue of tasks that go out on a long link, and the channels they go out
/// on.
pub struct LongLinkTaskManager<H> {
    /// The app and the links.
    pub host: H,
    /// The tasks, by priority.
    pub tasks: Vec<TaskProfile>,
    /// What the queue keeps of a channel: the name a task names it by, whether
    /// it is the main one, and what kind of link it is.
    pub channels: Vec<LonglinkConfig>,
    pub last_batch_error_time: u64,
    /// One wait for the whole queue.
    pub retry_interval: u64,
    pub tasks_continuous_fail_count: u32,
    pub dynamic_timeout: DynamicTimeout,
    pub forbid_tls_hosts: Vec<String>,
    /// One for every channel.
    pub encoder: LongLinkEncoder,
}

/// The contents of a list of tasks.
pub open spec fn views(tasks: Seq<TaskProfile>) -> Seq<TaskView> {
    tasks.map_values(|t: TaskProfile| t@)
}

impl<H: QueueHost> View for LongLinkTaskManager<H> {
    type V = QueueView;

    open spec fn view(&self) -> QueueView {
        QueueView {
            tasks: views(self.tasks@),
            channels: self.channels@,
            last_batch_error_time: self.last_batch_error_time,
            retry_interval: self.retry_interval,
            fail_count: self.tasks_continuous_fail_count,
            timeout: self.dynamic_timeout@,
            forbid_tls_hosts: texts(self.forbid_tls_hosts@),
            encoder: self.encoder,
            told: self.host.heard(),
            fixed: self.host.fixed(),
        }
    }
}

/// An answer for one task leaves the queue in order.
pub proof fn lemma_single_resp_wf(
    q: QueueView,
    now: u64,
    at: int,
    err_type: ErrCmdType,
    err_code: i32,
    handle: TaskFailHandleType,
    profile: ConnectView,
)
    requires
        q.wf(),
        0 <= at < q.tasks.len(),
    ensures
        q.single_resp(now, at, err_type, err_code, handle, profile).wf(),
        q.single_resp(now, at, err_type, err_code, handle, profile).channels == q.channels,
        q.single_resp(now, at, err_type, err_code, handle, profile).tasks.len() == (if q.is_over(
            at,
            err_type,
            handle,
        ) { q.tasks.len() - 1 } else { q.tasks.len() as int }),
{
    reveal(by_priority);
}

/// Writing on a task that keeps its priority leaves the queue in order.
pub proof fn lemma_with_task_wf(q: QueueView, at: int, t: TaskView)
    requires
        q.wf(),
        0 <= at < q.tasks.len(),
        t.task.priority == q.tasks[at].task.priority,
    ensures
        q.with_task(at, t).wf(),
{
    reveal(by_priority);
}

/// The first task with an id is the one that is located.
pub proof fn lemma_located(tasks: Seq<TaskView>, taskid: u32, i: int)
    requires
        is_first(tasks, taskid, i),
        taskid != Task::INVALID_TASK_ID,
    ensures
        located(tasks, taskid) == Some(i),
{
    let c = choose|c: int| is_first(tasks, taskid, c);
    assert(is_first(tasks, taskid, c));
    if c < i {
        assert(tasks[c].task.taskid != taskid);
    }
    if i < c {
        assert(tasks[i].task.taskid != taskid);
    }
}

impl<H: QueueHost> LongLinkTaskManager<H> {
    /// A queue with nothing in it and no channels: the links are added with
    /// [`LongLinkTaskManager::add_long_link`].
    pub fn new(host: H) -> (queue: Self)
        ensures
            queue@ == QueueView::fresh(host.heard(), host.fixed()),
            queue.host == host,
            queue@.wf(),
    {
        reveal(by_priority);
        reveal(distinct_names);
        let queue = LongLinkTaskManager {
            host,
            tasks: Vec::new(),
            channels: Vec::new(),
            last_batch_error_time: 0,
            retry_interval: 0,
            tasks_continuous_fail_count: 0,
            dynamic_timeout: DynamicTimeout::new(),
            forbid_tls_hosts: Vec::new(),
            encoder: LongLinkEncoder::new(),
        };
        assert(queue@.tasks == Seq::<TaskView>::empty());
        assert(queue@.forbid_tls_hosts == Seq::<Seq<char>>::empty());
        queue
    }

    /// Whether the queue has a channel of that name.
    pub fn has_channel(&self, name: &str) -> (has: bool)
        ensures
            has == self@.has_channel(name@),
    {
        let wanted = name.to_owned();
        let mut i: usize = 0;
        while i < self.channels.len()
            invariant
                i <= self.channels.len(),
                wanted@ == name@,
                forall|j: int| 0 <= j < i ==> (#[trigger] self.channels@[j]).name@ != name@,
            decreases self.channels.len() - i,
        {
            if self.channels[i].name == wanted {
                assert(self@.channels[i as int].name@ == name@);
                return true;
            }
            i += 1;
        }
        false
    }

    /// The task an answer is about: a long link answers for a task, not for a
    /// run.
    fn locate(&self, taskid: u32) -> (found: Option<usize>)
        ensures
            match found {
                Some(at) => located(self@.tasks, taskid) == Some(at as int) && at < self.tasks.len()
                    && self.tasks@[at as int].task.taskid == taskid,
                None => located(self@.tasks, taskid) is None,
            },
    {
        if taskid == Task::INVALID_TASK_ID {
            return None;
        }
        let mut i: usize = 0;
        while i < self.tasks.len()
            invariant
                i <= self.tasks.len(),
                taskid != Task::INVALID_TASK_ID,
                forall|j: int| 0 <= j < i ==> (#[trigger] self@.tasks[j]).task.taskid != taskid,
            decreases self.tasks.len() - i,
        {
            if self.tasks[i].task.taskid == taskid {
                proof {
                    assert(self@.tasks[i as int].task.taskid == taskid);
                    lemma_located(self@.tasks, taskid, i as int);
                }
                return Some(i);
            }
            assert(self@.tasks[i as int].task.taskid != taskid);
            i += 1;
        }
        None
    }

    /// The host is asked for the connect of a channel; one the queue does not
    /// have is not available.
    fn profile_of(&mut self, name: &str) -> (r: (ConnectProfile, Ghost<ConnectView>))
        ensures
            final(self)@.fixed == old(self)@.fixed,
            final(self)@ == old(self)@.profile_asked(name@, r.1@),
            r.0@ == old(self)@.profile_of(name@, r.1@),
            final(self).tasks == old(self).tasks,
            final(self).channels == old(self).channels,
    {
        if !self.has_channel(name) {
            return (ConnectProfile::unavailable(), Ghost(ConnectView::blank()));
        }
        let profile = self.host.channel_profile(name);
        let ghost answer = profile@;
        (profile, Ghost(answer))
    }

    /// A channel the queue has is taken down.
    fn disconnect(&mut self, name: &str, code: DisconnectInternalCode)
        ensures
            final(self)@.fixed == old(self)@.fixed,
            final(self)@ == old(self)@.disconnected(name@, code),
            final(self).tasks == old(self).tasks,
            final(self).channels == old(self).channels,
    {
        if !self.has_channel(name) {
            return;
        }
        self.host.disconnect(name, code);
    }

    /// One answer, for one task: whether the task is over. `false` is a task
    /// that has another try coming.
    fn single_resp_handle_at(
        &mut self,
        now: u64,
        at: usize,
        err_type: ErrCmdType,
        err_code: i32,
        fail_handle: TaskFailHandleType,
        profile: ConnectProfile,
    ) -> (over: bool)
        requires
            old(self)@.wf(),
            at < old(self).tasks.len(),
        ensures
            final(self)@.fixed == old(self)@.fixed,
            final(self)@ == old(self)@.single_resp(
                now,
                at as int,
                err_type,
                err_code,
                fail_handle,
                profile@,
            ),
            over == old(self)@.is_over(at as int, err_type, fail_handle),
            final(self)@.wf(),
            final(self).channels == old(self).channels,
            final(self).tasks.len() == (if over {
                old(self).tasks.len() - 1
            } else {
                old(self).tasks.len() as int
            }),
    {
        proof {
            lemma_single_resp_wf(
                old(self)@,
                now,
                at as int,
                err_type,
                err_code,
                fail_handle,
                profile@,
            );
        }
        let ghost before = self@;
        assert(before.tasks[at as int] == self.tasks@[at as int]@);
        self.tasks[at].link_type = profile.link_type;
        self.tasks[at].transfer_profile.connect_profile = profile;
        if err_type == ErrCmdType::NoError {
            self.retry_interval = 0;
            self.tasks_continuous_fail_count = 0;
        } else {
            self.tasks_continuous_fail_count = self.tasks_continuous_fail_count.saturating_add(1);
        }
        let cost: u64 = now.saturating_sub(self.tasks[at].start_task_time);
        let over = self.tasks[at].remain_retry_count <= 0 || err_type == ErrCmdType::NoError
            || fail_handle == TaskFailHandleType::TaskEnd || fail_handle
            == TaskFailHandleType::TaskTimeout;
        if over {
            self.host.ended(
                err_type,
                err_code,
                fail_handle,
                &self.tasks[at].task,
                cost as u32,
                &self.tasks[at].transfer_profile.connect_profile,
            );
            self.tasks.remove(at);
            assert(self@.tasks == before.tasks.remove(at as int));
            return true;
        }
        self.tasks[at].remain_retry_count = self.tasks[at].remain_retry_count - 1;
        self.tasks[at].transfer_profile.error_type = err_type;
        self.tasks[at].transfer_profile.error_code = err_code;
        self.tasks[at].err_type = err_type;
        self.tasks[at].err_code = err_code;
        self.tasks[at].end_try();
        assert(self@.tasks == before.single_resp(
            now,
            at as int,
            err_type,
            err_code,
            fail_handle,
            profile@,
        ).tasks);
        false
    }

    /// The task at `i` is failed with the connect of its channel.
    fn fail_one(
        &mut self,
        now: u64,
        i: usize,
        err_type: ErrCmdType,
        err_code: i32,
        handle: TaskFailHandleType,
    ) -> (r: (usize, Ghost<ConnectView>))
        requires
            old(self)@.wf(),
            i < old(self).tasks.len(),
        ensures
            final(self)@.fixed == old(self)@.fixed,
            (Cursor { q: final(self)@, i: r.0 as int }) == old(self)@.failed_at(
                now,
                i as int,
                err_type,
                err_code,
                handle,
                r.1@,
            ),
            final(self)@.wf(),
            final(self).channels == old(self).channels,
            r.0 <= final(self).tasks.len(),
            final(self).tasks.len() - r.0 == old(self).tasks.len() - i - 1,
            final(self).tasks.len() <= old(self).tasks.len(),
    {
        let name = self.tasks[i].channel_name.clone();
        assert(self@.tasks[i as int] == self.tasks@[i as int]@);
        let (profile, answer) = self.profile_of(name.as_str());
        let over = self.single_resp_handle_at(now, i, err_type, err_code, handle, profile);
        if over {
            (i, answer)
        } else {
            (i + 1, answer)
        }
    }

    /// One answer for every task of a channel.
    fn batch_error_resp_handle_at(
        &mut self,
        now: u64,
        name: &str,
        failure: Failure,
        running_only: bool,
    ) -> (answers: Ghost<Seq<ConnectView>>)
        requires
            old(self)@.wf(),
        ensures
            final(self)@.fixed == old(self)@.fixed,
            batch_error(old(self)@, now, name@, failure, running_only, answers@, final(self)@),
            final(self)@.wf(),
            final(self).channels == old(self).channels,
            final(self).tasks.len() <= old(self).tasks.len(),
    {
        let wanted = name.to_owned();
        let all = name.is_empty();
        let mut i: usize = 0;
        let ghost mut answers: Seq<ConnectView> = Seq::empty();
        while i < self.tasks.len()
            invariant
                self@.fixed == old(self)@.fixed,
                i <= self.tasks.len(),
                self.tasks.len() <= old(self).tasks.len(),
                wanted@ == name@,
                all == (name@.len() == 0),
                self@.wf(),
                self.channels == old(self).channels,
                (Cursor { q: self@, i: i as int }) == batch_steps(
                    old(self)@,
                    now,
                    name@,
                    failure,
                    running_only,
                    answers,
                ),
            decreases self.tasks.len() - i,
        {
            let ghost c = Cursor { q: self@, i: i as int };
            let ghost before = answers;
            assert(self@.tasks[i as int] == self.tasks@[i as int]@);
            let hit = (!running_only || self.tasks[i].is_running()) && (all
                || self.tasks[i].channel_name == wanted);
            assert(hit == batch_hits(c, name@, running_only));
            if !hit {
                i += 1;
                proof {
                    answers = answers.push(ConnectView::blank());
                    assert(answers.drop_last() =~= before);
                }
            } else {
                let code: i32 = if failure.src_taskid == Task::INVALID_TASK_ID || failure.src_taskid
                    == self.tasks[i].task.taskid {
                    failure.err_code
                } else {
                    0
                };
                let (next, answer) = self.fail_one(
                    now,
                    i,
                    failure.err_type,
                    code,
                    failure.fail_handle,
                );
                i = next;
                proof {
                    answers = answers.push(answer@);
                    assert(answers.drop_last() =~= before);
                }
            }
        }
        let ghost swept = self@;
        self.last_batch_error_time = now;
        if failure.err_type != ErrCmdType::Local && self.tasks.len() > 0 {
            self.retry_interval = RETRY_INTERNAL;
        }
        if failure.fail_handle == TaskFailHandleType::SessionTimeout || failure.fail_handle
            == TaskFailHandleType::RetryAllTasks {
            self.disconnect(name, DisconnectInternalCode::DecodeErr);
            self.retry_interval = 0;
        }
        if failure.fail_handle == TaskFailHandleType::Default && !(failure.err_type
            == ErrCmdType::Dns || failure.err_type == ErrCmdType::Socket || failure.err_type
            == ErrCmdType::Canceld) {
            self.disconnect(name, DisconnectInternalCode::DecodeErr);
        }
        if failure.err_type == ErrCmdType::NetMsgXp {
            self.disconnect(name, DisconnectInternalCode::TaskTimeout);
        }
        assert(self@ == batch_end(swept, now, name@, failure));
        Ghost(answers)
    }
}

/// How far a look at the task at `i` has to leave the pass: one task fewer to
/// look at, and no more tasks out than were looked at.
pub open spec fn turned(
    before: QueueView,
    i: int,
    sent: int,
    after: QueueView,
    next: int,
    out: int,
) -> bool {
    &&& after.wf()
    &&& after.channels == before.channels
    &&& 0 <= next <= after.tasks.len() <= before.tasks.len()
    &&& after.tasks.len() - next == before.tasks.len() - i - 1
    &&& sent <= out <= sent + 1
}

impl<H: QueueHost> LongLinkTaskManager<H> {
    /// The id a task is reported under is written down.
    fn stamp(&mut self, i: usize, id: Option<u16>)
        requires
            old(self)@.wf(),
            i < old(self).tasks.len(),
        ensures
            final(self)@.fixed == old(self)@.fixed,
            forall|sent: int|
                (SendCursor { q: final(self)@, i: i as int, sent }) == #[trigger] (SendCursor {
                    q: old(self)@,
                    i: i as int,
                    sent,
                }).stamped(id),
            final(self)@.wf(),
            final(self)@.channels == old(self)@.channels,
            final(self).tasks.len() == old(self).tasks.len(),
    {
        let ghost before = self@;
        match id {
            Some(client_sequence_id) => {
                self.tasks[i].task.client_sequence_id = client_sequence_id;
                proof {
                    let t = before.tasks[i as int];
                    let stamped = TaskView { task: Task { client_sequence_id, ..t.task }, ..t };
                    assert(self@.tasks =~= before.tasks.update(i as int, stamped));
                    lemma_with_task_wf(before, i as int, stamped);
                    assert(self@ == before.with_task(i as int, stamped));
                }
            },
            None => {},
        }
    }

    /// The look ends with an answer for the task.
    fn turn_answered(
        &mut self,
        pass: Pass,
        i: usize,
        err_type: ErrCmdType,
        err_code: i32,
        handle: TaskFailHandleType,
        profile: ConnectProfile,
        Ghost(sent): Ghost<int>,
    ) -> (next: usize)
        requires
            old(self)@.wf(),
            i < old(self).tasks.len(),
        ensures
            final(self)@.fixed == old(self)@.fixed,
            (SendCursor { q: final(self)@, i: next as int, sent }) == (SendCursor {
                q: old(self)@,
                i: i as int,
                sent,
            }).answered(pass.now, err_type, err_code, handle, profile@),
            turned(old(self)@, i as int, sent, final(self)@, next as int, sent),
    {
        if self.single_resp_handle_at(pass.now, i, err_type, err_code, handle, profile) {
            i
        } else {
            i + 1
        }
    }

    /// The look ends with the task failed, on the connect of its channel.
    fn turn_refused(
        &mut self,
        pass: Pass,
        i: usize,
        err_type: ErrCmdType,
        err_code: i32,
        Ghost(sent): Ghost<int>,
    ) -> (r: (usize, Ghost<ConnectView>))
        requires
            old(self)@.wf(),
            i < old(self).tasks.len(),
        ensures
            final(self)@.fixed == old(self)@.fixed,
            (SendCursor { q: final(self)@, i: r.0 as int, sent }) == (SendCursor {
                q: old(self)@,
                i: i as int,
                sent,
            }).refused(pass.now, err_type, err_code, r.1@),
            turned(old(self)@, i as int, sent, final(self)@, r.0 as int, sent),
    {
        let name = self.tasks[i].channel_name.clone();
        assert(self@.tasks[i as int] == self.tasks@[i as int]@);
        let (profile, answer) = self.profile_of(name.as_str());
        let next: usize = self.turn_answered(
            pass,
            i,
            err_type,
            err_code,
            TaskFailHandleType::TaskEnd,
            profile,
            Ghost(sent),
        );
        (next, answer)
    }

    /// The timeouts are worked out and the request goes out.
    #[verifier::rlimit(60)]
    fn start_send(
        &mut self,
        pass: Pass,
        i: usize,
        sent: i32,
        id: Option<u16>,
        body: &Vec<u8>,
    ) -> (r: (usize, i32, Ghost<SendAnswers>))
        requires
            old(self)@.wf(),
            i < old(self).tasks.len(),
            0 <= sent < i32::MAX,
        ensures
            final(self)@.fixed == old(self)@.fixed,
            (SendCursor { q: final(self)@, i: r.0 as int, sent: r.1 as int }) == turn_send(
                SendCursor { q: old(self)@, i: i as int, sent: sent as int },
                pass,
                id,
                body@,
                r.2@,
            ),
            turned(old(self)@, i as int, sent as int, final(self)@, r.0 as int, r.1 as int),
    {
        reveal(turn_send);
        let ghost before = self@;
        let ghost t = before.tasks[i as int];
        assert(t == self.tasks@[i as int]@);
        let ghost c = SendCursor { q: before, i: i as int, sent: sent as int };
        let status = self.dynamic_timeout.status();
        let server_cost: i64 = self.tasks[i].task.server_process_cost as i64;
        let first_pkg: u64 = self.host.first_pkg_timeout(
            server_cost,
            body.len(),
            sent,
            status,
            pass.mobile,
        );
        let read_write: u64 = self.host.read_write_timeout(first_pkg, pass.mobile);
        self.tasks[i].transfer_profile.loop_start_task_time = pass.now;
        self.tasks[i].transfer_profile.first_pkg_timeout = first_pkg;
        self.tasks[i].transfer_profile.read_write_timeout = read_write;
        self.tasks[i].transfer_profile.send_data_size = body.len();
        self.tasks[i].current_dyntime_status = if self.tasks[i].task.server_process_cost <= 0 {
            status
        } else {
            DynamicTimeoutStatus::Evaluating
        };
        let ghost timed = self.tasks@[i as int]@;
        let run = self.host.send(
            self.tasks[i].channel_name.as_str(),
            &self.tasks[i].task,
            body.as_slice(),
        );
        let ghost a = SendAnswers { first_pkg, read_write, run, ..SendAnswers::nothing() };
        proof {
            lemma_with_task_wf(before, i as int, timed);
            assert(self@.tasks =~= before.tasks.update(i as int, timed));
        }
        let run_id: RunId = match run {
            None => {
                self.stamp(i, id);
                return (i + 1, sent, Ghost(a));
            },
            Some(run_id) => run_id,
        };
        let ghost sent_out = self@;
        self.tasks[i].running = Some(run_id);
        proof {
            let running = TaskView { running: Some(run_id), ..timed };
            lemma_with_task_wf(sent_out, i as int, running);
            assert(self@.tasks =~= sent_out.tasks.update(i as int, running));
        }
        let send_only = self.tasks[i].task.send_only;
        self.stamp(i, id);
        if send_only {
            let name = self.tasks[i].channel_name.clone();
            assert(self@.tasks[i as int] == self.tasks@[i as int]@);
            let (profile, answer) = self.profile_of(name.as_str());
            let next: usize = self.turn_answered(
                pass,
                i,
                ErrCmdType::NoError,
                0,
                TaskFailHandleType::Normal,
                profile,
                Ghost(sent + 1),
            );
            return (next, sent + 1, Ghost(SendAnswers { profile: answer@, ..a }));
        }
        (i + 1, sent + 1, Ghost(a))
    }
}

impl<H: QueueHost> LongLinkTaskManager<H> {
    /// The link has to be up, and the one the task asked for where it asked
    /// for one.
    fn start_connect(
        &mut self,
        pass: Pass,
        i: usize,
        sent: i32,
        id: Option<u16>,
        body: &Vec<u8>,
    ) -> (r: (usize, i32, Ghost<ConnectAnswers>))
        requires
            old(self)@.wf(),
            i < old(self).tasks.len(),
            0 <= sent < i32::MAX,
        ensures
            final(self)@.fixed == old(self)@.fixed,
            (SendCursor { q: final(self)@, i: r.0 as int, sent: r.1 as int }) == turn_connect(
                SendCursor { q: old(self)@, i: i as int, sent: sent as int },
                pass,
                id,
                body@,
                r.2@,
            ),
            turned(old(self)@, i as int, sent as int, final(self)@, r.0 as int, r.1 as int),
    {
        reveal(turn_connect);
        let ghost before = self@;
        let ghost t = before.tasks[i as int];
        assert(t == self.tasks@[i as int]@);
        let ghost nothing = ConnectAnswers::nothing();
        let name = self.tasks[i].channel_name.clone();
        let connected = self.host.make_sure_connected(name.as_str());
        let channel_id: u64 = self.tasks[i].task.channel_id;
        if !connected {
            self.stamp(i, id);
            if channel_id != 0 {
                let (next, answer) = self.turn_refused(
                    pass,
                    i,
                    ErrCmdType::Local,
                    LOCAL_CHANNEL_ID,
                    Ghost(sent as int),
                );
                return (
                    next,
                    sent,
                    Ghost(ConnectAnswers { connected: false, profile: answer@, ..nothing }),
                );
            }
            return (i + 1, sent, Ghost(ConnectAnswers { connected: false, ..nothing }));
        }
        let (profile, answer) = self.profile_of(name.as_str());
        let ghost asked = ConnectAnswers { connected: true, profile: answer@, ..nothing };
        if channel_id != 0 && profile.start_time != channel_id {
            self.stamp(i, id);
            let next: usize = self.turn_answered(
                pass,
                i,
                ErrCmdType::Local,
                LOCAL_CHANNEL_ID,
                TaskFailHandleType::TaskEnd,
                profile,
                Ghost(sent as int),
            );
            return (next, sent, Ghost(asked));
        }
        let recalled = self.host.kept_answer(pass.now, self.tasks[i].task.cgi.as_str());
        let answer_body: Vec<u8> = match recalled {
            None => {
                let (next, out, inner) = self.start_send(pass, i, sent, id, body);
                return (next, out, Ghost(ConnectAnswers { send: inner@, ..asked }));
            },
            Some(answer_body) => answer_body,
        };
        let decoded = self.host.decode(&self.tasks[i].task, answer_body.as_slice());
        let ghost read = self@;
        self.tasks[i].transfer_profile.received_size = answer_body.len();
        self.tasks[i].transfer_profile.receive_data_size = answer_body.len();
        self.tasks[i].transfer_profile.last_receive_pkg_time = pass.now;
        proof {
            let noted = received(t, answer_body.len(), pass.now);
            lemma_with_task_wf(read, i as int, noted);
            assert(self@.tasks =~= read.tasks.update(i as int, noted));
        }
        self.stamp(i, id);
        let blank = ConnectProfile::new();
        let next: usize = self.turn_answered(
            pass,
            i,
            ErrCmdType::EnDecode,
            decoded.0,
            decoded.1,
            blank,
            Ghost(sent as int),
        );
        (next, sent, Ghost(ConnectAnswers { kept: Some(answer_body@), decoded, ..asked }))
    }

    /// The request is made, and asked about.
    fn start_encode(&mut self, pass: Pass, i: usize, sent: i32) -> (r: (
        usize,
        i32,
        Ghost<EncodeAnswers>,
    ))
        requires
            old(self)@.wf(),
            i < old(self).tasks.len(),
            0 <= sent < i32::MAX,
        ensures
            final(self)@.fixed == old(self)@.fixed,
            (SendCursor { q: final(self)@, i: r.0 as int, sent: r.1 as int }) == turn_encode(
                SendCursor { q: old(self)@, i: i as int, sent: sent as int },
                pass,
                r.2@,
            ),
            turned(old(self)@, i as int, sent as int, final(self)@, r.0 as int, r.1 as int),
    {
        reveal(turn_encode);
        let ghost before = self@;
        let ghost t = before.tasks[i as int];
        assert(t == self.tasks@[i as int]@);
        let ghost nothing = EncodeAnswers::nothing();
        let mut id: Option<u16> = None;
        let ghost mut sequence_id: u16 = 0;
        if !self.tasks[i].antiavalanche_checked {
            let made: u16 = self.host.sequence_id();
            id = Some(made);
            proof {
                sequence_id = made;
            }
        }
        let encoded = self.host.encode(&self.tasks[i].task);
        let body: Vec<u8> = match encoded {
            Err(code) => {
                self.stamp(i, id);
                let (next, answer) = self.turn_refused(
                    pass,
                    i,
                    ErrCmdType::EnDecode,
                    code,
                    Ghost(sent as int),
                );
                return (
                    next,
                    sent,
                    Ghost(
                        EncodeAnswers {
                            sequence_id,
                            encoded: Err(code),
                            profile: answer@,
                            ..nothing
                        },
                    ),
                );
            },
            Ok(body) => body,
        };
        let allowed = self.host.allowed(&self.tasks[i].task, body.as_slice());
        if !allowed {
            self.stamp(i, id);
            let (next, answer) = self.turn_refused(
                pass,
                i,
                ErrCmdType::Local,
                LOCAL_ANTI_AVALANCHE,
                Ghost(sent as int),
            );
            return (
                next,
                sent,
                Ghost(
                    EncodeAnswers {
                        sequence_id,
                        encoded: Ok(body@),
                        allowed: false,
                        profile: answer@,
                        ..nothing
                    },
                ),
            );
        }
        let ghost cleared = self@;
        self.tasks[i].antiavalanche_checked = true;
        proof {
            let checked = TaskView { antiavalanche_checked: true, ..t };
            lemma_with_task_wf(cleared, i as int, checked);
            assert(self@.tasks =~= cleared.tasks.update(i as int, checked));
            assert(self@ == cleared.with_task(i as int, checked));
        }
        let (next, out, inner) = self.start_connect(pass, i, sent, id, &body);
        (
            next,
            out,
            Ghost(
                EncodeAnswers {
                    sequence_id,
                    encoded: Ok(body@),
                    allowed: true,
                    connect: inner@,
                    ..nothing
                },
            ),
        )
    }

    /// One look at a task that may go out now.
    fn start_one(&mut self, pass: Pass, i: usize, sent: i32) -> (r: (usize, i32, Ghost<TurnAnswers>))
        requires
            old(self)@.wf(),
            i < old(self).tasks.len(),
            0 <= sent < i32::MAX,
        ensures
            final(self)@.fixed == old(self)@.fixed,
            (SendCursor { q: final(self)@, i: r.0 as int, sent: r.1 as int }) == turn(
                SendCursor { q: old(self)@, i: i as int, sent: sent as int },
                pass,
                r.2@,
            ),
            turned(old(self)@, i as int, sent as int, final(self)@, r.0 as int, r.1 as int),
    {
        reveal(turn_gate);
        let ghost t = self@.tasks[i as int];
        assert(t == self.tasks@[i as int]@);
        let ghost nothing = TurnAnswers::nothing();
        if self.tasks[i].is_running() {
            return (i + 1, sent + 1, Ghost(nothing));
        }
        if self.tasks[i].retried() && !pass.can_retry {
            return (i + 1, sent, Ghost(nothing));
        }
        let mut authed = true;
        if self.tasks[i].task.need_authed {
            let host = if self.tasks[i].task.longlink_host_list.len() > 0 {
                self.tasks[i].task.longlink_host_list[0].clone()
            } else {
                String::new()
            };
            assert(host@ == first_text(t.task.longlink_host_list@));
            authed = self.host.authed(host.as_str(), self.tasks[i].task.user_id.as_str());
            if !authed {
                return (i + 1, sent, Ghost(TurnAnswers { authed: false, ..nothing }));
            }
        }
        if !self.has_channel(self.tasks[i].channel_name.as_str()) {
            return (i + 1, sent, Ghost(TurnAnswers { authed, ..nothing }));
        }
        let (next, out, inner) = self.start_encode(pass, i, sent);
        (next, out, Ghost(TurnAnswers { authed, encode: inner@ }))
    }

    /// Every task that may go out now does.
    fn run_on_start_task_at(&mut self, now: u64) -> (answers: Ghost<StartAnswers>)
        requires
            old(self)@.wf(),
        ensures
            final(self)@.fixed == old(self)@.fixed,
            starts(old(self)@, now, answers@, final(self)@),
            final(self)@.wf(),
            final(self)@.channels == old(self)@.channels,
            final(self).tasks.len() <= old(self).tasks.len(),
    {
        let network = self.host.network();
        let ghost asked = self@;
        let pass = Pass {
            now,
            mobile: network == NetworkKind::Mobile,
            can_retry: now.saturating_sub(self.last_batch_error_time) >= self.retry_interval,
        };
        assert(pass == start_pass(old(self)@, now, network));
        let mut sent_count: i32 = 0;
        let mut i: usize = 0;
        let ghost mut answers: Seq<TurnAnswers> = Seq::empty();
        while i < self.tasks.len()
            invariant
                self@.fixed == old(self)@.fixed,
                i <= self.tasks.len(),
                self.tasks.len() <= old(self).tasks.len() <= i32::MAX,
                0 <= sent_count,
                sent_count + (self.tasks.len() - i) <= old(self).tasks.len(),
                self@.wf(),
                self@.channels == old(self)@.channels,
                (SendCursor { q: self@, i: i as int, sent: sent_count as int }) == turns(
                    asked,
                    pass,
                    answers,
                ),
            decreases self.tasks.len() - i,
        {
            let ghost before = answers;
            let (next, out, answer) = self.start_one(pass, i, sent_count);
            i = next;
            sent_count = out;
            proof {
                answers = answers.push(answer@);
                assert(answers.drop_last() =~= before);
            }
        }
        Ghost(StartAnswers { network, turns: answers })
    }
}

/// How long a package may be in coming after the one before it.
pub fn pkg_pkg_interval(network: NetworkKind) -> (interval: u64)
    ensures
        interval == package_interval(network),
{
    match network {
        NetworkKind::Mobile => MOBILE_PACKAGE_INTERVAL,
        NetworkKind::Wifi => WIFI_PACKAGE_INTERVAL,
    }
}

/// The deadlines a task is waiting on.
pub fn deadlines(profile: &TaskProfile, network: NetworkKind) -> (out: Vec<(Timeout, u64)>)
    ensures
        out@ == deadlines_of(profile@, network),
{
    let mut out: Vec<(Timeout, u64)> = Vec::new();
    out.push((Timeout::Task, profile.start_task_time.saturating_add(profile.task_timeout)));
    if !profile.is_running() || profile.transfer_profile.start_send_time == 0 {
        return out;
    }
    let sent: u64 = profile.transfer_profile.start_send_time;
    if profile.transfer_profile.last_receive_pkg_time == 0 {
        out.push(
            (
                Timeout::FirstPkg,
                sent.saturating_add(profile.transfer_profile.first_pkg_timeout),
            ),
        );
    } else {
        out.push(
            (
                Timeout::PkgPkg,
                profile.transfer_profile.last_receive_pkg_time.saturating_add(
                    pkg_pkg_interval(network),
                ),
            ),
        );
    }
    out.push(
        (Timeout::ReadWrite, sent.saturating_add(profile.transfer_profile.read_write_timeout)),
    );
    out
}

/// When the queue has to be looked at again for one task: the earliest of the
/// deadlines it is waiting on.
pub fn next_deadline(profile: &TaskProfile, network: NetworkKind) -> (at: u64)
    ensures
        exists|k: int|
            0 <= k < deadlines_of(profile@, network).len() && #[trigger] deadlines_of(
                profile@,
                network,
            )[k].1 == at,
        forall|k: int|
            0 <= k < deadlines_of(profile@, network).len() ==> at <= #[trigger] deadlines_of(
                profile@,
                network,
            )[k].1,
{
    let all = deadlines(profile, network);
    let mut at: u64 = all[0].1;
    assert(deadlines_of(profile@, network)[0].1 == at);
    let mut k: usize = 1;
    while k < all.len()
        invariant
            1 <= k <= all.len(),
            all@ == deadlines_of(profile@, network),
            exists|j: int| 0 <= j < all@.len() && #[trigger] all@[j].1 == at,
            forall|j: int| 0 <= j < k ==> at <= #[trigger] all@[j].1,
        decreases all.len() - k,
    {
        if all[k].1 < at {
            at = all[k].1;
            assert(all@[k as int].1 == at);
        }
        k += 1;
    }
    at
}

/// Whether one of the timeouts has run out at `now`.
pub fn due(profile: &TaskProfile, now: u64, network: NetworkKind, timeout: Timeout) -> (due: bool)
    ensures
        due == is_due(profile@, now, network, timeout),
{
    let all = deadlines(profile, network);
    let mut k: usize = 0;
    while k < all.len()
        invariant
            k <= all.len(),
            all@ == deadlines_of(profile@, network),
            forall|j: int| 0 <= j < k ==> !((#[trigger] all@[j]).0 == timeout && all@[j].1 <= now),
        decreases all.len() - k,
    {
        if all[k].0 == timeout && all[k].1 <= now {
            assert(deadlines_of(profile@, network)[k as int].0 == timeout);
            return true;
        }
        k += 1;
    }
    false
}

/// What one task ran into when the pass began.
pub struct ExpiredTask {
    pub taskid: u32,
    pub name: String,
    pub read: Option<Timeout>,
    pub over: bool,
}

impl View for ExpiredTask {
    type V = Expired;

    open spec fn view(&self) -> Expired {
        Expired { taskid: self.taskid, name: self.name@, read: self.read, over: self.over }
    }
}

/// What one task ran into at `now`.
fn expired_task(profile: &TaskProfile, now: u64, network: NetworkKind) -> (e: ExpiredTask)
    ensures
        e.taskid == profile.task.taskid,
        e.name@ == profile.channel_name@,
        e.read == read_due(profile@, now, network),
        e.over == is_due(profile@, now, network, Timeout::Task),
{
    let read = if due(profile, now, network, Timeout::ReadWrite) {
        Some(Timeout::ReadWrite)
    } else if due(profile, now, network, Timeout::PkgPkg) {
        Some(Timeout::PkgPkg)
    } else if due(profile, now, network, Timeout::FirstPkg) {
        Some(Timeout::FirstPkg)
    } else {
        None
    };
    ExpiredTask {
        taskid: profile.task.taskid,
        name: profile.channel_name.clone(),
        read,
        over: due(profile, now, network, Timeout::Task),
    }
}

/// The contents of the channels to fail.
pub open spec fn entries(batch: Seq<(String, i32, u32)>) -> Seq<BatchEntry> {
    batch.map_values(
        |e: (String, i32, u32)| BatchEntry { name: e.0@, code: e.1, src_taskid: e.2 },
    )
}

/// The entry of a channel.
fn find_entry(batch: &Vec<(String, i32, u32)>, name: &String) -> (found: Option<usize>)
    ensures
        match found {
            Some(i) => is_entry(entries(batch@), name@, i as int),
            None => forall|i: int| !is_entry(entries(batch@), name@, i),
        },
{
    let mut i: usize = 0;
    while i < batch.len()
        invariant
            i <= batch.len(),
            forall|j: int| 0 <= j < i ==> (#[trigger] entries(batch@)[j]).name != name@,
        decreases batch.len() - i,
    {
        assert(entries(batch@)[i as int].name == batch@[i as int].0@);
        if batch[i].0 == *name {
            return Some(i);
        }
        i += 1;
    }
    None
}

/// There is one entry of a channel.
proof fn lemma_entry(batch: Seq<BatchEntry>, name: Seq<char>, i: int)
    requires
        is_entry(batch, name, i),
    ensures
        exists|c: int| is_entry(batch, name, c),
        (choose|c: int| is_entry(batch, name, c)) == i,
{
    let c = choose|c: int| is_entry(batch, name, c);
    assert(is_entry(batch, name, c));
    if c < i {
        assert(batch[c].name != name);
    }
    if i < c {
        assert(batch[i].name != name);
    }
}

/// One entry per channel: the last task of a channel that timed out is the one
/// the channel is failed for.
fn upsert(batch: &mut Vec<(String, i32, u32)>, name: &String, code: i32, taskid: u32)
    ensures
        entries(final(batch)@) == upserted(entries(old(batch)@), name@, code, taskid),
{
    let ghost before = entries(batch@);
    match find_entry(batch, name) {
        Some(i) => {
            batch[i].1 = code;
            batch[i].2 = taskid;
            proof {
                lemma_entry(before, name@, i as int);
                assert(entries(batch@) =~= before.update(
                    i as int,
                    BatchEntry { name: name@, code, src_taskid: taskid },
                ));
            }
        },
        None => {
            batch.push((name.clone(), code, taskid));
            assert(entries(batch@) =~= before.push(
                BatchEntry { name: name@, code, src_taskid: taskid },
            ));
        },
    }
}

impl<H: QueueHost> LongLinkTaskManager<H> {
    /// One task that ran into something.
    fn expire_one(
        &mut self,
        now: u64,
        e: &ExpiredTask,
        batch: &mut Vec<(String, i32, u32)>,
    ) -> (answer: Ghost<ConnectView>)
        requires
            old(self)@.wf(),
        ensures
            final(self)@.fixed == old(self)@.fixed,
            (ExpireCursor { q: final(self)@, batch: entries(final(batch)@) }) == expire_step(
                ExpireCursor { q: old(self)@, batch: entries(old(batch)@) },
                now,
                e@,
                answer@,
            ),
            final(self)@.wf(),
            final(self)@.channels == old(self)@.channels,
            final(self).tasks.len() <= old(self).tasks.len(),
    {
        let at: usize = match self.locate(e.taskid) {
            None => {
                return Ghost(ConnectView::blank());
            },
            Some(at) => at,
        };
        let ghost q0 = self@;
        assert(q0.tasks[at as int] == self.tasks@[at as int]@);
        match e.read {
            Some(timeout) => {
                if timeout == Timeout::FirstPkg {
                    self.tasks[at].set_last_failed_status();
                    proof {
                        let noted = last_failed_noted(q0.tasks[at as int]);
                        lemma_with_task_wf(q0, at as int, noted);
                        assert(self@.tasks =~= q0.tasks.update(at as int, noted));
                        assert(self@ == q0.with_task(at as int, noted));
                    }
                }
                upsert(batch, &e.name, timeout.err_code(), e.taskid);
            },
            None => {},
        }
        let ghost q1 = self@;
        assert(q1 == (if e.read == Some(Timeout::FirstPkg) {
            q0.with_task(at as int, last_failed_noted(q0.tasks[at as int]))
        } else {
            q0
        }));
        if e.over {
            let ghost b1 = entries(batch@);
            match find_entry(batch, &e.name) {
                Some(i) => {
                    proof {
                        lemma_entry(b1, e.name@, i as int);
                    }
                },
                None => {
                    batch.push((e.name.clone(), LONG_TASK_TIMEOUT, e.taskid));
                    assert(entries(batch@) =~= b1.push(
                        BatchEntry {
                            name: e.name@,
                            code: LONG_TASK_TIMEOUT,
                            src_taskid: e.taskid,
                        },
                    ));
                },
            }
            assert(entries(batch@) == over_noted(b1, e@.name, e.taskid));
            let (profile, answer) = self.profile_of(e.name.as_str());
            self.single_resp_handle_at(
                now,
                at,
                ErrCmdType::Local,
                LOCAL_TASK_TIMEOUT,
                TaskFailHandleType::TaskTimeout,
                profile,
            );
            assert(self@ == q1.profile_asked(e.name@, answer@).single_resp(
                now,
                at as int,
                ErrCmdType::Local,
                LOCAL_TASK_TIMEOUT,
                TaskFailHandleType::TaskTimeout,
                q1.profile_of(e.name@, answer@),
            ));
            return answer;
        }
        Ghost(ConnectView::blank())
    }

    /// The error of a channel is told, with the pair it happened on.
    fn notify_network_err(
        &mut self,
        name: &str,
        err_type: ErrCmdType,
        err_code: i32,
        profile: &ConnectProfile,
    )
        ensures
            final(self)@.fixed == old(self)@.fixed,
            final(self)@ == old(self)@.heard(
                Told::NetworkErr {
                    name: name@,
                    err_type,
                    err_code,
                    ip: profile@.ip,
                    port: profile@.port,
                },
            ),
            final(self).tasks == old(self).tasks,
            final(self).channels == old(self).channels,
    {
        self.host.network_err(name, err_type, err_code, profile.ip.as_str(), profile.port);
    }

    /// One channel is failed for a timeout.
    fn fail_channel(&mut self, now: u64, name: &String, code: i32, src_taskid: u32) -> (answers: Ghost<
        BatchAnswers,
    >)
        requires
            old(self)@.wf(),
        ensures
            final(self)@.fixed == old(self)@.fixed,
            ({
                let entry = BatchEntry { name: name@, code, src_taskid };
                channel_failed(old(self)@, now, entry, answers@)
            }),
            answers@.left == final(self)@,
            final(self)@.wf(),
            final(self)@.channels == old(self)@.channels,
            final(self).tasks.len() <= old(self).tasks.len(),
    {
        let ghost entry = BatchEntry { name: name@, code, src_taskid };
        let ghost mut asked = ConnectView::blank();
        let mut err_code: i32 = LOCAL_TASK_TIMEOUT;
        if code != LONG_TASK_TIMEOUT {
            err_code = code;
            let (profile, answer) = self.profile_of(name.as_str());
            self.notify_network_err(name.as_str(), ErrCmdType::NetMsgXp, code, &profile);
            proof {
                asked = answer@;
            }
        }
        assert(self@ == timeout_noted(old(self)@, entry, asked));
        let failure = Failure {
            err_type: ErrCmdType::NetMsgXp,
            err_code,
            fail_handle: TaskFailHandleType::Default,
            src_taskid,
        };
        let each = self.batch_error_resp_handle_at(now, name.as_str(), failure, true);
        Ghost(BatchAnswers { profile: asked, each: each@, left: self@ })
    }

    /// Every task that answered nothing in time is dealt with.
    fn run_on_timeout_at(&mut self, now: u64) -> (answers: Ghost<TimeoutAnswers>)
        requires
            old(self)@.wf(),
        ensures
            final(self)@.fixed == old(self)@.fixed,
            timeouts(old(self)@, now, answers@, final(self)@),
            final(self)@.wf(),
            final(self)@.channels == old(self)@.channels,
            final(self).tasks.len() <= old(self).tasks.len(),
    {
        let network = self.host.network();
        let ghost asked = self@;
        let ghost all = expired(old(self)@.tasks, now, network);
        // one look at the queue as it is now: a task that is tried again has
        // its readings cleared, which would make it look like it timed out
        // once more
        let mut timed_out: Vec<ExpiredTask> = Vec::new();
        let mut i: usize = 0;
        while i < self.tasks.len()
            invariant
                self@.fixed == old(self)@.fixed,
                i <= self.tasks.len(),
                self@ == asked,
                asked.tasks == old(self)@.tasks,
                all == expired(old(self)@.tasks, now, network),
                timed_out@.len() == i,
                forall|j: int| 0 <= j < i ==> (#[trigger] timed_out@[j])@ == all[j],
            decreases self.tasks.len() - i,
        {
            assert(asked.tasks[i as int] == self.tasks@[i as int]@);
            timed_out.push(expired_task(&self.tasks[i], now, network));
            i += 1;
        }
        let mut batch: Vec<(String, i32, u32)> = Vec::new();
        let ghost mut overs: Seq<ConnectView> = Seq::empty();
        assert(entries(batch@) =~= Seq::<BatchEntry>::empty());
        let mut k: usize = 0;
        while k < timed_out.len()
            invariant
                self@.fixed == old(self)@.fixed,
                k <= timed_out.len(),
                timed_out.len() == all.len(),
                forall|j: int| 0 <= j < timed_out.len() ==> (#[trigger] timed_out@[j])@ == all[j],
                overs.len() == k,
                self@.wf(),
                self@.channels == old(self)@.channels,
                self.tasks.len() <= old(self).tasks.len(),
                (ExpireCursor { q: self@, batch: entries(batch@) }) == expire_steps(
                    asked,
                    now,
                    all,
                    overs,
                ),
            decreases timed_out.len() - k,
        {
            let ghost before = overs;
            let answer = self.expire_one(now, &timed_out[k], &mut batch);
            proof {
                overs = overs.push(answer@);
                assert(overs.drop_last() =~= before);
            }
            k += 1;
        }
        let ghost swept = self@;
        let ghost to_fail = entries(batch@);
        let ghost mut batches: Seq<BatchAnswers> = Seq::empty();
        let mut b: usize = 0;
        while b < batch.len()
            invariant
                self@.fixed == old(self)@.fixed,
                b <= batch.len(),
                to_fail == entries(batch@),
                batches.len() == b,
                self@.wf(),
                self@.channels == old(self)@.channels,
                self.tasks.len() <= old(self).tasks.len(),
                channels_failed(swept, now, to_fail, batches, self@),
            decreases batch.len() - b,
        {
            let ghost before = batches;
            let ghost mid = self@;
            let answer = self.fail_channel(now, &batch[b].0, batch[b].1, batch[b].2);
            proof {
                batches = batches.push(answer@);
                assert(to_fail[b as int] == (BatchEntry {
                    name: batch@[b as int].0@,
                    code: batch@[b as int].1,
                    src_taskid: batch@[b as int].2,
                }));
                assert(batch_found(swept, batches, b as int) == mid);
                assert forall|j: int| 0 <= j < batches.len() implies channel_failed(
                    #[trigger] batch_found(swept, batches, j),
                    now,
                    to_fail[j],
                    batches[j],
                ) by {
                    if j < b {
                        assert(batch_found(swept, batches, j) == batch_found(swept, before, j));
                    }
                }
            }
            b += 1;
        }
        Ghost(TimeoutAnswers { network, overs, batches })
    }

    /// One pass of the queue: the tasks that answered nothing, and then the
    /// tasks that may go out.
    fn run_loop_answered(&mut self, now: u64) -> (answers: Ghost<LoopAnswers>)
        requires
            old(self)@.wf(),
        ensures
            final(self)@.fixed == old(self)@.fixed,
            run_loop(old(self)@, now, answers@, final(self)@),
            final(self)@.wf(),
            final(self)@.channels == old(self)@.channels,
            final(self).tasks.len() <= old(self).tasks.len(),
    {
        if self.tasks.len() == 0 {
            return Ghost(
                LoopAnswers {
                    timeouts: TimeoutAnswers {
                        network: NetworkKind::Wifi,
                        overs: Seq::empty(),
                        batches: Seq::empty(),
                    },
                    mid: self@,
                    starts: StartAnswers { network: NetworkKind::Wifi, turns: Seq::empty() },
                },
            );
        }
        let first = self.run_on_timeout_at(now);
        let ghost mid = self@;
        let second = self.run_on_start_task_at(now);
        Ghost(LoopAnswers { timeouts: first@, mid, starts: second@ })
    }

    /// One pass of the queue.
    pub fn run_loop_at(&mut self, now: u64)
        requires
            old(self)@.wf(),
        ensures
            final(self)@.fixed == old(self)@.fixed,
            exists|a: LoopAnswers| #[trigger] run_loop(old(self)@, now, a, final(self)@),
            final(self)@.wf(),
    {
        let answers = self.run_loop_answered(now);
        assert(run_loop(old(self)@, now, answers@, self@));
    }
}

/// The place behind the tasks of a priority is one.
pub proof fn lemma_slot(tasks: Seq<TaskView>, priority: i32, p: int)
    requires
        is_slot(tasks, priority, p),
    ensures
        slot(tasks, priority) == p,
{
    let c = choose|c: int| is_slot(tasks, priority, c);
    assert(is_slot(tasks, priority, c));
    if c < p {
        assert(tasks[c].task.priority <= priority);
    }
    if p < c {
        assert(tasks[p].task.priority <= priority);
    }
}

/// A new task at its place leaves the queue in order.
proof fn lemma_insert_wf(tasks: Seq<TaskView>, p: int, t: TaskView)
    requires
        by_priority(tasks),
        is_slot(tasks, t.task.priority, p),
    ensures
        by_priority(tasks.insert(p, t)),
{
    reveal(by_priority);
    assert forall|i: int, j: int| 0 <= i <= j < tasks.insert(p, t).len() implies (
    #[trigger] tasks.insert(p, t)[i]).task.priority <= (#[trigger] tasks.insert(
        p,
        t,
    )[j]).task.priority by {
        let a = if i < p { i } else { i - 1 };
        let b = if j < p { j } else { j - 1 };
        if i != p && j != p {
            assert(tasks[a].task.priority <= tasks[b].task.priority);
        } else if i == p && j != p {
            assert(tasks[b].task.priority > t.task.priority);
        } else if i != p && j == p {
            assert(tasks[a].task.priority <= t.task.priority);
        }
    }
}

/// A task leaves the queue in order when it leaves.
proof fn lemma_remove_wf(q: QueueView, at: int)
    requires
        q.wf(),
        0 <= at < q.tasks.len(),
    ensures
        (QueueView { tasks: q.tasks.remove(at), ..q }).wf(),
{
    reveal(by_priority);
}

/// One more channel that nothing is named like.
proof fn lemma_channel_added(channels: Seq<LonglinkConfig>, config: LonglinkConfig)
    requires
        distinct_names(channels),
        !names_channel(channels, config.name@),
    ensures
        distinct_names(channels.push(config)),
{
    reveal(distinct_names);
    assert forall|i: int, j: int| 0 <= i < j < channels.push(config).len() implies (
    #[trigger] channels.push(config)[i]).name@ != (#[trigger] channels.push(config)[j]).name@ by {
        assert(channels[i].name@ != config.name@);
        if j < channels.len() {
            assert(channels[i].name@ != channels[j].name@);
        }
    }
}

/// Fewer channels are still named apart.
proof fn lemma_filter_names(channels: Seq<LonglinkConfig>, name: Seq<char>)
    requires
        distinct_names(channels),
    ensures
        distinct_names(channels_without(channels, name)),
        forall|c: LonglinkConfig|
            #[trigger] channels_without(channels, name).contains(c)
                ==> channels.contains(c),
    decreases channels.len(),
{
    reveal(distinct_names);
    reveal(Seq::filter);
    if channels.len() > 0 {
        let rest = channels.drop_last();
        assert(distinct_names(rest)) by {
            assert forall|i: int, j: int| 0 <= i < j < rest.len() implies (
            #[trigger] rest[i]).name@ != (#[trigger] rest[j]).name@ by {
                assert(channels[i].name@ != channels[j].name@);
            }
        }
        lemma_filter_names(rest, name);
        let kept_rest = channels_without(rest, name);
        assert forall|c: LonglinkConfig| #[trigger] channels_without(channels, name).contains(c) implies channels.contains(c) by {
            let k = choose|k: int| 0 <= k < channels_without(channels, name).len() && channels_without(channels, name)[k] == c;
            if k < kept_rest.len() {
                assert(kept_rest[k] == c);
                assert(kept_rest.contains(c));
                assert(rest.contains(c));
                let m = choose|m: int| 0 <= m < rest.len() && rest[m] == c;
                assert(channels[m] == c);
            } else {
                assert(c == channels.last());
            }
        }
        assert forall|i: int, j: int| 0 <= i < j < channels_without(channels, name).len() implies (
        #[trigger] channels_without(channels, name)[i]).name@ != (#[trigger] channels_without(channels, name)[j]).name@ by {
            if j < kept_rest.len() {
                assert(kept_rest[i].name@ != kept_rest[j].name@);
            } else {
                assert(kept_rest.contains(kept_rest[i]));
                assert(rest.contains(kept_rest[i]));
                let m = choose|m: int| 0 <= m < rest.len() && rest[m] == kept_rest[i];
                assert(channels[m].name@ != channels[channels.len() - 1].name@);
            }
        }
    }
}

impl<H: QueueHost> LongLinkTaskManager<H> {
    /// `false` when the queue has a channel of that name already.
    ///
    /// A channel on a host list the app forbade tls for is one that does not
    /// get it.
    pub fn add_long_link(&mut self, config: LonglinkConfig) -> (added: bool)
        requires
            old(self)@.wf(),
        ensures
            final(self)@.fixed == old(self)@.fixed,
            added == !old(self)@.has_channel(config.name@),
            final(self)@ == (if added {
                QueueView {
                    channels: old(self)@.channels.push(
                        LonglinkConfig {
                            need_tls: !forbids_tls(
                                old(self)@.forbid_tls_hosts,
                                texts(config.host_list@),
                            ),
                            ..config
                        },
                    ),
                    ..old(self)@
                }
            } else {
                old(self)@
            }),
            final(self)@.wf(),
    {
        if self.has_channel(config.name.as_str()) {
            return false;
        }
        let mut config = config;
        let need_tls = !self.forbid_tls(config.host_list.as_slice());
        config.need_tls = need_tls;
        proof {
            lemma_channel_added(self.channels@, config);
        }
        self.channels.push(config);
        true
    }

    /// Whether a channel of these hosts is one the app forbade tls for.
    pub fn forbid_tls(&self, host_list: &[String]) -> (forbidden: bool)
        ensures
            forbidden == forbids_tls(self@.forbid_tls_hosts, texts(host_list@)),
    {
        let mut i: usize = 0;
        while i < host_list.len()
            invariant
                i <= host_list@.len(),
                forall|j: int|
                    0 <= j < i ==> !self@.forbid_tls_hosts.contains(
                        #[trigger] texts(host_list@)[j],
                    ),
            decreases host_list@.len() - i,
        {
            assert(texts(host_list@)[i as int] == host_list@[i as int]@);
            if holds_text(&self.forbid_tls_hosts, host_list[i].as_str()) {
                return true;
            }
            i += 1;
        }
        false
    }

    /// Hosts the app said not to do tls on. A host without "long" in it is
    /// not one of them.
    pub fn add_forbid_tls_host(&mut self, hosts: &[String])
        ensures
            final(self)@.fixed == old(self)@.fixed,
            final(self)@ == (QueueView {
                forbid_tls_hosts: forbidden_with(old(self)@.forbid_tls_hosts, texts(hosts@)),
                ..old(self)@
            }),
    {
        let mut i: usize = 0;
        assert(texts(hosts@).subrange(0, 0) =~= Seq::<Seq<char>>::empty());
        while i < hosts.len()
            invariant
                self@.fixed == old(self)@.fixed,
                i <= hosts@.len(),
                self@ == (QueueView {
                    forbid_tls_hosts: forbidden_with(
                        old(self)@.forbid_tls_hosts,
                        texts(hosts@).subrange(0, i as int),
                    ),
                    ..old(self)@
                }),
            decreases hosts@.len() - i,
        {
            let ghost before = self@;
            assert(texts(hosts@)[i as int] == hosts@[i as int]@);
            assert(texts(hosts@).subrange(0, i + 1).drop_last() =~= texts(hosts@).subrange(
                0,
                i as int,
            ));
            if contains_text(hosts[i].as_str(), "long") && !holds_text(
                &self.forbid_tls_hosts,
                hosts[i].as_str(),
            ) {
                self.forbid_tls_hosts.push(hosts[i].clone());
                assert(self@.forbid_tls_hosts =~= before.forbid_tls_hosts.push(hosts@[i as int]@));
            }
            i += 1;
        }
        assert(texts(hosts@).subrange(0, hosts@.len() as int) =~= texts(hosts@));
    }

    /// The channel is gone, and every task that was going out on it is failed.
    /// `false` when there was no such channel.
    pub fn remove_long_link_at(&mut self, now: u64, name: &str) -> (removed: bool)
        requires
            old(self)@.wf(),
        ensures
            final(self)@.fixed == old(self)@.fixed,
            removed == old(self)@.has_channel(name@),
            !removed ==> final(self)@ == old(self)@,
            removed ==> exists|answers: Seq<ConnectView>| #[trigger]
                released(old(self)@, now, name@, answers, final(self)@),
            final(self)@.wf(),
    {
        if !self.has_channel(name) {
            return false;
        }
        let wanted = name.to_owned();
        let mut i: usize = 0;
        let ghost mut answers: Seq<ConnectView> = Seq::empty();
        while i < self.tasks.len()
            invariant
                self@.fixed == old(self)@.fixed,
                i <= self.tasks.len(),
                wanted@ == name@,
                self@.wf(),
                self.channels == old(self).channels,
                (Cursor { q: self@, i: i as int }) == release_steps(
                    old(self)@,
                    now,
                    name@,
                    answers,
                ),
            decreases self.tasks.len() - i,
        {
            let ghost before = answers;
            assert(self@.tasks[i as int] == self.tasks@[i as int]@);
            if self.tasks[i].channel_name != wanted {
                i += 1;
                proof {
                    answers = answers.push(ConnectView::blank());
                    assert(answers.drop_last() =~= before);
                }
            } else {
                let (next, answer) = self.fail_one(
                    now,
                    i,
                    ErrCmdType::Local,
                    LOCAL_LONG_LINK_RELEASED,
                    TaskFailHandleType::TaskEnd,
                );
                i = next;
                proof {
                    answers = answers.push(answer@);
                    assert(answers.drop_last() =~= before);
                }
            }
        }
        let ghost swept = self@;
        let ghost all = self.channels@;
        let mut k: usize = 0;
        let ghost mut seen: int = 0;
        proof {
            reveal(Seq::filter);
            assert(channels_without(all.take(0), name@) =~= Seq::<LonglinkConfig>::empty());
            assert(all.skip(0) =~= all);
            assert(Seq::<LonglinkConfig>::empty() + all =~= all);
        }
        while k < self.channels.len()
            invariant
                self@.fixed == old(self)@.fixed,
                wanted@ == name@,
                0 <= seen <= all.len(),
                k <= self.channels.len(),
                k == channels_without(all.take(seen), name@).len(),
                self.channels@ == channels_without(all.take(seen), name@) + all.skip(seen),
                self@ == (QueueView { channels: self.channels@, ..swept }),
            decreases self.channels.len() - k,
        {
            proof {
                reveal(Seq::filter);
                assert(self.channels@[k as int] == all[seen]);
                assert(all.take(seen + 1).drop_last() =~= all.take(seen));
                assert(all.take(seen + 1).last() == all[seen]);
            }
            let ghost found = self.channels@;
            if self.channels[k].name == wanted {
                self.channels.remove(k);
                assert(self.channels@ =~= channels_without(all.take(seen), name@) + all.skip(seen + 1));
            } else {
                k += 1;
                assert(self.channels@ =~= channels_without(all.take(seen + 1), name@) + all.skip(seen + 1));
            }
            proof {
                seen = seen + 1;
            }
        }
        proof {
            assert(all.skip(seen).len() == 0);
            assert(all.take(seen) =~= all);
            assert(self.channels@ =~= channels_without(all, name@));
            lemma_filter_names(all, name@);
            assert(released(old(self)@, now, name@, answers, self@));
        }
        true
    }

    /// The channels of the queue.
    pub fn channels(&self) -> (channels: &[LonglinkConfig])
        ensures
            channels@ == self@.channels,
    {
        self.channels.as_slice()
    }

    /// The name of the channel whose config says it is the main one.
    pub fn default_channel(&self) -> (name: Option<&str>)
        ensures
            match name {
                Some(name) => exists|i: int| #[trigger]
                    is_main_channel(self@.channels, i) && self@.channels[i].name@ == name@,
                None => forall|i: int|
                    0 <= i < self@.channels.len() ==> !(#[trigger] self@.channels[i]).is_main,
            },
    {
        let mut i: usize = 0;
        while i < self.channels.len()
            invariant
                i <= self.channels.len(),
                forall|j: int| 0 <= j < i ==> !(#[trigger] self.channels@[j]).is_main,
            decreases self.channels.len() - i,
        {
            if self.channels[i].is_main() {
                assert(is_main_channel(self@.channels, i as int));
                return Some(self.channels[i].name.as_str());
            }
            i += 1;
        }
        None
    }

    /// The task is put in the queue and the queue is looked at. `channel` is
    /// one of the `Task::CHANNEL_*`, which is what a task is remembered as
    /// going out on.
    pub fn start_task_at(&mut self, now: u64, task: Task, channel: i32) -> (started: bool)
        requires
            old(self)@.wf(),
            old(self).tasks.len() < i32::MAX,
        ensures
            final(self)@.fixed == old(self)@.fixed,
            started,
            exists|timeout: u64, a: LoopAnswers| #[trigger]
                run_loop(queued(old(self)@, now, task, channel, timeout), now, a, final(self)@),
            final(self)@.wf(),
    {
        let ghost q0 = self@;
        let priority: i32 = task.priority;
        let timeout: u64 = self.host.task_timeout(&task);
        let mut profile = TaskProfile::new_at(now, task, timeout);
        profile.link_type = channel;
        profile.channel_name = if channel == Task::CHANNEL_MINOR_LONG {
            if profile.task.minorlong_host_list.len() > 0 {
                profile.task.minorlong_host_list[0].clone()
            } else {
                String::new()
            }
        } else {
            profile.task.channel_name.clone()
        };
        let ghost t = profile@;
        assert(t.channel_name =~= channel_of(task, channel));
        let mut p: usize = self.tasks.len();
        while p > 0 && self.tasks[p - 1].task.priority > priority
            invariant
                self@.fixed == old(self)@.fixed,
                p <= self.tasks.len(),
                self@.tasks == q0.tasks,
                forall|j: int|
                    p <= j < q0.tasks.len() ==> (#[trigger] q0.tasks[j]).task.priority > priority,
            decreases p,
        {
            assert(q0.tasks[p - 1] == self.tasks@[p - 1]@);
            p -= 1;
        }
        proof {
            assert(is_slot(q0.tasks, priority, p as int)) by {
                reveal(by_priority);
                assert forall|j: int| 0 <= j < p implies (#[trigger] q0.tasks[j]).task.priority
                    <= priority by {
                    assert(q0.tasks[p - 1] == self.tasks@[p - 1]@);
                    assert(q0.tasks[j].task.priority <= q0.tasks[p - 1].task.priority);
                }
            }
            lemma_slot(q0.tasks, priority, p as int);
            lemma_insert_wf(q0.tasks, p as int, t);
        }
        self.tasks.insert(p, profile);
        assert(self@.tasks =~= q0.tasks.insert(p as int, t));
        assert(self@ == queued(q0, now, task, channel, timeout));
        let answers = self.run_loop_answered(now);
        assert(run_loop(queued(q0, now, task, channel, timeout), now, answers@, self@));
        true
    }

    /// `true` when there was such a task. Its channel is told it is not waited
    /// for any more; a task whose channel is gone is not one the queue can
    /// stop.
    pub fn stop_task(&mut self, taskid: u32) -> (stopped: bool)
        requires
            old(self)@.wf(),
        ensures
            final(self)@.fixed == old(self)@.fixed,
            match located(old(self)@.tasks, taskid) {
                Some(at) => {
                    let name = old(self)@.tasks[at].channel_name;
                    &&& stopped == old(self)@.has_channel(name)
                    &&& final(self)@ == (if stopped {
                        QueueView {
                            tasks: old(self)@.tasks.remove(at),
                            ..old(self)@.heard(Told::Stop { name, taskid })
                        }
                    } else {
                        old(self)@
                    })
                },
                None => !stopped && final(self)@ == old(self)@,
            },
            final(self)@.wf(),
    {
        let at: usize = match self.locate(taskid) {
            None => {
                return false;
            },
            Some(at) => at,
        };
        let ghost q0 = self@;
        assert(q0.tasks[at as int] == self.tasks@[at as int]@);
        let name = self.tasks[at].channel_name.clone();
        if !self.has_channel(name.as_str()) {
            return false;
        }
        self.host.stop(name.as_str(), taskid);
        proof {
            lemma_remove_wf(q0, at as int);
        }
        self.tasks.remove(at);
        assert(self@.tasks =~= q0.tasks.remove(at as int));
        true
    }

    /// Whether the queue has such a task.
    pub fn has_task(&self, taskid: u32) -> (has: bool)
        ensures
            has == self@.has_task(taskid),
    {
        let mut i: usize = 0;
        while i < self.tasks.len()
            invariant
                i <= self.tasks.len(),
                forall|j: int| 0 <= j < i ==> (#[trigger] self@.tasks[j]).task.taskid != taskid,
            decreases self.tasks.len() - i,
        {
            assert(self@.tasks[i as int] == self.tasks@[i as int]@);
            if self.tasks[i].task.taskid == taskid {
                return true;
            }
            i += 1;
        }
        false
    }

    /// How many tasks are going out on that channel.
    pub fn task_count(&self, name: &str) -> (count: usize)
        ensures
            count == count_on(self@.tasks, name@),
    {
        let wanted = name.to_owned();
        let mut count: usize = 0;
        let mut i: usize = 0;
        while i < self.tasks.len()
            invariant
                i <= self.tasks.len(),
                count <= i,
                wanted@ == name@,
                count == count_on(self@.tasks.subrange(0, i as int), name@),
            decreases self.tasks.len() - i,
        {
            assert(self@.tasks[i as int] == self.tasks@[i as int]@);
            assert(self@.tasks.subrange(0, i + 1).drop_last() =~= self@.tasks.subrange(
                0,
                i as int,
            ));
            if self.tasks[i].channel_name == wanted {
                count += 1;
            }
            i += 1;
        }
        assert(self@.tasks.subrange(0, i as int) =~= self@.tasks);
        count
    }

    /// The names of the channels.
    fn channel_names(&self) -> (names: Vec<String>)
        ensures
            names@.len() == self@.channels.len(),
            forall|i: int|
                0 <= i < names@.len() ==> (#[trigger] names@[i])@ == self@.channels[i].name@,
    {
        let mut names: Vec<String> = Vec::new();
        let mut i: usize = 0;
        while i < self.channels.len()
            invariant
                i <= self.channels.len(),
                names@.len() == i,
                forall|j: int| 0 <= j < i ==> (#[trigger] names@[j])@ == self@.channels[j].name@,
            decreases self.channels.len() - i,
        {
            names.push(self.channels[i].name.clone());
            i += 1;
        }
        names
    }

    /// Every channel is taken down and the queue is emptied, which is not the
    /// same as failing the tasks: the app is not told about any of them.
    pub fn clear_tasks(&mut self)
        requires
            old(self)@.wf(),
        ensures
            final(self)@.fixed == old(self)@.fixed,
            final(self)@ == (QueueView {
                tasks: Seq::empty(),
                ..channels_dropped(old(self)@, old(self)@.channels.len() as int)
            }),
            final(self)@.wf(),
    {
        let names = self.channel_names();
        let ghost q0 = self@;
        let mut i: usize = 0;
        while i < names.len()
            invariant
                self@.fixed == old(self)@.fixed,
                i <= names@.len() == q0.channels.len(),
                forall|j: int|
                    0 <= j < names@.len() ==> (#[trigger] names@[j])@ == q0.channels[j].name@,
                self@ == channels_dropped(q0, i as int),
                self@ == (QueueView { told: self@.told, ..q0 }),
            decreases names@.len() - i,
        {
            self.disconnect(names[i].as_str(), DisconnectInternalCode::Reset);
            i += 1;
        }
        self.tasks.clear();
        proof {
            reveal(by_priority);
            assert(self@.tasks =~= Seq::<TaskView>::empty());
        }
    }
}

impl<H: QueueHost> LongLinkTaskManager<H> {
    /// The tasks of one channel, or of the queue, are cancelled and tried
    /// again.
    fn redo_answered(&mut self, now: u64, name: &str) -> (answers: Ghost<RedoAnswers>)
        requires
            old(self)@.wf(),
        ensures
            final(self)@.fixed == old(self)@.fixed,
            redone(old(self)@, now, name@, answers@, final(self)@),
            final(self)@.wf(),
            final(self)@.channels == old(self)@.channels,
            final(self).tasks.len() <= old(self).tasks.len(),
    {
        let wanted = name.to_owned();
        let all = name.is_empty();
        let mut i: usize = 0;
        let ghost mut answers: Seq<ConnectView> = Seq::empty();
        while i < self.tasks.len()
            invariant
                self@.fixed == old(self)@.fixed,
                i <= self.tasks.len(),
                self.tasks.len() <= old(self).tasks.len(),
                wanted@ == name@,
                all == (name@.len() == 0),
                self@.wf(),
                self@.channels == old(self)@.channels,
                (Cursor { q: self@, i: i as int }) == redo_steps(old(self)@, now, name@, answers),
            decreases self.tasks.len() - i,
        {
            let ghost before = answers;
            let ghost q0 = self@;
            assert(q0.tasks[i as int] == self.tasks@[i as int]@);
            if !all && self.tasks[i].channel_name != wanted {
                i += 1;
                proof {
                    answers = answers.push(ConnectView::blank());
                    assert(answers.drop_last() =~= before);
                }
            } else {
                self.tasks[i].last_failed_dyntime_status = DynamicTimeoutStatus::Evaluating;
                proof {
                    let t = TaskView {
                        last_failed_dyntime_status: DynamicTimeoutStatus::Evaluating,
                        ..q0.tasks[i as int]
                    };
                    lemma_with_task_wf(q0, i as int, t);
                    assert(self@.tasks =~= q0.tasks.update(i as int, t));
                    assert(self@ == q0.with_task(i as int, t));
                }
                if self.tasks[i].is_running() {
                    let (next, answer) = self.fail_one(
                        now,
                        i,
                        ErrCmdType::Local,
                        LOCAL_CANCEL,
                        TaskFailHandleType::Default,
                    );
                    i = next;
                    proof {
                        answers = answers.push(answer@);
                        assert(answers.drop_last() =~= before);
                    }
                } else {
                    i += 1;
                    proof {
                        answers = answers.push(ConnectView::blank());
                        assert(answers.drop_last() =~= before);
                    }
                }
            }
        }
        self.retry_interval = 0;
        let pass = self.run_loop_answered(now);
        Ghost(RedoAnswers { each: answers, pass: pass@ })
    }

    /// The network is another one now: every channel is taken apart and made
    /// again, and every task that was out is cancelled and tried again.
    pub fn redo_tasks_at(&mut self, now: u64)
        requires
            old(self)@.wf(),
        ensures
            final(self)@.fixed == old(self)@.fixed,
            exists|a: RedoAnswers| #[trigger]
                redone(
                    channels_reset(old(self)@, old(self)@.channels.len() as int),
                    now,
                    Seq::empty(),
                    a,
                    final(self)@,
                ),
            final(self)@.wf(),
    {
        let names = self.channel_names();
        let ghost q0 = self@;
        let mut i: usize = 0;
        while i < names.len()
            invariant
                self@.fixed == old(self)@.fixed,
                i <= names@.len() == q0.channels.len(),
                forall|j: int|
                    0 <= j < names@.len() ==> (#[trigger] names@[j])@ == q0.channels[j].name@,
                self@ == channels_reset(q0, i as int),
                self@ == (QueueView { told: self@.told, ..q0 }),
            decreases names@.len() - i,
        {
            self.host.reset_channel(names[i].as_str());
            i += 1;
        }
        let empty = String::new();
        let answers = self.redo_answered(now, empty.as_str());
        assert(empty@ =~= Seq::<char>::empty());
        assert(redone(
            channels_reset(q0, q0.channels.len() as int),
            now,
            Seq::empty(),
            answers@,
            self@,
        ));
    }

    /// The tasks of one channel are cancelled and tried again; the channel
    /// itself is left alone. An empty name is every task.
    pub fn redo_tasks_of_at(&mut self, now: u64, name: &str)
        requires
            old(self)@.wf(),
        ensures
            final(self)@.fixed == old(self)@.fixed,
            exists|a: RedoAnswers| #[trigger] redone(old(self)@, now, name@, a, final(self)@),
            final(self)@.wf(),
    {
        let answers = self.redo_answered(now, name);
        assert(redone(old(self)@, now, name@, answers@, self@));
    }

    /// The queue is looked at.
    pub fn touch_tasks_at(&mut self, now: u64)
        requires
            old(self)@.wf(),
        ensures
            final(self)@.fixed == old(self)@.fixed,
            exists|a: LoopAnswers| #[trigger] run_loop(old(self)@, now, a, final(self)@),
            final(self)@.wf(),
    {
        self.run_loop_at(now);
    }

    /// The channels of a user's tasks, one for each task.
    fn names_of_user(&self, user_id: &str) -> (names: Vec<String>)
        ensures
            texts(names@) == channels_of_user(self@.tasks, user_id@),
    {
        let wanted = user_id.to_owned();
        let mut names: Vec<String> = Vec::new();
        assert(texts(names@) =~= Seq::<Seq<char>>::empty());
        let mut i: usize = 0;
        while i < self.tasks.len()
            invariant
                i <= self.tasks.len(),
                wanted@ == user_id@,
                texts(names@) == channels_of_user(self@.tasks.subrange(0, i as int), user_id@),
            decreases self.tasks.len() - i,
        {
            let ghost before = texts(names@);
            assert(self@.tasks[i as int] == self.tasks@[i as int]@);
            assert(self@.tasks.subrange(0, i + 1).drop_last() =~= self@.tasks.subrange(
                0,
                i as int,
            ));
            if self.tasks[i].task.user_id == wanted {
                names.push(self.tasks[i].channel_name.clone());
                assert(texts(names@) =~= before.push(self@.tasks[i as int].channel_name));
            }
            i += 1;
        }
        assert(self@.tasks.subrange(0, i as int) =~= self@.tasks);
        names
    }

    /// What the app says is to be done about the tasks of a user: the channel
    /// of each of them is failed with it, and the queue is looked at.
    pub fn retry_tasks_at(
        &mut self,
        now: u64,
        err_type: ErrCmdType,
        err_code: i32,
        fail_handle: TaskFailHandleType,
        src_taskid: u32,
        user_id: &str,
    )
        requires
            old(self)@.wf(),
        ensures
            final(self)@.fixed == old(self)@.fixed,
            exists|a: RetryAnswers| #[trigger]
                users_retried(
                    old(self)@,
                    now,
                    Failure { err_type, err_code, fail_handle, src_taskid },
                    user_id@,
                    a,
                    final(self)@,
                ),
            final(self)@.wf(),
    {
        let failure = Failure { err_type, err_code, fail_handle, src_taskid };
        let ghost q0 = self@;
        // the names as they are now: one task's channel can be failed
        // wholesale, and every task of that user is still looked at
        let names = self.names_of_user(user_id);
        let ghost all = channels_of_user(q0.tasks, user_id@);
        let ghost mut answers: Seq<NameAnswers> = Seq::empty();
        let mut i: usize = 0;
        while i < names.len()
            invariant
                self@.fixed == old(self)@.fixed,
                i <= names@.len(),
                texts(names@) == all,
                answers.len() == i,
                self@.wf(),
                self@.channels == q0.channels,
                names_failed(q0, now, all, failure, answers, self@),
            decreases names@.len() - i,
        {
            let ghost before = answers;
            let ghost mid = self@;
            let each = self.batch_error_resp_handle_at(now, names[i].as_str(), failure, true);
            proof {
                assert(all[i as int] == names@[i as int]@);
                answers = answers.push(NameAnswers { each: each@, left: self@ });
                assert(name_found(q0, answers, i as int) == mid);
                assert forall|j: int| 0 <= j < answers.len() implies batch_error(
                    #[trigger] name_found(q0, answers, j),
                    now,
                    all[j],
                    failure,
                    true,
                    answers[j].each,
                    answers[j].left,
                ) by {
                    if j < i {
                        assert(name_found(q0, answers, j) == name_found(q0, before, j));
                    }
                }
            }
            i += 1;
        }
        let ghost mid = self@;
        let pass = self.run_loop_answered(now);
        assert(users_retried(
            q0,
            now,
            failure,
            user_id@,
            RetryAnswers { each: answers, mid, pass: pass@ },
            self@,
        ));
    }

    /// The request went out, which is what the read-write and the
    /// first-package timeouts are counted from. `false` when the queue has no
    /// such task.
    pub fn on_send_at(&mut self, now: u64, taskid: u32) -> (found: bool)
        requires
            old(self)@.wf(),
        ensures
            final(self)@.fixed == old(self)@.fixed,
            match located(old(self)@.tasks, taskid) {
                Some(at) => found && final(self)@ == old(self)@.with_task(
                    at,
                    sent_at(old(self)@.tasks[at], now),
                ),
                None => !found && final(self)@ == old(self)@,
            },
            final(self)@.wf(),
    {
        let at: usize = match self.locate(taskid) {
            None => {
                return false;
            },
            Some(at) => at,
        };
        let ghost q0 = self@;
        assert(q0.tasks[at as int] == self.tasks@[at as int]@);
        if self.tasks[at].transfer_profile.first_start_send_time == 0 {
            self.tasks[at].transfer_profile.first_start_send_time = now;
        }
        self.tasks[at].transfer_profile.start_send_time = now;
        proof {
            let t = sent_at(q0.tasks[at as int], now);
            lemma_with_task_wf(q0, at as int, t);
            assert(self@.tasks =~= q0.tasks.update(at as int, t));
        }
        true
    }

    /// A package of the answer came in, which is what the pkg-pkg timeout is
    /// counted from. `false` when the queue has no such task.
    pub fn on_recv_at(&mut self, now: u64, taskid: u32, cached_size: usize, total_size: usize) -> (found: bool)
        requires
            old(self)@.wf(),
        ensures
            final(self)@.fixed == old(self)@.fixed,
            match located(old(self)@.tasks, taskid) {
                Some(at) => found && final(self)@ == old(self)@.with_task(
                    at,
                    recv_at(old(self)@.tasks[at], now, cached_size, total_size),
                ),
                None => !found && final(self)@ == old(self)@,
            },
            final(self)@.wf(),
    {
        let at: usize = match self.locate(taskid) {
            None => {
                return false;
            },
            Some(at) => at,
        };
        let ghost q0 = self@;
        assert(q0.tasks[at as int] == self.tasks@[at as int]@);
        self.tasks[at].transfer_profile.last_receive_pkg_time = now;
        self.tasks[at].transfer_profile.received_size = cached_size;
        self.tasks[at].transfer_profile.receive_data_size = total_size;
        proof {
            let t = recv_at(q0.tasks[at as int], now, cached_size, total_size);
            lemma_with_task_wf(q0, at as int, t);
            assert(self@.tasks =~= q0.tasks.update(at as int, t));
        }
        true
    }

    /// What a channel answered with.
    ///
    /// `None` is an answer that is not about a task the queue knows: the
    /// server pushing, an answer for a channel the queue has no link for, or
    /// one for a task that is over.
    pub fn on_response_at(&mut self, now: u64, response: Response) -> (handle: Option<RespHandle>)
        requires
            old(self)@.wf(),
            countable(old(self)@, response@),
        ensures
            final(self)@.fixed == old(self)@.fixed,
            exists|a: ResponseAnswers| #[trigger]
                responded(old(self)@, now, response@, a, final(self)@, handle),
            final(self)@.wf(),
    {
        let ghost q0 = self@;
        let ghost r = response@;
        let ghost nothing = ResponseAnswers {
            decoded: (0, TaskFailHandleType::Normal),
            keep: false,
            network: NetworkKind::Wifi,
            each: Seq::empty(),
        };
        if !self.has_channel(response.name.as_str()) {
            assert(responded(q0, now, r, nothing, self@, None));
            return None;
        }
        if response.err_type == ErrCmdType::NoError && self.encoder.is_push(response.taskid) {
            self.host.push(
                response.name.as_str(),
                response.cmdid,
                response.taskid,
                response.body.as_slice(),
            );
            assert(responded(q0, now, r, nothing, self@, None));
            return None;
        }
        let located_at = self.locate(response.taskid);
        if response.err_type != ErrCmdType::NoError {
            let (handle, each) = self.on_error(now, &response, located_at);
            assert(responded(
                q0,
                now,
                r,
                ResponseAnswers { each: each@, ..nothing },
                self@,
                handle,
            ));
            return handle;
        }
        match located_at {
            None => {
                assert(responded(q0, now, r, nothing, self@, None));
                None
            },
            Some(at) => {
                let (handle, answers) = self.on_answer(now, at, response);
                assert(responded(q0, now, r, answers@, self@, handle));
                handle
            },
        }
    }

    /// An error fails the whole channel it came in on.
    fn on_error(&mut self, now: u64, response: &Response, at: Option<usize>) -> (r: (
        Option<RespHandle>,
        Ghost<Seq<ConnectView>>,
    ))
        requires
            old(self)@.wf(),
            old(self)@.has_channel(response@.name),
            response.err_type != ErrCmdType::NoError,
            countable(old(self)@, response@),
            match at {
                Some(at) => located(old(self)@.tasks, response.taskid) == Some(at as int) && at
                    < old(self).tasks.len(),
                None => located(old(self)@.tasks, response.taskid) is None,
            },
        ensures
            final(self)@.fixed == old(self)@.fixed,
            error_came(old(self)@, now, response@, r.1@, final(self)@, r.0),
            final(self)@.wf(),
    {
        let ghost q0 = self@;
        if response.err_code == HANDSHAKE_MISUNDERSTAND {
            match at {
                Some(at) => {
                    assert(q0.tasks[at as int] == self.tasks@[at as int]@);
                    self.tasks[at].remain_retry_count = self.tasks[at].remain_retry_count + 1;
                    proof {
                        let t = TaskView {
                            remain_retry_count: (q0.tasks[at as int].remain_retry_count + 1) as i32,
                            ..q0.tasks[at as int]
                        };
                        lemma_with_task_wf(q0, at as int, t);
                        assert(self@.tasks =~= q0.tasks.update(at as int, t));
                        assert(self@ == q0.with_task(at as int, t));
                    }
                },
                None => {},
            }
        }
        assert(self@ == handshake_given_back(q0, response@));
        let failure = Failure {
            err_type: response.err_type,
            err_code: response.err_code,
            fail_handle: TaskFailHandleType::Default,
            src_taskid: Task::INVALID_TASK_ID,
        };
        let each = self.batch_error_resp_handle_at(now, response.name.as_str(), failure, true);
        let waiting = if response.taskid == Task::INVALID_TASK_ID {
            self.task_count(response.name.as_str()) > 0
        } else {
            self.has_task(response.taskid)
        };
        (Some(still_there(waiting)), each)
    }

    /// An answer for a task the queue knows.
    fn on_answer(&mut self, now: u64, at: usize, response: Response) -> (r: (
        Option<RespHandle>,
        Ghost<ResponseAnswers>,
    ))
        requires
            old(self)@.wf(),
            old(self)@.has_channel(response@.name),
            response.err_type == ErrCmdType::NoError,
            response.taskid != PUSH_DATA_TASKID,
            countable(old(self)@, response@),
            located(old(self)@.tasks, response.taskid) == Some(at as int),
            at < old(self).tasks.len(),
        ensures
            final(self)@.fixed == old(self)@.fixed,
            answer_came(old(self)@, now, at as int, response@, r.1@, final(self)@, r.0),
            final(self)@.wf(),
    {
        let ghost q0 = self@;
        let ghost res = response@;
        let ghost t = q0.tasks[at as int];
        assert(t == self.tasks@[at as int]@);
        let len: usize = response.body.len();
        self.tasks[at].transfer_profile.received_size = len;
        self.tasks[at].transfer_profile.receive_data_size = len;
        self.tasks[at].transfer_profile.last_receive_pkg_time = now;
        proof {
            let noted = received(t, len, now);
            lemma_with_task_wf(q0, at as int, noted);
            assert(self@.tasks =~= q0.tasks.update(at as int, noted));
        }
        let decoded = self.host.decode(&self.tasks[at].task, response.body.as_slice());
        let (err_code, handle): (i32, TaskFailHandleType) = decoded;
        let keep = self.host.should_keep(err_code);
        if keep {
            self.host.keep_answer(
                now,
                self.tasks[at].task.cgi.as_str(),
                response.body.as_slice(),
            );
        }
        let ghost a = ResponseAnswers {
            decoded,
            keep,
            network: NetworkKind::Wifi,
            each: Seq::empty(),
        };
        let ghost read = self@;
        assert(read == answer_read(q0, now, at as int, res, a));
        match handle {
            TaskFailHandleType::Normal => {
                let network = self.host.network();
                let cost: u64 = now.saturating_sub(self.tasks[at].transfer_profile.start_send_time);
                let total: usize = self.tasks[at].transfer_profile.send_data_size + len;
                self.dynamic_timeout.record_at(network, total as u32, cost, now);
                let ghost timed = self@;
                let ip_port = (response.profile.ip.clone(), response.profile.port);
                self.single_resp_handle_at(
                    now,
                    at,
                    ErrCmdType::NoError,
                    err_code,
                    handle,
                    response.profile,
                );
                self.host.network_err(
                    response.name.as_str(),
                    ErrCmdType::NoError,
                    err_code,
                    ip_port.0.as_str(),
                    ip_port.1,
                );
                proof {
                    let b = ResponseAnswers { network, ..a };
                    assert(answer_read(q0, now, at as int, res, b) == read);
                    assert(self@ == answered_well(read, now, at as int, res, b));
                }
                (Some(RespHandle::Ended), Ghost(ResponseAnswers { network, ..a }))
            },
            TaskFailHandleType::SessionTimeout | TaskFailHandleType::RetryAllTasks => {
                self.host.retry_all_tasks(
                    ErrCmdType::EnDecode,
                    err_code,
                    handle,
                    self.tasks[at].task.taskid,
                    self.tasks[at].task.user_id.as_str(),
                );
                (Some(RespHandle::Deferred), Ghost(a))
            },
            TaskFailHandleType::TaskEnd => {
                self.single_resp_handle_at(
                    now,
                    at,
                    ErrCmdType::EnDecode,
                    err_code,
                    handle,
                    response.profile,
                );
                (Some(RespHandle::Ended), Ghost(a))
            },
            TaskFailHandleType::SlientTaskEnd => {
                proof {
                    lemma_remove_wf(read, at as int);
                }
                self.tasks.remove(at);
                assert(self@.tasks =~= read.tasks.remove(at as int));
                (Some(RespHandle::Ended), Ghost(a))
            },
            TaskFailHandleType::Default | TaskFailHandleType::TaskTimeout => {
                let name = self.tasks[at].channel_name.clone();
                let failure = Failure {
                    err_type: ErrCmdType::EnDecode,
                    err_code,
                    fail_handle: handle,
                    src_taskid: response.taskid,
                };
                let each = self.batch_error_resp_handle_at(now, name.as_str(), failure, true);
                let ghost mid = self@;
                self.notify_network_err(
                    response.name.as_str(),
                    ErrCmdType::EnDecode,
                    handle.code(),
                    &response.profile,
                );
                let there = self.has_task(response.taskid);
                proof {
                    let b = ResponseAnswers { each: each@, ..a };
                    assert(answer_read(q0, now, at as int, res, b) == read);
                    assert(batch_error(read, now, t.channel_name, failure, true, b.each, mid));
                }
                (Some(still_there(there)), Ghost(ResponseAnswers { each: each@, ..a }))
            },
        }
    }

    /// A channel whose own monitor says the network is another one now has its
    /// tasks cancelled and tried again.
    pub fn on_network_change_at(&mut self, now: u64)
        requires
            old(self)@.wf(),
        ensures
            final(self)@.fixed == old(self)@.fixed,
            exists|a: Seq<ChangeAnswers>| #[trigger]
                network_changed(old(self)@, now, a, final(self)@),
            final(self)@.wf(),
    {
        let names = self.channel_names();
        let ghost q0 = self@;
        let ghost mut answers: Seq<ChangeAnswers> = Seq::empty();
        let mut i: usize = 0;
        while i < names.len()
            invariant
                self@.fixed == old(self)@.fixed,
                i <= names@.len() == q0.channels.len(),
                forall|j: int|
                    0 <= j < names@.len() ==> (#[trigger] names@[j])@ == q0.channels[j].name@,
                answers.len() == i,
                self@.wf(),
                self@.channels == q0.channels,
                self@ == change_found(q0, answers, i as int),
                forall|k: int|
                    0 <= k < i ==> channel_changed(
                        #[trigger] change_found(q0, answers, k),
                        now,
                        q0.channels[k].name@,
                        answers[k],
                    ),
            decreases names@.len() - i,
        {
            let ghost before = answers;
            let ghost mid = self@;
            let changed = self.host.network_change(names[i].as_str());
            let ghost mut redo = RedoAnswers {
                each: Seq::empty(),
                pass: LoopAnswers {
                    timeouts: TimeoutAnswers {
                        network: NetworkKind::Wifi,
                        overs: Seq::empty(),
                        batches: Seq::empty(),
                    },
                    mid,
                    starts: StartAnswers { network: NetworkKind::Wifi, turns: Seq::empty() },
                },
            };
            if changed {
                let redone_with = self.redo_answered(now, names[i].as_str());
                proof {
                    redo = redone_with@;
                }
            }
            proof {
                answers = answers.push(ChangeAnswers { changed, redo, left: self@ });
                assert(change_found(q0, answers, i as int) == mid);
                assert forall|k: int| 0 <= k < answers.len() implies channel_changed(
                    #[trigger] change_found(q0, answers, k),
                    now,
                    q0.channels[k].name@,
                    answers[k],
                ) by {
                    if k < i {
                        assert(change_found(q0, answers, k) == change_found(q0, before, k));
                    }
                }
            }
            i += 1;
        }
        assert(network_changed(q0, now, answers, self@));
    }

    /// The connect of the channel the task is going out on; a task the queue
    /// does not know is one with nothing in its profile.
    pub fn connect_profile(&mut self, taskid: u32) -> (profile: ConnectProfile)
        ensures
            final(self)@.fixed == old(self)@.fixed,
            match located(old(self)@.tasks, taskid) {
                Some(at) => {
                    let name = old(self)@.tasks[at].channel_name;
                    &&& final(self)@ == old(self)@.profile_asked(name, profile@)
                    &&& profile@ == old(self)@.profile_of(name, profile@)
                },
                None => profile@ == ConnectView::blank() && final(self)@ == old(self)@,
            },
    {
        match self.locate(taskid) {
            Some(at) => {
                assert(self@.tasks[at as int] == self.tasks@[at as int]@);
                let name = self.tasks[at].channel_name.clone();
                let (profile, _answer) = self.profile_of(name.as_str());
                profile
            },
            None => ConnectProfile::new(),
        }
    }

    /// The channel a task is going out on is taken down. `false` when there is
    /// no such task, or no such channel.
    pub fn disconnect_by_taskid(&mut self, taskid: u32, code: DisconnectInternalCode) -> (down: bool)
        ensures
            final(self)@.fixed == old(self)@.fixed,
            match located(old(self)@.tasks, taskid) {
                Some(at) => {
                    let name = old(self)@.tasks[at].channel_name;
                    &&& down == old(self)@.has_channel(name)
                    &&& final(self)@ == old(self)@.disconnected(name, code)
                },
                None => !down && final(self)@ == old(self)@,
            },
    {
        let at: usize = match self.locate(taskid) {
            None => {
                return false;
            },
            Some(at) => at,
        };
        assert(self@.tasks[at as int] == self.tasks@[at as int]@);
        let name = self.tasks[at].channel_name.clone();
        if !self.has_channel(name.as_str()) {
            return false;
        }
        self.disconnect(name.as_str(), code);
        true
    }

    /// How many tasks in a row failed without one that did not.
    pub fn tasks_continuous_fail_count(&self) -> (count: u32)
        ensures
            count == self@.fail_count,
    {
        self.tasks_continuous_fail_count
    }

    /// How long every task of the queue waits after a whole channel was failed
    /// at once.
    pub fn retry_interval(&self) -> (interval: u64)
        ensures
            interval == self@.retry_interval,
    {
        self.retry_interval
    }

    /// The tasks of the queue.
    pub fn tasks(&self) -> (tasks: &[TaskProfile])
        ensures
            views(tasks@) == self@.tasks,
    {
        self.tasks.as_slice()
    }

    /// How many tasks are in the queue.
    pub fn len(&self) -> (len: usize)
        ensures
            len == self@.tasks.len(),
    {
        self.tasks.len()
    }

    /// Whether there is nothing in the queue.
    pub fn is_empty(&self) -> (empty: bool)
        ensures
            empty == (self@.tasks.len() == 0),
    {
        self.tasks.len() == 0
    }

    /// When [`LongLinkTaskManager::run_loop_at`] has to be called again: the
    /// earliest of the deadlines the tasks are waiting on, and of the wait
    /// every task that has been tried owes the queue. `None` when there is
    /// nothing to wait for.
    pub fn due_time(&mut self) -> (due: Option<u64>)
        ensures
            final(self)@.fixed == old(self)@.fixed,
            exists|network: NetworkKind|
                final(self)@ == old(self)@.heard(Told::Network { answer: network })
                    && #[trigger] due_at(old(self)@, network, due),
    {
        let ghost q0 = self@;
        let network = self.host.network();
        let wait: u64 = self.last_batch_error_time.saturating_add(self.retry_interval);
        let mut due: Option<u64> = None;
        let mut i: usize = 0;
        while i < self.tasks.len()
            invariant
                self@.fixed == old(self)@.fixed,
                i <= self.tasks.len(),
                self@ == q0.heard(Told::Network { answer: network }),
                wait == after(q0.last_batch_error_time, q0.retry_interval),
                (due is None) == (i == 0),
                due matches Some(at) ==> is_waited_for(q0, network, at),
                forall|j: int, k: int|
                    0 <= j < i && 0 <= k < deadlines_of(q0.tasks[j], network).len() ==> due is Some
                        && due->0 <= #[trigger] deadlines_of(q0.tasks[j], network)[k].1,
                forall|j: int|
                    0 <= j < i && !(#[trigger] q0.tasks[j]).is_running() && q0.tasks[j].retried()
                        ==> due is Some && due->0 <= wait,
            decreases self.tasks.len() - i,
        {
            assert(q0.tasks[i as int] == self.tasks@[i as int]@);
            let mut at: u64 = next_deadline(&self.tasks[i], network);
            assert(is_waited_for(q0, network, at));
            if !self.tasks[i].is_running() && self.tasks[i].retried() && wait < at {
                at = wait;
                assert(is_waited_for(q0, network, wait));
            }
            due = match due {
                Some(sooner) => if sooner <= at {
                    Some(sooner)
                } else {
                    Some(at)
                },
                None => Some(at),
            };
            i += 1;
        }
        assert(q0 == old(self)@);
        assert(due_at(old(self)@, network, due));
        due
    }

    /// The network as the queue's own tasks show it.
    pub fn dynamic_timeout(&mut self) -> (timeout: &mut DynamicTimeout)
        ensures
            *timeout == old(self).dynamic_timeout,
            final(self)@ == (QueueView { timeout: final(timeout)@, ..old(self)@ }),
    {
        &mut self.dynamic_timeout
    }

    /// The encoder the queue asks whether an answer is the server pushing.
    pub fn set_encoder(&mut self, encoder: LongLinkEncoder)
        ensures
            final(self)@.fixed == old(self)@.fixed,
            final(self)@ == (QueueView { encoder, ..old(self)@ }),
    {
        self.encoder = encoder;
    }

    /// The queue goes away: every task it still has is failed, running or not,
    /// and there are no channels any more.
    pub fn close_at(&mut self, now: u64)
        requires
            old(self)@.wf(),
        ensures
            final(self)@.fixed == old(self)@.fixed,
            exists|answers: Seq<ConnectView>, mid: QueueView| #[trigger]
                batch_error(
                    old(self)@,
                    now,
                    Seq::empty(),
                    Failure {
                        err_type: ErrCmdType::Local,
                        err_code: LOCAL_RESET,
                        fail_handle: TaskFailHandleType::TaskEnd,
                        src_taskid: Task::INVALID_TASK_ID,
                    },
                    false,
                    answers,
                    mid,
                ) && final(self)@ == (QueueView { channels: Seq::empty(), ..mid }),
            final(self)@.wf(),
    {
        let failure = Failure {
            err_type: ErrCmdType::Local,
            err_code: LOCAL_RESET,
            fail_handle: TaskFailHandleType::TaskEnd,
            src_taskid: Task::INVALID_TASK_ID,
        };
        let empty = String::new();
        let answers = self.batch_error_resp_handle_at(now, empty.as_str(), failure, false);
        let ghost mid = self@;
        self.channels.clear();
        proof {
            assert(empty@ =~= Seq::<char>::empty());
            reveal(distinct_names);
            assert(batch_error(old(self)@, now, Seq::empty(), failure, false, answers@, mid));
            assert(self@ == (QueueView { channels: Seq::empty(), ..mid }));
        }
    }
}

/// The request of a task went out.
pub open spec fn sent_at(t: TaskView, now: u64) -> TaskView {
    TaskView {
        transfer_profile: TransferView {
            first_start_send_time: if t.transfer_profile.first_start_send_time == 0 {
                now
            } else {
                t.transfer_profile.first_start_send_time
            },
            start_send_time: now,
            ..t.transfer_profile
        },
        ..t
    }
}

/// A package of an answer came in.
pub open spec fn recv_at(t: TaskView, now: u64, cached_size: usize, total_size: usize) -> TaskView {
    TaskView {
        transfer_profile: TransferView {
            last_receive_pkg_time: now,
            received_size: cached_size,
            receive_data_size: total_size,
            ..t.transfer_profile
        },
        ..t
    }
}

/// Whether the task a whole channel was failed for is still in the queue.
fn still_there(is_there: bool) -> (handle: RespHandle)
    ensures
        handle == (if is_there { RespHandle::Retried } else { RespHandle::Ended }),
{
    if is_there {
        RespHandle::Retried
    } else {
        RespHandle::Ended
    }
}

} // verus!
