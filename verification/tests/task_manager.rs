//! The queue of long-link tasks.
use std::cell::RefCell;
use std::collections::BTreeMap;
use std::rc::Rc;

use mars_stn::config::WIFI_PACKAGE_INTERVAL;
use mars_stn::dynamic_timeout::{DynamicTimeoutStatus, NetworkKind};
use mars_stn::long_link::DisconnectInternalCode;
use mars_stn::longlink::LongLinkEncoder;
use mars_stn::longlink_task_manager::{
    deadlines, due, next_deadline, pkg_pkg_interval, LongLinkTaskManager, Response,
};
use mars_stn::net_source::LonglinkConfig;
use mars_stn::queue_host::QueueHost;
use mars_stn::queue_spec::{RespHandle, Timeout, RETRY_INTERNAL};
use mars_stn::task::Task;
use mars_stn::task_profile::{
    ConnectProfile, ErrCmdType, RunId, TaskFailHandleType, TaskProfile, HANDSHAKE_MISUNDERSTAND,
    LOCAL_ANTI_AVALANCHE, LOCAL_CHANNEL_ID, LOCAL_LONG_LINK_RELEASED, LOCAL_LONG_LINK_UNAVAILABLE,
    LOCAL_RESET, LOCAL_TASK_TIMEOUT, LONG_FIRST_PKG_TIMEOUT, LONG_PKG_PKG_TIMEOUT,
    LONG_READ_WRITE_TIMEOUT,
};

/// The reading every test starts from.
const NOW: u64 = 100 * 1000;
/// The one channel every test's queue has.
const CHANNEL: &str = "long.weixin.qq.com";
const OTHER: &str = "long.other.qq.com";

/// What the app and the links were told, and what they answer.
struct Seen {
    sent: Vec<(String, u32, usize)>,
    ended: Vec<(ErrCmdType, i32, TaskFailHandleType, u32)>,
    notified: Vec<(String, ErrCmdType, i32)>,
    down: Vec<(String, DisconnectInternalCode)>,
    stopped: Vec<(String, u32)>,
    asked: Vec<(ErrCmdType, i32, TaskFailHandleType, u32, String)>,
    pushed: Vec<(String, u32, u32, Vec<u8>)>,
    reset: Vec<String>,
    kept: BTreeMap<String, Vec<u8>>,
    ids: usize,
    up: bool,
    authed: bool,
    decoded: (i32, TaskFailHandleType),
    encoded: Result<Vec<u8>, i32>,
    allowed: bool,
    keep: bool,
    network_change: bool,
    profile: ConnectProfile,
    runs: u64,
}

type Log = Rc<RefCell<Seen>>;

struct Host(Log);

impl QueueHost for Host {
    fn ended(
        &mut self,
        err_type: ErrCmdType,
        err_code: i32,
        handle: TaskFailHandleType,
        task: &Task,
        _cost: u32,
        _profile: &ConnectProfile,
    ) {
        let ended = (err_type, err_code, handle, task.taskid);
        self.0.borrow_mut().ended.push(ended);
    }

    fn network_err(
        &mut self,
        name: &str,
        err_type: ErrCmdType,
        err_code: i32,
        _ip: &str,
        _port: u16,
    ) {
        let notified = (name.to_string(), err_type, err_code);
        self.0.borrow_mut().notified.push(notified);
    }

    fn retry_all_tasks(
        &mut self,
        err_type: ErrCmdType,
        err_code: i32,
        handle: TaskFailHandleType,
        src_taskid: u32,
        user_id: &str,
    ) {
        let asked = (err_type, err_code, handle, src_taskid, user_id.to_string());
        self.0.borrow_mut().asked.push(asked);
    }

    fn push(&mut self, name: &str, cmdid: u32, taskid: u32, body: &[u8]) {
        let pushed = (name.to_string(), cmdid, taskid, body.to_vec());
        self.0.borrow_mut().pushed.push(pushed);
    }

    fn stop(&mut self, name: &str, taskid: u32) {
        self.0.borrow_mut().stopped.push((name.to_string(), taskid));
    }

    fn disconnect(&mut self, name: &str, code: DisconnectInternalCode) {
        self.0.borrow_mut().down.push((name.to_string(), code));
    }

    fn reset_channel(&mut self, name: &str) {
        self.0.borrow_mut().reset.push(name.to_string());
    }

    fn keep_answer(&mut self, _now: u64, cgi: &str, body: &[u8]) {
        self.0
            .borrow_mut()
            .kept
            .insert(cgi.to_string(), body.to_vec());
    }

    fn kept_answer(&mut self, _now: u64, cgi: &str) -> Option<Vec<u8>> {
        self.0.borrow().kept.get(cgi).cloned()
    }

    fn should_keep(&mut self, _err_code: i32) -> bool {
        self.0.borrow().keep
    }

    fn channel_profile(&mut self, name: &str) -> ConnectProfile {
        let mut profile = self.0.borrow().profile.clone();
        profile.host = name.to_string();
        profile
    }

    fn task_timeout(&mut self, _task: &Task) -> u64 {
        60_000
    }

    fn first_pkg_timeout(
        &mut self,
        _server_cost: i64,
        _send_len: usize,
        _sent_count: i32,
        _status: DynamicTimeoutStatus,
        _mobile: bool,
    ) -> u64 {
        6_000
    }

    fn read_write_timeout(&mut self, first_pkg: u64, _mobile: bool) -> u64 {
        first_pkg + 24_000
    }

    fn authed(&mut self, _host: &str, _user_id: &str) -> bool {
        self.0.borrow().authed
    }

    fn sequence_id(&mut self) -> u16 {
        self.0.borrow_mut().ids += 1;
        1
    }

    fn encode(&mut self, _task: &Task) -> Result<Vec<u8>, i32> {
        self.0.borrow().encoded.clone()
    }

    fn decode(&mut self, _task: &Task, _body: &[u8]) -> (i32, TaskFailHandleType) {
        self.0.borrow().decoded
    }

    fn allowed(&mut self, _task: &Task, _body: &[u8]) -> bool {
        self.0.borrow().allowed
    }

    fn make_sure_connected(&mut self, _name: &str) -> bool {
        self.0.borrow().up
    }

    fn send(&mut self, name: &str, task: &Task, body: &[u8]) -> Option<RunId> {
        let mut seen = self.0.borrow_mut();
        seen.sent.push((name.to_string(), task.taskid, body.len()));
        seen.runs += 1;
        Some(RunId(seen.runs))
    }

    fn network_change(&mut self, _name: &str) -> bool {
        self.0.borrow().network_change
    }

    fn network(&mut self) -> NetworkKind {
        NetworkKind::Wifi
    }
}

/// A task that goes out on [`CHANNEL`], with one try in it.
fn task(taskid: u32) -> Task {
    let mut task = Task::new(taskid, 1);
    task.cgi = format!("/cgi-bin/{taskid}");
    task.channel_name = CHANNEL.to_string();
    task.longlink_host_list = vec![CHANNEL.to_string()];
    task.retry_count = 1;
    task
}

fn bare() -> (LongLinkTaskManager<Host>, Log) {
    let seen = Rc::new(RefCell::new(Seen {
        sent: Vec::new(),
        ended: Vec::new(),
        notified: Vec::new(),
        down: Vec::new(),
        stopped: Vec::new(),
        asked: Vec::new(),
        pushed: Vec::new(),
        reset: Vec::new(),
        kept: BTreeMap::new(),
        ids: 0,
        up: true,
        authed: true,
        decoded: (0, TaskFailHandleType::Normal),
        encoded: Ok(Vec::new()),
        allowed: true,
        keep: false,
        network_change: true,
        profile: ConnectProfile::new(),
        runs: 0,
    }));
    (LongLinkTaskManager::new(Host(Rc::clone(&seen))), seen)
}

/// A queue with [`CHANNEL`] in it.
fn manager() -> (LongLinkTaskManager<Host>, Log) {
    let (mut manager, seen) = bare();
    manager.add_long_link(LonglinkConfig::new(CHANNEL));
    (manager, seen)
}

/// An answer that came in on [`CHANNEL`] for `taskid`.
fn answered(taskid: u32, body: &[u8]) -> Response {
    Response {
        name: CHANNEL.to_string(),
        err_type: ErrCmdType::NoError,
        err_code: 0,
        cmdid: 1,
        taskid,
        body: body.to_vec(),
        profile: ConnectProfile::new(),
    }
}

/// An answer that did not come: the read failed.
fn failed(taskid: u32, err_type: ErrCmdType, err_code: i32) -> Response {
    Response {
        err_type,
        err_code,
        ..answered(taskid, b"")
    }
}

/// How long the one task in the queue may take, in all.
fn task_timeout(manager: &LongLinkTaskManager<Host>) -> u64 {
    manager.tasks()[0].task_timeout
}

/// How long the one task in the queue may wait for its first package.
fn first_pkg_timeout(manager: &LongLinkTaskManager<Host>) -> u64 {
    manager.tasks()[0].transfer_profile.first_pkg_timeout
}

#[test]
fn a_task_that_was_asked_for_goes_out_at_once() {
    let (mut manager, seen) = manager();

    assert!(manager.start_task_at(NOW, task(7), Task::CHANNEL_LONG));
    assert_eq!(seen.borrow().sent, vec![(CHANNEL.to_string(), 7, 0)]);
    assert!(manager.tasks()[0].is_running());
    assert_eq!(manager.task_count(CHANNEL), 1);
    assert_eq!(manager.tasks()[0].link_type, Task::CHANNEL_LONG);
}

#[test]
fn a_task_whose_channel_is_not_there_waits() {
    let (mut manager, seen) = manager();

    let mut task = task(7);
    task.channel_name = OTHER.to_string();
    manager.start_task_at(NOW, task, Task::CHANNEL_LONG);

    assert!(seen.borrow().sent.is_empty(), "nowhere to go out on");
    assert!(!manager.tasks()[0].is_running());
    assert!(seen.borrow().ended.is_empty(), "and it is not failed");
}

#[test]
fn a_minor_channel_is_named_after_the_first_host_it_came_with() {
    let (mut manager, seen) = manager();
    manager.add_long_link(LonglinkConfig::new("minor.weixin.qq.com"));

    let mut task = task(7);
    task.minorlong_host_list = vec!["minor.weixin.qq.com".to_string()];
    manager.start_task_at(NOW, task, Task::CHANNEL_MINOR_LONG);

    assert_eq!(manager.tasks()[0].channel_name, "minor.weixin.qq.com");
    assert_eq!(manager.tasks()[0].link_type, Task::CHANNEL_MINOR_LONG);
    assert_eq!(seen.borrow().sent.len(), 1);
}

#[test]
fn a_task_the_app_stopped_is_one_the_channel_is_told_about() {
    let (mut manager, seen) = manager();

    manager.start_task_at(NOW, task(7), Task::CHANNEL_LONG);
    assert!(manager.stop_task(7));
    assert_eq!(seen.borrow().stopped, vec![(CHANNEL.to_string(), 7)]);
    assert!(!manager.has_task(7));
    assert!(!manager.stop_task(7));
}

#[test]
fn a_task_whose_channel_is_gone_is_one_the_queue_cannot_stop() {
    let (mut manager, _seen) = manager();
    let mut task = task(7);
    task.channel_name = OTHER.to_string();
    manager.start_task_at(NOW, task, Task::CHANNEL_LONG);

    assert!(!manager.stop_task(7), "no channel to tell");
    assert!(manager.has_task(7), "and the task is still there");
}

#[test]
fn clear_tasks_takes_every_channel_down_and_tells_the_app_nothing() {
    let (mut manager, seen) = manager();
    manager.start_task_at(NOW, task(7), Task::CHANNEL_LONG);

    manager.clear_tasks();
    assert!(manager.is_empty());
    assert_eq!(
        seen.borrow().down,
        vec![(CHANNEL.to_string(), DisconnectInternalCode::Reset)]
    );
    assert!(seen.borrow().ended.is_empty());
}

#[test]
fn a_task_that_answered_is_over() {
    let (mut manager, seen) = manager();
    manager.start_task_at(NOW, task(7), Task::CHANNEL_LONG);

    assert_eq!(
        manager.on_response_at(NOW + 100, answered(7, b"hello")),
        Some(RespHandle::Ended)
    );
    assert!(!manager.has_task(7));
    assert_eq!(
        seen.borrow().ended,
        vec![(ErrCmdType::NoError, 0, TaskFailHandleType::Normal, 7)]
    );
    assert_eq!(
        seen.borrow().notified,
        vec![(CHANNEL.to_string(), ErrCmdType::NoError, 0)]
    );
}

#[test]
fn a_task_that_is_only_sent_is_over_the_moment_it_went_out() {
    let (mut manager, seen) = manager();

    let mut task = task(7);
    task.send_only = true;
    manager.start_task_at(NOW, task, Task::CHANNEL_LONG);

    assert_eq!(seen.borrow().sent.len(), 1, "it did go out");
    assert!(!manager.has_task(7));
    assert_eq!(
        seen.borrow().ended,
        vec![(ErrCmdType::NoError, 0, TaskFailHandleType::Normal, 7)]
    );
}

#[test]
fn a_task_the_app_said_to_end_is_over() {
    let (mut manager, seen) = manager();
    seen.borrow_mut().decoded = (0, TaskFailHandleType::TaskEnd);
    manager.start_task_at(NOW, task(7), Task::CHANNEL_LONG);

    manager.on_response_at(NOW + 100, answered(7, b"hello"));
    assert!(!manager.has_task(7));
    assert_eq!(
        seen.borrow().ended,
        vec![(ErrCmdType::EnDecode, 0, TaskFailHandleType::TaskEnd, 7)]
    );
}

#[test]
fn a_session_timeout_is_what_the_app_is_asked_about() {
    let (mut manager, seen) = manager();
    seen.borrow_mut().decoded = (-13, TaskFailHandleType::SessionTimeout);
    manager.start_task_at(NOW, task(7), Task::CHANNEL_LONG);

    assert_eq!(
        manager.on_response_at(NOW + 100, answered(7, b"hello")),
        Some(RespHandle::Deferred)
    );
    assert!(manager.has_task(7), "the app has not answered yet");
    assert_eq!(
        seen.borrow().asked,
        vec![(
            ErrCmdType::EnDecode,
            -13,
            TaskFailHandleType::SessionTimeout,
            7,
            String::new()
        )]
    );
}

#[test]
fn an_answer_the_app_could_not_read_fails_every_task_of_the_channel() {
    let (mut manager, seen) = manager();
    // `-1` is what the app read out of the body; only the task the answer was
    // about is failed with it
    seen.borrow_mut().decoded = (-1, TaskFailHandleType::Default);
    manager.start_task_at(NOW, task(7), Task::CHANNEL_LONG);
    manager.start_task_at(NOW, task(8), Task::CHANNEL_LONG);

    assert_eq!(
        manager.on_response_at(NOW + 100, answered(7, b"hello")),
        Some(RespHandle::Retried)
    );
    assert_eq!(manager.len(), 2, "both have another try coming");
    assert!(seen.borrow().ended.is_empty());
    assert_eq!(
        seen.borrow().notified,
        vec![(CHANNEL.to_string(), ErrCmdType::EnDecode, -1)],
        "the app is told what the *handle* was"
    );
    assert_eq!(
        seen.borrow().down,
        vec![(CHANNEL.to_string(), DisconnectInternalCode::DecodeErr)]
    );
    assert_eq!(manager.retry_interval(), RETRY_INTERNAL);
}

#[test]
fn a_slient_task_end_leaves_without_the_app_being_told() {
    let (mut manager, seen) = manager();
    seen.borrow_mut().decoded = (0, TaskFailHandleType::SlientTaskEnd);
    manager.start_task_at(NOW, task(7), Task::CHANNEL_LONG);

    assert_eq!(
        manager.on_response_at(NOW + 100, answered(7, b"hello")),
        Some(RespHandle::Ended)
    );
    assert!(!manager.has_task(7));
    assert!(seen.borrow().ended.is_empty());
}

#[test]
fn the_server_pushing_is_not_a_task() {
    let (mut manager, seen) = manager();
    manager.start_task_at(NOW, task(7), Task::CHANNEL_LONG);

    assert_eq!(manager.on_response_at(NOW + 10, answered(0, b"push")), None);
    assert_eq!(
        seen.borrow().pushed,
        vec![(CHANNEL.to_string(), 1, 0, b"push".to_vec())]
    );
    assert!(manager.has_task(7), "and no task was touched");
}

#[test]
fn an_answer_for_a_channel_the_queue_has_no_link_for_is_nothing() {
    let (mut manager, _seen) = manager();
    manager.start_task_at(NOW, task(7), Task::CHANNEL_LONG);

    let mut response = answered(7, b"hello");
    response.name = OTHER.to_string();
    assert_eq!(manager.on_response_at(NOW + 10, response), None);
    assert!(manager.has_task(7));
}

#[test]
fn an_answer_for_a_task_the_queue_forgot_is_nothing() {
    let (mut manager, _seen) = manager();
    manager.start_task_at(NOW, task(7), Task::CHANNEL_LONG);

    assert_eq!(
        manager.on_response_at(NOW + 10, answered(99, b"hello")),
        None
    );
}

#[test]
fn an_error_that_came_in_is_one_the_channel_is_failed_with() {
    let (mut manager, seen) = manager();
    manager.start_task_at(NOW, task(7), Task::CHANNEL_LONG);

    assert_eq!(
        manager.on_response_at(NOW + 10, failed(7, ErrCmdType::Socket, -5001)),
        Some(RespHandle::Retried)
    );
    assert_eq!(seen.borrow().ended, vec![], "the task is not over yet");
    assert_eq!(manager.retry_interval(), RETRY_INTERNAL);
    assert!(
        seen.borrow().down.is_empty(),
        "a socket error is the link's own, not one to take it down for"
    );
}

#[test]
fn an_error_for_no_task_in_particular_fails_the_channel_anyway() {
    let (mut manager, seen) = manager();
    let mut no_retry = task(7);
    no_retry.retry_count = 0;
    manager.start_task_at(NOW, no_retry, Task::CHANNEL_LONG);

    // the read failed for the link and not for one task, and the channel is
    // failed all the same
    assert_eq!(
        manager.on_response_at(
            NOW + 10,
            failed(Task::INVALID_TASK_ID, ErrCmdType::Socket, -5001)
        ),
        Some(RespHandle::Ended)
    );
    assert_eq!(
        seen.borrow().ended,
        vec![(ErrCmdType::Socket, -5001, TaskFailHandleType::Default, 7)],
        "the app hears about it and the task leaves the queue"
    );
}

#[test]
fn a_handshake_the_two_ends_did_not_agree_on_is_a_try_the_task_gets_back() {
    let (mut manager, _seen) = manager();
    manager.start_task_at(NOW, task(7), Task::CHANNEL_LONG);

    manager.on_response_at(
        NOW + 10,
        failed(7, ErrCmdType::EnDecode, HANDSHAKE_MISUNDERSTAND),
    );
    assert_eq!(
        manager.tasks()[0].remain_retry_count,
        1,
        "the try the batch took is given back"
    );
}

#[test]
fn a_task_that_heard_nothing_runs_into_the_first_pkg_timeout() {
    let (mut manager, seen) = manager();
    manager.start_task_at(NOW, task(7), Task::CHANNEL_LONG);
    let first_pkg = first_pkg_timeout(&manager);
    manager.on_send_at(NOW, 7);

    manager.run_loop_at(NOW + first_pkg);
    assert_eq!(
        seen.borrow().notified,
        vec![(
            CHANNEL.to_string(),
            ErrCmdType::NetMsgXp,
            LONG_FIRST_PKG_TIMEOUT
        )]
    );
    assert_eq!(
        seen.borrow().down,
        vec![
            (CHANNEL.to_string(), DisconnectInternalCode::DecodeErr),
            (CHANNEL.to_string(), DisconnectInternalCode::TaskTimeout)
        ],
        "it is taken down twice: once for the handle, once for the timeout"
    );
    assert!(manager.has_task(7), "and it is tried again");
    assert_eq!(manager.retry_interval(), RETRY_INTERNAL);
}

#[test]
fn a_task_that_ran_out_of_time_is_failed_on_its_own_and_takes_the_channel_down() {
    let (mut manager, seen) = manager();
    manager.start_task_at(NOW, task(7), Task::CHANNEL_LONG);
    let timeout = task_timeout(&manager);

    manager.run_loop_at(NOW + timeout);
    assert_eq!(
        seen.borrow().ended,
        vec![(
            ErrCmdType::Local,
            LOCAL_TASK_TIMEOUT,
            TaskFailHandleType::TaskTimeout,
            7
        )]
    );
    assert!(!manager.has_task(7));
    assert_eq!(
        seen.borrow().down,
        vec![
            (CHANNEL.to_string(), DisconnectInternalCode::DecodeErr),
            (CHANNEL.to_string(), DisconnectInternalCode::TaskTimeout)
        ],
        "it is taken down twice: once for the handle, once for the timeout"
    );
    assert!(
        seen.borrow().notified.is_empty(),
        "a task that ran out of its own time is not a channel error"
    );
}

#[test]
fn a_task_that_never_went_out_also_runs_out_of_time() {
    let (mut manager, seen) = manager();
    seen.borrow_mut().up = false;
    manager.start_task_at(NOW, task(7), Task::CHANNEL_LONG);
    assert!(seen.borrow().sent.is_empty());

    let timeout = task_timeout(&manager);
    manager.run_loop_at(NOW + timeout);
    assert_eq!(seen.borrow().ended.len(), 1);
}

#[test]
fn a_run_that_was_out_when_the_network_changed_is_cancelled_and_tried_again() {
    let (mut manager, seen) = manager();
    manager.start_task_at(NOW, task(7), Task::CHANNEL_LONG);

    manager.on_network_change_at(NOW + 10);
    assert_eq!(
        seen.borrow().sent,
        vec![(CHANNEL.to_string(), 7, 0), (CHANNEL.to_string(), 7, 0)],
        "the run that was out is cancelled and the task goes out again"
    );
    assert!(
        seen.borrow().ended.is_empty(),
        "a cancelled task is not a task that is over"
    );
    assert_eq!(manager.retry_interval(), 0, "without waiting");
}

#[test]
fn a_network_change_is_one_a_channel_can_say_no_to() {
    let (mut manager, seen) = manager();
    seen.borrow_mut().network_change = false;
    manager.start_task_at(NOW, task(7), Task::CHANNEL_LONG);

    manager.on_network_change_at(NOW + 10);
    assert_eq!(seen.borrow().sent.len(), 1, "nothing was cancelled");
}

#[test]
fn redoing_tasks_takes_every_channel_apart_first() {
    let (mut manager, seen) = manager();
    manager.start_task_at(NOW, task(7), Task::CHANNEL_LONG);

    manager.redo_tasks_at(NOW + 10);
    assert_eq!(seen.borrow().reset, vec![CHANNEL.to_string()]);
}

#[test]
fn the_app_retrying_is_only_about_the_tasks_of_one_user() {
    let (mut manager, seen) = manager();
    manager.add_long_link(LonglinkConfig::new("long.bob.qq.com"));
    let mut alice = task(7);
    alice.user_id = "alice".to_string();
    let mut bob = task(8);
    bob.user_id = "bob".to_string();
    bob.channel_name = "long.bob.qq.com".to_string();
    manager.start_task_at(NOW, alice, Task::CHANNEL_LONG);
    manager.start_task_at(NOW, bob, Task::CHANNEL_LONG);

    manager.retry_tasks_at(
        NOW + 10,
        ErrCmdType::Local,
        LOCAL_TASK_TIMEOUT,
        TaskFailHandleType::TaskEnd,
        Task::INVALID_TASK_ID,
        "alice",
    );
    assert!(!manager.has_task(7));
    assert!(manager.has_task(8), "bob's task was not asked about");
    assert_eq!(
        seen.borrow().ended,
        vec![(
            ErrCmdType::Local,
            LOCAL_TASK_TIMEOUT,
            TaskFailHandleType::TaskEnd,
            7
        )]
    );
}

#[test]
fn what_the_app_says_about_one_task_is_said_about_every_task_of_the_channel() {
    let (mut manager, seen) = manager();
    let mut alice = task(7);
    alice.user_id = "alice".to_string();
    let mut bob = task(8);
    bob.user_id = "bob".to_string();
    manager.start_task_at(NOW, alice, Task::CHANNEL_LONG);
    manager.start_task_at(NOW, bob, Task::CHANNEL_LONG);

    manager.retry_tasks_at(
        NOW + 10,
        ErrCmdType::Local,
        LOCAL_TASK_TIMEOUT,
        TaskFailHandleType::TaskEnd,
        7,
        "alice",
    );
    assert!(manager.is_empty(), "bob was out on the same link");
    assert_eq!(
        seen.borrow().ended,
        vec![
            (
                ErrCmdType::Local,
                LOCAL_TASK_TIMEOUT,
                TaskFailHandleType::TaskEnd,
                7
            ),
            (ErrCmdType::Local, 0, TaskFailHandleType::TaskEnd, 8),
        ],
        "and only the task it was about is failed with the code"
    );
}

#[test]
fn after_a_channel_was_failed_every_task_waits_out_the_queue() {
    let (mut manager, seen) = manager();
    manager.start_task_at(NOW, task(7), Task::CHANNEL_LONG);
    manager.start_task_at(NOW, task(8), Task::CHANNEL_LONG);
    assert_eq!(seen.borrow().sent.len(), 2);

    manager.on_response_at(NOW + 10, failed(7, ErrCmdType::EnDecode, -1));
    assert_eq!(manager.retry_interval(), RETRY_INTERNAL);

    manager.run_loop_at(NOW + 500);
    assert_eq!(seen.borrow().sent.len(), 2, "nothing went out yet");
    manager.run_loop_at(NOW + 10 + RETRY_INTERNAL);
    assert_eq!(seen.borrow().sent.len(), 4, "and now both went out again");
}

#[test]
fn a_task_that_is_not_authed_waits() {
    let (mut manager, seen) = manager();
    seen.borrow_mut().authed = false;
    manager.start_task_at(NOW, task(7), Task::CHANNEL_LONG);

    assert!(seen.borrow().sent.is_empty());
    assert!(seen.borrow().ended.is_empty());
    assert!(manager.has_task(7));
}

#[test]
fn a_task_the_app_could_not_encode_is_over() {
    let (mut manager, seen) = manager();
    seen.borrow_mut().encoded = Err(-1234);
    manager.start_task_at(NOW, task(7), Task::CHANNEL_LONG);

    assert!(seen.borrow().sent.is_empty());
    assert_eq!(
        seen.borrow().ended,
        vec![(ErrCmdType::EnDecode, -1234, TaskFailHandleType::TaskEnd, 7)]
    );
    assert_eq!(manager.tasks_continuous_fail_count(), 1);
}

#[test]
fn a_task_the_queue_is_asked_to_hold_back_is_over() {
    let (mut manager, seen) = manager();
    seen.borrow_mut().allowed = false;
    manager.start_task_at(NOW, task(7), Task::CHANNEL_LONG);

    assert!(seen.borrow().sent.is_empty());
    assert_eq!(
        seen.borrow().ended,
        vec![(
            ErrCmdType::Local,
            LOCAL_ANTI_AVALANCHE,
            TaskFailHandleType::TaskEnd,
            7
        )]
    );
}

#[test]
fn a_task_pinned_to_a_link_that_was_made_again_is_over() {
    let (mut manager, seen) = manager();
    seen.borrow_mut().profile.start_time = 4242;

    let mut task = task(7);
    task.channel_id = 7;
    manager.start_task_at(NOW, task, Task::CHANNEL_LONG);

    assert!(seen.borrow().sent.is_empty(), "it is not put on another one");
    assert_eq!(
        seen.borrow().ended,
        vec![(
            ErrCmdType::Local,
            LOCAL_CHANNEL_ID,
            TaskFailHandleType::TaskEnd,
            7
        )]
    );
}

#[test]
fn a_task_pinned_to_a_link_that_is_not_up_is_over() {
    let (mut manager, seen) = manager();
    seen.borrow_mut().up = false;

    let mut task = task(7);
    task.channel_id = 7;
    manager.start_task_at(NOW, task, Task::CHANNEL_LONG);

    assert!(seen.borrow().sent.is_empty());
    assert_eq!(
        seen.borrow().ended,
        vec![(
            ErrCmdType::Local,
            LOCAL_CHANNEL_ID,
            TaskFailHandleType::TaskEnd,
            7
        )]
    );
}

#[test]
fn a_link_that_is_not_up_is_one_a_task_with_no_pinning_waits_for() {
    let (mut manager, seen) = manager();
    seen.borrow_mut().up = false;
    manager.start_task_at(NOW, task(7), Task::CHANNEL_LONG);

    assert!(seen.borrow().sent.is_empty());
    assert!(seen.borrow().ended.is_empty(), "and it is not failed");
    assert!(manager.has_task(7));
}

#[test]
fn the_sequence_id_a_task_is_reported_under_is_made_once() {
    let (mut manager, seen) = manager();
    seen.borrow_mut().up = false;

    manager.start_task_at(NOW, task(7), Task::CHANNEL_LONG);
    assert_eq!(seen.borrow().ids, 1);
    seen.borrow_mut().up = true;
    manager.run_loop_at(NOW + 10);

    assert_eq!(seen.borrow().sent.len(), 1, "it went out on the second try");
    assert_eq!(seen.borrow().ids, 1, "and it kept its sequence id");
    assert_eq!(manager.tasks()[0].task.client_sequence_id, 1);
}

#[test]
fn an_answer_the_app_said_to_keep_is_answered_again_without_going_out() {
    let (mut manager, seen) = manager();
    seen.borrow_mut().keep = true;

    let mut first = task(7);
    first.cgi = "/cgi-bin/kept".to_string();
    manager.start_task_at(NOW, first, Task::CHANNEL_LONG);
    manager.on_response_at(NOW + 10, answered(7, b"hello"));
    assert_eq!(seen.borrow().sent.len(), 1);

    let mut second = task(8);
    second.cgi = "/cgi-bin/kept".to_string();
    manager.start_task_at(NOW + 20, second, Task::CHANNEL_LONG);

    assert_eq!(seen.borrow().sent.len(), 1, "the second one never went out");
    assert_eq!(
        seen.borrow().ended.len(),
        1,
        "and it is not over yet: the app said Normal, so the try is spent"
    );
    assert_eq!(
        manager.tasks()[0].remain_retry_count,
        0,
        "the try it was answered with is gone"
    );

    // the answer is still good, so the next look is the one that ends it
    manager.run_loop_at(NOW + 30);
    assert_eq!(seen.borrow().sent.len(), 1, "and still nothing went out");
    assert_eq!(
        seen.borrow().ended,
        vec![
            (ErrCmdType::NoError, 0, TaskFailHandleType::Normal, 7),
            (ErrCmdType::EnDecode, 0, TaskFailHandleType::Normal, 8),
        ]
    );
}

#[test]
fn a_channel_that_was_released_fails_the_tasks_it_had() {
    let (mut manager, seen) = manager();
    manager.start_task_at(NOW, task(7), Task::CHANNEL_LONG);

    assert!(manager.remove_long_link_at(NOW + 10, CHANNEL));
    assert!(manager.channels().is_empty());
    assert_eq!(
        seen.borrow().ended,
        vec![(
            ErrCmdType::Local,
            LOCAL_LONG_LINK_RELEASED,
            TaskFailHandleType::TaskEnd,
            7
        )]
    );
    assert!(!manager.remove_long_link_at(NOW + 10, CHANNEL));
}

#[test]
fn the_default_channel_is_the_one_the_config_calls_main() {
    let (mut manager, _seen) = bare();
    assert_eq!(manager.default_channel(), None);

    let mut config = LonglinkConfig::new(CHANNEL);
    config.is_main = true;
    assert!(manager.add_long_link(config));
    assert_eq!(manager.default_channel(), Some(CHANNEL));
    assert!(
        !manager.add_long_link(LonglinkConfig::new(CHANNEL)),
        "a second channel of one name is not added"
    );
    assert_eq!(manager.channels().len(), 1);
}

#[test]
fn a_channel_of_a_host_the_app_forbade_tls_for_does_not_get_it() {
    let (mut manager, _seen) = bare();
    manager.add_forbid_tls_host(&[
        "long.weixin.qq.com".to_string(),
        "short.weixin.qq.com".to_string(),
    ]);
    assert!(manager.forbid_tls(&["long.weixin.qq.com".to_string()]));
    assert!(
        !manager.forbid_tls(&["short.weixin.qq.com".to_string()]),
        "a host without \"long\" in it is not one of them"
    );

    let mut config = LonglinkConfig::new("long.other.qq.com");
    config.host_list = vec!["long.weixin.qq.com".to_string()];
    manager.add_long_link(config);
    assert!(!manager.channels()[0].need_tls);
}

#[test]
fn the_queue_fails_what_is_left_when_it_goes_away() {
    let (mut manager, seen) = manager();
    manager.start_task_at(NOW, task(7), Task::CHANNEL_LONG);

    manager.close_at(NOW);
    assert_eq!(
        seen.borrow().ended,
        vec![(
            ErrCmdType::Local,
            LOCAL_RESET,
            TaskFailHandleType::TaskEnd,
            7
        )]
    );
}

#[test]
fn a_task_that_is_out_is_not_sent_twice() {
    let (mut manager, seen) = manager();
    manager.start_task_at(NOW, task(7), Task::CHANNEL_LONG);

    manager.run_loop_at(NOW + 10);
    manager.run_loop_at(NOW + 20);
    assert_eq!(seen.borrow().sent.len(), 1);
}

#[test]
fn the_queue_says_when_it_has_to_be_looked_at_again() {
    let (mut manager, _seen) = manager();
    manager.start_task_at(NOW, task(7), Task::CHANNEL_LONG);

    let timeout = task_timeout(&manager);
    assert_eq!(manager.due_time(), Some(NOW + timeout));
    manager.on_send_at(NOW, 7);
    let first_pkg = first_pkg_timeout(&manager);
    assert_eq!(manager.due_time(), Some(NOW + first_pkg));

    manager.on_recv_at(NOW + 100, 7, 10, 10);
    assert_eq!(
        manager.due_time(),
        Some(NOW + 100 + WIFI_PACKAGE_INTERVAL),
        "a package came in, so the pkg-pkg wait is what is left"
    );
}

#[test]
fn the_queue_reads_a_task_s_connect_off_the_channel_it_is_on() {
    let (mut manager, seen) = manager();
    manager.start_task_at(NOW, task(7), Task::CHANNEL_LONG);

    assert_eq!(manager.connect_profile(7).host, CHANNEL);
    assert_eq!(manager.connect_profile(99), ConnectProfile::new());

    assert!(manager.disconnect_by_taskid(7, DisconnectInternalCode::Reset));
    assert_eq!(
        seen.borrow().down,
        vec![(CHANNEL.to_string(), DisconnectInternalCode::Reset)]
    );
    assert!(!manager.disconnect_by_taskid(99, DisconnectInternalCode::Reset));
}

#[test]
fn a_task_without_a_channel_is_failed_with_a_profile_that_says_there_is_none() {
    let (mut manager, seen) = manager();
    let mut task = task(7);
    task.channel_name = OTHER.to_string();
    manager.start_task_at(NOW, task, Task::CHANNEL_LONG);

    // what the queue says about a channel it has no link for
    let profile = manager.connect_profile(7);
    assert_eq!(profile.disconn_errtype, ErrCmdType::Local);
    assert_eq!(profile.conn_errcode, LOCAL_LONG_LINK_UNAVAILABLE);
    assert_eq!(profile.link_type, Task::CHANNEL_LONG);

    assert!(
        seen.borrow().ended.is_empty(),
        "and a task that is going nowhere is not failed for it"
    );
}

#[test]
fn the_timeout_a_task_ran_into_is_what_the_app_is_told() {
    assert_eq!(Timeout::Task.err_type(), ErrCmdType::Local);
    assert_eq!(Timeout::Task.err_code(), LOCAL_TASK_TIMEOUT);
    assert_eq!(Timeout::FirstPkg.err_type(), ErrCmdType::NetMsgXp);
    assert_eq!(Timeout::FirstPkg.err_code(), LONG_FIRST_PKG_TIMEOUT);
    assert_eq!(Timeout::PkgPkg.err_code(), LONG_PKG_PKG_TIMEOUT);
    assert_eq!(Timeout::ReadWrite.err_code(), LONG_READ_WRITE_TIMEOUT);
}

#[test]
fn the_queue_reads_the_clock_itself_when_the_host_does_not_hand_one_in() {
    let (mut manager, _seen) = manager();
    manager.set_encoder(LongLinkEncoder::new());

    assert!(manager.start_task_at(NOW, task(7), Task::CHANNEL_LONG));
    assert!(manager.has_task(7));
    assert!(manager.on_send_at(NOW, 7));
    assert!(manager.on_recv_at(NOW, 7, 10, 10));
    manager.run_loop_at(NOW);
    manager.touch_tasks_at(NOW);
    manager.redo_tasks_of_at(NOW, CHANNEL);

    assert!(manager.stop_task(7), "the run the redo made is stopped");
    assert!(!manager.has_task(7));
    assert!(bare().0.is_empty());
}

#[test]
fn the_queue_is_the_tasks_and_the_channels_it_has() {
    let (mut manager, _seen) = manager();
    manager.start_task_at(NOW, task(7), Task::CHANNEL_LONG);

    assert_eq!(manager.len(), 1);
    assert!(!manager.is_empty());
    assert_eq!(manager.channels().len(), 1);
    assert_eq!(manager.task_count(OTHER), 0);
}

#[test]
fn a_failed_channel_leaves_the_others_alone() {
    let (mut manager, seen) = manager();
    manager.add_long_link(LonglinkConfig::new(OTHER));
    let mut other = task(8);
    other.channel_name = OTHER.to_string();
    manager.start_task_at(NOW, task(7), Task::CHANNEL_LONG);
    manager.start_task_at(NOW, other, Task::CHANNEL_LONG);

    manager.on_response_at(NOW + 10, failed(7, ErrCmdType::EnDecode, -1));
    let tasks = manager.tasks();
    assert!(!tasks[0].is_running(), "the task of the channel waits");
    assert_eq!(tasks[0].remain_retry_count, 0);
    assert!(tasks[1].is_running(), "the other one is still out");
    assert_eq!(tasks[1].remain_retry_count, 1);

    // and the next failure ends the one that has no try left
    manager.run_loop_at(NOW + 10 + RETRY_INTERNAL);
    manager.on_response_at(NOW + 2_000, failed(7, ErrCmdType::EnDecode, -1));
    assert!(!manager.has_task(7));
    assert_eq!(manager.len() + seen.borrow().ended.len(), 2);
}

#[test]
fn tasks_stand_by_priority() {
    let (mut manager, seen) = manager();
    seen.borrow_mut().up = false;
    for (taskid, priority) in [(1, 3), (2, 1), (3, 3), (4, 2), (5, 1)] {
        let mut task = task(taskid);
        task.priority = priority;
        manager.start_task_at(NOW, task, Task::CHANNEL_LONG);
    }
    let order: Vec<u32> = manager.tasks().iter().map(|t| t.task.taskid).collect();
    assert_eq!(order, vec![2, 5, 4, 1, 3]);
}

#[test]
fn two_tasks_that_heard_nothing_fail_their_channel_once() {
    let (mut manager, seen) = manager();
    manager.start_task_at(NOW, task(7), Task::CHANNEL_LONG);
    manager.start_task_at(NOW, task(8), Task::CHANNEL_LONG);
    manager.on_send_at(NOW, 7);
    manager.on_send_at(NOW, 8);
    manager.run_loop_at(NOW + 6_000);
    assert_eq!(seen.borrow().notified.len(), 1);
    assert_eq!(seen.borrow().down.len(), 2);
    assert_eq!(manager.len(), 2);
}

#[test]
fn a_channel_is_failed_for_the_last_task_of_it_that_heard_nothing() {
    let (mut manager, seen) = manager();
    for taskid in [7, 8] {
        let mut task = task(taskid);
        task.retry_count = 0;
        manager.start_task_at(NOW, task, Task::CHANNEL_LONG);
        manager.on_send_at(NOW, taskid);
    }
    manager.run_loop_at(NOW + 6_000);
    let ended: Vec<(ErrCmdType, i32, u32)> = seen
        .borrow()
        .ended
        .iter()
        .map(|end| (end.0, end.1, end.3))
        .collect();
    assert_eq!(
        ended,
        vec![
            (ErrCmdType::NetMsgXp, 0, 7),
            (ErrCmdType::NetMsgXp, LONG_FIRST_PKG_TIMEOUT, 8)
        ],
        "the rest of the channel gets the error without the code"
    );
}

#[test]
fn the_deadlines_of_a_task() {
    let mut profile = TaskProfile::new_at(NOW, task(7), 60_000);
    let wifi = NetworkKind::Wifi;
    assert_eq!(
        deadlines(&profile, wifi),
        vec![(Timeout::Task, NOW + 60_000)]
    );
    profile.running = Some(RunId(1));
    profile.transfer_profile.start_send_time = NOW;
    profile.transfer_profile.first_pkg_timeout = 6_000;
    profile.transfer_profile.read_write_timeout = 30_000;
    assert_eq!(
        deadlines(&profile, wifi),
        vec![
            (Timeout::Task, NOW + 60_000),
            (Timeout::FirstPkg, NOW + 6_000),
            (Timeout::ReadWrite, NOW + 30_000),
        ]
    );
    assert_eq!(next_deadline(&profile, wifi), NOW + 6_000);
    assert!(due(&profile, NOW + 6_000, wifi, Timeout::FirstPkg));
    assert!(!due(&profile, NOW + 5_999, wifi, Timeout::FirstPkg));

    profile.transfer_profile.last_receive_pkg_time = NOW + 1_000;
    let mobile = NetworkKind::Mobile;
    assert_eq!(
        next_deadline(&profile, mobile),
        NOW + 1_000 + pkg_pkg_interval(mobile)
    );
    assert!(!due(&profile, u64::MAX, mobile, Timeout::FirstPkg));
}

#[test]
fn an_error_without_a_task_id_is_about_the_tasks_of_its_channel() {
    let (mut manager, _seen) = manager();
    manager.add_long_link(LonglinkConfig::new(OTHER));
    let mut mine = task(7);
    mine.retry_count = 0;
    let mut other = task(8);
    other.channel_name = OTHER.to_string();
    manager.start_task_at(NOW, mine, Task::CHANNEL_LONG);
    manager.start_task_at(NOW, other, Task::CHANNEL_LONG);

    let handle = manager.on_response_at(
        NOW + 10,
        failed(Task::INVALID_TASK_ID, ErrCmdType::Socket, -5001),
    );
    assert_eq!(handle, Some(RespHandle::Ended), "none is left on the channel");
    assert!(!manager.has_task(7));
    assert!(manager.has_task(8));
}
