//! The net core, with the long-link queue behind it.
use std::cell::RefCell;
use std::rc::Rc;

use mars_stn::anti_avalanche::AntiAvalanche;
use mars_stn::config::MAX_VOL;
use mars_stn::core_pieces::{CorePieces, LinkParts, OutsideHost};
use mars_stn::dynamic_timeout::{DynamicTimeout, DynamicTimeoutStatus, NetworkKind};
use mars_stn::ip_port::IpPortItem;
use mars_stn::long_link::{DisconnectInternalCode, LinkTold, LongLink};
use mars_stn::longlink::LongLinkEncoder;
use mars_stn::longlink_connect_monitor::LongLinkStatus;
use mars_stn::longlink_task_manager::{LongLinkTaskManager, Response};
use mars_stn::net_check_logic::{CheckTold, NetCheckLogic};
use mars_stn::net_core::{
    min_due, shortlink_status, valid_and_init_default, CoreHost, NetCore, NetStatus,
    DEFAULT_LONGLINK_NAME, DEF_TASK_RETRY_COUNT, SHORTLINK_ERR_TIME,
};
use mars_stn::net_route::{CallFrom, RouteHost, Routing, NET_TYPE_MOBILE, NET_TYPE_WIFI};
use mars_stn::net_source::{ExtraInfo, LonglinkConfig, NetSource, SourceHost, NO_NET};
use mars_stn::netsource_timercheck::TimerTold;
use mars_stn::queue_host::QueueHost;
use mars_stn::queue_spec::RespHandle;
use mars_stn::task::Task;
use mars_stn::task_profile::{
    ConnectProfile, ErrCmdType, PrepareProfile, RunId, TaskFailHandleType, LOCAL_CHANNEL_SELECT,
    LOCAL_LONG_LINK_RELEASED, LOCAL_NO_NET, LOCAL_RESET, LOCAL_START_TASK_FAIL, LOCAL_TASK_PARAM,
};
use mars_stn::unwired::Unwired;

const NOW: u64 = 100 * 1000;
const MAIN: &str = DEFAULT_LONGLINK_NAME;
const SHORT_HOST: &str = "short.weixin.qq.com";

/// `(taskid, user_id, err_type, err_code, profile.ip)`.
type Ended = (u32, String, ErrCmdType, i32, String);
/// `(err_type, err_code, ip, port)`.
type Pair = (ErrCmdType, i32, String, u16);

/// Everything the app and the pieces were told, and what they answer.
struct Seen {
    ended: Vec<Ended>,
    /// `(channel, taskid, cgi)`.
    sent: Vec<(String, u32, String)>,
    /// `(all, longlink)`.
    status: Vec<(NetStatus, NetStatus)>,
    long_err: Vec<Pair>,
    short_err: Vec<Pair>,
    /// `(cmdid, body)`.
    pushed: Vec<(u32, String)>,
    preprocessed: Vec<u32>,
    /// The retry count of every task, as the task process saw it.
    processed: Vec<i32>,
    callbacks: Vec<(CallFrom, ErrCmdType, i32)>,
    /// What the net source heard of a long link.
    reported: Vec<(bool, String, u16)>,
    /// What the server banned.
    banned: Vec<String>,
    down: Vec<(String, DisconnectInternalCode)>,
    signals: Vec<(String, bool)>,
    made: Vec<String>,
    touched: Vec<&'static str>,
    statuses: Vec<LongLinkStatus>,
    zombies: Vec<Task>,
    zombie_due: Option<u64>,
    net_info: i32,
    say: i32,
    long_answer: (i32, TaskFailHandleType),
    now: u64,
}

type Log = Rc<RefCell<Seen>>;

/// The app and the zombies, as a queue that is running reaches them.
struct App(Log);

impl RouteHost for App {
    fn tick(&mut self) -> u64 {
        self.0.borrow().now
    }

    fn task_callback(
        &mut self,
        from: CallFrom,
        err_type: ErrCmdType,
        err_code: i32,
        _handle: TaskFailHandleType,
        _task: &Task,
    ) -> i32 {
        let mut seen = self.0.borrow_mut();
        seen.callbacks.push((from, err_type, err_code));
        seen.say
    }

    fn on_task_end(
        &mut self,
        taskid: u32,
        user_id: &str,
        err_type: ErrCmdType,
        err_code: i32,
        profile: &ConnectProfile,
    ) -> i32 {
        let ended = (
            taskid,
            user_id.to_string(),
            err_type,
            err_code,
            profile.ip.clone(),
        );
        self.0.borrow_mut().ended.push(ended);
        err_code
    }

    fn save_zombie(&mut self, now: u64, task: &Task, _cost: u32) -> bool {
        let mut seen = self.0.borrow_mut();
        seen.zombies.push(task.clone());
        seen.zombie_due = Some(now + 3000);
        true
    }

    fn push_preprocess(&mut self, cmdid: u32, _body: &[u8]) {
        self.0.borrow_mut().preprocessed.push(cmdid);
    }

    fn on_push(&mut self, _name: &str, cmdid: u32, _taskid: u32, body: &[u8]) {
        let body = String::from_utf8_lossy(body).to_string();
        self.0.borrow_mut().pushed.push((cmdid, body));
    }

    fn net_info(&mut self) -> i32 {
        self.0.borrow().net_info
    }
}

/// The links.
struct Links(Log);

impl QueueHost for Links {
    fn channel_profile(&mut self, name: &str) -> ConnectProfile {
        let mut profile = profile_of("10.0.0.1");
        profile.host = name.to_string();
        profile.port = 8080;
        profile
    }

    fn task_timeout(&mut self, _task: &Task) -> u64 {
        60_000
    }

    fn first_pkg_timeout(
        &mut self,
        _server_cost: i64,
        _send_len: usize,
        _sent_count: i32,
        _status: DynamicTimeoutStatus,
        _mobile: bool,
    ) -> u64 {
        6_000
    }

    fn read_write_timeout(&mut self, first_pkg: u64, _mobile: bool) -> u64 {
        first_pkg + 24_000
    }

    fn encode(&mut self, task: &Task) -> Result<Vec<u8>, i32> {
        Ok(task.cgi.as_bytes().to_vec())
    }

    fn decode(&mut self, _task: &Task, _body: &[u8]) -> (i32, TaskFailHandleType) {
        self.0.borrow().long_answer
    }

    fn disconnect(&mut self, name: &str, code: DisconnectInternalCode) {
        self.0.borrow_mut().down.push((name.to_string(), code));
    }

    fn send(&mut self, name: &str, task: &Task, _body: &[u8]) -> Option<RunId> {
        let sent = (name.to_string(), task.taskid, task.cgi.clone());
        self.0.borrow_mut().sent.push(sent);
        Some(RunId(u64::from(task.taskid)))
    }

    fn ended(
        &mut self,
        _err_type: ErrCmdType,
        _err_code: i32,
        _handle: TaskFailHandleType,
        _task: &Task,
        _cost: u32,
        _profile: &ConnectProfile,
    ) {}

    fn network_err(&mut self, _name: &str, _err_type: ErrCmdType, _err_code: i32, _ip: &str, _port: u16) {}

    fn retry_all_tasks(
        &mut self,
        _err_type: ErrCmdType,
        _err_code: i32,
        _handle: TaskFailHandleType,
        _src_taskid: u32,
        _user_id: &str,
    ) {}

    fn push(&mut self, _name: &str, _cmdid: u32, _taskid: u32, _body: &[u8]) {}

    fn stop(&mut self, _name: &str, _taskid: u32) {}

    fn reset_channel(&mut self, _name: &str) {}

    fn keep_answer(&mut self, _now: u64, _cgi: &str, _body: &[u8]) {}

    fn kept_answer(&mut self, _now: u64, _cgi: &str) -> Option<Vec<u8>> {
        None
    }

    fn should_keep(&mut self, _err_code: i32) -> bool {
        false
    }

    fn network(&mut self) -> NetworkKind {
        NetworkKind::Wifi
    }

    fn authed(&mut self, _host: &str, _user_id: &str) -> bool {
        true
    }

    fn sequence_id(&mut self) -> u16 {
        0
    }

    fn allowed(&mut self, _task: &Task, _body: &[u8]) -> bool {
        true
    }

    fn make_sure_connected(&mut self, _name: &str) -> bool {
        true
    }

    fn network_change(&mut self, _name: &str) -> bool {
        true
    }
}

/// The history of the pairs.
struct Pairs(Log);

impl SourceHost for Pairs {
    fn new_dns(&mut self, _host: &str, _is_longlink: bool, _extra: &ExtraInfo) -> Vec<String> {
        Vec::new()
    }

    fn dns(&mut self, _host: &str) -> Vec<String> {
        Vec::new()
    }

    fn random(&mut self, _bound: usize) -> usize {
        0
    }

    fn sort_and_filter(
        &mut self,
        _now: u64,
        items: Vec<IpPortItem>,
        _need: i32,
    ) -> Vec<IpPortItem> {
        items
    }

    fn update(&mut self, _now: u64, _now_secs: u64, ip: &str, port: u16, is_success: bool) {
        self.0
            .borrow_mut()
            .reported
            .push((is_success, ip.to_string(), port));
    }

    fn remove_banned_list(&mut self, _ip: &str) {}

    fn add_server_ban(&mut self, _now: u64, ip: &str) {
        self.0.borrow_mut().banned.push(ip.to_string());
    }

    fn init_history_to_banned_list(&mut self) {}
}

type Wire = Unwired<LinkTold>;
type Checks = Unwired<TimerTold>;

/// Stand-ins for the pieces around the queue, the source and the diagnosis.
struct Outside {
    log: Log,
    short: Vec<Task>,
    short_timeout: DynamicTimeout,
}

impl OutsideHost<App, Links, Wire, Checks> for Outside {
    fn task_process(&mut self, task: Task) -> Task {
        self.log.borrow_mut().processed.push(task.retry_count);
        task
    }

    fn on_task_end(
        &mut self,
        taskid: u32,
        user_id: &str,
        err_type: ErrCmdType,
        err_code: i32,
        profile: &ConnectProfile,
    ) -> i32 {
        App(self.log.clone()).on_task_end(taskid, user_id, err_type, err_code, profile)
    }

    fn net_info(&mut self) -> i32 {
        self.log.borrow().net_info
    }

    fn unix_secs(&mut self) -> u64 {
        1_600_000_000
    }

    fn report_connect_status(&mut self, all: NetStatus, longlink: NetStatus) {
        self.log.borrow_mut().status.push((all, longlink));
    }

    fn on_longlink_network_err(
        &mut self,
        err_type: ErrCmdType,
        err_code: i32,
        ip: &str,
        port: u16,
    ) {
        let pair = (err_type, err_code, ip.to_string(), port);
        self.log.borrow_mut().long_err.push(pair);
    }

    fn on_shortlink_network_err(
        &mut self,
        err_type: ErrCmdType,
        err_code: i32,
        ip: &str,
        _host: &str,
        port: u16,
    ) {
        let pair = (err_type, err_code, ip.to_string(), port);
        self.log.borrow_mut().short_err.push(pair);
    }

    fn on_longlink_status_change(&mut self, status: LongLinkStatus) {
        self.log.borrow_mut().statuses.push(status);
    }

    fn shortlink_start(
        &mut self,
        _routing: &mut Routing<App, Links>,
        _now: u64,
        task: &Task,
        _prepare: PrepareProfile,
    ) -> bool {
        if task.send_only {
            return false;
        }
        let sent = ("short".to_string(), task.taskid, task.cgi.clone());
        self.log.borrow_mut().sent.push(sent);
        self.short.push(task.clone());
        true
    }

    fn shortlink_stop(&mut self, taskid: u32) -> bool {
        let count = self.short.len();
        self.short.retain(|task| task.taskid != taskid);
        self.short.len() < count
    }

    fn shortlink_has(&mut self, taskid: u32) -> bool {
        self.short.iter().any(|task| task.taskid == taskid)
    }

    fn shortlink_clear(&mut self) {
        self.short.clear();
    }

    fn shortlink_redo(&mut self, _routing: &mut Routing<App, Links>, _now: u64) {}

    fn shortlink_touch(&mut self, _routing: &mut Routing<App, Links>, _now: u64) {
        self.log.borrow_mut().touched.push("short");
    }

    fn shortlink_reset_timeout(&mut self) {
        self.short_timeout.reset();
    }

    fn shortlink_retry(
        &mut self,
        _routing: &mut Routing<App, Links>,
        _now: u64,
        _err_type: ErrCmdType,
        _err_code: i32,
        _handle: TaskFailHandleType,
        _src_taskid: u32,
    ) {
    }

    fn shortlink_profile(&mut self, taskid: u32) -> Option<ConnectProfile> {
        if self.shortlink_has(taskid) {
            Some(profile_of("1.2.3.4"))
        } else {
            None
        }
    }

    fn shortlink_due(&mut self) -> Option<u64> {
        None
    }

    fn shortlink_fails(&mut self) -> u32 {
        0
    }

    fn zombie_task_started(&mut self, _now: u64) {}

    fn zombie_stop(&mut self, taskid: u32) -> bool {
        let mut seen = self.log.borrow_mut();
        let count = seen.zombies.len();
        seen.zombies.retain(|task| task.taskid != taskid);
        seen.zombies.len() < count
    }

    fn zombie_has(&mut self, taskid: u32) -> bool {
        self.log
            .borrow()
            .zombies
            .iter()
            .any(|task| task.taskid == taskid)
    }

    fn zombie_clear(&mut self) {
        self.log.borrow_mut().zombies.clear();
    }

    fn zombie_redo(&mut self, _now: u64) -> Vec<Task> {
        std::mem::take(&mut self.log.borrow_mut().zombies)
    }

    fn zombie_due(&mut self) -> Option<u64> {
        self.log.borrow().zombie_due
    }

    fn sync_network_change(&mut self, _now: u64) {}

    fn sync_status(&mut self, _now: u64, _status: LongLinkStatus) {}

    fn sync_due(&mut self) -> Option<u64> {
        None
    }

    fn sync_cancel(&mut self) {}

    fn link_make(
        &mut self,
        config: &LonglinkConfig,
        encoder: LongLinkEncoder,
    ) -> LinkParts<Wire, Checks> {
        self.log.borrow_mut().made.push(config.name.clone());
        LinkParts {
            link: LongLink::with_encoder(Unwired::new(), config.copy(), encoder, 1),
            checks: Unwired::new(),
            now: NOW,
        }
    }

    fn link_drop(&mut self, _name: &str) {}

    fn links_clear(&mut self) {}

    fn link_keep_signal(&mut self, name: &str, _now: u64) -> Vec<u32> {
        self.log.borrow_mut().signals.push((name.to_string(), true));
        Vec::new()
    }

    fn link_stop_signal(&mut self, name: &str) {
        self.log
            .borrow_mut()
            .signals
            .push((name.to_string(), false));
    }
}

type Pieces = CorePieces<Outside, App, Links, Pairs, Unwired<CheckTold>, Wire, Checks>;
type Core = NetCore<Pieces>;

fn pieces() -> (Pieces, Log) {
    pieces_around(|_queue| {})
}

/// The pieces around a queue that was made ready.
fn pieces_around(
    prepare: impl FnOnce(&mut LongLinkTaskManager<Routing<App, Links>>),
) -> (Pieces, Log) {
    let log = Rc::new(RefCell::new(Seen {
        ended: Vec::new(),
        sent: Vec::new(),
        status: Vec::new(),
        long_err: Vec::new(),
        short_err: Vec::new(),
        pushed: Vec::new(),
        preprocessed: Vec::new(),
        processed: Vec::new(),
        callbacks: Vec::new(),
        reported: Vec::new(),
        banned: Vec::new(),
        down: Vec::new(),
        signals: Vec::new(),
        made: Vec::new(),
        touched: Vec::new(),
        statuses: Vec::new(),
        zombies: Vec::new(),
        zombie_due: None,
        net_info: NET_TYPE_WIFI,
        say: 1,
        long_answer: (0, TaskFailHandleType::Normal),
        now: NOW,
    }));
    let gates = AntiAvalanche::new_at(true, NOW);
    let routing = Routing::new(App(log.clone()), Links(log.clone()), gates, true);
    let outside = Outside {
        log: log.clone(),
        short: Vec::new(),
        short_timeout: DynamicTimeout::new(),
    };
    let mut queue = LongLinkTaskManager::new(routing);
    prepare(&mut queue);
    let source = NetSource::new_at(Pairs(log.clone()), NOW);
    let check = NetCheckLogic::new_at(Unwired::new(), NOW);
    (CorePieces::new(outside, queue, source, check), log)
}

/// A core with the default long link, and a wifi.
fn wired() -> (Core, Log) {
    let (pieces, log) = pieces();
    (NetCore::new(pieces), log)
}

fn task(taskid: u32) -> Task {
    let mut task = Task::new(taskid, 12);
    task.cgi = format!("/cgi-bin/{taskid}");
    task.channel_select = Task::CHANNEL_ALL;
    task.shortlink_host_list = vec![SHORT_HOST.to_string()];
    task.total_timeout = 10 * 60 * 1000;
    task.retry_count = 1;
    task.user_id = "user".to_string();
    task
}

/// The main link goes there.
fn up(core: &mut Core, status: LongLinkStatus) {
    let link = core.long_link_meta(MAIN).expect("the main link");
    link.channel_mut().set_status(status);
}

fn profile_of(ip: &str) -> ConnectProfile {
    let mut profile = ConnectProfile::new();
    profile.ip = ip.to_string();
    profile
}

fn long_answer(taskid: u32, profile: ConnectProfile) -> Response {
    Response {
        name: MAIN.to_string(),
        err_type: ErrCmdType::NoError,
        err_code: 0,
        cmdid: 12,
        taskid,
        body: Vec::new(),
        profile,
    }
}

/// A short-link task answered, and the app read the answer as `answer`.
fn short_answered(
    core: &mut Core,
    now: u64,
    taskid: u32,
    answer: (i32, TaskFailHandleType),
) -> RespHandle {
    let task = core
        .host
        .outside
        .short
        .iter()
        .find(|task| task.taskid == taskid)
        .expect("a task that is out")
        .clone();
    core.host.outside.log.borrow_mut().now = now;
    let pieces = &mut core.host;
    let (code, handle) = answer;
    match handle {
        TaskFailHandleType::SessionTimeout => {
            pieces.retry_all(ErrCmdType::EnDecode, code, handle, taskid, &task.user_id);
            RespHandle::Deferred
        }
        TaskFailHandleType::Normal => {
            let profile = profile_of("1.2.3.4");
            pieces.short_ended(ErrCmdType::NoError, code, handle, &task, 100, &profile);
            core.host.shortlink_stop(taskid);
            RespHandle::Ended
        }
        _ => {
            let profile = profile_of("1.2.3.4");
            pieces.short_ended(ErrCmdType::EnDecode, code, handle, &task, 100, &profile);
            core.host.shortlink_stop(taskid);
            RespHandle::Ended
        }
    }
}

fn failed(code: i32) -> Vec<Ended> {
    vec![(
        7,
        "user".to_string(),
        ErrCmdType::Local,
        code,
        String::new(),
    )]
}

fn take<T>(from: &mut Vec<T>) -> Vec<T> {
    std::mem::take(from)
}

#[test]
fn a_task_that_may_use_everything_goes_on_the_long_link_while_it_is_up() {
    let (mut core, log) = wired();
    up(&mut core, LongLinkStatus::Connected);

    assert!(core.start_task_at(NOW, task(7)));
    assert!(core.host.queue.has_task(7));
    assert!(!core.host.shortlink_has(7));
    assert_eq!(
        log.borrow().sent,
        vec![(MAIN.to_string(), 7, "/cgi-bin/7".to_string())]
    );
}

#[test]
fn a_task_that_may_use_everything_goes_on_the_short_link_while_the_long_link_is_down() {
    let (mut core, log) = wired();

    assert!(core.start_task_at(NOW, task(7)));
    assert!(core.host.shortlink_has(7));
    assert_eq!(
        log.borrow().sent,
        vec![("short".to_string(), 7, "/cgi-bin/7".to_string())]
    );
}

#[test]
fn an_empty_channel_name_is_the_default_link() {
    let (mut core, log) = wired();
    up(&mut core, LongLinkStatus::Connected);

    let mut task = task(7);
    task.channel_name = String::new();
    assert!(core.start_task_at(NOW, task));

    assert_eq!(core.host.queue.task_count(MAIN), 1);
    assert_eq!(
        log.borrow().sent,
        vec![(MAIN.to_string(), 7, "/cgi-bin/7".to_string())]
    );
}

#[test]
fn a_task_that_may_use_no_channel_is_failed_at_once() {
    let (mut core, log) = wired();
    let mut task = task(7);
    task.channel_select = 0;

    assert!(!core.start_task_at(NOW, task));
    assert_eq!(log.borrow().ended, failed(LOCAL_CHANNEL_SELECT));
    assert!(!core.has_task(7));
}

#[test]
fn a_task_the_server_may_not_take_that_long_is_not_started() {
    let (mut core, log) = wired();
    let mut task = task(7);
    task.server_process_cost = 2 * 60 * 1000 + 1;

    assert!(!core.start_task_at(NOW, task));
    assert_eq!(log.borrow().ended, failed(LOCAL_TASK_PARAM));
}

#[test]
fn a_task_that_asked_for_more_than_thirty_tries_is_not_started() {
    let (mut core, log) = wired();
    let mut task = task(7);
    task.retry_count = 31;

    assert!(!core.start_task_at(NOW, task));
    assert_eq!(log.borrow().ended, failed(LOCAL_TASK_PARAM));
}

#[test]
fn a_task_with_a_deadline_over_ten_minutes_is_not_started() {
    let (mut core, log) = wired();
    let mut task = task(7);
    task.total_timeout = 10 * 60 * 1000 + 1;

    assert!(!core.start_task_at(NOW, task));
    assert_eq!(log.borrow().ended, failed(LOCAL_TASK_PARAM));
}

#[test]
fn a_long_link_task_without_a_cmdid_loses_the_long_link() {
    let (mut core, log) = wired();
    up(&mut core, LongLinkStatus::Connected);
    let mut task = task(7);
    task.cmdid = 0;
    task.channel_select = Task::CHANNEL_BOTH;

    assert!(core.start_task_at(NOW, task));
    assert!(!core.host.queue.has_task(7));
    assert!(core.host.shortlink_has(7));
    assert_eq!(log.borrow().sent.len(), 1);
}

#[test]
fn a_short_link_task_without_a_cgi_loses_the_short_link() {
    let (mut core, log) = wired();
    up(&mut core, LongLinkStatus::Connected);
    let mut task = task(7);
    task.cgi = String::new();
    task.channel_select = Task::CHANNEL_BOTH;

    assert!(core.start_task_at(NOW, task));
    assert!(core.host.queue.has_task(7));
    assert!(!core.host.shortlink_has(7));
}

#[test]
fn a_task_that_asked_for_a_negative_retry_count_is_given_the_default_one() {
    let (mut core, log) = wired();
    let mut task = task(7);
    task.retry_count = -1;

    assert!(core.start_task_at(NOW, task));
    assert_eq!(log.borrow().processed, vec![DEF_TASK_RETRY_COUNT]);
}

#[test]
fn a_task_the_network_cannot_take_is_failed_when_the_task_is_sensitive() {
    let (mut core, log) = wired();
    log.borrow_mut().net_info = NO_NET;
    let mut sensitive = task(7);
    sensitive.network_status_sensitive = true;

    assert!(!core.start_task_at(NOW, sensitive));
    assert_eq!(take(&mut log.borrow_mut().ended), failed(LOCAL_NO_NET));

    // ... and a link that is up is a network the task can be given to
    up(&mut core, LongLinkStatus::Connected);
    let mut later = task(8);
    later.network_status_sensitive = true;
    assert!(core.start_task_at(NOW, later));
    assert!(log.borrow().ended.is_empty());
}

/// No long link at all, or a channel no link answers to, asks no question of
/// the network: the task goes out.
#[test]
fn a_sensitive_task_with_no_link_to_ask_about_is_not_failed_for_the_network() {
    let (mut core, log) = wired();
    core.set_need_use_long_link(false);
    log.borrow_mut().net_info = NO_NET;
    let mut off = task(7);
    off.network_status_sensitive = true;

    assert!(
        core.start_task_at(NOW, off),
        "with no long link there is nothing to ask"
    );
    assert!(core.host.shortlink_has(7));
    assert!(log.borrow().ended.is_empty());

    // ... and the long link is on, but the task names a channel the core has
    // no link for
    let (mut core, log) = wired();
    log.borrow_mut().net_info = NO_NET;
    let mut named = task(7);
    named.network_status_sensitive = true;
    named.channel_name = "no-such-link".to_string();

    assert!(core.start_task_at(NOW, named));
    assert!(core.host.shortlink_has(7));
    assert!(log.borrow().ended.is_empty());
}

/// The fallback hosts are filled in on the way to the short link of a core
/// that has a long link, and left as they came in by one that has none.
#[test]
fn a_core_with_no_long_link_leaves_the_fallback_hosts_alone() {
    let (mut core, _log) = wired();
    core.set_need_use_long_link(false);
    let mut short = task(7);
    short.channel_select = Task::CHANNEL_SHORT;

    assert!(core.start_task_at(NOW, short));
    assert!(core.host.outside.short[0].shortlink_fallback_hostlist.is_empty());

    // ... and with a long link, the short arm is the one that runs
    let (mut core, _log) = wired();
    let mut short = task(7);
    short.channel_select = Task::CHANNEL_SHORT;

    assert!(core.start_task_at(NOW, short));
    assert_eq!(
        core.host.outside.short[0].shortlink_fallback_hostlist,
        vec![SHORT_HOST.to_string()]
    );
}

#[test]
fn a_task_that_is_only_sent_is_not_one_a_short_link_can_start() {
    let (mut core, log) = wired();
    let mut task = task(7);
    task.send_only = true;

    assert!(!core.start_task_at(NOW, task));
    assert_eq!(log.borrow().ended, failed(LOCAL_START_TASK_FAIL));
}

#[test]
fn a_fast_task_gives_the_long_link_up_while_one_of_the_channel_is_out() {
    let (mut core, log) = wired();
    up(&mut core, LongLinkStatus::Connected);
    let mut first = task(7);
    first.channel_strategy = Task::CHANNEL_FAST_STRATEGY;
    let mut second = task(8);
    second.channel_strategy = Task::CHANNEL_FAST_STRATEGY;

    assert!(core.start_task_at(NOW, first));
    assert!(core.start_task_at(NOW, second));

    assert_eq!(core.host.queue.task_count(MAIN), 1);
    assert!(core.host.shortlink_has(8));
}

#[test]
fn a_task_that_asked_for_the_short_link_stays_on_it_while_the_long_link_is_up() {
    let (mut core, log) = wired();
    up(&mut core, LongLinkStatus::Connected);
    for (taskid, channel_select) in [(7, Task::CHANNEL_SHORT), (8, Task::CHANNEL_NORMAL)] {
        let mut task = task(taskid);
        task.channel_select = channel_select;
        assert!(core.start_task_at(NOW, task));
    }

    assert_eq!(core.host.queue.len(), 0);
    assert_eq!(core.host.outside.short.len(), 2);
    assert_eq!(log.borrow().sent.len(), 2);
}

#[test]
fn an_answer_that_came_back_ends_the_task_with_the_connect_it_ran_on() {
    let (mut core, log) = wired();
    assert!(core.start_task_at(NOW, task(7)));

    let handle = short_answered(&mut core, NOW + 100, 7, (0, TaskFailHandleType::Normal));
    assert_eq!(handle, RespHandle::Ended);

    assert_eq!(
        log.borrow().ended,
        vec![(
            7,
            "user".to_string(),
            ErrCmdType::NoError,
            0,
            "1.2.3.4".to_string()
        )]
    );
    assert!(!core.has_task(7));
}

#[test]
fn a_task_the_app_says_nothing_about_is_not_ended() {
    let (mut core, log) = wired();
    log.borrow_mut().say = 0;

    assert!(core.start_task_at(NOW, task(7)));
    short_answered(&mut core, NOW + 100, 7, (0, TaskFailHandleType::Normal));

    assert_eq!(
        log.borrow().callbacks,
        vec![(CallFrom::Short, ErrCmdType::NoError, 0)]
    );
    assert!(log.borrow().ended.is_empty());
    assert!(!core.has_task(7));
}

#[test]
fn a_long_link_task_that_heard_nothing_is_saved_as_a_zombie() {
    let (mut core, log) = wired();
    up(&mut core, LongLinkStatus::Connected);
    log.borrow_mut().long_answer = (9, TaskFailHandleType::TaskTimeout);

    assert!(core.start_task_at(NOW, task(7)));
    core.host
        .on_response_at(NOW + 100, long_answer(7, profile_of("1.2.3.4")));

    assert_eq!(log.borrow().zombies.len(), 1);
    assert!(log.borrow().ended.is_empty());
    assert!(!core.host.queue.has_task(7));
    // the whole channel failed, which is told once the queue is done
    core.run_pending_at(NOW + 100);
    assert_eq!(
        log.borrow().long_err,
        vec![(
            ErrCmdType::EnDecode,
            TaskFailHandleType::TaskTimeout.code(),
            "1.2.3.4".to_string(),
            0
        )]
    );
}

/// A core whose one task is a zombie.
fn with_a_zombie() -> (Core, Log) {
    let (mut core, log) = wired();
    up(&mut core, LongLinkStatus::Connected);
    log.borrow_mut().long_answer = (9, TaskFailHandleType::TaskTimeout);
    assert!(core.start_task_at(NOW, task(7)));
    core.host
        .on_response_at(NOW + 100, long_answer(7, profile_of("1.2.3.4")));
    assert_eq!(log.borrow().zombies.len(), 1);
    (core, log)
}

#[test]
fn a_zombie_is_started_again_when_the_link_comes_back() {
    let (mut core, log) = with_a_zombie();

    core.on_longlink_status_changed_at(NOW + 500, LongLinkStatus::Connected);
    assert!(core.has_pending());
    core.run_pending_at(NOW + 500);

    assert_eq!(log.borrow().zombies.len(), 0);
    assert!(core.host.queue.has_task(7));
    assert_eq!(log.borrow().sent.len(), 2);
}

#[test]
fn a_zombie_that_ends_is_not_saved_again() {
    let (mut core, log) = wired();
    let task = task(7);

    let code = core.call_back_at(
        NOW,
        CallFrom::Zombie,
        ErrCmdType::EnDecode,
        9,
        TaskFailHandleType::TaskTimeout,
        &task,
        100,
        &profile_of("1.2.3.4"),
    );
    assert_eq!(code, 9);
    assert_eq!(log.borrow().zombies.len(), 0);
    assert_eq!(
        log.borrow().ended,
        vec![(
            7,
            "user".to_string(),
            ErrCmdType::EnDecode,
            9,
            String::new()
        )]
    );
}

#[test]
fn a_task_that_is_over_because_the_core_is_gone_is_ended_with_nothing() {
    let (mut core, log) = wired();
    let task = task(7);

    core.call_back_at(
        NOW,
        CallFrom::Short,
        ErrCmdType::Local,
        LOCAL_RESET,
        TaskFailHandleType::Default,
        &task,
        100,
        &profile_of("1.2.3.4"),
    );
    assert_eq!(log.borrow().ended, failed(LOCAL_RESET));
    assert_eq!(log.borrow().zombies.len(), 0);
}

#[test]
fn a_core_that_does_not_use_the_long_link_fails_the_task_instead_of_keeping_it() {
    let (mut core, log) = wired();

    assert!(core.start_task_at(NOW, task(7)));
    core.set_need_use_long_link(false);
    short_answered(
        &mut core,
        NOW + 100,
        7,
        (9, TaskFailHandleType::TaskTimeout),
    );

    assert_eq!(log.borrow().zombies.len(), 0);
    assert_eq!(
        log.borrow().ended,
        vec![(
            7,
            "user".to_string(),
            ErrCmdType::EnDecode,
            9,
            String::new()
        )]
    );
}

#[test]
fn a_session_timeout_is_a_follow_up_the_host_drains() {
    let (mut core, _log) = wired();

    assert!(core.start_task_at(NOW, task(7)));
    let handle = short_answered(
        &mut core,
        NOW + 100,
        7,
        (0, TaskFailHandleType::SessionTimeout),
    );
    assert_eq!(handle, RespHandle::Deferred);

    assert_eq!(core.pending_count(), 1);
    assert!(core.has_pending());
    core.run_pending_at(NOW + 200);
    assert!(!core.has_pending());
    // the answer was not one the task is over with: it is still in the queue
    assert!(core.has_task(7));
}

#[test]
fn three_short_link_errors_in_a_row_are_a_server_the_app_cannot_reach() {
    let (mut core, log) = wired();
    up(&mut core, LongLinkStatus::ConnectFailed);
    for i in 0..SHORTLINK_ERR_TIME {
        core.on_shortlink_network_error_at(
            NOW + u64::try_from(i).unwrap(),
            ErrCmdType::Socket,
            -1,
            "1.2.3.4",
            SHORT_HOST,
            80,
        );
    }

    assert_eq!(
        log.borrow().status,
        vec![
            (NetStatus::Unknown, NetStatus::ServerFailed),
            (NetStatus::Unknown, NetStatus::ServerFailed),
            (NetStatus::ServerFailed, NetStatus::ServerFailed),
        ]
    );
    assert_eq!(log.borrow().short_err.len(), SHORTLINK_ERR_TIME as usize);
}

#[test]
fn a_short_link_answer_that_came_back_starts_the_zombies_again() {
    let (mut core, log) = with_a_zombie();

    core.on_shortlink_network_error_at(
        NOW + 200,
        ErrCmdType::NoError,
        0,
        "1.2.3.4",
        SHORT_HOST,
        80,
    );
    assert!(core.has_pending());
    core.run_pending_at(NOW + 200);

    assert_eq!(log.borrow().zombies.len(), 0);
    assert!(core.host.queue.has_task(7));
    assert_eq!(log.borrow().sent.len(), 2);
}

#[test]
fn a_long_link_error_is_the_apps_only_when_it_is_the_main_link() {
    let (mut core, log) = wired();
    core.create_long_link(LonglinkConfig::new("second"));

    core.on_longlink_network_error_at(NOW, "second", ErrCmdType::Socket, -1, "5.6.7.8", 443);
    assert!(log.borrow().long_err.is_empty());

    core.on_longlink_network_error_at(NOW, MAIN, ErrCmdType::Socket, -1, "1.2.3.4", 443);
    assert_eq!(
        log.borrow().long_err,
        vec![(ErrCmdType::Socket, -1, "1.2.3.4".to_string(), 443)]
    );
}

#[test]
fn the_errors_the_app_hears_about_are_the_ones_of_the_link_it_marked_main() {
    let (mut core, log) = wired();
    core.create_long_link(LonglinkConfig::new("second"));
    assert!(core.mark_main_longlink("second"));

    core.on_longlink_network_error_at(NOW, MAIN, ErrCmdType::Socket, -1, "1.2.3.4", 443);
    assert!(log.borrow().long_err.is_empty());

    core.on_longlink_network_error_at(NOW, "second", ErrCmdType::Socket, -1, "5.6.7.8", 443);
    assert_eq!(
        log.borrow().long_err,
        vec![(ErrCmdType::Socket, -1, "5.6.7.8".to_string(), 443)]
    );
}

#[test]
fn a_network_change_forgets_the_network_every_queue_learned() {
    let (pieces, _log) = pieces_around(|queue| {
        queue
            .dynamic_timeout()
            .record_at(NetworkKind::Mobile, 1, 10_000, NOW);
    });
    let mut core = NetCore::new(pieces);

    core.host
        .outside
        .short_timeout
        .record_at(NetworkKind::Mobile, 1, 10_000, NOW);
    core.dynamic_timeout()
        .record_at(NetworkKind::Mobile, 1, 10_000, NOW);

    core.on_network_change_at(NOW + 1);

    assert_eq!(
        core.host.outside.short_timeout.status(),
        DynamicTimeoutStatus::Evaluating
    );
    assert_eq!(
        core.longlink().dynamic_timeout.status(),
        DynamicTimeoutStatus::Evaluating
    );
    assert_eq!(
        core.dynamic_timeout().status(),
        DynamicTimeoutStatus::Evaluating
    );
}

#[test]
fn a_long_link_error_that_is_not_about_a_pair_is_not_reported_to_the_net_source() {
    let (mut core, log) = wired();

    // a pair the link never got to: the net source is not told, but the app
    // still is
    core.on_longlink_network_error_at(NOW, MAIN, ErrCmdType::Dial, -1, "1.2.3.4", 443);
    assert_eq!(
        log.borrow().long_err,
        vec![(ErrCmdType::Dial, -1, "1.2.3.4".to_string(), 443)]
    );
    assert!(log.borrow().reported.is_empty());
}

#[test]
fn the_app_is_given_the_two_answers_of_a_link_that_came_up() {
    let (mut core, log) = wired();
    up(&mut core, LongLinkStatus::Connected);

    core.on_longlink_status_changed_at(NOW, LongLinkStatus::Connected);
    assert_eq!(
        take(&mut log.borrow_mut().status),
        vec![(NetStatus::Connected, NetStatus::Connected)]
    );

    // a link that went down is not one the app is told about at all
    up(&mut core, LongLinkStatus::DisConnected);
    core.on_longlink_status_changed_at(NOW, LongLinkStatus::DisConnected);
    assert!(log.borrow().status.is_empty());
}

#[test]
fn a_core_without_a_long_link_reports_the_short_links_own_answer() {
    let (mut core, log) = wired();
    core.set_need_use_long_link(false);

    core.on_shortlink_network_error_at(NOW, ErrCmdType::Socket, -1, "1.2.3.4", SHORT_HOST, 80);
    assert_eq!(
        take(&mut log.borrow_mut().status),
        vec![(NetStatus::Connected, NetStatus::Unknown)]
    );
    // with no long link the status change is not one the core looks at
    core.on_longlink_status_changed_at(NOW, LongLinkStatus::Connected);
    assert!(log.borrow().status.is_empty());
}

#[test]
fn a_network_change_throws_the_hosts_away_and_looks_at_every_task_again() {
    let (mut core, log) = wired();
    up(&mut core, LongLinkStatus::ConnectFailed);
    assert!(core.start_task_at(NOW, task(7)));

    for _ in 0..SHORTLINK_ERR_TIME {
        core.on_shortlink_network_error_at(NOW, ErrCmdType::Socket, -1, "1.2.3.4", SHORT_HOST, 80);
    }
    assert_eq!(
        log.borrow().status.last(),
        Some(&(NetStatus::ServerFailed, NetStatus::ServerFailed))
    );

    core.on_network_change_at(NOW + 100);

    assert!(core.host.shortlink_has(7));
    assert!(log.borrow().ended.is_empty());
    // ... and the next error is the first one again
    core.on_shortlink_network_error_at(
        NOW + 100,
        ErrCmdType::Socket,
        -1,
        "1.2.3.4",
        SHORT_HOST,
        80,
    );
    assert_eq!(
        log.borrow().status.last(),
        Some(&(NetStatus::Unknown, NetStatus::ServerFailed))
    );
}

#[test]
fn a_push_is_preprocessed_before_the_app_is_given_it() {
    let (mut core, log) = wired();

    core.host.on_response_at(
        NOW,
        Response {
            name: MAIN.to_string(),
            err_type: ErrCmdType::NoError,
            err_code: 0,
            cmdid: 6,
            taskid: Task::INVALID_TASK_ID,
            body: b"push".to_vec(),
            profile: ConnectProfile::new(),
        },
    );

    assert_eq!(log.borrow().pushed, vec![(6, "push".to_string())]);
    assert_eq!(log.borrow().preprocessed, vec![6]);
}

#[test]
fn a_second_long_link_can_be_made_marked_main_and_destroyed() {
    let (mut core, log) = wired();
    assert_eq!(core.default_link(), Some(MAIN));
    assert!(core.long_link(MAIN));
    assert!(!core.is_long_link_connected("second"));

    assert!(core.create_long_link(LonglinkConfig::new("second")));
    // it was not made as the main one, so the default link is still the first
    assert_eq!(core.default_link(), Some(MAIN));

    assert!(core.mark_main_longlink("second"));
    assert_eq!(core.default_link(), Some("second"));
    // already the main one, and a link that does not exist
    assert!(!core.mark_main_longlink("second"));
    assert!(!core.mark_main_longlink("nope"));

    up(&mut core, LongLinkStatus::Connected);
    let second = core.long_link_meta("second").expect("the second link");
    second.channel_mut().set_status(LongLinkStatus::Connected);
    assert!(core.is_default_long_link_connected());

    assert!(core.destroy_long_link_at(NOW, "second"));
    assert_eq!(core.default_link(), None);
    assert!(!core.destroy_long_link_at(NOW, "second"));
    assert!(!core.is_default_long_link_connected());
}

#[test]
fn a_core_that_does_not_use_the_long_link_makes_none() {
    let (pieces_of_none, _log) = pieces();
    let mut core = NetCore::with_encoder(pieces_of_none, false, LongLinkEncoder::new());
    assert!(!core.use_long_link());
    assert!(!core.create_long_link(LonglinkConfig::new("second")));
    assert!(!core.long_link(MAIN));
    // the same config twice does not make two links
    let (mut core, log) = wired();
    assert!(core.create_long_link(LonglinkConfig::new("second")));
    assert!(core.create_long_link(LonglinkConfig::new("second")));
    assert_eq!(core.host.queue.channels().len(), 2);
    assert_eq!(
        log.borrow().made,
        vec![MAIN.to_string(), "second".to_string()]
    );
}

#[test]
fn a_released_core_starts_nothing_and_reports_nothing() {
    let (mut core, log) = wired();
    core.release();

    assert!(core.is_released());
    assert_eq!(core.default_link(), None);
    assert!(!core.start_task_at(NOW, task(7)));
    core.on_shortlink_network_error_at(NOW, ErrCmdType::Socket, -1, "1.2.3.4", SHORT_HOST, 80);
    core.on_longlink_network_error_at(NOW, MAIN, ErrCmdType::Socket, -1, "1.2.3.4", 443);
    assert!(log.borrow().status.is_empty());
    assert!(log.borrow().long_err.is_empty());
    assert!(log.borrow().short_err.is_empty());
}

#[test]
fn a_task_can_be_stopped_and_all_of_them_cleared() {
    let (mut core, log) = wired();
    up(&mut core, LongLinkStatus::Connected);
    assert!(core.start_task_at(NOW, task(7)));
    let mut short = task(8);
    short.channel_select = Task::CHANNEL_SHORT;
    assert!(core.start_task_at(NOW, short));

    assert!(core.has_task(7));
    assert!(core.has_task(8));
    assert!(core.stop_task(7));
    assert!(!core.has_task(7));
    assert!(!core.stop_task(7));

    core.clear_tasks();
    assert!(!core.has_task(8));
    assert_eq!(core.host.outside.short.len(), 0);
    assert_eq!(core.host.queue.len(), 0);
}

#[test]
fn a_task_of_a_destroyed_channel_is_failed() {
    let (mut core, log) = wired();
    up(&mut core, LongLinkStatus::Connected);
    assert!(core.start_task_at(NOW, task(7)));

    assert!(core.destroy_long_link_at(NOW + 100, MAIN));
    assert!(!core.has_task(7));

    assert_eq!(
        log.borrow().ended,
        vec![(
            7,
            "user".to_string(),
            ErrCmdType::Local,
            LOCAL_LONG_LINK_RELEASED,
            "10.0.0.1".to_string()
        )]
    );
}

#[test]
fn the_due_time_is_the_earliest_of_the_queues_and_the_zombies() {
    let (mut core, log) = wired();
    assert_eq!(core.due_time(), None);

    up(&mut core, LongLinkStatus::Connected);
    assert!(core.start_task_at(NOW, task(7)));
    let due = core.due_time();
    assert!(due.is_some());
    assert!(due <= Some(NOW + 60 * 1000));

    let mut task = task(9);
    task.network_status_sensitive = false;
    assert!(App(log.clone()).save_zombie(NOW, &task, 0));
    assert_eq!(core.due_time(), Some(NOW + 3000));
}

#[test]
fn the_connect_profile_of_a_task_is_the_one_of_the_channel_it_went_out_on() {
    let (mut core, log) = wired();
    up(&mut core, LongLinkStatus::Connected);
    assert!(core.start_task_at(NOW, task(7)));

    let profile = core.connect_profile(7, Task::CHANNEL_LONG);
    assert_eq!(profile.ip, "10.0.0.1");
    assert_eq!(profile.port, 8080);
    assert_eq!(profile.host, MAIN);
    // the short link has no such task, and neither has a channel-select that
    // is not the long link's
    assert_eq!(core.connect_profile(7, Task::CHANNEL_SHORT).ip, "");
    assert_eq!(core.connect_profile(7, Task::CHANNEL_NORMAL).ip, "");
}

#[test]
fn the_setters_reach_the_pieces_they_are_for() {
    let (mut core, log) = wired();
    core.forbid_longlink_tls_host(&[SHORT_HOST.to_string()]);
    core.add_server_ban_at(NOW, "1.2.3.4");
    assert_eq!(log.borrow().banned, vec!["1.2.3.4".to_string()]);
    core.init_history_to_banned_list();
    core.set_ip_connect_timeout(1000, 2000);
    assert_eq!(core.host.source.ip_connect_timeout(), (1000, 2000));
    core.set_packer_encoder(3, "encoder".to_string());
    assert_eq!(core.packer_encoder_version(), 3);
    assert_eq!(core.packer_encoder_name(), "encoder");

    up(&mut core, LongLinkStatus::Connected);
    assert!(core.start_task_at(NOW, task(7)));
    assert!(core.disconnect_long_link_by_taskid(7, DisconnectInternalCode::Reset));
    assert_eq!(
        log.borrow().down,
        vec![(MAIN.to_string(), DisconnectInternalCode::Reset)]
    );
    core.make_sure_long_link_connected(MAIN);
    core.make_sure_default_long_link_connected();
    core.make_sure_long_link_connected("nope");
    assert!(core.is_default_long_link_connected());
    core.keep_signal_at(NOW);
    core.stop_signal();
    assert_eq!(
        log.borrow().signals,
        vec![(MAIN.to_string(), true), (MAIN.to_string(), false)]
    );
    core.touch_tasks_at(NOW + 100);
    assert_eq!(log.borrow().touched, vec!["short"]);
    core.redo_tasks_at(NOW + 100);
}

#[test]
fn the_two_answers_of_a_short_link_error_count() {
    assert_eq!(shortlink_status(0), NetStatus::Connected);
    assert_eq!(shortlink_status(1), NetStatus::Unknown);
    assert_eq!(shortlink_status(SHORTLINK_ERR_TIME - 1), NetStatus::Unknown);
    assert_eq!(
        shortlink_status(SHORTLINK_ERR_TIME),
        NetStatus::ServerFailed
    );
}

#[test]
fn the_earliest_of_two_due_times_wins() {
    assert_eq!(min_due(None, None), None);
    assert_eq!(min_due(Some(5), None), Some(5));
    assert_eq!(min_due(None, Some(5)), Some(5));
    assert_eq!(min_due(Some(5), Some(3)), Some(3));
    assert_eq!(min_due(Some(3), Some(5)), Some(3));
}

#[test]
fn a_task_the_net_core_will_not_start() {
    assert!(valid_and_init_default(&mut task(7)));

    let mut slow = task(7);
    slow.server_process_cost = 2 * 60 * 1000 + 1;
    assert!(!valid_and_init_default(&mut slow));

    let mut trying = task(7);
    trying.retry_count = 31;
    assert!(!valid_and_init_default(&mut trying));

    let mut late = task(7);
    late.total_timeout = 10 * 60 * 1000 + 1;
    assert!(!valid_and_init_default(&mut late));

    let mut no_cmdid = task(7);
    no_cmdid.channel_select = Task::CHANNEL_LONG;
    no_cmdid.cmdid = 0;
    assert!(valid_and_init_default(&mut no_cmdid));
    assert_eq!(no_cmdid.channel_select, 0);

    let mut no_cgi = task(7);
    no_cgi.channel_select = Task::CHANNEL_SHORT;
    no_cgi.cgi = String::new();
    assert!(valid_and_init_default(&mut no_cgi));
    assert_eq!(no_cgi.channel_select, 0);

    let mut negative = task(7);
    negative.retry_count = -5;
    assert!(valid_and_init_default(&mut negative));
    assert_eq!(negative.retry_count, DEF_TASK_RETRY_COUNT);

    // a task the caller never configured has a try to come back for
    let mut plain = Task::new(7, 12);
    assert!(valid_and_init_default(&mut plain));
    assert_eq!(plain.retry_count, DEF_TASK_RETRY_COUNT);
}

#[test]
fn the_default_of_the_status_is_nothing_has_tried_yet() {
    assert_eq!(NetStatus::default(), NetStatus::Unknown);
    assert_eq!(NetStatus::Unknown.code(), -1);
    assert_eq!(NetStatus::ServerDown.code(), 5);
}

#[test]
fn which_network_it_is_goes_by_the_platforms_number() {
    let (mut core, log) = wired();
    assert_eq!(core.host.queue.host.network_kind(), NetworkKind::Wifi);
    log.borrow_mut().net_info = NET_TYPE_MOBILE;
    assert_eq!(core.host.queue.host.network_kind(), NetworkKind::Mobile);
    // a small body that was not sent before passes both gates
    assert!(core.host.queue.host.anti_avalanche_check(&task(7), b"body"));
}

#[test]
fn a_body_that_is_sent_too_often_is_not_let_out() {
    let (mut core, _log) = wired();
    let routing = &mut core.host.queue.host;
    for _ in 0..105 {
        assert!(routing.anti_avalanche_check(&task(7), b"body"));
    }
    assert!(!routing.anti_avalanche_check(&task(7), b"body"));
    assert!(routing.anti_avalanche_check(&task(7), b"another body"));
    let mut free = task(7);
    free.limit_frequency = false;
    assert!(routing.anti_avalanche_check(&free, b"body"));
}

#[test]
fn the_byte_budget_is_for_mobile_networks_alone() {
    let (mut core, log) = wired();
    let full = core.host.queue.host.gates.flow_limit().check_at(&task(7), MAX_VOL, NOW);
    assert!(full);
    assert!(core.host.queue.host.anti_avalanche_check(&task(7), b"body"));
    log.borrow_mut().net_info = NET_TYPE_MOBILE;
    assert!(!core.host.queue.host.anti_avalanche_check(&task(7), b"body"));
}
