//! A net core over the pieces the library holds itself.
use mars_stn::anti_avalanche::AntiAvalanche;
use mars_stn::core_pieces::{CorePieces, LinkParts, OutsideHost};
use mars_stn::dynamic_timeout::{DynamicTimeoutStatus, NetworkKind};
use mars_stn::long_link::{DisconnectInternalCode, LinkTold, LongLink};
use mars_stn::longlink::{LongLinkEncoder, PackerEncoderVersion};
use mars_stn::longlink_connect_monitor::LongLinkStatus;
use mars_stn::longlink_task_manager::{LongLinkTaskManager, Response};
use mars_stn::net_check_logic::{CheckTold, NetCheckLogic};
use mars_stn::net_core::{CoreTold, NetCore, NetStatus, DEFAULT_LONGLINK_NAME};
use mars_stn::net_route::{CallFrom, RouteHost, RouteTold, Routing, NET_TYPE_WIFI};
use mars_stn::net_source::{LonglinkConfig, NetSource, SourceTold};
use mars_stn::netsource_timercheck::TimerTold;
use mars_stn::queue_host::{QueueHost, Told};
use mars_stn::task::Task;
use mars_stn::task_profile::{
    ConnectProfile, ErrCmdType, PrepareProfile, RunId, TaskFailHandleType,
};
use mars_stn::unwired::Unwired;

const NOW: u64 = 100 * 1000;
const MAIN: &str = DEFAULT_LONGLINK_NAME;

/// An app that has no say on a task that ended, and zombies that take every task.
struct App {
    saved: usize,
    ended: Vec<u32>,
}

impl RouteHost for App {
    fn tick(&mut self) -> u64 {
        NOW
    }

    fn task_callback(
        &mut self,
        _from: CallFrom,
        _err_type: ErrCmdType,
        _err_code: i32,
        _handle: TaskFailHandleType,
        _task: &Task,
    ) -> i32 {
        1
    }

    fn on_task_end(
        &mut self,
        taskid: u32,
        _user_id: &str,
        _err_type: ErrCmdType,
        _err_code: i32,
        _profile: &ConnectProfile,
    ) -> i32 {
        self.ended.push(taskid);
        0
    }

    fn save_zombie(&mut self, _now: u64, _task: &Task, _cost: u32) -> bool {
        self.saved += 1;
        true
    }

    fn push_preprocess(&mut self, _cmdid: u32, _body: &[u8]) {}

    fn on_push(&mut self, _name: &str, _cmdid: u32, _taskid: u32, _body: &[u8]) {}

    fn net_info(&mut self) -> i32 {
        NET_TYPE_WIFI
    }
}

type Wire = Unwired<LinkTold>;
type Checks = Unwired<TimerTold>;
type Pieces =
    CorePieces<Outside, App, Links, Unwired<SourceTold>, Unwired<CheckTold>, Wire, Checks>;

/// Links that take every request.
struct Links {
    /// `(channel, taskid)`.
    sent: Vec<(String, u32)>,
    stopped: Vec<u32>,
}

impl QueueHost for Links {
    fn channel_profile(&mut self, name: &str) -> ConnectProfile {
        let mut profile = ConnectProfile::new();
        profile.host = name.to_string();
        profile
    }

    fn task_timeout(&mut self, _task: &Task) -> u64 {
        60_000
    }

    fn first_pkg_timeout(
        &mut self,
        _server_cost: i64,
        _send_len: usize,
        _sent_count: i32,
        _status: DynamicTimeoutStatus,
        _mobile: bool,
    ) -> u64 {
        6_000
    }

    fn read_write_timeout(&mut self, first_pkg: u64, _mobile: bool) -> u64 {
        first_pkg + 24_000
    }

    fn encode(&mut self, task: &Task) -> Result<Vec<u8>, i32> {
        Ok(task.cgi.as_bytes().to_vec())
    }

    fn decode(&mut self, _task: &Task, _body: &[u8]) -> (i32, TaskFailHandleType) {
        (0, TaskFailHandleType::Normal)
    }

    fn disconnect(&mut self, _name: &str, _code: DisconnectInternalCode) {}

    fn send(&mut self, name: &str, task: &Task, _body: &[u8]) -> Option<RunId> {
        self.sent.push((name.to_string(), task.taskid));
        Some(RunId(u64::from(task.taskid)))
    }

    fn ended(
        &mut self,
        _err_type: ErrCmdType,
        _err_code: i32,
        _handle: TaskFailHandleType,
        _task: &Task,
        _cost: u32,
        _profile: &ConnectProfile,
    ) {}

    fn network_err(
        &mut self,
        _name: &str,
        _err_type: ErrCmdType,
        _err_code: i32,
        _ip: &str,
        _port: u16,
    ) {}

    fn retry_all_tasks(
        &mut self,
        _err_type: ErrCmdType,
        _err_code: i32,
        _handle: TaskFailHandleType,
        _src_taskid: u32,
        _user_id: &str,
    ) {}

    fn push(&mut self, _name: &str, _cmdid: u32, _taskid: u32, _body: &[u8]) {}

    fn stop(&mut self, _name: &str, taskid: u32) {
        self.stopped.push(taskid);
    }

    fn reset_channel(&mut self, _name: &str) {}

    fn keep_answer(&mut self, _now: u64, _cgi: &str, _body: &[u8]) {}

    fn kept_answer(&mut self, _now: u64, _cgi: &str) -> Option<Vec<u8>> {
        None
    }

    fn should_keep(&mut self, _err_code: i32) -> bool {
        false
    }

    fn network(&mut self) -> NetworkKind {
        NetworkKind::Wifi
    }

    fn authed(&mut self, _host: &str, _user_id: &str) -> bool {
        true
    }

    fn sequence_id(&mut self) -> u16 {
        0
    }

    fn allowed(&mut self, _task: &Task, _body: &[u8]) -> bool {
        true
    }

    fn make_sure_connected(&mut self, _name: &str) -> bool {
        true
    }

    fn network_change(&mut self, _name: &str) -> bool {
        true
    }
}

/// What is around the core: links that are made, and nothing that takes a task.
struct Outside {
    /// How often the app was asked which network it is.
    net_asked: usize,
    /// The signals a keeper wants out.
    signals: Vec<u32>,
    made: Vec<String>,
    dropped: Vec<String>,
    /// The tasks a short link was asked to take.
    short: Vec<u32>,
    /// `(taskid, err_code)`.
    ended: Vec<(u32, i32)>,
    /// What the zombies hand out when they are asked.
    zombies: Vec<Task>,
}

impl OutsideHost<App, Links, Wire, Checks> for Outside {
    fn task_process(&mut self, task: Task) -> Task {
        task
    }

    fn on_task_end(
        &mut self,
        taskid: u32,
        _user_id: &str,
        _err_type: ErrCmdType,
        err_code: i32,
        _profile: &ConnectProfile,
    ) -> i32 {
        self.ended.push((taskid, err_code));
        0
    }

    fn net_info(&mut self) -> i32 {
        self.net_asked += 1;
        NET_TYPE_WIFI
    }

    fn unix_secs(&mut self) -> u64 {
        0
    }

    fn report_connect_status(&mut self, _all: NetStatus, _longlink: NetStatus) {}

    fn on_longlink_network_err(
        &mut self,
        _err_type: ErrCmdType,
        _err_code: i32,
        _ip: &str,
        _port: u16,
    ) {
    }

    fn on_shortlink_network_err(
        &mut self,
        _err_type: ErrCmdType,
        _err_code: i32,
        _ip: &str,
        _host: &str,
        _port: u16,
    ) {
    }

    fn on_longlink_status_change(&mut self, _status: LongLinkStatus) {}

    fn shortlink_start(
        &mut self,
        _routing: &mut Routing<App, Links>,
        _now: u64,
        task: &Task,
        _prepare: PrepareProfile,
    ) -> bool {
        self.short.push(task.taskid);
        false
    }

    fn shortlink_stop(&mut self, _taskid: u32) -> bool {
        false
    }

    fn shortlink_has(&mut self, _taskid: u32) -> bool {
        false
    }

    fn shortlink_clear(&mut self) {}

    fn shortlink_redo(&mut self, _routing: &mut Routing<App, Links>, _now: u64) {}

    fn shortlink_touch(&mut self, _routing: &mut Routing<App, Links>, _now: u64) {}

    fn shortlink_reset_timeout(&mut self) {}

    fn shortlink_retry(
        &mut self,
        _routing: &mut Routing<App, Links>,
        _now: u64,
        _err_type: ErrCmdType,
        _err_code: i32,
        _handle: TaskFailHandleType,
        _src_taskid: u32,
    ) {
    }

    fn shortlink_profile(&mut self, _taskid: u32) -> Option<ConnectProfile> {
        None
    }

    fn shortlink_due(&mut self) -> Option<u64> {
        None
    }

    fn shortlink_fails(&mut self) -> u32 {
        0
    }

    fn zombie_task_started(&mut self, _now: u64) {}

    fn zombie_stop(&mut self, _taskid: u32) -> bool {
        false
    }

    fn zombie_has(&mut self, _taskid: u32) -> bool {
        false
    }

    fn zombie_clear(&mut self) {}

    fn zombie_redo(&mut self, _now: u64) -> Vec<Task> {
        std::mem::take(&mut self.zombies)
    }

    fn zombie_due(&mut self) -> Option<u64> {
        None
    }

    fn sync_network_change(&mut self, _now: u64) {}

    fn sync_status(&mut self, _now: u64, _status: LongLinkStatus) {}

    fn sync_due(&mut self) -> Option<u64> {
        None
    }

    fn sync_cancel(&mut self) {}

    fn link_make(
        &mut self,
        config: &LonglinkConfig,
        encoder: LongLinkEncoder,
    ) -> LinkParts<Wire, Checks> {
        self.made.push(config.name.clone());
        LinkParts {
            link: LongLink::with_encoder(Unwired::new(), config.copy(), encoder, 1),
            checks: Unwired::new(),
            now: NOW,
        }
    }

    fn link_drop(&mut self, name: &str) {
        self.dropped.push(name.to_string());
    }

    fn links_clear(&mut self) {}

    fn link_keep_signal(&mut self, _name: &str, _now: u64) -> Vec<u32> {
        self.signals.clone()
    }

    fn link_stop_signal(&mut self, _name: &str) {}
}

/// A core whose main link came up.
fn joined() -> NetCore<Pieces> {
    let mut core = NetCore::new(pieces());
    assert!(!core.is_long_link_connected(MAIN));
    up(&mut core, MAIN);
    core
}

/// The link came up.
fn up(core: &mut NetCore<Pieces>, name: &str) {
    let link = core.long_link_meta(name).expect("a link").channel_mut();
    link.set_status(LongLinkStatus::Connected);
}

fn pieces() -> Pieces {
    let outside = Outside {
        net_asked: 0,
        signals: vec![243, 244],
        made: Vec::new(),
        dropped: Vec::new(),
        short: Vec::new(),
        ended: Vec::new(),
        zombies: Vec::new(),
    };
    let app = App {
        saved: 0,
        ended: Vec::new(),
    };
    let links = Links {
        sent: Vec::new(),
        stopped: Vec::new(),
    };
    let gates = AntiAvalanche::new_at(true, NOW);
    let routing = Routing::new(app, links, gates, true);
    let queue = LongLinkTaskManager::new(routing);
    let source = NetSource::new_at(Unwired::new(), NOW);
    let check = NetCheckLogic::new_at(Unwired::new(), NOW);
    CorePieces::new(outside, queue, source, check)
}

fn long(taskid: u32) -> Task {
    let mut task = Task::new(taskid, 12);
    task.cgi = format!("/cgi-bin/{taskid}");
    task.channel_select = Task::CHANNEL_LONG;
    task.total_timeout = 10 * 60 * 1000;
    task.retry_count = 1;
    task
}

fn ids(core: &NetCore<Pieces>) -> Vec<u32> {
    core.host.queue.tasks.iter().map(|p| p.task.taskid).collect()
}

#[test]
fn what_the_core_puts_in_is_in_the_queue() {
    let mut core = joined();
    assert_eq!(core.host.outside.made, vec![MAIN.to_string()]);

    assert!(core.start_task_at(NOW, long(7)));
    assert_eq!(ids(&core), vec![7]);
    assert!(core.has_task(7));
    assert!(core.host.outside.short.is_empty());
    assert_eq!(core.host.queue.host.links.sent, vec![(MAIN.to_string(), 7)]);

    assert!(core.stop_task(7));
    assert_eq!(core.host.queue.host.links.stopped, vec![7]);
    assert!(ids(&core).is_empty());
    assert!(!core.has_task(7));
    assert!(!core.stop_task(7));
}

#[test]
fn what_the_core_puts_in_stands_by_priority() {
    let mut core = joined();
    for (taskid, priority) in [(1, 3), (2, 1), (3, 3), (4, 0)] {
        let mut task = long(taskid);
        task.priority = priority;
        assert!(core.start_task_at(NOW, task));
    }
    assert_eq!(ids(&core), vec![4, 2, 1, 3]);
}

#[test]
fn a_body_the_gates_refuse_ends_its_task() {
    let mut core = joined();
    for _ in 0..105 {
        let routing = &mut core.host.queue.host;
        assert!(routing.anti_avalanche_check(&long(7), b"/cgi-bin/7"));
    }
    core.start_task_at(NOW, long(7));
    assert!(ids(&core).is_empty());
    assert!(core.host.queue.host.links.sent.is_empty());
    core.start_task_at(NOW, long(8));
    assert_eq!(ids(&core), vec![8]);
}

#[test]
fn a_task_no_channel_takes_reaches_no_queue() {
    let mut core = joined();
    let mut task = long(7);
    task.channel_select = 0;
    assert!(!core.start_task_at(NOW, task));
    assert!(ids(&core).is_empty());
    assert_eq!(core.host.outside.ended.len(), 1);
    assert_eq!(core.host.outside.ended[0].0, 7);
}

#[test]
fn a_released_core_leaves_no_task_in_the_queue() {
    let mut core = joined();
    assert!(core.start_task_at(NOW, long(7)));
    assert!(core.start_task_at(NOW, long(8)));
    core.release();
    assert!(ids(&core).is_empty());
    assert!(!core.start_task_at(NOW, long(9)));
    assert!(ids(&core).is_empty());
}

#[test]
fn a_destroyed_link_takes_its_tasks_with_it_and_no_others() {
    let mut core = joined();
    assert!(core.create_long_link(LonglinkConfig::new("second")));
    let mut other = long(8);
    other.channel_name = "second".to_string();
    assert!(core.start_task_at(NOW, long(7)));
    assert!(core.start_task_at(NOW, other));

    assert!(core.destroy_long_link_at(NOW + 100, "second"));
    assert_eq!(ids(&core), vec![7]);
    assert_eq!(core.host.outside.dropped, vec!["second".to_string()]);
}

#[test]
fn what_the_queues_ask_for_waits_and_is_taken_in_turn() {
    let mut core = joined();
    core.host.retry_all(
        ErrCmdType::Server,
        -13,
        TaskFailHandleType::SessionTimeout,
        7,
        "user",
    );
    core.host.short_network_err(ErrCmdType::Socket, -1, "1.2.3.4", "host", 80);
    core.host.outside.zombies = vec![long(9)];
    core.on_longlink_status_changed_at(NOW, LongLinkStatus::Connected);
    assert!(core.has_pending());
    assert_eq!(core.pending_count(), 3);
    core.run_pending_at(NOW);
    assert_eq!(core.pending_count(), 0);
    assert_eq!(ids(&core), vec![9]);
}

#[test]
fn what_the_queue_asks_of_the_core_is_not_lost() {
    let mut core = joined();
    assert!(core.start_task_at(NOW, long(7)));
    let response = Response {
        name: MAIN.to_string(),
        err_type: ErrCmdType::NoError,
        err_code: 0,
        cmdid: 12,
        taskid: 7,
        body: Vec::new(),
        profile: ConnectProfile::new(),
    };
    core.host.on_response_at(NOW + 100, response);
    // how the pair did waits for the core, whatever else is done before
    assert_eq!(core.pending_count(), 1);
    core.host.run_loop_at(NOW + 100);
    assert!(!core.has_task(7));
    assert_eq!(core.pending_count(), 1);
    core.run_pending_at(NOW + 100);
    assert!(!core.has_pending());
}

#[test]
fn a_pair_without_an_address_is_not_asked_about() {
    let mut core = joined();
    let asked = core.host.outside.net_asked;
    core.on_longlink_network_error_at(NOW, MAIN, ErrCmdType::Socket, -1, "", 443);
    core.on_longlink_network_error_at(NOW, MAIN, ErrCmdType::Socket, -1, "1.2.3.4", 0);
    assert_eq!(core.host.outside.net_asked, asked);
    core.on_longlink_network_error_at(NOW, MAIN, ErrCmdType::Socket, -1, "1.2.3.4", 443);
    assert_eq!(core.host.outside.net_asked, asked + 1);

    // a short link's port is not looked at
    core.on_shortlink_network_error_at(NOW, ErrCmdType::Socket, -1, "", "host", 80);
    assert_eq!(core.host.outside.net_asked, asked + 1);
    core.on_shortlink_network_error_at(NOW, ErrCmdType::Socket, -1, "1.2.3.4", "host", 0);
    assert_eq!(core.host.outside.net_asked, asked + 2);
}

#[test]
fn a_version_that_is_set_later_is_on_the_next_package() {
    let mut core = joined();
    core.host.outside.signals = vec![243];
    let link = core.long_link_meta(MAIN).unwrap().channel_mut();
    link.set_client_version(0x1234);
    core.keep_signal_at(NOW);
    let link = core.long_link_meta(MAIN).unwrap().channel();
    let package = &link.queued()[0].buffer;
    assert_eq!(&package[4..8], &[0, 0, 0x12, 0x34]);
}

#[test]
fn the_queues_go_by_what_the_core_settled() {
    let mut core = joined();
    assert!(core.host.queue.host.use_long_link);
    core.set_need_use_long_link(false);
    assert!(!core.host.queue.host.use_long_link);

    // a task that failed is not saved, and ends with its own error
    let mut app = |core: &mut NetCore<Pieces>| {
        core.call_back_at(
            NOW,
            CallFrom::Long,
            ErrCmdType::Socket,
            -1,
            TaskFailHandleType::Default,
            &long(7),
            100,
            &ConnectProfile::new(),
        )
    };
    assert_eq!(app(&mut core), 0);
    assert_eq!(core.host.queue.host.host.saved, 0);
    assert_eq!(core.host.queue.host.host.ended, vec![7]);

    core.set_need_use_long_link(true);
    assert!(core.host.queue.host.use_long_link);
    assert_eq!(app(&mut core), 0);
    assert_eq!(core.host.queue.host.host.saved, 1);
    assert_eq!(core.host.queue.host.host.ended, vec![7]);
}

#[test]
fn a_core_is_made_with_queues_that_go_by_its_own_flag() {
    let core = NetCore::with_encoder(pieces(), false, LongLinkEncoder::new());
    assert!(!core.use_long_link());
    assert!(!core.host.queue.host.use_long_link);
}

#[test]
fn a_dropped_link_answers_no_more() {
    let mut core = joined();
    assert!(core.is_long_link_connected(MAIN));
    assert!(core.is_default_long_link_connected());
    assert!(core.destroy_long_link_at(NOW, MAIN));
    assert!(!core.is_long_link_connected(MAIN));
    assert!(!core.is_default_long_link_connected());
}

#[test]
fn a_link_is_made_from_its_config_with_the_encoder_of_the_core() {
    let encoder = LongLinkEncoder {
        packer_encoder_version: PackerEncoderVersion::New,
    };
    let mut core = NetCore::with_encoder(pieces(), true, encoder);
    let meta = core.long_link_meta(MAIN).expect("the main link");
    assert_eq!(meta.config().name, MAIN);
    assert!(meta.config().is_keep_alive);
    assert!(meta.monitor().is_keep_alive());
    assert_eq!(
        meta.channel().encoder.packer_encoder_version,
        PackerEncoderVersion::New
    );
    assert!(core.long_link_meta("nope").is_none());
}

#[test]
fn a_link_that_is_made_sure_of_starts_a_run() {
    let mut core = NetCore::new(pieces());
    assert!(!core.long_link_meta(MAIN).unwrap().channel().is_running());
    core.make_sure_long_link_connected(MAIN);
    assert!(core.long_link_meta(MAIN).unwrap().channel().is_running());
}

#[test]
fn a_signal_goes_out_where_nothing_else_waits() {
    let mut core = NetCore::new(pieces());
    core.keep_signal_at(NOW);
    let queued = |core: &mut NetCore<Pieces>| {
        core.long_link_meta(MAIN).unwrap().channel().queued().len()
    };
    assert_eq!(queued(&mut core), 0, "the link is not up");
    up(&mut core, MAIN);
    core.keep_signal_at(NOW);
    assert_eq!(queued(&mut core), 1, "the second waits behind the first");
    core.keep_signal_at(NOW);
    assert_eq!(queued(&mut core), 1);
}

#[test]
fn an_unwired_core_still_answers() {
    let gates = AntiAvalanche::new_at(true, NOW);
    let routing = Routing::new(
        Unwired::<RouteTold>::new(),
        Unwired::<Told>::new(),
        gates,
        true,
    );
    let pieces = CorePieces::new(
        Unwired::<CoreTold>::new(),
        LongLinkTaskManager::new(routing),
        NetSource::new_at(Unwired::<SourceTold>::new(), NOW),
        NetCheckLogic::new_at(Unwired::<CheckTold>::new(), NOW),
    );
    let mut core = NetCore::new(pieces);
    assert!(core.long_link(MAIN));
    assert!(!core.is_long_link_connected(MAIN));
    assert!(!core.has_pending());
    assert_eq!(core.pending_count(), 0);
    core.release();
    assert!(!core.long_link(MAIN));
    assert!(core.long_link_meta(MAIN).is_none());
}
