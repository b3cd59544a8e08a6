//! The pieces of a net core, as the core asks them.
use vstd::prelude::*;
use crate::core_pieces::{lemma_queue_only, send_signals, CorePieces, OutsideHost};
use crate::core_steps::{
    all_redone, channel_added, dropped, is_made, lemma_link_step, lemma_links,
    lemma_rest_step, lemma_statuses, link_views, links_did, looked_at_again, looped, moved,
    pair_reported, queue_did, rest_did, signals_sent, signals_word, starts, statuses, tied,
};
use crate::long_link::{DisconnectInternalCode, LinkHost};
use crate::longlink::LongLinkEncoder;
use crate::longlink_connect_monitor::LongLinkStatus;
use crate::longlink_metadata::LongLinkMetaData;
use crate::net_check_logic::NetCheckHost;
use crate::net_core::{followed_by, profile_view, CoreHost, CoreTold, NetStatus, Setting};
use crate::net_route::{FollowUp, RouteHost};
use crate::net_source::{LonglinkConfig, SourceHost};
use crate::netsource_timercheck::TimerCheckHost;
use crate::queue_host::QueueHost;
use crate::queue_spec::Failure;
use crate::task::Task;
use crate::task_profile::{ConnectProfile, ErrCmdType, PrepareProfile, TaskFailHandleType};
use crate::text_map::TextMap;

verus! {

impl<
    X: OutsideHost<R, L, K, T>,
    R: RouteHost,
    L: QueueHost,
    S: SourceHost,
    C: NetCheckHost,
    K: LinkHost,
    T: TimerCheckHost,
> CoreHost for CorePieces<X, R, L, S, C, K, T> {
    open spec fn heard(&self) -> Seq<CoreTold> {
        self.heard@
    }

    /// The pieces are in order, and what they came to is what was asked of them.
    open spec fn ready(&self) -> bool {
        &&& self.queue@.wf()
        &&& self.queue@.fixed.sound
        &&& self.queue.host@ == self.queue.host@.marked()
        &&& self.check.wf()
        &&& self.links_wf()
        &&& tied(self.heard@, self.befores@, self.states@, self.pieces())
    }

    open spec fn setting(&self) -> Setting {
        Setting {
            use_long_link: self.queue.host.use_long_link,
            links: statuses(link_views(self.links@)),
        }
    }

    fn task_process(&mut self, task: Task) -> (answer: Task)
    {
        let ghost first = task;
        let answer = self.outside.task_process(task);
        let ghost word = CoreTold::TaskProcess { task: first, answer };
        self.note_passed(Ghost(*old(self)), Ghost(word));
        answer
    }

    fn on_task_end(
        &mut self,
        taskid: u32,
        user_id: &str,
        err_type: ErrCmdType,
        err_code: i32,
        profile: &ConnectProfile,
    ) -> (answer: i32)
    {
        let answer = self.outside.on_task_end(taskid, user_id, err_type, err_code, profile);
        let ghost word = CoreTold::TaskEnd {
            taskid,
            user_id: user_id@,
            err_type,
            err_code,
            profile: profile@,
            answer,
        };
        self.note_passed(Ghost(*old(self)), Ghost(word));
        answer
    }

    fn net_info(&mut self) -> (answer: i32)
    {
        let answer = self.outside.net_info();
        let ghost word = CoreTold::NetInfo { answer };
        self.note_passed(Ghost(*old(self)), Ghost(word));
        answer
    }

    fn unix_secs(&mut self) -> (answer: u64)
    {
        let answer = self.outside.unix_secs();
        let ghost word = CoreTold::UnixSecs { answer };
        self.note_passed(Ghost(*old(self)), Ghost(word));
        answer
    }

    fn report_connect_status(&mut self, all: NetStatus, longlink: NetStatus)
    {
        self.outside.report_connect_status(all, longlink);
        let ghost word = CoreTold::ConnectStatus { all, longlink };
        self.note_passed(Ghost(*old(self)), Ghost(word));
    }

    fn on_longlink_network_err(&mut self, err_type: ErrCmdType, err_code: i32, ip: &str, port: u16)
    {
        self.outside.on_longlink_network_err(err_type, err_code, ip, port);
        let ghost word = CoreTold::LongErr { err_type, err_code, ip: ip@, port };
        self.note_passed(Ghost(*old(self)), Ghost(word));
    }

    fn on_shortlink_network_err(
        &mut self,
        err_type: ErrCmdType,
        err_code: i32,
        ip: &str,
        host: &str,
        port: u16,
    )
    {
        self.outside.on_shortlink_network_err(err_type, err_code, ip, host, port);
        let ghost word = CoreTold::ShortErr { err_type, err_code, ip: ip@, host: host@, port };
        self.note_passed(Ghost(*old(self)), Ghost(word));
    }

    fn on_longlink_status_change(&mut self, status: LongLinkStatus)
    {
        self.outside.on_longlink_status_change(status);
        let ghost word = CoreTold::StatusChange { status };
        self.note_passed(Ghost(*old(self)), Ghost(word));
    }

    fn longlink_start(&mut self, now: u64, task: &Task, channel: i32) -> (answer: bool)
    {
        let ghost pre = self.pieces();
        let answer: bool = self.queue.len() < 0x7fff_ffff;
        if answer {
            let given = task.copy();
            let _started: bool = self.queue.start_task_at(now, given, channel);
        }
        let ghost word = CoreTold::LongStart { now, task: *task, channel, answer };
        proof {
            reveal(queue_did);
            lemma_queue_only(*old(self), word, *self);
        }
        self.note(Ghost(pre), Ghost(word));
        answer
    }

    fn longlink_stop(&mut self, taskid: u32) -> (answer: bool)
    {
        let ghost pre = self.pieces();
        let answer = self.queue.stop_task(taskid);
        let ghost word = CoreTold::LongStop { taskid, answer };
        proof {
            reveal(queue_did);
            lemma_queue_only(*old(self), word, *self);
        }
        self.note(Ghost(pre), Ghost(word));
        answer
    }

    fn longlink_has(&mut self, taskid: u32) -> (answer: bool)
    {
        let ghost pre = self.pieces();
        let answer = self.queue.has_task(taskid);
        let ghost word = CoreTold::LongHas { taskid, answer };
        proof {
            reveal(queue_did);
            lemma_queue_only(*old(self), word, *self);
        }
        self.note(Ghost(pre), Ghost(word));
        answer
    }

    fn longlink_count(&mut self, name: &str) -> (answer: usize)
    {
        let ghost pre = self.pieces();
        let answer = self.queue.task_count(name);
        let ghost word = CoreTold::LongCount { name: name@, answer };
        proof {
            reveal(queue_did);
            lemma_queue_only(*old(self), word, *self);
        }
        self.note(Ghost(pre), Ghost(word));
        answer
    }

    fn longlink_clear(&mut self)
    {
        let ghost pre = self.pieces();
        self.queue.clear_tasks();
        let ghost word = CoreTold::LongClear;
        proof {
            reveal(queue_did);
            lemma_queue_only(*old(self), word, *self);
        }
        self.note(Ghost(pre), Ghost(word));
    }

    fn longlink_redo(&mut self, now: u64)
    {
        let ghost pre = self.pieces();
        self.queue.redo_tasks_at(now);
        assert(all_redone(pre.queue, now, self.queue@));
        let ghost word = CoreTold::LongRedo { now };
        proof {
            reveal(queue_did);
            lemma_queue_only(*old(self), word, *self);
        }
        self.note(Ghost(pre), Ghost(word));
    }

    fn longlink_touch(&mut self, now: u64)
    {
        let ghost pre = self.pieces();
        self.queue.touch_tasks_at(now);
        assert(looped(pre.queue, now, self.queue@));
        let ghost word = CoreTold::LongTouch { now };
        proof {
            reveal(queue_did);
            lemma_queue_only(*old(self), word, *self);
        }
        self.note(Ghost(pre), Ghost(word));
    }

    fn longlink_network_change(&mut self, now: u64)
    {
        let ghost pre = self.pieces();
        self.queue.on_network_change_at(now);
        assert(moved(pre.queue, now, self.queue@));
        let ghost word = CoreTold::LongNetworkChange { now };
        proof {
            reveal(queue_did);
            lemma_queue_only(*old(self), word, *self);
        }
        self.note(Ghost(pre), Ghost(word));
    }

    fn longlink_reset_timeout(&mut self)
    {
        let ghost pre = self.pieces();
        self.queue.dynamic_timeout().reset();
        let ghost word = CoreTold::LongResetTimeout;
        proof {
            reveal(queue_did);
            lemma_queue_only(*old(self), word, *self);
        }
        self.note(Ghost(pre), Ghost(word));
    }

    fn longlink_retry(
        &mut self,
        now: u64,
        err_type: ErrCmdType,
        err_code: i32,
        handle: TaskFailHandleType,
        src_taskid: u32,
        user_id: &str,
    )
    {
        let ghost pre = self.pieces();
        self.queue.retry_tasks_at(now, err_type, err_code, handle, src_taskid, user_id);
        assert(looked_at_again(
            pre.queue,
            now,
            Failure { err_type, err_code, fail_handle: handle, src_taskid },
            user_id@,
            self.queue@,
        ));
        let ghost word = CoreTold::LongRetry {
            now,
            err_type,
            err_code,
            handle,
            src_taskid,
            user_id: user_id@,
        };
        proof {
            reveal(queue_did);
            lemma_queue_only(*old(self), word, *self);
        }
        self.note(Ghost(pre), Ghost(word));
    }

    fn longlink_profile(&mut self, taskid: u32) -> (answer: ConnectProfile)
    {
        let ghost pre = self.pieces();
        let answer = self.queue.connect_profile(taskid);
        let ghost word = CoreTold::LongProfile { taskid, answer: answer@ };
        proof {
            reveal(queue_did);
            lemma_queue_only(*old(self), word, *self);
        }
        self.note(Ghost(pre), Ghost(word));
        answer
    }

    fn longlink_due(&mut self) -> (answer: Option<u64>)
    {
        let ghost pre = self.pieces();
        let answer = self.queue.due_time();
        let ghost word = CoreTold::LongDue { answer };
        proof {
            reveal(queue_did);
            lemma_queue_only(*old(self), word, *self);
        }
        self.note(Ghost(pre), Ghost(word));
        answer
    }

    fn longlink_fails(&mut self) -> (answer: u32)
    {
        let ghost pre = self.pieces();
        let answer = self.queue.tasks_continuous_fail_count();
        let ghost word = CoreTold::LongFails { answer };
        proof {
            reveal(queue_did);
            lemma_queue_only(*old(self), word, *self);
        }
        self.note(Ghost(pre), Ghost(word));
        answer
    }

    fn longlink_add(&mut self, config: &LonglinkConfig) -> (answer: bool)
    {
        let ghost pre = self.pieces();
        let given = config.copy();
        let ghost added = given;
        let answer = self.queue.add_long_link(given);
        assert(added.same(config));
        assert(answer ==> channel_added(pre.queue, *config, self.queue@));
        let ghost word = CoreTold::LongAdd { config: *config, answer };
        proof {
            reveal(queue_did);
            lemma_queue_only(*old(self), word, *self);
        }
        self.note(Ghost(pre), Ghost(word));
        answer
    }

    fn longlink_remove(&mut self, now: u64, name: &str)
    {
        let ghost pre = self.pieces();
        let _removed: bool = self.queue.remove_long_link_at(now, name);
        assert(dropped(pre.queue, now, name@, self.queue@));
        let ghost word = CoreTold::LongRemove { now, name: name@ };
        proof {
            reveal(queue_did);
            lemma_queue_only(*old(self), word, *self);
        }
        self.note(Ghost(pre), Ghost(word));
    }

    fn longlink_disconnect(&mut self, taskid: u32, code: DisconnectInternalCode) -> (answer: bool)
    {
        let ghost pre = self.pieces();
        let answer = self.queue.disconnect_by_taskid(taskid, code);
        let ghost word = CoreTold::LongDisconnect { taskid, code, answer };
        proof {
            reveal(queue_did);
            lemma_queue_only(*old(self), word, *self);
        }
        self.note(Ghost(pre), Ghost(word));
        answer
    }

    fn shortlink_start(&mut self, now: u64, task: &Task, prepare: PrepareProfile) -> (answer: bool)
    {
        let ghost pre = self.pieces();
        let answer = self.outside.shortlink_start(&mut self.queue.host, now, task, prepare);
        let ghost word = CoreTold::ShortStart { now, task: *task, prepare, answer };
        proof {
            reveal(rest_did);
            lemma_rest_step(word, pre, self.pieces());
        }
        self.note(Ghost(pre), Ghost(word));
        answer
    }

    fn shortlink_stop(&mut self, taskid: u32) -> (answer: bool)
    {
        let answer = self.outside.shortlink_stop(taskid);
        let ghost word = CoreTold::ShortStop { taskid, answer };
        self.note_passed(Ghost(*old(self)), Ghost(word));
        answer
    }

    fn shortlink_has(&mut self, taskid: u32) -> (answer: bool)
    {
        let answer = self.outside.shortlink_has(taskid);
        let ghost word = CoreTold::ShortHas { taskid, answer };
        self.note_passed(Ghost(*old(self)), Ghost(word));
        answer
    }

    fn shortlink_clear(&mut self)
    {
        self.outside.shortlink_clear();
        let ghost word = CoreTold::ShortClear;
        self.note_passed(Ghost(*old(self)), Ghost(word));
    }

    fn shortlink_redo(&mut self, now: u64)
    {
        let ghost pre = self.pieces();
        self.outside.shortlink_redo(&mut self.queue.host, now);
        let ghost word = CoreTold::ShortRedo { now };
        proof {
            reveal(rest_did);
            lemma_rest_step(word, pre, self.pieces());
        }
        self.note(Ghost(pre), Ghost(word));
    }

    fn shortlink_touch(&mut self, now: u64)
    {
        let ghost pre = self.pieces();
        self.outside.shortlink_touch(&mut self.queue.host, now);
        let ghost word = CoreTold::ShortTouch { now };
        proof {
            reveal(rest_did);
            lemma_rest_step(word, pre, self.pieces());
        }
        self.note(Ghost(pre), Ghost(word));
    }

    fn shortlink_reset_timeout(&mut self)
    {
        self.outside.shortlink_reset_timeout();
        let ghost word = CoreTold::ShortResetTimeout;
        self.note_passed(Ghost(*old(self)), Ghost(word));
    }

    fn shortlink_retry(
        &mut self,
        now: u64,
        err_type: ErrCmdType,
        err_code: i32,
        handle: TaskFailHandleType,
        src_taskid: u32,
    )
    {
        let ghost pre = self.pieces();
        self.outside.shortlink_retry(
            &mut self.queue.host,
            now,
            err_type,
            err_code,
            handle,
            src_taskid,
        );
        let ghost word = CoreTold::ShortRetry { now, err_type, err_code, handle, src_taskid };
        proof {
            reveal(rest_did);
            lemma_rest_step(word, pre, self.pieces());
        }
        self.note(Ghost(pre), Ghost(word));
    }

    fn shortlink_profile(&mut self, taskid: u32) -> (answer: Option<ConnectProfile>)
    {
        let answer = self.outside.shortlink_profile(taskid);
        let ghost word = CoreTold::ShortProfile { taskid, answer: profile_view(answer) };
        self.note_passed(Ghost(*old(self)), Ghost(word));
        answer
    }

    fn shortlink_due(&mut self) -> (answer: Option<u64>)
    {
        let answer = self.outside.shortlink_due();
        let ghost word = CoreTold::ShortDue { answer };
        self.note_passed(Ghost(*old(self)), Ghost(word));
        answer
    }

    fn shortlink_fails(&mut self) -> (answer: u32)
    {
        let answer = self.outside.shortlink_fails();
        let ghost word = CoreTold::ShortFails { answer };
        self.note_passed(Ghost(*old(self)), Ghost(word));
        answer
    }

    fn zombie_task_started(&mut self, now: u64)
    {
        self.outside.zombie_task_started(now);
        let ghost word = CoreTold::ZombieTaskStarted { now };
        self.note_passed(Ghost(*old(self)), Ghost(word));
    }

    fn zombie_stop(&mut self, taskid: u32) -> (answer: bool)
    {
        let answer = self.outside.zombie_stop(taskid);
        let ghost word = CoreTold::ZombieStop { taskid, answer };
        self.note_passed(Ghost(*old(self)), Ghost(word));
        answer
    }

    fn zombie_has(&mut self, taskid: u32) -> (answer: bool)
    {
        let answer = self.outside.zombie_has(taskid);
        let ghost word = CoreTold::ZombieHas { taskid, answer };
        self.note_passed(Ghost(*old(self)), Ghost(word));
        answer
    }

    fn zombie_clear(&mut self)
    {
        self.outside.zombie_clear();
        let ghost word = CoreTold::ZombieClear;
        self.note_passed(Ghost(*old(self)), Ghost(word));
    }

    fn zombie_redo(&mut self, now: u64)
    {
        let ghost pre = self.pieces();
        let tasks = self.outside.zombie_redo(now);
        let ghost given = tasks@;
        self.start_again(tasks);
        let ghost word = CoreTold::ZombieRedo { now };
        proof {
            reveal(rest_did);
            lemma_rest_step(word, pre, self.pieces());
            assert(self.pieces().pending == pre.pending + starts(given));
        }
        self.note(Ghost(pre), Ghost(word));
    }

    fn zombie_due(&mut self) -> (answer: Option<u64>)
    {
        let answer = self.outside.zombie_due();
        let ghost word = CoreTold::ZombieDue { answer };
        self.note_passed(Ghost(*old(self)), Ghost(word));
        answer
    }

    fn source_clear_cache(&mut self)
    {
        let ghost pre = self.pieces();
        self.source.clear_cache();
        let ghost word = CoreTold::ClearCache;
        proof {
            reveal(rest_did);
            lemma_rest_step(word, pre, self.pieces());
        }
        self.note(Ghost(pre), Ghost(word));
    }

    fn source_report_long(&mut self, now: u64, secs: u64, ok: bool, ip: &str, port: u16)
    {
        let ghost pre = self.pieces();
        let ghost word = CoreTold::ReportLong { now, secs, ok, ip: ip@, port };
        if !ip.is_empty() && port != 0 {
            let net_info: i32 = self.outside.net_info();
            self.source.set_net_info(net_info);
            self.source.report_long_ip_at(now, secs, ok, ip, port);
            assert(self.pieces() == pair_reported(pre, net_info, now, secs, ok, ip@, port));
        }
        proof {
            reveal(rest_did);
            lemma_rest_step(word, pre, self.pieces());
        }
        self.note(Ghost(pre), Ghost(word));
    }

    fn source_report_short(
        &mut self,
        now: u64,
        secs: u64,
        ok: bool,
        ip: &str,
        host: &str,
        port: u16,
    )
    {
        let ghost pre = self.pieces();
        let ghost word = CoreTold::ReportShort { now, secs, ok, ip: ip@, host: host@, port };
        if !ip.is_empty() {
            let net_info: i32 = self.outside.net_info();
            self.source.set_net_info(net_info);
            self.source.report_short_ip_at(now, secs, ok, ip, host, port);
            assert(self.pieces() == pair_reported(pre, net_info, now, secs, ok, ip@, port));
        }
        proof {
            reveal(rest_did);
            lemma_rest_step(word, pre, self.pieces());
        }
        self.note(Ghost(pre), Ghost(word));
    }

    fn check_long(&mut self, now: u64, fails: u32, ok: bool)
    {
        let ghost pre = self.pieces();
        self.check.update_long_link_info_at(now, fails, ok);
        let ghost word = CoreTold::CheckLong { now, fails, ok };
        proof {
            reveal(rest_did);
            lemma_rest_step(word, pre, self.pieces());
        }
        self.note(Ghost(pre), Ghost(word));
    }

    fn check_short(&mut self, now: u64, fails: u32, ok: bool)
    {
        let ghost pre = self.pieces();
        self.check.update_short_link_info_at(now, fails, ok);
        let ghost word = CoreTold::CheckShort { now, fails, ok };
        proof {
            reveal(rest_did);
            lemma_rest_step(word, pre, self.pieces());
        }
        self.note(Ghost(pre), Ghost(word));
    }

    fn sync_network_change(&mut self, now: u64)
    {
        self.outside.sync_network_change(now);
        let ghost word = CoreTold::SyncNetworkChange { now };
        self.note_passed(Ghost(*old(self)), Ghost(word));
    }

    fn sync_status(&mut self, now: u64, status: LongLinkStatus)
    {
        self.outside.sync_status(now, status);
        let ghost word = CoreTold::SyncStatus { now, status };
        self.note_passed(Ghost(*old(self)), Ghost(word));
    }

    fn sync_due(&mut self) -> (answer: Option<u64>)
    {
        let answer = self.outside.sync_due();
        let ghost word = CoreTold::SyncDue { answer };
        self.note_passed(Ghost(*old(self)), Ghost(word));
        answer
    }

    fn sync_cancel(&mut self)
    {
        self.outside.sync_cancel();
        let ghost word = CoreTold::SyncCancel;
        self.note_passed(Ghost(*old(self)), Ghost(word));
    }

    fn link_make(&mut self, config: &LonglinkConfig, encoder: LongLinkEncoder)
    {
        let ghost pre = self.pieces();
        let ghost there = self.links@;
        let parts = self.outside.link_make(config, encoder);
        let ghost answer = parts@;
        let given = config.copy();
        let meta = LongLinkMetaData::new(given, parts.link, parts.checks, parts.now);
        let ghost made = meta;
        self.links.insert(config.name.clone(), meta);
        let ghost word = CoreTold::LinkMake { config: *config, encoder };
        proof {
            reveal(links_did);
            lemma_link_step(word, pre, self.pieces());
            lemma_links(there, config.name@, made);
            lemma_statuses(pre.links, config.name@, made@);
            assert(is_made(made@, *config, answer));
        }
        self.note(Ghost(pre), Ghost(word));
    }

    fn link_drop(&mut self, name: &str)
    {
        let ghost pre = self.pieces();
        let ghost there = self.links@;
        self.outside.link_drop(name);
        self.links.remove(name);
        let ghost word = CoreTold::LinkDrop { name: name@ };
        proof {
            reveal(links_did);
            lemma_link_step(word, pre, self.pieces());
            let any = there[name@];
            lemma_links(there, name@, any);
            lemma_statuses(pre.links, name@, any@);
        }
        self.note(Ghost(pre), Ghost(word));
    }

    fn links_clear(&mut self)
    {
        let ghost pre = self.pieces();
        self.outside.links_clear();
        self.links = TextMap::new();
        let ghost word = CoreTold::LinksClear;
        proof {
            reveal(links_did);
            lemma_link_step(word, pre, self.pieces());
            assert(link_views(self.links@) =~= Map::empty());
            assert(statuses(link_views(self.links@)) =~= Map::empty());
        }
        self.note(Ghost(pre), Ghost(word));
    }

    fn link_status(&mut self, name: &str) -> (answer: LongLinkStatus)
    {
        let ghost pre = self.pieces();
        let answer = match self.links.get(name) {
            Some(meta) => meta.channel().connect_status(),
            None => LongLinkStatus::ConnectIdle,
        };
        let ghost word = CoreTold::LinkStatus { name: name@, answer };
        proof {
            reveal(links_did);
            lemma_link_step(word, pre, self.pieces());
        }
        self.note(Ghost(pre), Ghost(word));
        answer
    }

    fn link_make_sure(&mut self, name: &str)
    {
        let ghost pre = self.pieces();
        let ghost there = self.links@;
        let ghost mut meta_after = there[name@];
        if let Some(meta) = self.links.get_mut(name) {
            let _sure = meta.channel_mut().make_sure_connected();
            proof {
                meta_after = *meta;
            }
        }
        let ghost word = CoreTold::LinkMakeSure { name: name@ };
        proof {
            reveal(links_did);
            lemma_link_step(word, pre, self.pieces());
            lemma_links(there, name@, meta_after);
            lemma_statuses(pre.links, name@, meta_after@);
        }
        self.note(Ghost(pre), Ghost(word));
    }

    fn link_keep_signal(&mut self, name: &str, now: u64)
    {
        let ghost pre = self.pieces();
        let ghost there = self.links@;
        let signals = self.outside.link_keep_signal(name, now);
        let ghost mut meta_after = there[name@];
        if let Some(meta) = self.links.get_mut(name) {
            send_signals(meta, signals.as_slice());
            proof {
                meta_after = *meta;
            }
        }
        let ghost word = CoreTold::LinkKeepSignal { name: name@, now };
        proof {
            reveal(links_did);
            lemma_link_step(word, pre, self.pieces());
            lemma_links(there, name@, meta_after);
            lemma_statuses(pre.links, name@, meta_after@);
            let sent = signals_word(name@, now, signals@);
            assert(self.outside.heard() == pre.outside.push(sent));
            if there.contains_key(name@) {
                let post = self.pieces().links;
                assert(post[name@] == meta_after@);
                assert(signals_sent(pre.links[name@], signals@, post[name@]));
            }
        }
        self.note(Ghost(pre), Ghost(word));
    }

    fn link_stop_signal(&mut self, name: &str)
    {
        self.outside.link_stop_signal(name);
        let ghost word = CoreTold::LinkStopSignal { name: name@ };
        self.note_passed(Ghost(*old(self)), Ghost(word));
    }

    fn use_long_link(&mut self, use_long_link: bool)
    {
        let ghost pre = self.pieces();
        self.queue.host.use_long_link = use_long_link;
        let ghost word = CoreTold::UseLongLink { use_long_link };
        proof {
            reveal(rest_did);
            lemma_rest_step(word, pre, self.pieces());
        }
        self.note(Ghost(pre), Ghost(word));
    }

    fn next_pending(&mut self) -> (answer: Option<FollowUp>)
    {
        let ghost pre = self.pieces();
        let answer = self.queue.host.next_pending();
        let ghost word = CoreTold::NextPending { answer: followed_by(answer) };
        proof {
            reveal(rest_did);
            lemma_rest_step(word, pre, self.pieces());
        }
        self.note(Ghost(pre), Ghost(word));
        answer
    }
}

} // verus!
