//! The pieces of a net core that the library holds itself, joined.
//!
//! A [`NetCore`](crate::net_core::NetCore) decides what is asked of the pieces
//! around it. [`CorePieces`] is what is asked: it owns the long-link queue, the
//! net source, the diagnosis and the links, hands what is theirs to them, and the
//! rest to an [`OutsideHost`]. What became of the queue and the links is kept beside
//! what was asked, word by word ([`steps`]), so that what the core says and what
//! they hold can be spoken of together.
use vstd::prelude::*;
use crate::anti_avalanche::{AntiAvalanche, AvalancheView};
use crate::core_steps::{
    answered, answers_end, channel_redone, closed, drove, is_passed, is_queue_step, lemma_called_back,
    lemma_drifted, lemma_links, lemma_noted, lemma_passed, lemma_queue_step, lemma_rest_step, lemma_statuses,
    link_views, looped, queue_did, rest_did, signal_sent, signals_sent, starts, statuses, steps,
    tied, PiecesView,
};
use crate::long_link::{LinkHost, LongLink};
use crate::longlink::LongLinkEncoder;
use crate::longlink_connect_monitor::LongLinkStatus;
use crate::longlink_metadata::LongLinkMetaData;
use crate::longlink_task_manager::{LongLinkTaskManager, Response};
use crate::net_check_logic::{NetCheckHost, NetCheckLogic};
use crate::net_core::{
    profile_view, CoreHost, CoreTold, CoreView, MadeView, NetCore, NetStatus, Setting,
};
use crate::net_route::{
    follow_views, lemma_ended_words, lemma_long_ends, lemma_since, long_ends, CallFrom, EndAnswers,
    Ending, FollowView, RouteHost, RouteView, Routing,
};
use crate::net_source::{LonglinkConfig, NetSource, SourceHost, SourceTold, TimeoutView};
use crate::netsource_timercheck::TimerCheckHost;
use crate::queue_host::QueueHost;
use crate::queue_spec::{countable, forbidden_with, QueueView, RespHandle};
use crate::task::{texts, Task};
use crate::task_profile::{
    ConnectProfile, ConnectView, ErrCmdType, PrepareProfile, TaskFailHandleType,
};
use crate::text_map::TextMap;

verus! {

/// A piece outside reached the routing, and left whether the long link is used,
/// what the long-link queue said, what was handed on to the links, what the app was
/// asked about the tasks of the long link and what was asked of the core as it was:
/// at most it asked more of the core.
pub open spec fn left_alone(before: RouteView, after: RouteView) -> bool {
    &&& after.use_long_link == before.use_long_link
    &&& after.heard == before.heard
    &&& after.handed == before.handed
    &&& after.since == before.since
    &&& after.mark == before.mark
    &&& long_ends(after.told) == long_ends(before.told)
    &&& before.pending.is_prefix_of(after.pending)
}

/// A link, as it was made: what checks it from time to time, and the reading it was
/// made at.
pub struct LinkParts<K, T> {
    pub link: LongLink<K>,
    pub checks: T,
    pub now: u64,
}

impl<K: LinkHost, T: TimerCheckHost> View for LinkParts<K, T> {
    type V = MadeView;

    open spec fn view(&self) -> MadeView {
        MadeView { link: self.link@, checks: self.checks.heard(), now: self.now }
    }
}

/// The pieces the library does not hold: the app, the short-link queue, the
/// zombies, the timing sync, what makes links and what holds their mappings up.
///
/// A host may answer what it likes; each call is one more thing that it heard.
pub trait OutsideHost<R: RouteHost, L: QueueHost, K: LinkHost, T: TimerCheckHost>: Sized {
    /// Everything the host was told and asked so far, in order. Each host says
    /// what that is of it.
    open spec fn heard(&self) -> Seq<CoreTold> {
        Seq::empty()
    }

    /// The last chance to change a task before it goes out.
    fn task_process(&mut self, task: Task) -> (answer: Task)
        ensures
            final(self).heard() == old(self).heard().push(CoreTold::TaskProcess { task, answer }),
    ;

    /// A task is over. The answer is the code it is remembered with.
    fn on_task_end(
        &mut self,
        taskid: u32,
        user_id: &str,
        err_type: ErrCmdType,
        err_code: i32,
        profile: &ConnectProfile,
    ) -> (answer: i32)
        ensures
            final(self).heard() == old(self).heard().push(
                CoreTold::TaskEnd {
                    taskid,
                    user_id: user_id@,
                    err_type,
                    err_code,
                    profile: profile@,
                    answer,
                },
            ),
    ;

    /// Which network it is, as the platform numbers it.
    fn net_info(&mut self) -> (answer: i32)
        ensures
            final(self).heard() == old(self).heard().push(CoreTold::NetInfo { answer }),
    ;

    /// The unix second.
    fn unix_secs(&mut self) -> (answer: u64)
        ensures
            final(self).heard() == old(self).heard().push(CoreTold::UnixSecs { answer }),
    ;

    /// What the connection is like.
    fn report_connect_status(&mut self, all: NetStatus, longlink: NetStatus)
        ensures
            final(self).heard() == old(self).heard().push(
                CoreTold::ConnectStatus { all, longlink },
            ),
    ;

    /// An error of the main long link.
    fn on_longlink_network_err(
        &mut self,
        err_type: ErrCmdType,
        err_code: i32,
        ip: &str,
        port: u16,
    )
        ensures
            final(self).heard() == old(self).heard().push(
                CoreTold::LongErr { err_type, err_code, ip: ip@, port },
            ),
    ;

    /// An error of a short link.
    fn on_shortlink_network_err(
        &mut self,
        err_type: ErrCmdType,
        err_code: i32,
        ip: &str,
        host: &str,
        port: u16,
    )
        ensures
            final(self).heard() == old(self).heard().push(
                CoreTold::ShortErr { err_type, err_code, ip: ip@, host: host@, port },
            ),
    ;

    /// The long link went from one status to another.
    fn on_longlink_status_change(&mut self, status: LongLinkStatus)
        ensures
            final(self).heard() == old(self).heard().push(CoreTold::StatusChange { status }),
    ;

    /// A task is put on the short-link queue.
    fn shortlink_start(
        &mut self,
        routing: &mut Routing<R,
        L>,
        now: u64,
        task: &Task,
        prepare: PrepareProfile,
    ) -> (answer: bool)
        ensures
            final(self).heard() == old(self).heard().push(
                CoreTold::ShortStart { now, task: *task, prepare, answer },
            ),
            left_alone(old(routing)@, final(routing)@),
    ;

    /// A task is taken off the short-link queue.
    fn shortlink_stop(&mut self, taskid: u32) -> (answer: bool)
        ensures
            final(self).heard() == old(self).heard().push(CoreTold::ShortStop { taskid, answer }),
    ;

    /// Whether the short-link queue has a task.
    fn shortlink_has(&mut self, taskid: u32) -> (answer: bool)
        ensures
            final(self).heard() == old(self).heard().push(CoreTold::ShortHas { taskid, answer }),
    ;

    /// The short-link queue drops everything.
    fn shortlink_clear(&mut self)
        ensures
            final(self).heard() == old(self).heard().push(CoreTold::ShortClear),
    ;

    /// Every task that was out on the short link is tried again.
    fn shortlink_redo(&mut self, routing: &mut Routing<R, L>, now: u64)
        ensures
            final(self).heard() == old(self).heard().push(CoreTold::ShortRedo { now }),
            left_alone(old(routing)@, final(routing)@),
    ;

    /// The timeouts of the short-link queue are looked at.
    fn shortlink_touch(&mut self, routing: &mut Routing<R, L>, now: u64)
        ensures
            final(self).heard() == old(self).heard().push(CoreTold::ShortTouch { now }),
            left_alone(old(routing)@, final(routing)@),
    ;

    /// The short-link queue forgets the network it learned.
    fn shortlink_reset_timeout(&mut self)
        ensures
            final(self).heard() == old(self).heard().push(CoreTold::ShortResetTimeout),
    ;

    /// Every task on the short link is looked at again.
    fn shortlink_retry(
        &mut self,
        routing: &mut Routing<R, L>,
        now: u64,
        err_type: ErrCmdType,
        err_code: i32,
        handle: TaskFailHandleType,
        src_taskid: u32,
    )
        ensures
            final(self).heard() == old(self).heard().push(
                CoreTold::ShortRetry { now, err_type, err_code, handle, src_taskid },
            ),
            left_alone(old(routing)@, final(routing)@),
    ;

    /// The connect a short-link task ran on, if the queue has the task.
    fn shortlink_profile(&mut self, taskid: u32) -> (answer: Option<ConnectProfile>)
        ensures
            final(self).heard() == old(self).heard().push(
                CoreTold::ShortProfile { taskid, answer: profile_view(answer) },
            ),
    ;

    /// When the short-link queue next has something to do.
    fn shortlink_due(&mut self) -> (answer: Option<u64>)
        ensures
            final(self).heard() == old(self).heard().push(CoreTold::ShortDue { answer }),
    ;

    /// How many short-link tasks failed in a row.
    fn shortlink_fails(&mut self) -> (answer: u32)
        ensures
            final(self).heard() == old(self).heard().push(CoreTold::ShortFails { answer }),
    ;

    /// The zombies hear of a task that was started.
    fn zombie_task_started(&mut self, now: u64)
        ensures
            final(self).heard() == old(self).heard().push(CoreTold::ZombieTaskStarted { now }),
    ;

    /// A zombie is dropped.
    fn zombie_stop(&mut self, taskid: u32) -> (answer: bool)
        ensures
            final(self).heard() == old(self).heard().push(CoreTold::ZombieStop { taskid, answer }),
    ;

    /// Whether a task is a zombie.
    fn zombie_has(&mut self, taskid: u32) -> (answer: bool)
        ensures
            final(self).heard() == old(self).heard().push(CoreTold::ZombieHas { taskid, answer }),
    ;

    /// Every zombie is dropped.
    fn zombie_clear(&mut self)
        ensures
            final(self).heard() == old(self).heard().push(CoreTold::ZombieClear),
    ;

    /// Every zombie is started again.
    fn zombie_redo(&mut self, now: u64) -> (answer: Vec<Task>)
        ensures
            final(self).heard() == old(self).heard().push(
                CoreTold::ZombiesGiven { now, answer: answer@ },
            ),
    ;

    /// When the zombies are next looked at.
    fn zombie_due(&mut self) -> (answer: Option<u64>)
        ensures
            final(self).heard() == old(self).heard().push(CoreTold::ZombieDue { answer }),
    ;

    /// The timing sync hears of another network.
    fn sync_network_change(&mut self, now: u64)
        ensures
            final(self).heard() == old(self).heard().push(CoreTold::SyncNetworkChange { now }),
    ;

    /// The timing sync hears of a status of the long link.
    fn sync_status(&mut self, now: u64, status: LongLinkStatus)
        ensures
            final(self).heard() == old(self).heard().push(CoreTold::SyncStatus { now, status }),
    ;

    /// When the timing sync next has something to do.
    fn sync_due(&mut self) -> (answer: Option<u64>)
        ensures
            final(self).heard() == old(self).heard().push(CoreTold::SyncDue { answer }),
    ;

    /// The timing sync stops.
    fn sync_cancel(&mut self)
        ensures
            final(self).heard() == old(self).heard().push(CoreTold::SyncCancel),
    ;

    /// A link is made, which speaks through that encoder.
    fn link_make(
        &mut self,
        config: &LonglinkConfig,
        encoder: LongLinkEncoder,
    ) -> (made: LinkParts<K, T>)
        ensures
            final(self).heard() == old(self).heard().push(
                CoreTold::LinkMade { config: *config, encoder, answer: made@ },
            ),
    ;

    /// A link is let go, and what holds its mapping up.
    fn link_drop(&mut self, name: &str)
        ensures
            final(self).heard() == old(self).heard().push(CoreTold::LinkDrop { name: name@ }),
    ;

    /// Every link is let go.
    fn links_clear(&mut self)
        ensures
            final(self).heard() == old(self).heard().push(CoreTold::LinksClear),
    ;

    /// The keeper of a link holds a mapping up: the signals it wants on the link.
    fn link_keep_signal(&mut self, name: &str, now: u64) -> (signals: Vec<u32>)
        ensures
            final(self).heard() == old(self).heard().push(
                CoreTold::LinkSignals { name: name@, now, answer: signals@ },
            ),
    ;

    /// The keeper of a link stops.
    fn link_stop_signal(&mut self, name: &str)
        ensures
            final(self).heard() == old(self).heard().push(CoreTold::LinkStopSignal { name: name@ }),
    ;
}

/// Signals are handed to a link.
pub(crate) fn send_signals<K: LinkHost, T: TimerCheckHost>(
    meta: &mut LongLinkMetaData<K, T>,
    signals: &[u32],
)
    requires
        old(meta).wf(),
    ensures
        final(meta).wf(),
        signals_sent(old(meta)@, signals@, final(meta)@),
{
    let ghost before = meta@;
    let mut i: usize = 0;
    while i < signals.len()
        invariant
            i <= signals@.len(),
            meta.wf(),
            i == 0 ==> meta@ == before,
            i > 0 ==> signal_sent(before, signals@[0], meta@) && !meta@.link.is_quiet(),
        decreases signals@.len() - i,
    {
        let _sent = meta.send_signal(signals[i]);
        i += 1;
    }
}

/// The pieces of a net core: the long-link queue, the net source, the diagnosis, the
/// links, and what the library does not hold.
pub struct CorePieces<X, R, L, S, C, K, T> {
    pub outside: X,
    pub queue: LongLinkTaskManager<Routing<R, L>>,
    pub source: NetSource<S>,
    pub check: NetCheckLogic<C>,
    /// The links, by name.
    pub links: TextMap<LongLinkMetaData<K, T>>,
    /// Everything that was asked so far.
    pub heard: Ghost<Seq<CoreTold>>,
    /// Where the pieces stood when each thing was asked.
    pub befores: Ghost<Seq<PiecesView>>,
    /// What the pieces came to, from before the first thing that was asked on.
    pub states: Ghost<Seq<PiecesView>>,
}

impl<
    X: OutsideHost<R, L, K, T>,
    R: RouteHost,
    L: QueueHost,
    S: SourceHost,
    C: NetCheckHost,
    K: LinkHost,
    T: TimerCheckHost,
> CorePieces<X, R, L, S, C, K, T> {
    /// What the pieces came to.
    pub open spec fn pieces(&self) -> PiecesView {
        PiecesView {
            queue: self.queue@,
            pending: follow_views(self.queue.host.pending@),
            handed: self.queue.host.links.heard(),
            ended: long_ends(self.queue.host.host.heard()),
            use_long_link: self.queue.host.use_long_link,
            links: link_views(self.links@),
            source: self.source@,
            check: self.check@,
            outside: self.outside.heard(),
        }
    }

    /// Every link is sound.
    pub open spec fn links_wf(&self) -> bool {
        forall|name: Seq<char>|
            self.links@.contains_key(name) ==> (#[trigger] self.links@[name]).wf()
    }

    /// The pieces, joined.
    pub fn new(
        outside: X,
        queue: LongLinkTaskManager<Routing<R, L>>,
        source: NetSource<S>,
        check: NetCheckLogic<C>,
    ) -> (pieces: Self)
        requires
            queue@.wf(),
            check.wf(),
        ensures
            pieces.ready(),
            pieces.outside == outside,
            pieces.queue@ == (QueueView { fixed: pieces.queue@.fixed, ..queue@ }),
            pieces.queue.host@ == queue.host@.marked(),
            pieces.source == source,
            pieces.check == check,
            pieces.links@ == Map::<Seq<char>, LongLinkMetaData<K, T>>::empty(),
            pieces.setting().links == Map::<Seq<char>, LongLinkStatus>::empty(),
            pieces.heard@ == Seq::<CoreTold>::empty(),
    {
        let mut queue = queue;
        queue.host.set_mark();
        let links: TextMap<LongLinkMetaData<K, T>> = TextMap::new();
        proof {
            assert(link_views(links@) =~= Map::empty());
            assert(statuses(link_views(links@)) =~= Map::empty());
        }
        let ghost first = PiecesView {
            queue: queue@,
            pending: follow_views(queue.host.pending@),
            handed: queue.host.links.heard(),
            ended: long_ends(queue.host.host.heard()),
            use_long_link: queue.host.use_long_link,
            links: link_views(links@),
            source: source@,
            check: check@,
            outside: outside.heard(),
        };
        let ghost states = seq![first];
        proof {
            reveal(tied);
        }
        CorePieces {
            outside,
            queue,
            source,
            check,
            links,
            heard: Ghost(Seq::empty()),
            befores: Ghost(Seq::empty()),
            states: Ghost(states),
        }
    }

    /// One more thing was asked: it is kept, with what the pieces came to, and what
    /// the queue says counts from here on.
    pub(crate) fn note(&mut self, Ghost(pre): Ghost<PiecesView>, Ghost(word): Ghost<CoreTold>)
        requires
            tied(old(self).heard@, old(self).befores@, old(self).states@, pre),
            steps(word, pre, old(self).pieces()),
            old(self).queue@.wf(),
        ensures
            final(self).heard@ == old(self).heard@.push(word),
            final(self).befores@ == old(self).befores@.push(pre),
            final(self).states@ == old(self).states@.push(old(self).pieces()),
            tied(
                final(self).heard@,
                final(self).befores@,
                final(self).states@,
                final(self).pieces(),
            ),
            final(self).pieces() == old(self).pieces().waiting(
                old(self).pieces().pending,
                final(self).pieces(),
            ),
            final(self).queue.host@ == old(self).queue.host@.marked(),
            final(self).queue@.fixed.sound,
            final(self).queue@.wf(),
            final(self).outside == old(self).outside,
            final(self).source == old(self).source,
            final(self).check == old(self).check,
            final(self).links == old(self).links,
    {
        proof {
            lemma_noted(self.heard@, self.befores@, self.states@, pre, word, self.pieces());
            self.heard@ = self.heard@.push(word);
            self.befores@ = self.befores@.push(pre);
            self.states@ = self.states@.push(self.pieces());
        }
        let ghost here = self.pieces();
        self.queue.host.set_mark();
        proof {
            lemma_drifted(self.heard@, self.befores@, self.states@, here, self.pieces());
        }
    }

    /// One more thing was asked of the pieces outside alone.
    pub(crate) fn note_passed(&mut self, Ghost(before): Ghost<Self>, Ghost(word): Ghost<CoreTold>)
        requires
            is_passed(word),
            before.ready(),
            old(self).outside.heard() == before.outside.heard().push(word),
            old(self).queue == before.queue,
            old(self).source == before.source,
            old(self).check == before.check,
            old(self).links == before.links,
            old(self).heard == before.heard,
            old(self).befores == before.befores,
            old(self).states == before.states,
        ensures
            final(self).ready(),
            final(self).heard() == before.heard().push(word),
            final(self).setting() == before.setting(),
    {
        proof {
            lemma_passed(word, before.pieces());
        }
        self.note(Ghost(before.pieces()), Ghost(word));
    }

    /// What was asked went through, from where the pieces stood to where they stand.
    pub open spec fn went_through(before: Self, word: CoreTold, after: Self) -> bool {
        &&& after.heard() == before.heard().push(word)
        &&& after.befores@ == before.befores@.push(before.pieces())
        &&& after.states@ == before.states@.push(after.states@.last())
        &&& steps(word, before.pieces(), after.states@.last())
        &&& after.pieces() == after.states@.last().waiting(
            after.states@.last().pending,
            after.pieces(),
        )
    }

    /// Zombies are started again, once the queue that asked is done.
    pub(crate) fn start_again(&mut self, tasks: Vec<Task>)
        ensures
            final(self).outside == old(self).outside,
            final(self).source == old(self).source,
            final(self).check == old(self).check,
            final(self).links == old(self).links,
            final(self).heard == old(self).heard,
            final(self).befores == old(self).befores,
            final(self).states == old(self).states,
            final(self).pieces() == old(self).pieces().waiting(
                old(self).pieces().pending + starts(tasks@),
                final(self).pieces(),
            ),
    {
        let ghost all = tasks@;
        let mut left = tasks;
        let ghost before = self.pieces();
        assert(before.pending + starts(all.take(0)) =~= before.pending);
        while left.len() > 0
            invariant
                left@.len() <= all.len(),
                left@ == all.skip(all.len() - left@.len()),
                before == old(self).pieces(),
                self.outside == old(self).outside,
                self.source == old(self).source,
                self.check == old(self).check,
                self.links == old(self).links,
                self.heard == old(self).heard,
                self.befores == old(self).befores,
                self.states == old(self).states,
                self.pieces() == before.waiting(
                    before.pending + starts(all.take(all.len() - left@.len())),
                    self.pieces(),
                ),
            decreases left.len(),
        {
            let ghost n = all.len() - left@.len();
            let task = left.remove(0);
            proof {
                assert(task == all[n]);
                assert(left@ =~= all.skip(n + 1));
                assert(starts(all.take(n + 1)) =~= starts(all.take(n)).push(
                    FollowView::Start(task),
                ));
                assert(before.pending + starts(all.take(n + 1)) =~= (before.pending + starts(
                    all.take(n),
                )).push(FollowView::Start(task)));
            }
            self.queue.host.zombie_started(task);
        }
        assert(all.take(all.len() as int) =~= all);
    }

    /// A link, and the things that keep it up, to be driven.
    pub fn link_meta(&mut self, name: &str) -> (meta: Option<&mut LongLinkMetaData<K, T>>)
        requires
            old(self).ready(),
        ensures
            final(self).heard() == old(self).heard(),
            final(self).queue == old(self).queue,
            match meta {
                Some(link) => {
                    &&& old(self).links@.contains_key(name@)
                    &&& *link == old(self).links@[name@]
                    &&& link.wf()
                    &&& final(self).links@ == old(self).links@.insert(name@, *final(link))
                    &&& final(link).wf() ==> final(self).ready()
                    &&& final(self).setting() == (Setting {
                        links: old(self).setting().links.insert(name@, final(link)@.link.status),
                        ..old(self).setting()
                    })
                },
                None => {
                    &&& !old(self).links@.contains_key(name@)
                    &&& final(self).ready()
                    &&& final(self).setting() == old(self).setting()
                },
            },
    {
        proof {
            reveal(tied);
            let there = self.links@;
            let pre = self.pieces();
            let settled = self.setting();
            if there.contains_key(name@) {
                assert(there[name@].wf());
                assert forall|link: LongLinkMetaData<K, T>|
                    #![trigger there.insert(name@, link)]
                    drove(
                        settled.links,
                        pre,
                        name@,
                        link@,
                        link_views(there.insert(name@, link)),
                    ) by {
                    lemma_links(there, name@, link);
                    lemma_statuses(pre.links, name@, link@);
                    assert(pre.links.insert(name@, link@).dom() =~= pre.links.dom());
                }
            }
        }
        self.links.get_mut(name)
    }

    /// Hosts a long link may not use tls for.
    pub fn forbid_tls(&mut self, hosts: &[String])
        requires
            old(self).ready(),
        ensures
            final(self).ready(),
            final(self).setting() == old(self).setting(),
            Self::went_through(
                *old(self),
                CoreTold::QueueForbidTls { hosts: texts(hosts@) },
                *final(self),
            ),
            final(self).queue@ == (QueueView {
                forbid_tls_hosts: forbidden_with(
                    old(self).queue@.forbid_tls_hosts,
                    texts(hosts@),
                ),
                fixed: final(self).queue@.fixed,
                ..old(self).queue@
            }),
    {
        let ghost pre = self.pieces();
        self.queue.add_forbid_tls_host(hosts);
        let ghost word = CoreTold::QueueForbidTls { hosts: texts(hosts@) };
        proof {
            reveal(queue_did);
            lemma_queue_only(*old(self), word, *self);
        }
        self.note(Ghost(pre), Ghost(word));
    }

    /// Every task that is out on a channel is cancelled and tried again.
    pub fn redo_tasks_of_at(&mut self, now: u64, name: &str)
        requires
            old(self).ready(),
        ensures
            final(self).ready(),
            final(self).setting() == old(self).setting(),
            Self::went_through(
                *old(self),
                CoreTold::QueueRedone { now, name: name@ },
                *final(self),
            ),
    {
        let ghost pre = self.pieces();
        self.queue.redo_tasks_of_at(now, name);
        assert(channel_redone(pre.queue, now, name@, self.queue@));
        let ghost word = CoreTold::QueueRedone { now, name: name@ };
        proof {
            reveal(queue_did);
            lemma_queue_only(*old(self), word, *self);
        }
        self.note(Ghost(pre), Ghost(word));
    }

    /// The long-link queue goes away: every task it still has is failed.
    pub fn close_at(&mut self, now: u64)
        requires
            old(self).ready(),
        ensures
            final(self).ready(),
            final(self).setting() == old(self).setting(),
            Self::went_through(*old(self), CoreTold::QueueClosed { now }, *final(self)),
    {
        let ghost pre = self.pieces();
        self.queue.close_at(now);
        assert(closed(pre.queue, now, self.queue@));
        let ghost word = CoreTold::QueueClosed { now };
        proof {
            reveal(queue_did);
            lemma_queue_only(*old(self), word, *self);
        }
        self.note(Ghost(pre), Ghost(word));
    }

    /// A task that ended, from one of the three queues.
    pub fn call_back_at(
        &mut self,
        now: u64,
        from: CallFrom,
        err_type: ErrCmdType,
        err_code: i32,
        handle: TaskFailHandleType,
        task: &Task,
        cost: u32,
        profile: &ConnectProfile,
    ) -> (code: i32)
        requires
            old(self).ready(),
        ensures
            final(self).ready(),
            final(self).setting() == old(self).setting(),
            ({
                let ending = Ending {
                    now,
                    from,
                    err_type,
                    err_code,
                    handle,
                    task: *task,
                    cost,
                    profile: profile@,
                };
                &&& Self::went_through(
                    *old(self),
                    CoreTold::CalledBack { ending, answer: code },
                    *final(self),
                )
                &&& exists|a: EndAnswers| #[trigger]
                    ending.code(old(self).queue.host@.use_long_link, a) == code
                        && final(self).queue.host@.told == old(self).queue.host@.told
                        + ending.words(old(self).queue.host@.use_long_link, a)
            }),
    {
        let ghost pre = self.pieces();
        let ghost ending = Ending {
            now,
            from,
            err_type,
            err_code,
            handle,
            task: *task,
            cost,
            profile: profile@,
        };
        let ghost route = self.queue.host@;
        let code: i32 = self.queue.host.call_back_at(
            now,
            from,
            err_type,
            err_code,
            handle,
            task,
            cost,
            profile,
        );
        let ghost word = CoreTold::CalledBack { ending, answer: code };
        proof {
            reveal(rest_did);
            lemma_rest_step(word, pre, self.pieces());
            let a = choose|a: EndAnswers| #[trigger]
                ending.code(route.use_long_link, a) == code && self.queue.host@ == route.said(
                    ending.words(route.use_long_link, a),
                );
            assert(answers_end(ending, pre.use_long_link, code));
            lemma_ended_words(ending, route.use_long_link, a);
            lemma_long_ends(route.told, ending.words(route.use_long_link, a));
        }
        self.note(Ghost(pre), Ghost(word));
        code
    }

    /// A task ended on the short link.
    pub fn short_ended(
        &mut self,
        err_type: ErrCmdType,
        err_code: i32,
        handle: TaskFailHandleType,
        task: &Task,
        cost: u32,
        profile: &ConnectProfile,
    ) -> (code: i32)
        requires
            old(self).ready(),
        ensures
            final(self).ready(),
            final(self).setting() == old(self).setting(),
            exists|ending: Ending|
                {
                    &&& ending == (Ending {
                        now: ending.now,
                        from: CallFrom::Short,
                        err_type,
                        err_code,
                        handle,
                        task: *task,
                        cost,
                        profile: profile@,
                    })
                    &&& #[trigger] Self::went_through(
                        *old(self),
                        CoreTold::CalledBack { ending, answer: code },
                        *final(self),
                    )
                },
    {
        let ghost pre = self.pieces();
        let ghost route = self.queue.host@;
        let code: i32 = self.queue.host.short_ended(
            err_type,
            err_code,
            handle,
            task,
            cost,
            profile,
        );
        let ghost (tick, a) = choose|tick: u64, a: EndAnswers|
            (self.queue.host@, code) == #[trigger] route.routed(
                tick,
                CallFrom::Short,
                err_type,
                err_code,
                handle,
                *task,
                cost,
                profile@,
                a,
            );
        let ghost ending = Ending {
            now: tick,
            from: CallFrom::Short,
            err_type,
            err_code,
            handle,
            task: *task,
            cost,
            profile: profile@,
        };
        let ghost word = CoreTold::CalledBack { ending, answer: code };
        proof {
            lemma_called_back(route, tick, ending, a);
            assert(ending.code(pre.use_long_link, a) == code);
            reveal(rest_did);
            lemma_rest_step(word, pre, self.pieces());
        }
        self.note(Ghost(pre), Ghost(word));
        assert(Self::went_through(*old(self), word, *self));
        code
    }

    /// A zombie ended: there is no connect it ran on.
    pub fn zombie_ended(
        &mut self,
        err_type: ErrCmdType,
        err_code: i32,
        handle: TaskFailHandleType,
        task: &Task,
        cost: u32,
    ) -> (code: i32)
        requires
            old(self).ready(),
        ensures
            final(self).ready(),
            final(self).setting() == old(self).setting(),
            exists|ending: Ending|
                {
                    &&& ending == (Ending {
                        now: ending.now,
                        from: CallFrom::Zombie,
                        err_type,
                        err_code,
                        handle,
                        task: *task,
                        cost,
                        profile: ConnectView::blank(),
                    })
                    &&& #[trigger] Self::went_through(
                        *old(self),
                        CoreTold::CalledBack { ending, answer: code },
                        *final(self),
                    )
                },
    {
        let ghost pre = self.pieces();
        let ghost route = self.queue.host@;
        let code: i32 = self.queue.host.zombie_ended(err_type, err_code, handle, task, cost);
        let ghost (tick, a) = choose|tick: u64, a: EndAnswers|
            (self.queue.host@, code) == #[trigger] route.routed(
                tick,
                CallFrom::Zombie,
                err_type,
                err_code,
                handle,
                *task,
                cost,
                ConnectView::blank(),
                a,
            );
        let ghost ending = Ending {
            now: tick,
            from: CallFrom::Zombie,
            err_type,
            err_code,
            handle,
            task: *task,
            cost,
            profile: ConnectView::blank(),
        };
        let ghost word = CoreTold::CalledBack { ending, answer: code };
        proof {
            lemma_called_back(route, tick, ending, a);
            assert(ending.code(pre.use_long_link, a) == code);
            reveal(rest_did);
            lemma_rest_step(word, pre, self.pieces());
        }
        self.note(Ghost(pre), Ghost(word));
        assert(Self::went_through(*old(self), word, *self));
        code
    }

    /// An error of a short link, which waits for the core.
    pub fn short_network_err(
        &mut self,
        err_type: ErrCmdType,
        err_code: i32,
        ip: &str,
        host: &str,
        port: u16,
    )
        requires
            old(self).ready(),
        ensures
            final(self).ready(),
            final(self).setting() == old(self).setting(),
            Self::went_through(
                *old(self),
                CoreTold::Asked {
                    next: FollowView::ShortLinkError {
                        err_type,
                        err_code,
                        ip: ip@,
                        host: host@,
                        port,
                    },
                },
                *final(self),
            ),
    {
        let ghost pre = self.pieces();
        self.queue.host.short_network_err(err_type, err_code, ip, host, port);
        let ghost word = CoreTold::Asked {
            next: FollowView::ShortLinkError { err_type, err_code, ip: ip@, host: host@, port },
        };
        proof {
            reveal(rest_did);
            lemma_rest_step(word, pre, self.pieces());
        }
        self.note(Ghost(pre), Ghost(word));
    }

    /// Every task of a user has to be looked at again, which waits for the core.
    pub fn retry_all(
        &mut self,
        err_type: ErrCmdType,
        err_code: i32,
        handle: TaskFailHandleType,
        src_taskid: u32,
        user_id: &str,
    )
        requires
            old(self).ready(),
        ensures
            final(self).ready(),
            final(self).setting() == old(self).setting(),
            Self::went_through(
                *old(self),
                CoreTold::Asked {
                    next: FollowView::Retry {
                        err_type,
                        err_code,
                        handle,
                        src_taskid,
                        user_id: user_id@,
                    },
                },
                *final(self),
            ),
    {
        let ghost pre = self.pieces();
        self.queue.host.retry_all(err_type, err_code, handle, src_taskid, user_id);
        let ghost word = CoreTold::Asked {
            next: FollowView::Retry { err_type, err_code, handle, src_taskid, user_id: user_id@ },
        };
        proof {
            reveal(rest_did);
            lemma_rest_step(word, pre, self.pieces());
        }
        self.note(Ghost(pre), Ghost(word));
    }

    /// The net source, to be driven.
    pub fn source(&mut self) -> (source: &mut NetSource<S>)
        ensures
            *source == old(self).source,
            final(self).source == *final(source),
            final(self).ready() == old(self).ready(),
            final(self).heard() == old(self).heard(),
            final(self).setting() == old(self).setting(),
            final(self).queue == old(self).queue,
            final(self).check == old(self).check,
    {
        proof {
            reveal(tied);
        }
        &mut self.source
    }

    /// The diagnosis, to be driven.
    pub fn check(&mut self) -> (check: &mut NetCheckLogic<C>)
        requires
            old(self).ready(),
        ensures
            *check == old(self).check,
            check.wf(),
            final(self).check == *final(check),
            final(check).wf() ==> final(self).ready(),
            final(self).heard() == old(self).heard(),
            final(self).setting() == old(self).setting(),
            final(self).queue == old(self).queue,
            final(self).source == old(self).source,
    {
        proof {
            reveal(tied);
        }
        &mut self.check
    }

    /// The tasks of the long-link queue are looked at.
    pub fn run_loop_at(&mut self, now: u64)
        requires
            old(self).ready(),
        ensures
            final(self).ready(),
            final(self).setting() == old(self).setting(),
            Self::went_through(
                *old(self),
                CoreTold::QueueRan { now },
                *final(self),
            ),
    {
        let ghost pre = self.pieces();
        self.queue.run_loop_at(now);
        assert(looped(pre.queue, now, self.queue@));
        let ghost word = CoreTold::QueueRan { now };
        proof {
            reveal(queue_did);
            lemma_queue_only(*old(self), word, *self);
        }
        self.note(Ghost(pre), Ghost(word));
    }

    /// A task of the long-link queue went out.
    pub fn on_send_at(&mut self, now: u64, taskid: u32) -> (answer: bool)
        requires
            old(self).ready(),
        ensures
            final(self).ready(),
            final(self).setting() == old(self).setting(),
            Self::went_through(
                *old(self),
                CoreTold::QueueSent { now, taskid, answer },
                *final(self),
            ),
    {
        let ghost pre = self.pieces();
        let answer: bool = self.queue.on_send_at(now, taskid);
        let ghost word = CoreTold::QueueSent { now, taskid, answer };
        proof {
            reveal(queue_did);
            lemma_queue_only(*old(self), word, *self);
        }
        self.note(Ghost(pre), Ghost(word));
        answer
    }

    /// Some of the answer to a task of the long-link queue came in.
    pub fn on_recv_at(
        &mut self,
        now: u64,
        taskid: u32,
        cached_size: usize,
        total_size: usize,
    ) -> (answer: bool)
        requires
            old(self).ready(),
        ensures
            final(self).ready(),
            final(self).setting() == old(self).setting(),
            Self::went_through(
                *old(self),
                CoreTold::QueueReceived { now, taskid, cached_size, total_size, answer },
                *final(self),
            ),
    {
        let ghost pre = self.pieces();
        let answer: bool = self.queue.on_recv_at(now, taskid, cached_size, total_size);
        let ghost word = CoreTold::QueueReceived {
            now,
            taskid,
            cached_size,
            total_size,
            answer,
        };
        proof {
            reveal(queue_did);
            lemma_queue_only(*old(self), word, *self);
        }
        self.note(Ghost(pre), Ghost(word));
        answer
    }

    /// A long link answered the queue.
    pub fn on_response_at(&mut self, now: u64, response: Response) -> (answer: Option<RespHandle>)
        requires
            old(self).ready(),
            countable(old(self).queue@, response@),
        ensures
            final(self).ready(),
            final(self).setting() == old(self).setting(),
            Self::went_through(
                *old(self),
                CoreTold::QueueAnswered { now, response: response@, answer },
                *final(self),
            ),
    {
        let ghost pre = self.pieces();
        let ghost came = response@;
        let answer = self.queue.on_response_at(now, response);
        assert(answered(pre.queue, now, came, answer, self.queue@));
        let ghost word = CoreTold::QueueAnswered { now, response: came, answer };
        proof {
            reveal(queue_did);
            lemma_queue_only(*old(self), word, *self);
        }
        self.note(Ghost(pre), Ghost(word));
        answer
    }
}

/// A step of the long-link queue leaves the other pieces alone, and what it says is
/// done.
pub proof fn lemma_queue_only<
    X: OutsideHost<R, L, K, T>,
    R: RouteHost,
    L: QueueHost,
    S: SourceHost,
    C: NetCheckHost,
    K: LinkHost,
    T: TimerCheckHost,
>(
    before: CorePieces<X, R, L, S, C, K, T>,
    word: CoreTold,
    after: CorePieces<X, R, L, S, C, K, T>,
)
    requires
        is_queue_step(word),
        queue_did(word, before.queue@, after.queue@),
        before.queue.host@ == before.queue.host@.marked(),
        before.queue@.fixed.sound,
        after.queue@.fixed == before.queue@.fixed,
        after.outside == before.outside,
        after.source == before.source,
        after.check == before.check,
        after.links == before.links,
    ensures
        steps(word, before.pieces(), after.pieces()),
{
    lemma_since(before.queue.host@, after.queue.host@);
    lemma_queue_step(word, before.pieces(), after.pieces());
}

/// What the core hands to one of its pieces and nowhere else.
impl<
    X: OutsideHost<R, L, K, T>,
    R: RouteHost,
    L: QueueHost,
    S: SourceHost,
    C: NetCheckHost,
    K: LinkHost,
    T: TimerCheckHost,
> NetCore<CorePieces<X, R, L, S, C, K, T>> {
    /// Whether a queue asked the core for something it could not do while it was
    /// running.
    pub fn has_pending(&self) -> (has: bool)
        ensures
            has == (self.host.pieces().pending.len() > 0),
    {
        self.host.queue.host.has_pending()
    }

    /// How much a queue asked the core for.
    pub fn pending_count(&self) -> (count: usize)
        ensures
            count == self.host.pieces().pending.len(),
    {
        self.host.queue.host.pending_count()
    }

    /// A link, and the things that keep it up, to be driven.
    pub fn long_link_meta(&mut self, name: &str) -> (meta: Option<&mut LongLinkMetaData<K, T>>)
        requires
            old(self)@.ready,
        ensures
            match meta {
                Some(link) => {
                    &&& old(self)@.has_link(name@)
                    &&& *link == old(self).host.links@[name@]
                    &&& link.wf()
                    &&& final(link).wf() ==> final(self)@.ready
                    &&& final(self)@ == (CoreView {
                        statuses: old(self)@.statuses.insert(name@, final(link)@.link.status),
                        ready: final(self)@.ready,
                        ..old(self)@
                    })
                },
                None => !old(self)@.has_link(name@) && final(self)@ == old(self)@,
            },
    {
        proof {
            let there = self.host.setting().links;
            assert(there.dom() =~= self.host.links@.dom());
            assert forall|status: LongLinkStatus| there.contains_key(name@) implies (
            #[trigger] there.insert(name@, status)).dom() == there.dom() by {
                assert(there.insert(name@, status).dom() =~= there.dom());
            }
        }
        self.host.link_meta(name)
    }

    /// Hosts a long link may not use tls for.
    pub fn forbid_longlink_tls_host(&mut self, hosts: &[String])
        requires
            old(self)@.ready,
        ensures
            final(self)@ == (CoreView {
                told: old(self)@.told.push(CoreTold::QueueForbidTls { hosts: texts(hosts@) }),
                ..old(self)@
            }),
            final(self).host.queue@ == (QueueView {
                forbid_tls_hosts: forbidden_with(
                    old(self).host.queue@.forbid_tls_hosts,
                    texts(hosts@),
                ),
                fixed: final(self).host.queue@.fixed,
                ..old(self).host.queue@
            }),
    {
        self.host.forbid_tls(hosts);
    }

    /// The server bans an ip.
    pub fn add_server_ban_at(&mut self, now: u64, ip: &str)
        ensures
            final(self)@ == old(self)@,
            final(self).host.source@ == old(self).host.source@.said(
                SourceTold::ServerBan { now, ip: ip@ },
            ),
    {
        self.host.source().add_server_ban_at(now, ip);
    }

    /// The history of the network the app is on becomes the ban list.
    pub fn init_history_to_banned_list(&mut self)
        ensures
            final(self)@ == old(self)@,
            final(self).host.source@ == old(self).host.source@.said(SourceTold::HistoryInit),
    {
        self.host.source().init_history_to_banned_list();
    }

    /// How long a connect may take, in milliseconds.
    pub fn set_ip_connect_timeout(&mut self, v4_timeout: u32, v6_timeout: u32)
        ensures
            final(self)@ == old(self)@,
            final(self).host.source@ == old(self).host.source@.timed(
                (TimeoutView { v4_timeout, v6_timeout, ..old(self).host.source@.timeouts }),
            ),
    {
        self.host.source().set_ip_connect_timeout(v4_timeout, v6_timeout);
    }

    /// A task that ended, from one of the three queues: the app's own say on it
    /// first, then the end of a task that is really over, and the zombie queue for
    /// one that is not.
    pub fn call_back_at(
        &mut self,
        now: u64,
        from: CallFrom,
        err_type: ErrCmdType,
        err_code: i32,
        handle: TaskFailHandleType,
        task: &Task,
        cost: u32,
        profile: &ConnectProfile,
    ) -> (code: i32)
        requires
            old(self)@.ready,
        ensures
            ({
                let ending = Ending {
                    now,
                    from,
                    err_type,
                    err_code,
                    handle,
                    task: *task,
                    cost,
                    profile: profile@,
                };
                &&& final(self)@ == (CoreView {
                    told: old(self)@.told.push(CoreTold::CalledBack { ending, answer: code }),
                    ..old(self)@
                })
                &&& exists|a: EndAnswers| #[trigger]
                    ending.code(old(self)@.use_long_link, a) == code
                        && final(self).host.queue.host@.told == old(self).host.queue.host@.told
                        + ending.words(old(self)@.use_long_link, a)
            }),
    {
        self.host.call_back_at(now, from, err_type, err_code, handle, task, cost, profile)
    }

    /// The long-link queue.
    pub fn longlink(&self) -> (queue: &LongLinkTaskManager<Routing<R, L>>)
        ensures
            *queue == self.host.queue,
    {
        &self.host.queue
    }

    /// The net source, to be driven.
    pub fn net_source(&mut self) -> (source: &mut NetSource<S>)
        ensures
            *source == old(self).host.source,
            final(self).host.source == *final(source),
            final(self)@ == old(self)@,
    {
        self.host.source()
    }

    /// The diagnosis, to be driven.
    pub fn netcheck(&mut self) -> (check: &mut NetCheckLogic<C>)
        requires
            old(self)@.ready,
        ensures
            *check == old(self).host.check,
            check.wf(),
            final(self).host.check == *final(check),
            final(check).wf() ==> final(self)@.ready,
            final(self)@ == (CoreView { ready: final(self)@.ready, ..old(self)@ }),
    {
        self.host.check()
    }

    /// The gates a request has to pass, to be driven.
    pub fn anti_avalanche(&mut self) -> (gates: &mut AntiAvalanche)
        ensures
            *gates == old(self).host.queue.host.gates,
            final(self).host.queue.host.gates == *final(gates),
            final(self)@ == old(self)@,
    {
        &mut self.host.queue.host.gates
    }

    /// The app came up, or went away.
    pub fn set_active_at(&mut self, is_active: bool, now: u64)
        ensures
            final(self)@ == old(self)@,
            final(self).host.queue.host@ == (RouteView {
                gates: AvalancheView {
                    flow: old(self).host.queue.host@.gates.flow.activated(is_active, now),
                    ..old(self).host.queue.host@.gates
                },
                ..old(self).host.queue.host@
            }),
    {
        self.host.queue.host.gates.set_active_at(is_active, now);
    }
}

} // verus!
