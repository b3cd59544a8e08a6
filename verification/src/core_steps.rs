//! What one thing that is asked of the pieces of a net core makes of them.
//!
//! Everything the core says to its pieces is a word ([`CoreTold`]); [`steps`] says
//! what each makes of what the library holds, and [`tied`] that the pieces went
//! through one state after the other, a step for every word.
use vstd::prelude::*;
use crate::dynamic_timeout::{DynamicView, NetworkKind};
use crate::long_link::LinkHost;
use crate::longlink_connect_monitor::{LongLinkStatus, MonitorView};
use crate::longlink_metadata::{LongLinkMetaData, MetaView};
use crate::longlink_task_manager::{recv_at, sent_at};
use crate::net_check_logic::{CheckAnswers, CheckView};
use crate::net_core::{status_in, CoreTold, MadeView};
use crate::net_route::{
    ends_said, follow_ups, lemma_ended_words, lemma_long_ends, lemma_words, link_words, long_end,
    long_ends, EndAnswers, EndSaid, Ending, FollowView, RouteTold, RouteView,
};
use crate::net_source::{LonglinkConfig, SourceTold, SourceView, TimeoutView};
use crate::netsource_timercheck::{TimerCheckHost, TimerView};
use crate::queue_host::{Fixed, Told};
use crate::queue_spec::{
    batch_error, channels_dropped, channels_reset, count_on, due_at, forbidden_with, forbids_tls,
    located, network_changed, queued, redone, released, responded, run_loop, users_retried,
    ChangeAnswers, Failure, LoopAnswers, QueueView, RedoAnswers, RespHandle, ResponseAnswers,
    ResponseView, RetryAnswers,
};
use crate::task::{texts, Task};
use crate::task_profile::{ConnectView, ErrCmdType, TaskFailHandleType, LOCAL_RESET};

verus! {

/// What the pieces came to.
pub struct PiecesView {
    pub queue: QueueView,
    /// What the queues asked of the core while they were running.
    pub pending: Seq<FollowView>,
    /// What the queue's links were handed.
    pub handed: Seq<Told>,
    /// The tasks of the long link the app was asked about.
    pub ended: Seq<EndSaid>,
    /// A task that failed may be saved, for a long link that is used.
    pub use_long_link: bool,
    /// The links there are.
    pub links: Map<Seq<char>, MetaView>,
    pub source: SourceView,
    pub check: CheckView,
    /// Everything the pieces outside were told and asked so far.
    pub outside: Seq<CoreTold>,
}

impl PiecesView {
    /// What the long-link queue said from here on.
    pub open spec fn said_since(self, post: PiecesView) -> Seq<Told> {
        post.queue.told.skip(self.queue.told.len() as int)
    }

    /// The long-link queue did something, and nothing else: what it said to the
    /// links they were handed, the tasks it said to be over the app was asked about,
    /// and what it asked of the core waits for it.
    pub open spec fn queue_only(self, post: PiecesView) -> bool {
        let said = self.said_since(post);
        &&& post.queue.told == self.queue.told + said
        &&& post == (PiecesView {
            queue: post.queue,
            pending: self.pending + follow_ups(said),
            handed: self.handed + link_words(said),
            ended: self.ended + ends_said(said),
            ..self
        })
    }

    /// What waits for the core is something else, and nothing but that and what the
    /// queue counts from changed.
    pub open spec fn waiting(self, pending: Seq<FollowView>, post: PiecesView) -> PiecesView {
        PiecesView {
            queue: QueueView { fixed: post.queue.fixed, ..self.queue },
            pending,
            ..self
        }
    }

    /// A piece outside was asked, and nothing else.
    pub open spec fn passed(self, word: CoreTold) -> PiecesView {
        PiecesView { outside: self.outside.push(word), ..self }
    }
}

/// The app was asked which network it is, and the net source was told of a pair.
pub open spec fn pair_reported(
    pre: PiecesView,
    net_info: i32,
    now: u64,
    secs: u64,
    ok: bool,
    ip: Seq<char>,
    port: u16,
) -> PiecesView {
    PiecesView {
        source: (SourceView { net_info, ..pre.source }).reported(now, secs, ok, ip, port),
        ..pre.passed(CoreTold::NetInfo { answer: net_info })
    }
}

/// The ban list is rebuilt, and quic and ipv6 are let back in.
pub open spec fn cache_cleared(source: SourceView) -> SourceView {
    source.said(SourceTold::HistoryInit).timed(
        (TimeoutView { quic_enabled: true, ipv6_enabled: true, ..source.timeouts }),
    )
}

/// Every task that was out on a channel was tried again.
pub open spec fn channel_redone(
    pre: QueueView,
    now: u64,
    name: Seq<char>,
    post: QueueView,
) -> bool {
    exists|a: RedoAnswers| #[trigger] redone(pre, now, name, a, post)
}

/// The queue was closed: every task it had is failed, and there is no channel left.
pub open spec fn closed(pre: QueueView, now: u64, post: QueueView) -> bool {
    exists|answers: Seq<ConnectView>, mid: QueueView| #[trigger]
        batch_error(
            pre,
            now,
            Seq::empty(),
            Failure {
                err_type: ErrCmdType::Local,
                err_code: LOCAL_RESET,
                fail_handle: TaskFailHandleType::TaskEnd,
                src_taskid: Task::INVALID_TASK_ID,
            },
            false,
            answers,
            mid,
        ) && post == (QueueView { channels: Seq::empty(), ..mid })
}

/// That is a code a task that ended is answered.
pub open spec fn answers_end(ending: Ending, use_long_link: bool, code: i32) -> bool {
    exists|a: EndAnswers| #[trigger] ending.code(use_long_link, a) == code
}

/// The zombies that are started again.
pub open spec fn starts(tasks: Seq<Task>) -> Seq<FollowView> {
    tasks.map_values(|task: Task| FollowView::Start(task))
}

/// The queue put a task in and was run.
pub open spec fn put_in(
    pre: QueueView,
    now: u64,
    task: Task,
    channel: i32,
    post: QueueView,
) -> bool {
    exists|given: Task, timeout: u64, a: LoopAnswers|
        given.same(&task) && #[trigger] run_loop(
            queued(pre, now, given, channel, timeout),
            now,
            a,
            post,
        )
}

/// The queue was run.
pub open spec fn looped(pre: QueueView, now: u64, post: QueueView) -> bool {
    exists|a: LoopAnswers| #[trigger] run_loop(pre, now, a, post)
}

/// Every task that was out was tried again.
pub open spec fn all_redone(pre: QueueView, now: u64, post: QueueView) -> bool {
    exists|a: RedoAnswers| #[trigger]
        redone(channels_reset(pre, pre.channels.len() as int), now, Seq::empty(), a, post)
}

/// The network is another one.
pub open spec fn moved(pre: QueueView, now: u64, post: QueueView) -> bool {
    exists|a: Seq<ChangeAnswers>| #[trigger] network_changed(pre, now, a, post)
}

/// Every task of a user was looked at again.
pub open spec fn looked_at_again(
    pre: QueueView,
    now: u64,
    failure: Failure,
    user_id: Seq<char>,
    post: QueueView,
) -> bool {
    exists|a: RetryAnswers| #[trigger] users_retried(pre, now, failure, user_id, a, post)
}

/// A link answered.
pub open spec fn answered(
    pre: QueueView,
    now: u64,
    response: ResponseView,
    answer: Option<RespHandle>,
    post: QueueView,
) -> bool {
    exists|a: ResponseAnswers| #[trigger] responded(pre, now, response, a, post, answer)
}

/// A channel was let go, where there was one.
pub open spec fn dropped(pre: QueueView, now: u64, name: Seq<char>, post: QueueView) -> bool {
    if pre.has_channel(name) {
        exists|answers: Seq<ConnectView>| #[trigger] released(pre, now, name, answers, post)
    } else {
        post == pre
    }
}

/// A channel was added.
pub open spec fn channel_added(pre: QueueView, config: LonglinkConfig, post: QueueView) -> bool {
    exists|given: LonglinkConfig|
        #[trigger] given.same(&config) && post == (QueueView {
            channels: pre.channels.push(
                LonglinkConfig {
                    need_tls: !forbids_tls(pre.forbid_tls_hosts, texts(given.host_list@)),
                    ..given
                },
            ),
            ..pre
        })
}

/// Where each link is.
pub open spec fn statuses(links: Map<Seq<char>, MetaView>) -> Map<Seq<char>, LongLinkStatus> {
    links.map_values(|meta: MetaView| meta.link.status)
}

/// The links, as they are.
pub open spec fn link_views<K: LinkHost, T: TimerCheckHost>(
    links: Map<Seq<char>, LongLinkMetaData<K, T>>,
) -> Map<Seq<char>, MetaView> {
    links.map_values(|meta: LongLinkMetaData<K, T>| meta@)
}

/// A link that was made from that config: it is the one that was made outside, with
/// its checks, and is watched from there on.
pub open spec fn is_made(made: MetaView, config: LonglinkConfig, parts: MadeView) -> bool {
    &&& made.config.same(&config)
    &&& made.link == parts.link
    &&& made.checker == TimerView::fresh(parts.checks)
    &&& made.monitor == MonitorView::fresh(parts.now, config.is_keep_alive)
}

/// The signals the keeper of a link wanted on it.
pub open spec fn signals_word(name: Seq<char>, now: u64, signals: Seq<u32>) -> CoreTold {
    CoreTold::LinkSignals { name, now, answer: signals }
}

/// A link that was made sure of.
pub open spec fn sure(meta: MetaView) -> MetaView {
    MetaView { link: meta.link.made_sure().0, ..meta }
}

/// A signal was handed to a link: it goes out only where nothing else waits.
pub open spec fn signal_sent(pre: MetaView, cmdid: u32, post: MetaView) -> bool {
    if pre.link.is_quiet() {
        exists|task: Task| #[trigger]
            task.is_plain_of(Task::SIGNALLING_KEEPER_TASK_ID, cmdid) && post == (MetaView {
                link: pre.link.pushed(Task { send_only: true, ..task }, seq![]),
                ..pre
            })
    } else {
        post == pre
    }
}

/// Signals were handed to a link: the first is what the others wait behind, so none
/// of them goes out.
pub open spec fn signals_sent(pre: MetaView, signals: Seq<u32>, post: MetaView) -> bool {
    if signals.len() == 0 {
        post == pre
    } else {
        signal_sent(pre, signals[0], post)
    }
}

/// A link that is put among the others stands where it is.
pub proof fn lemma_statuses(links: Map<Seq<char>, MetaView>, name: Seq<char>, meta: MetaView)
    ensures
        statuses(links.insert(name, meta)) == statuses(links).insert(name, meta.link.status),
        statuses(links.remove(name)) == statuses(links).remove(name),
{
    assert(statuses(links.insert(name, meta)) =~= statuses(links).insert(name, meta.link.status));
    assert(statuses(links.remove(name)) =~= statuses(links).remove(name));
}

/// The links are seen one by one.
pub proof fn lemma_links<K: LinkHost, T: TimerCheckHost>(
    links: Map<Seq<char>, LongLinkMetaData<K, T>>,
    name: Seq<char>,
    meta: LongLinkMetaData<K, T>,
)
    ensures
        link_views(links.insert(name, meta)) == link_views(links).insert(name, meta@),
        link_views(links.remove(name)) == link_views(links).remove(name),
{
    assert(link_views(links.insert(name, meta)) =~= link_views(links).insert(name, meta@));
    assert(link_views(links.remove(name)) =~= link_views(links).remove(name));
}

/// What one thing that was asked makes of the long-link queue.
#[verifier::opaque]
pub open spec fn queue_did(word: CoreTold, pre: QueueView, post: QueueView) -> bool {
    match word {
        CoreTold::LongStart { now, task, channel, answer } => {
            &&& answer == (pre.tasks.len() < i32::MAX)
            &&& if answer {
                put_in(pre, now, task, channel, post)
            } else {
                post == pre
            }
        },
        CoreTold::LongStop { taskid, answer } => {
            &&& match located(pre.tasks, taskid) {
                Some(at) => {
                    let name = pre.tasks[at].channel_name;
                    &&& answer == pre.has_channel(name)
                    &&& post == (if answer {
                        QueueView {
                            tasks: pre.tasks.remove(at),
                            ..pre.heard(Told::Stop { name, taskid })
                        }
                    } else {
                        pre
                    })
                },
                None => !answer && post == pre,
            }
        },
        CoreTold::LongHas { taskid, answer } => post == pre && answer == pre.has_task(taskid),
        CoreTold::LongCount { name, answer } => post == pre && answer == count_on(
            pre.tasks,
            name,
        ),
        CoreTold::LongClear => {
            &&& post == (QueueView {
                tasks: Seq::empty(),
                ..channels_dropped(pre, pre.channels.len() as int)
            })
        },
        CoreTold::LongRedo { now } => {
            &&& all_redone(pre, now, post)
        },
        CoreTold::LongTouch { now } => {
            &&& looped(pre, now, post)
        },
        CoreTold::LongNetworkChange { now } => {
            &&& moved(pre, now, post)
        },
        CoreTold::LongResetTimeout => {
            &&& post == (QueueView { timeout: DynamicView::fresh(), ..pre })
        },
        CoreTold::LongRetry { now, err_type, err_code, handle, src_taskid, user_id } => {
            &&& looked_at_again(
                pre,
                now,
                Failure { err_type, err_code, fail_handle: handle, src_taskid },
                user_id,
                post,
            )
        },
        CoreTold::LongProfile { taskid, answer } => {
            &&& match located(pre.tasks, taskid) {
                Some(at) => {
                    let name = pre.tasks[at].channel_name;
                    &&& post == pre.profile_asked(name, answer)
                    &&& answer == pre.profile_of(name, answer)
                },
                None => answer == ConnectView::blank() && post == pre,
            }
        },
        CoreTold::LongDue { answer } => {
            &&& exists|network: NetworkKind|
                post == pre.heard(Told::Network { answer: network })
                    && #[trigger] due_at(pre, network, answer)
        },
        CoreTold::LongFails { answer } => post == pre && answer == pre.fail_count,
        CoreTold::LongAdd { config, answer } => {
            &&& answer == !pre.has_channel(config.name@)
            &&& if answer {
                channel_added(pre, config, post)
            } else {
                post == pre
            }
        },
        CoreTold::LongRemove { now, name } => {
            &&& dropped(pre, now, name, post)
        },
        CoreTold::LongDisconnect { taskid, code, answer } => {
            &&& match located(pre.tasks, taskid) {
                Some(at) => {
                    let name = pre.tasks[at].channel_name;
                    &&& answer == pre.has_channel(name)
                    &&& post == pre.disconnected(name, code)
                },
                None => !answer && post == pre,
            }
        },
        CoreTold::QueueRan { now } => {
            &&& looped(pre, now, post)
        },
        CoreTold::QueueSent { now, taskid, answer } => {
            &&& match located(pre.tasks, taskid) {
                Some(at) => answer && post == pre.with_task(
                    at,
                    sent_at(pre.tasks[at], now),
                ),
                None => !answer && post == pre,
            }
        },
        CoreTold::QueueReceived { now, taskid, cached_size, total_size, answer } => {
            &&& match located(pre.tasks, taskid) {
                Some(at) => answer && post == pre.with_task(
                    at,
                    recv_at(pre.tasks[at], now, cached_size, total_size),
                ),
                None => !answer && post == pre,
            }
        },
        CoreTold::QueueAnswered { now, response, answer } => {
            &&& answered(pre, now, response, answer, post)
        },
        CoreTold::QueueForbidTls { hosts } => {
            &&& post == (QueueView {
                forbid_tls_hosts: forbidden_with(pre.forbid_tls_hosts, hosts),
                ..pre
            })
        },
        CoreTold::QueueRedone { now, name } => {
            &&& channel_redone(pre, now, name, post)
        },
        CoreTold::QueueClosed { now } => {
            &&& closed(pre, now, post)
        },
        _ => false,
    }
}

/// What one thing that was asked makes of the links.
#[verifier::opaque]
pub open spec fn links_did(word: CoreTold, pre: PiecesView, post: PiecesView) -> bool {
    match word {
        CoreTold::LinkMake { config, encoder } => exists|made: MetaView, parts: MadeView|
            #[trigger] is_made(made, config, parts) && post == (PiecesView {
                links: pre.links.insert(config.name@, made),
                ..pre.passed(CoreTold::LinkMade { config, encoder, answer: parts })
            }),
        CoreTold::LinkDrop { name } => post == (PiecesView {
            links: pre.links.remove(name),
            ..pre.passed(word)
        }),
        CoreTold::LinksClear => post == (PiecesView { links: Map::empty(), ..pre.passed(word) }),
        CoreTold::LinkStatus { name, answer } => {
            &&& answer == status_in(statuses(pre.links), name)
            &&& post == pre
        },
        CoreTold::LinkMakeSure { name } => post == (PiecesView {
            links: if pre.links.contains_key(name) {
                pre.links.insert(name, sure(pre.links[name]))
            } else {
                pre.links
            },
            ..pre
        }),
        CoreTold::LinkKeepSignal { name, now } => exists|signals: Seq<u32>|
            {
                &&& post == (PiecesView {
                    links: post.links,
                    ..pre.passed(#[trigger] signals_word(name, now, signals))
                })
                &&& if pre.links.contains_key(name) {
                    &&& post.links == pre.links.insert(name, post.links[name])
                    &&& signals_sent(pre.links[name], signals, post.links[name])
                } else {
                    post.links == pre.links
                }
            },
        _ => false,
    }
}

/// What one thing that was asked makes of the net source, the diagnosis and what
/// waits for the core.
#[verifier::opaque]
pub open spec fn rest_did(word: CoreTold, pre: PiecesView, post: PiecesView) -> bool {
    match word {
        CoreTold::CalledBack { ending, answer } => {
            &&& answers_end(ending, pre.use_long_link, answer)
            &&& post == (PiecesView {
                ended: pre.ended + long_end(ending),
                ..pre.waiting(pre.pending, post)
            })
        },
        CoreTold::Asked { next } => post == pre.waiting(pre.pending.push(next), post),
        CoreTold::ClearCache => post == (PiecesView {
            source: cache_cleared(pre.source),
            ..pre
        }),
        CoreTold::CheckLong { now, ok, .. } => exists|a: CheckAnswers|
            a.fits() && post == (PiecesView {
                check: #[trigger] pre.check.long_updated(now, ok, a),
                ..pre
            }),
        CoreTold::CheckShort { now, ok, .. } => exists|a: CheckAnswers|
            a.fits() && post == (PiecesView {
                check: #[trigger] pre.check.short_updated(now, ok, a),
                ..pre
            }),
        CoreTold::ReportLong { now, secs, ok, ip, port } => if ip.len() == 0 || port == 0 {
            post == pre
        } else {
            exists|net_info: i32|
                post == #[trigger] pair_reported(pre, net_info, now, secs, ok, ip, port)
        },
        CoreTold::ReportShort { now, secs, ok, ip, port, .. } => if ip.len() == 0 {
            post == pre
        } else {
            exists|net_info: i32|
                post == #[trigger] pair_reported(pre, net_info, now, secs, ok, ip, port)
        },
        CoreTold::NextPending { answer } => match answer {
            Some(next) => {
                &&& pre.pending.len() > 0
                &&& next == pre.pending[0]
                &&& post == pre.waiting(pre.pending.drop_first(), post)
            },
            None => pre.pending.len() == 0 && post == pre,
        },
        CoreTold::ZombieRedo { now } => exists|tasks: Seq<Task>|
            post == pre.passed(CoreTold::ZombiesGiven { now, answer: tasks }).waiting(
                pre.pending + #[trigger] starts(tasks),
                post,
            ),
        CoreTold::ShortStart { .. } | CoreTold::ShortRedo { .. } | CoreTold::ShortTouch { .. }
        | CoreTold::ShortRetry { .. } => {
            &&& pre.pending.is_prefix_of(post.pending)
            &&& post == pre.passed(word).waiting(post.pending, post)
        },
        CoreTold::UseLongLink { use_long_link } => post == (PiecesView {
            queue: QueueView {
                fixed: Fixed { use_long_link, ..pre.queue.fixed },
                ..pre.queue
            },
            use_long_link,
            ..pre
        }),
        _ => false,
    }
}

/// What one thing that was asked makes of the pieces.
#[verifier::opaque]
pub open spec fn steps(word: CoreTold, pre: PiecesView, post: PiecesView) -> bool {
    if is_queue_step(word) {
        pre.queue_only(post) && queue_did(word, pre.queue, post.queue)
    } else if is_link_step(word) {
        links_did(word, pre, post)
    } else if is_passed(word) {
        post == pre.passed(word)
    } else {
        rest_did(word, pre, post)
    }
}

/// A thing the long-link queue does.
pub open spec fn is_queue_step(word: CoreTold) -> bool {
    match word {
        CoreTold::LongStart { .. }
        | CoreTold::LongStop { .. }
        | CoreTold::LongHas { .. }
        | CoreTold::LongCount { .. }
        | CoreTold::LongFails { .. }
        | CoreTold::LongClear
        | CoreTold::LongRedo { .. }
        | CoreTold::LongTouch { .. }
        | CoreTold::LongNetworkChange { .. }
        | CoreTold::LongResetTimeout
        | CoreTold::LongRetry { .. }
        | CoreTold::LongProfile { .. }
        | CoreTold::LongDue { .. }
        | CoreTold::LongAdd { .. }
        | CoreTold::LongRemove { .. }
        | CoreTold::LongDisconnect { .. }
        | CoreTold::QueueRan { .. }
        | CoreTold::QueueSent { .. }
        | CoreTold::QueueReceived { .. }
        | CoreTold::QueueAnswered { .. }
        | CoreTold::QueueForbidTls { .. }
        | CoreTold::QueueRedone { .. }
        | CoreTold::QueueClosed { .. } => true,
        _ => false,
    }
}

/// A thing that is about a link.
pub open spec fn is_link_step(word: CoreTold) -> bool {
    match word {
        CoreTold::LinkMake { .. }
        | CoreTold::LinkDrop { .. }
        | CoreTold::LinksClear
        | CoreTold::LinkStatus { .. }
        | CoreTold::LinkMakeSure { .. }
        | CoreTold::LinkKeepSignal { .. } => true,
        _ => false,
    }
}

/// A thing only the pieces outside are asked.
pub open spec fn is_passed(word: CoreTold) -> bool {
    match word {
        CoreTold::TaskProcess { .. }
        | CoreTold::TaskEnd { .. }
        | CoreTold::NetInfo { .. }
        | CoreTold::UnixSecs { .. }
        | CoreTold::ConnectStatus { .. }
        | CoreTold::LongErr { .. }
        | CoreTold::ShortErr { .. }
        | CoreTold::StatusChange { .. }
        | CoreTold::ShortStop { .. }
        | CoreTold::ShortHas { .. }
        | CoreTold::ShortClear
        | CoreTold::ShortResetTimeout
        | CoreTold::ShortProfile { .. }
        | CoreTold::ShortDue { .. }
        | CoreTold::ShortFails { .. }
        | CoreTold::ZombieTaskStarted { .. }
        | CoreTold::ZombieStop { .. }
        | CoreTold::ZombieHas { .. }
        | CoreTold::ZombieClear
        | CoreTold::ZombieDue { .. }
        | CoreTold::SyncNetworkChange { .. }
        | CoreTold::SyncStatus { .. }
        | CoreTold::SyncDue { .. }
        | CoreTold::SyncCancel
        | CoreTold::LinkStopSignal { .. } => true,
        _ => false,
    }
}

/// What is passed on to the pieces outside makes nothing of the others.
pub proof fn lemma_passed(word: CoreTold, pre: PiecesView)
    requires
        is_passed(word),
    ensures
        forall|post: PiecesView| #[trigger]
            steps(word, pre, post) == (post == pre.passed(word)),
{
    reveal(steps);
}

/// A task that ended was routed: the app is asked about it where it was one of the
/// long link, and nothing else changes.
pub proof fn lemma_called_back(route: RouteView, tick: u64, ending: Ending, a: EndAnswers)
    requires
        ending.now == tick,
    ensures
        long_ends(
            route.told.push(RouteTold::Tick { answer: tick }) + ending.words(
                route.use_long_link,
                a,
            ),
        ) == long_ends(route.told) + long_end(ending),
{
    let clocked = route.told.push(RouteTold::Tick { answer: tick });
    assert(clocked.drop_last() =~= route.told);
    lemma_ended_words(ending, route.use_long_link, a);
    lemma_long_ends(clocked, ending.words(route.use_long_link, a));
}

/// A step that is about a link.
pub proof fn lemma_link_step(word: CoreTold, pre: PiecesView, post: PiecesView)
    requires
        is_link_step(word),
    ensures
        steps(word, pre, post) == links_did(word, pre, post),
{
    reveal(steps);
}

/// A step of the long-link queue.
pub proof fn lemma_queue_step(word: CoreTold, pre: PiecesView, post: PiecesView)
    requires
        is_queue_step(word),
    ensures
        steps(word, pre, post) == (pre.queue_only(post) && queue_did(
            word,
            pre.queue,
            post.queue,
        )),
{
    reveal(steps);
}

/// A step that is neither, and that the pieces outside are not the only ones to be
/// asked for.
pub proof fn lemma_rest_step(word: CoreTold, pre: PiecesView, post: PiecesView)
    requires
        !is_queue_step(word),
        !is_link_step(word),
        !is_passed(word),
    ensures
        steps(word, pre, post) == rest_did(word, pre, post),
{
    reveal(steps);
}

/// A queue that was cleared holds no task.
pub proof fn lemma_cleared(pre: PiecesView, post: PiecesView)
    requires
        steps(CoreTold::LongClear, pre, post),
    ensures
        post.queue.tasks.len() == 0,
{
    lemma_queue_step(CoreTold::LongClear, pre, post);
    reveal(queue_did);
}

/// The links are let go, and nothing else.
pub proof fn lemma_links_cleared(pre: PiecesView, post: PiecesView)
    requires
        steps(CoreTold::LinksClear, pre, post),
    ensures
        post == (PiecesView { links: Map::empty(), ..pre.passed(CoreTold::LinksClear) }),
{
    lemma_link_step(CoreTold::LinksClear, pre, post);
    reveal(links_did);
}

/// Only a thing that settles it changes whether the long link is used.
pub proof fn lemma_settled(word: CoreTold, pre: PiecesView, post: PiecesView)
    requires
        steps(word, pre, post),
    ensures
        post.use_long_link == (match word {
            CoreTold::UseLongLink { use_long_link } => use_long_link,
            _ => pre.use_long_link,
        }),
{
    if is_queue_step(word) {
        lemma_queue_step(word, pre, post);
    } else if is_link_step(word) {
        lemma_link_step(word, pre, post);
        reveal(links_did);
    } else if is_passed(word) {
        lemma_passed(word, pre);
    } else {
        lemma_rest_step(word, pre, post);
        reveal(rest_did);
    }
}

/// A link comes only where it is made, and goes where it is let go.
pub proof fn lemma_link_gone(word: CoreTold, pre: PiecesView, post: PiecesView, name: Seq<char>)
    requires
        steps(word, pre, post),
        ({
            ||| word == (CoreTold::LinkDrop { name })
            ||| word == CoreTold::LinksClear
            ||| !pre.links.contains_key(name)
        }),
        !(word matches CoreTold::LinkMake { config, .. } && config.name@ == name),
    ensures
        !post.links.contains_key(name),
{
    if is_queue_step(word) {
        lemma_queue_step(word, pre, post);
    } else if is_link_step(word) {
        lemma_link_step(word, pre, post);
        reveal(links_did);
    } else if is_passed(word) {
        lemma_passed(word, pre);
    } else {
        lemma_rest_step(word, pre, post);
        reveal(rest_did);
    }
}

/// A link answers for itself.
pub proof fn lemma_link_answers(
    name: Seq<char>,
    answer: LongLinkStatus,
    pre: PiecesView,
    post: PiecesView,
)
    requires
        steps(CoreTold::LinkStatus { name, answer }, pre, post),
    ensures
        answer == status_in(statuses(pre.links), name),
{
    lemma_link_step(CoreTold::LinkStatus { name, answer }, pre, post);
    reveal(links_did);
}

/// A channel was let go, and only the link of that name.
pub proof fn lemma_removed(now: u64, name: Seq<char>, pre: PiecesView, post: PiecesView)
    requires
        steps(CoreTold::LongRemove { now, name }, pre, post),
    ensures
        dropped(pre.queue, now, name, post.queue),
{
    lemma_queue_step(CoreTold::LongRemove { now, name }, pre, post);
    reveal(queue_did);
}

/// A link was let go, and the queue has nothing to do with it.
pub proof fn lemma_link_dropped(name: Seq<char>, pre: PiecesView, post: PiecesView)
    requires
        steps(CoreTold::LinkDrop { name }, pre, post),
    ensures
        post.queue == pre.queue,
{
    lemma_link_step(CoreTold::LinkDrop { name }, pre, post);
    reveal(links_did);
}

/// A task was put in, or there was no room for it.
pub proof fn lemma_started(
    now: u64,
    task: Task,
    channel: i32,
    answer: bool,
    pre: PiecesView,
    post: PiecesView,
)
    requires
        steps(CoreTold::LongStart { now, task, channel, answer }, pre, post),
    ensures
        answer ==> put_in(pre.queue, now, task, channel, post.queue),
{
    let word = CoreTold::LongStart { now, task, channel, answer };
    lemma_queue_step(word, pre, post);
    reveal(queue_did);
}

/// What waits for the core goes on waiting, until the oldest is taken.
pub proof fn lemma_waits(word: CoreTold, pre: PiecesView, post: PiecesView)
    requires
        steps(word, pre, post),
    ensures
        match word {
            CoreTold::NextPending { answer: Some(next) } => {
                &&& pre.pending.len() > 0
                &&& next == pre.pending[0]
                &&& post.pending == pre.pending.drop_first()
            },
            CoreTold::NextPending { answer: None } => {
                pre.pending.len() == 0 && post.pending.len() == 0
            },
            _ => pre.pending.is_prefix_of(post.pending),
        },
        is_queue_step(word) ==> post.pending == pre.pending + follow_ups(pre.said_since(post)),
{
    if is_queue_step(word) {
        lemma_queue_step(word, pre, post);
    } else if is_link_step(word) {
        lemma_link_step(word, pre, post);
        reveal(links_did);
    } else if is_passed(word) {
        lemma_passed(word, pre);
    } else {
        lemma_rest_step(word, pre, post);
        reveal(rest_did);
    }
}

/// Whatever is asked, what the queue says to the links is handed to them, and the
/// tasks it says to be over the app is asked about, but for a task that ended past
/// the queue.
pub proof fn lemma_done(word: CoreTold, pre: PiecesView, post: PiecesView)
    requires
        steps(word, pre, post),
    ensures
        post.queue.told == pre.queue.told + pre.said_since(post),
        post.handed == pre.handed + link_words(pre.said_since(post)),
        !(word is CalledBack) ==> post.ended == pre.ended + ends_said(pre.said_since(post)),
{
    if is_queue_step(word) {
        lemma_queue_step(word, pre, post);
    } else {
        if is_link_step(word) {
            lemma_link_step(word, pre, post);
            reveal(links_did);
        } else if is_passed(word) {
            lemma_passed(word, pre);
        } else {
            lemma_rest_step(word, pre, post);
            reveal(rest_did);
        }
        assert(post.queue.told == pre.queue.told);
        assert(pre.said_since(post) =~= seq![]);
        assert(pre.queue.told + pre.said_since(post) =~= pre.queue.told);
        assert(pre.handed + link_words(seq![]) =~= pre.handed);
        assert(pre.ended + ends_said(seq![]) =~= pre.ended);
    }
}

/// What is done step by step is done.
pub proof fn lemma_done_on(
    first: PiecesView,
    mid: PiecesView,
    before: PiecesView,
    here: PiecesView,
)
    requires
        drifted(mid, before),
        mid.queue.told == first.queue.told + first.said_since(mid),
        mid.handed == first.handed + link_words(first.said_since(mid)),
        here.queue.told == before.queue.told + before.said_since(here),
        here.handed == before.handed + link_words(before.said_since(here)),
    ensures
        here.queue.told == first.queue.told + first.said_since(here),
        here.handed == first.handed + link_words(first.said_since(here)),
        mid.ended == first.ended + ends_said(first.said_since(mid)) && here.ended == before.ended
            + ends_said(before.said_since(here)) ==> here.ended == first.ended + ends_said(
            first.said_since(here),
        ),
{
    let a = first.said_since(mid);
    let b = before.said_since(here);
    assert(first.said_since(here) =~= a + b);
    lemma_words(a, b);
    assert(here.queue.told =~= first.queue.told + (a + b));
    assert(here.handed =~= first.handed + (link_words(a) + link_words(b)));
    if mid.ended == first.ended + ends_said(a) && here.ended == before.ended + ends_said(b) {
        assert(here.ended =~= first.ended + (ends_said(a) + ends_said(b)));
    }
}

/// The links, the net source and the diagnosis went on by themselves: no link came
/// and none went, and nothing else changed but what the queue counts from.
pub open spec fn drifted(pre: PiecesView, post: PiecesView) -> bool {
    &&& post == (PiecesView {
        queue: QueueView { fixed: post.queue.fixed, ..pre.queue },
        links: post.links,
        source: post.source,
        check: post.check,
        ..pre
    })
    &&& post.links.dom() == pre.links.dom()
}

/// The pieces went through one state after the other, a step for every thing that
/// was asked, from where they had got to by then, and are in the last of them.
#[verifier::opaque]
pub open spec fn tied(
    heard: Seq<CoreTold>,
    befores: Seq<PiecesView>,
    states: Seq<PiecesView>,
    now: PiecesView,
) -> bool {
    &&& states.len() == heard.len() + 1
    &&& befores.len() == heard.len()
    &&& drifted(states.last(), now)
    &&& forall|i: int| 0 <= i < states.len() ==> (#[trigger] states[i]).queue.wf()
    &&& forall|i: int| 0 <= i < befores.len() ==> drifted(states[i], #[trigger] befores[i])
    &&& forall|i: int|
        0 <= i < heard.len() ==> steps(#[trigger] heard[i], befores[i], states[i + 1])
}

/// One link was driven: it is what it came to, and nothing else changed.
pub open spec fn drove(
    settled: Map<Seq<char>, LongLinkStatus>,
    pre: PiecesView,
    name: Seq<char>,
    link: MetaView,
    after: Map<Seq<char>, MetaView>,
) -> bool {
    &&& after == pre.links.insert(name, link)
    &&& after.dom() == pre.links.dom()
    &&& statuses(after) == settled.insert(name, link.link.status)
}

/// One more thing was asked.
pub proof fn lemma_noted(
    heard: Seq<CoreTold>,
    befores: Seq<PiecesView>,
    states: Seq<PiecesView>,
    pre: PiecesView,
    word: CoreTold,
    post: PiecesView,
)
    requires
        tied(heard, befores, states, pre),
        steps(word, pre, post),
        post.queue.wf(),
    ensures
        tied(heard.push(word), befores.push(pre), states.push(post), post),
{
    reveal(tied);
    assert forall|i: int| 0 <= i < befores.push(pre).len() implies drifted(
        states.push(post)[i],
        #[trigger] befores.push(pre)[i],
    ) by {
        if i < befores.len() {
            assert(drifted(states[i], befores[i]));
        }
    }
    assert forall|i: int| 0 <= i < heard.push(word).len() implies steps(
        #[trigger] heard.push(word)[i],
        befores.push(pre)[i],
        states.push(post)[i + 1],
    ) by {
        if i < heard.len() {
            assert(steps(heard[i], befores[i], states[i + 1]));
        }
    }
}

/// Pieces that only went on by themselves are tied to what was asked as before.
pub proof fn lemma_drifted(
    heard: Seq<CoreTold>,
    befores: Seq<PiecesView>,
    states: Seq<PiecesView>,
    now: PiecesView,
    later: PiecesView,
)
    requires
        drifted(now, later),
    ensures
        tied(heard, befores, states, now) == tied(heard, befores, states, later),
{
    reveal(tied);
}

} // verus!
