//! What the pieces of a net core promise for what they are asked: the long-link queue, the
//! links, the net source and the diagnosis.
use vstd::prelude::*;
use crate::core_steps::{steps, PiecesView};
use crate::dynamic_timeout::DynamicView;
use crate::long_link::DisconnectInternalCode;
use crate::longlink_connect_monitor::LongLinkStatus;
use crate::net_core::CoreTold;
use crate::net_route::{follow_of, is_for_links, kind_of, FollowView, RouteTold, RouteView};
use crate::net_source::{LonglinkConfig, SourceTold};
use crate::queue_host::Told;
use crate::queue_promises::{
    goes_with, is_end_of, is_kept, is_told_gone, law_a_retry_keeps_every_task_with_a_try_left,
    law_every_channel_is_taken_down, law_who_stays_of_a_failed_channel,
    law_who_stays_of_a_released_channel, still_stands, told_over, went_over,
};
use crate::queue_spec::{
    batch_error, located, queued, released, run_loop, users_retried, Failure, LoopAnswers,
    QueueView, RetryAnswers,
};
use crate::dynamic_timeout::NetworkKind;
use crate::task::{texts, Task};
use crate::task_profile::{ConnectView, ErrCmdType, TaskFailHandleType, TaskView};

verus! {

// ---- the long-link queue ---------------------------------------------------------------

/// A task that is stopped leaves the queue, its link is told to stop it, and nothing is
/// said to the app: it is the first of that id, and its channel has to be there. Any
/// other task stays; where nothing is stopped nothing changes.
pub proof fn law_what_a_stop_does(taskid: u32, answer: bool, pre: PiecesView, post: PiecesView)
    requires
        steps(CoreTold::LongStop { taskid, answer }, pre, post),
    ensures
        ({
            let at = located(pre.queue.tasks, taskid);
            &&& answer <==> at is Some && pre.queue.has_channel(
                pre.queue.tasks[at->0].channel_name,
            )
            &&& !answer ==> post.queue == pre.queue
            &&& answer ==> post.queue.tasks == pre.queue.tasks.remove(at->0) && post.queue.told
                == pre.queue.told.push(
                Told::Stop { name: pre.queue.tasks[at->0].channel_name, taskid },
            )
            &&& post.links == pre.links
            &&& post.outside == pre.outside
        }),
{
    reveal(steps);
    reveal(crate::core_steps::queue_did);
}

/// A task is there exactly where one has that id, and asking changes nothing.
pub proof fn law_what_a_look_for_a_task_finds(
    taskid: u32,
    answer: bool,
    pre: PiecesView,
    post: PiecesView,
)
    requires
        steps(CoreTold::LongHas { taskid, answer }, pre, post),
    ensures
        answer <==> exists|i: int|
            0 <= i < pre.queue.tasks.len() && (#[trigger] pre.queue.tasks[i]).task.taskid == taskid,
        post.queue == pre.queue,
{
    reveal(steps);
    reveal(crate::core_steps::queue_did);
}

/// Clearing leaves no task, tells the app of none, and takes every channel down.
pub proof fn law_what_clearing_does(pre: PiecesView, post: PiecesView)
    requires
        steps(CoreTold::LongClear, pre, post),
    ensures
        ({
            let n = pre.queue.told.len() as int;
            &&& post.queue.tasks.len() == 0
            &&& post.queue.channels == pre.queue.channels
            &&& post.queue.told.len() == n + pre.queue.channels.len()
            &&& forall|i: int|
                0 <= i < pre.queue.channels.len() ==> #[trigger] post.queue.told[n + i] == (
                Told::Disconnect {
                    name: pre.queue.channels[i].name@,
                    code: DisconnectInternalCode::Reset,
                })
        }),
{
    reveal(steps);
    reveal(crate::core_steps::queue_did);
    law_every_channel_is_taken_down(pre.queue, pre.queue.channels.len() as int);
}

/// Where a user's session is over, or everything is to be tried again, every task with a
/// try left still stood in the queue before the queue was looked at again.
pub proof fn law_a_retry_loses_no_task_with_a_try_left(
    word: CoreTold,
    pre: PiecesView,
    post: PiecesView,
)
    requires
        steps(word, pre, post),
        word is LongRetry,
        word->LongRetry_err_type != ErrCmdType::NoError,
        word->LongRetry_handle == TaskFailHandleType::SessionTimeout || word->LongRetry_handle
            == TaskFailHandleType::RetryAllTasks,
    ensures
        exists|mid: QueueView, a: LoopAnswers|
            {
                &&& #[trigger] run_loop(mid, word->LongRetry_now, a, post.queue)
                &&& forall|i: int|
                    0 <= i < pre.queue.tasks.len() && ((
                    #[trigger] pre.queue.tasks[i]).remain_retry_count > 0
                        || pre.queue.tasks[i].running is None) ==> still_stands(
                        pre.queue.tasks[i],
                        mid,
                    )
            },
{
    reveal(steps);
    reveal(crate::core_steps::queue_did);
    match word {
        CoreTold::LongRetry { now, err_type, err_code, handle, src_taskid, user_id } => {
            let failure = Failure { err_type, err_code, fail_handle: handle, src_taskid };
            let a = choose|a: RetryAnswers| #[trigger]
                users_retried(pre.queue, now, failure, user_id, a, post.queue);
            assert forall|i: int|
                0 <= i < pre.queue.tasks.len() && ((
                #[trigger] pre.queue.tasks[i]).remain_retry_count > 0
                    || pre.queue.tasks[i].running is None) implies still_stands(
                pre.queue.tasks[i],
                a.mid,
            ) by {
                law_a_retry_keeps_every_task_with_a_try_left(
                    pre.queue,
                    now,
                    failure,
                    user_id,
                    a,
                    post.queue,
                    i,
                );
            }
            assert(run_loop(a.mid, now, a.pass, post.queue));
        },
        _ => {},
    }
}

/// A task the core puts on the queue is put in as it is, on its channel, and the queue is
/// looked at at that reading; a queue takes no more tasks than it can count.
pub proof fn law_what_a_start_does(
    now: u64,
    task: Task,
    channel: i32,
    answer: bool,
    pre: PiecesView,
    post: PiecesView,
)
    requires
        steps(CoreTold::LongStart { now, task, channel, answer }, pre, post),
    ensures
        answer <==> pre.queue.tasks.len() < i32::MAX,
        !answer ==> post.queue == pre.queue,
        answer ==> exists|given: Task, timeout: u64, a: LoopAnswers|
            given.same(&task) && #[trigger] run_loop(
                queued(pre.queue, now, given, channel, timeout),
                now,
                a,
                post.queue,
            ),
{
    reveal(steps);
    reveal(crate::core_steps::queue_did);
}

/// What a change of the network, and a redo of everything, do to the queue: the one asks
/// every channel, the other makes every channel again and cancels what is out on any.
pub proof fn law_what_a_redo_does(now: u64, pre: PiecesView, post: PiecesView)
    ensures
        steps(CoreTold::LongNetworkChange { now }, pre, post) ==> exists|
            a: Seq<crate::queue_spec::ChangeAnswers>,
        | #[trigger]
            crate::queue_spec::network_changed(pre.queue, now, a, post.queue),
        steps(CoreTold::LongRedo { now }, pre, post) ==> exists|
            a: crate::queue_spec::RedoAnswers,
        | #[trigger]
            crate::queue_spec::redone(
                crate::queue_spec::channels_reset(
                    pre.queue,
                    pre.queue.channels.len() as int,
                ),
                now,
                Seq::empty(),
                a,
                post.queue,
            ),
        steps(CoreTold::LongResetTimeout, pre, post) ==> post.queue.timeout == DynamicView::fresh()
            && post.queue.tasks == pre.queue.tasks && post.queue.told == pre.queue.told,
{
    reveal(steps);
    reveal(crate::core_steps::queue_did);
}

/// A channel that is removed takes its tasks with it, each told to the app as one whose
/// link is gone; one that is not there changes nothing.
pub proof fn law_what_removing_a_channel_does(
    now: u64,
    name: Seq<char>,
    pre: PiecesView,
    post: PiecesView,
)
    requires
        steps(CoreTold::LongRemove { now, name }, pre, post),
    ensures
        !post.queue.has_channel(name),
        pre.queue.has_channel(name) ==> went_over(
            pre.queue,
            post.queue,
            goes_with(name),
            is_kept(),
            is_told_gone(),
        ),
        !pre.queue.has_channel(name) ==> post.queue == pre.queue,
{
    reveal(steps);
    reveal(crate::core_steps::queue_did);
    if pre.queue.has_channel(name) {
        let answers = choose|answers: Seq<ConnectView>| #[trigger]
            released(pre.queue, now, name, answers, post.queue);
        law_who_stays_of_a_released_channel(pre.queue, now, name, answers, post.queue);
    }
}

/// What the app hears of a task of a queue that is closed.
pub open spec fn is_told_reset() -> spec_fn(TaskView, Told) -> bool {
    |t: TaskView, word: Told|
        is_end_of(t, ErrCmdType::Local, (-9) as i32, TaskFailHandleType::TaskEnd, word)
}

/// A queue that is closed tells the app of every task it had, in their order, as one the
/// core went away under; no task and no channel is left.
pub proof fn law_what_closing_does(now: u64, pre: PiecesView, post: PiecesView)
    requires
        steps(CoreTold::QueueClosed { now }, pre, post),
    ensures
        ({
            let before = told_over(pre.queue.told);
            let since = told_over(post.queue.told);
            &&& post.queue.tasks.len() == 0
            &&& post.queue.channels.len() == 0
            &&& since.len() == before.len() + pre.queue.tasks.len()
            &&& forall|j: int|
                0 <= j < pre.queue.tasks.len() ==> is_end_of(
                    #[trigger] pre.queue.tasks[j],
                    ErrCmdType::Local,
                    (-9) as i32,
                    TaskFailHandleType::TaskEnd,
                    since[before.len() + j],
                )
        }),
{
    reveal(steps);
    reveal(crate::core_steps::queue_did);
    let failure = Failure {
        err_type: ErrCmdType::Local,
        err_code: (-9) as i32,
        fail_handle: TaskFailHandleType::TaskEnd,
        src_taskid: 0,
    };
    let (answers, mid) = choose|answers: Seq<ConnectView>, mid: QueueView| #[trigger]
        batch_error(pre.queue, now, Seq::empty(), failure, false, answers, mid) && post.queue == (
        QueueView { channels: Seq::empty(), ..mid });
    law_who_stays_of_a_failed_channel(
        pre.queue,
        now,
        Seq::empty(),
        failure,
        false,
        answers,
        mid,
    );
    let over = crate::queue_promises::is_ended(Seq::empty(), failure, false);
    let left = crate::queue_promises::is_left(Seq::empty(), false);
    let word = crate::queue_promises::is_told_of(failure);
    lemma_all_go(pre.queue.tasks, over);
    let before = told_over(pre.queue.told);
    let since = told_over(post.queue.told);
    let gone = pre.queue.tasks.filter(over);
    assert(went_over(pre.queue, mid, over, left, word));
    assert forall|j: int| 0 <= j < pre.queue.tasks.len() implies is_end_of(
        #[trigger] pre.queue.tasks[j],
        ErrCmdType::Local,
        (-9) as i32,
        TaskFailHandleType::TaskEnd,
        since[before.len() + j],
    ) by {
        assert(word(gone[j], since[before.len() + j]));
    }
}

/// Where every task is over none stays.
proof fn lemma_all_go(tasks: Seq<TaskView>, over: spec_fn(TaskView) -> bool)
    requires
        forall|t: TaskView| #[trigger] over(t),
    ensures
        tasks.filter(over) == tasks,
        tasks.filter(|t: TaskView| !over(t)).len() == 0,
    decreases tasks.len(),
{
    reveal(Seq::filter);
    if tasks.len() > 0 {
        lemma_all_go(tasks.drop_last(), over);
        assert(over(tasks.last()));
        assert(tasks.filter(over) =~= tasks);
    } else {
        assert(tasks.filter(over) =~= tasks);
    }
}

// ---- the links -------------------------------------------------------------------------

/// A link that is made is fresh: it is watched from its reading on, no check of it is
/// due, and it is the one the app handed over; one that is dropped is gone, and all are
/// where they are cleared.
pub proof fn law_what_becomes_of_the_links(word: CoreTold, pre: PiecesView, post: PiecesView)
    requires
        steps(word, pre, post),
    ensures
        word is LinkMake ==> ({
            let name = word->LinkMake_config.name@;
            &&& post.links.contains_key(name)
            &&& post.links[name].config.same(&word->LinkMake_config)
            &&& post.links[name].checker.period_due is None
            &&& post.links[name].monitor.status == LongLinkStatus::DisConnected
            &&& post.links[name].monitor.is_keep_alive == word->LinkMake_config.is_keep_alive
            &&& post.links.remove(name) == pre.links.remove(name)
        }),
        word is LinkDrop ==> post.links == pre.links.remove(word->LinkDrop_name),
        word is LinksClear ==> post.links.dom() == Set::<Seq<char>>::empty(),
        word is LinkStatus ==> post == pre && (pre.links.contains_key(word->LinkStatus_name)
            ==> word->LinkStatus_answer == pre.links[word->LinkStatus_name].link.status),
        word is LinkMakeSure && pre.links.contains_key(word->LinkMakeSure_name)
            ==> post.links[word->LinkMakeSure_name].link
            == pre.links[word->LinkMakeSure_name].link.made_sure().0,
        word is LinkMakeSure && !pre.links.contains_key(word->LinkMakeSure_name) ==> post.links
            == pre.links,
{
    reveal(steps);
    reveal(crate::core_steps::links_did);
    match word {
        CoreTold::LinkMake { config, encoder } => {
            assert(post.links.remove(config.name@) =~= pre.links.remove(config.name@));
        },
        CoreTold::LinksClear => {
            assert(post.links.dom() =~= Set::<Seq<char>>::empty());
        },
        _ => {},
    }
}

// ---- the source and the diagnosis ----------------------------------------------------------

/// Clearing the cache starts the history of the pairs over, and lets quic and ipv6 back
/// in; nothing else of the source changes.
pub proof fn law_what_clearing_the_cache_does(pre: PiecesView, post: PiecesView)
    requires
        steps(CoreTold::ClearCache, pre, post),
    ensures
        post.source.told == pre.source.told.push(SourceTold::HistoryInit),
        post.source.timeouts.quic_enabled,
        post.source.timeouts.ipv6_enabled,
        post.source.timeouts.quic_forbidden == pre.source.timeouts.quic_forbidden,
        post.source.backup == pre.source.backup,
        post.source.longlink_ports == pre.source.longlink_ports,
        post.source.shortlink_port == pre.source.shortlink_port,
        post.queue == pre.queue,
        post.links == pre.links,
{
    reveal(steps);
    reveal(crate::core_steps::rest_did);
}

/// A task that finished counts on the link it finished on, as it went.
pub proof fn law_what_a_finished_task_is_counted_on(
    now: u64,
    fails: u32,
    ok: bool,
    pre: PiecesView,
    post: PiecesView,
)
    ensures
        steps(CoreTold::CheckLong { now, fails, ok }, pre, post) ==> post.check.longlink
            == pre.check.longlink.noted(now, ok) && post.check.shortlink == pre.check.shortlink,
        steps(CoreTold::CheckShort { now, fails, ok }, pre, post) ==> post.check.shortlink
            == pre.check.shortlink.noted(now, ok) && post.check.longlink == pre.check.longlink,
{
    reveal(steps);
    reveal(crate::core_steps::rest_did);
}

/// A pair is reported to the history where it has an ip, a port for a long link, and
/// there is a network; a report of any other changes nothing.
pub proof fn law_which_pair_is_reported(
    now: u64,
    secs: u64,
    ok: bool,
    ip: Seq<char>,
    port: u16,
    pre: PiecesView,
    post: PiecesView,
)
    requires
        steps(CoreTold::ReportLong { now, secs, ok, ip, port }, pre, post),
    ensures
        ip.len() == 0 || port == 0 ==> post == pre,
        ip.len() > 0 && port != 0 ==> {
            &&& post.source.net_info != -1 ==> post.source.told == pre.source.told.push(
                SourceTold::Update { now, now_secs: secs, ip, port, is_success: ok },
            )
            &&& post.source.net_info == -1 ==> post.source.told == pre.source.told
            &&& post.queue == pre.queue
            &&& post.links == pre.links
        },
{
    reveal(steps);
    reveal(crate::core_steps::rest_did);
}

// ---- what is routed ------------------------------------------------------------------------

/// Which network it is: a mobile one by its number, and a fixed one by any other.
pub proof fn law_which_network_it_is(net_info: i32)
    ensures
        kind_of(net_info) == NetworkKind::Mobile <==> net_info == 2,
        kind_of(net_info) == NetworkKind::Wifi <==> net_info != 2,
{
}

/// What the queue says goes to one place: an error of the pair and a retry to the core,
/// with what was said, the end of a task and a push to the app, what the network is and
/// whether a request may go out to neither, and everything else to the links.
pub proof fn law_where_a_word_of_the_queue_goes(word: Told)
    ensures
        is_for_links(word) <==> !(word is Ended) && !(word is NetworkErr) && !(word is RetryAllTasks)
            && !(word is Push) && !(word is Network) && !(word is Allowed),
        follow_of(word) is Some <==> word is NetworkErr || word is RetryAllTasks,
        word is NetworkErr ==> follow_of(word) == Some(
            FollowView::LongLinkError {
                name: word->NetworkErr_name,
                err_type: word->NetworkErr_err_type,
                err_code: word->NetworkErr_err_code,
                ip: word->NetworkErr_ip,
                port: word->NetworkErr_port,
            },
        ),
        word is RetryAllTasks ==> follow_of(word) == Some(
            FollowView::Retry {
                err_type: word->RetryAllTasks_err_type,
                err_code: word->RetryAllTasks_err_code,
                handle: word->RetryAllTasks_handle,
                src_taskid: word->RetryAllTasks_src_taskid,
                user_id: word->RetryAllTasks_user_id,
            },
        ),
{
}

/// A push is preprocessed and then given to the app, whole, and nothing else is done.
pub proof fn law_what_a_push_does(
    route: RouteView,
    name: Seq<char>,
    cmdid: u32,
    taskid: u32,
    body: Seq<u8>,
)
    ensures
        ({
            let after = route.pushed(name, cmdid, taskid, body);
            let n = route.told.len() as int;
            &&& after.told.len() == n + 2
            &&& after.told[n] == (RouteTold::PushPreprocess { cmdid, body })
            &&& after.told[n + 1] == (RouteTold::Push { name, cmdid, taskid, body })
            &&& after.pending == route.pending
            &&& after.gates == route.gates
        }),
{
}

/// A request passes the gates with its own limits, and with the one of bytes only on a
/// mobile network.
pub proof fn law_what_the_gates_look_at(task: Task, body: Seq<u8>, net_info: i32, now: u64)
    ensures
        ({
            let asked = RouteView::gate_asked(task, body, net_info, now);
            &&& asked.limit_frequency == task.limit_frequency
            &&& asked.limit_flow == task.limit_flow
            &&& asked.is_mobile == (net_info == 2)
            &&& asked.body == body
            &&& asked.now == now
        }),
{
}

// ---- the rest of the queue -----------------------------------------------------------------

/// A channel is added once, behind the others, and needs tls unless one of its hosts is
/// one tls is forbidden for.
pub proof fn law_what_adding_a_channel_does(
    config: LonglinkConfig,
    answer: bool,
    pre: PiecesView,
    post: PiecesView,
)
    requires
        steps(CoreTold::LongAdd { config, answer }, pre, post),
    ensures
        ({
            let there = exists|i: int|
                0 <= i < pre.queue.channels.len() && (#[trigger] pre.queue.channels[i]).name@
                    == config.name@;
            let added = post.queue.channels.last();
            &&& answer <==> !there
            &&& !answer ==> post.queue == pre.queue
            &&& answer ==> {
                &&& post.queue.channels.len() == pre.queue.channels.len() + 1
                &&& post.queue.channels.drop_last() == pre.queue.channels
                &&& added.name@ == config.name@
                &&& added.is_main == config.is_main
                &&& added.link_type == config.link_type
                &&& texts(added.host_list@) == texts(config.host_list@)
                &&& !added.need_tls <==> exists|h: int|
                    0 <= h < added.host_list@.len() && pre.queue.forbid_tls_hosts.contains(
                        (#[trigger] added.host_list@[h])@,
                    )
                &&& post.queue.tasks == pre.queue.tasks
                &&& post.queue.told == pre.queue.told
            }
        }),
{
    reveal(steps);
    reveal(crate::core_steps::queue_did);
    if answer {
        let given = choose|given: LonglinkConfig|
            #[trigger] given.same(&config) && post.queue == (QueueView {
                channels: pre.queue.channels.push(
                    LonglinkConfig {
                        need_tls: !crate::queue_spec::forbids_tls(
                            pre.queue.forbid_tls_hosts,
                            texts(given.host_list@),
                        ),
                        ..given
                    },
                ),
                ..pre.queue
            });
        let added = post.queue.channels.last();
        assert(post.queue.channels.drop_last() =~= pre.queue.channels);
        let hosts = texts(given.host_list@);
        let forbidden = pre.queue.forbid_tls_hosts;
        if crate::queue_spec::forbids_tls(forbidden, hosts) {
            let h = choose|h: int| 0 <= h < hosts.len() && forbidden.contains(#[trigger] hosts[h]);
            assert(added.host_list@[h]@ == hosts[h]);
        }
        if exists|h: int|
            0 <= h < added.host_list@.len() && forbidden.contains(
                (#[trigger] added.host_list@[h])@,
            ) {
            let h = choose|h: int|
                0 <= h < added.host_list@.len() && forbidden.contains(
                    (#[trigger] added.host_list@[h])@,
                );
            assert(hosts[h] == added.host_list@[h]@);
        }
    }
}

/// The connect of a task is the one of its channel: what that channel answers where it
/// is there, that it is not available where it is not, and a blank one of no task.
pub proof fn law_which_connect_a_task_has(
    taskid: u32,
    answer: ConnectView,
    pre: PiecesView,
    post: PiecesView,
)
    requires
        steps(CoreTold::LongProfile { taskid, answer }, pre, post),
    ensures
        ({
            let at = located(pre.queue.tasks, taskid);
            let name = pre.queue.tasks[at->0].channel_name;
            &&& at is None ==> answer == ConnectView::blank() && post.queue == pre.queue
            &&& at is Some && !pre.queue.has_channel(name) ==> answer == ConnectView::unavailable()
                && post.queue == pre.queue
            &&& at is Some && pre.queue.has_channel(name) ==> post.queue.told
                == pre.queue.told.push(Told::ChannelProfile { name, answer })
            &&& post.queue.tasks == pre.queue.tasks
        }),
{
    reveal(steps);
    reveal(crate::core_steps::queue_did);
}

/// A link that is taken down by one of its tasks is the one the task goes out on, for
/// that reason; the task itself stays.
pub proof fn law_which_link_a_task_takes_down(
    taskid: u32,
    code: DisconnectInternalCode,
    answer: bool,
    pre: PiecesView,
    post: PiecesView,
)
    requires
        steps(CoreTold::LongDisconnect { taskid, code, answer }, pre, post),
    ensures
        ({
            let at = located(pre.queue.tasks, taskid);
            let name = pre.queue.tasks[at->0].channel_name;
            &&& answer <==> at is Some && pre.queue.has_channel(name)
            &&& answer ==> post.queue.told == pre.queue.told.push(Told::Disconnect { name, code })
            &&& !answer ==> post.queue == pre.queue
            &&& post.queue.tasks == pre.queue.tasks
        }),
{
    reveal(steps);
    reveal(crate::core_steps::queue_did);
}

/// When a request went out, and when a package of its answer came in, is written down on
/// its task and on no other: the first time it went out stays, the rest is the last.
pub proof fn law_what_is_written_down_of_a_request(word: CoreTold, pre: PiecesView, post: PiecesView)
    requires
        steps(word, pre, post),
        word is QueueSent || word is QueueReceived,
    ensures
        ({
            let taskid = if word is QueueSent {
                word->QueueSent_taskid
            } else {
                word->QueueReceived_taskid
            };
            let found = if word is QueueSent {
                word->QueueSent_answer
            } else {
                word->QueueReceived_answer
            };
            let at = located(pre.queue.tasks, taskid);
            let t = pre.queue.tasks[at->0].transfer_profile;
            let u = post.queue.tasks[at->0].transfer_profile;
            &&& found <==> at is Some
            &&& !found ==> post.queue == pre.queue
            &&& found && 0 <= at->0 < pre.queue.tasks.len() ==> {
                &&& post.queue.tasks == pre.queue.tasks.update(at->0, post.queue.tasks[at->0])
                &&& post.queue.tasks[at->0].task == pre.queue.tasks[at->0].task
                &&& post.queue.tasks[at->0].running == pre.queue.tasks[at->0].running
                &&& word is QueueSent ==> u.start_send_time == word->QueueSent_now
                    && u.first_start_send_time == (if t.first_start_send_time == 0 {
                    word->QueueSent_now
                } else {
                    t.first_start_send_time
                }) && u.last_receive_pkg_time == t.last_receive_pkg_time
                &&& word is QueueReceived ==> u.last_receive_pkg_time == word->QueueReceived_now
                    && u.received_size == word->QueueReceived_cached_size && u.receive_data_size
                    == word->QueueReceived_total_size && u.start_send_time == t.start_send_time
            }
            &&& post.queue.told == pre.queue.told
        }),
{
    reveal(steps);
    reveal(crate::core_steps::queue_did);
}

/// How many tasks failed in a row is what the queue counted, and asking changes nothing.
pub proof fn law_how_many_tasks_failed(answer: u32, pre: PiecesView, post: PiecesView)
    requires
        steps(CoreTold::LongFails { answer }, pre, post),
    ensures
        answer == pre.queue.fail_count,
        post.queue == pre.queue,
{
    reveal(steps);
    reveal(crate::core_steps::queue_did);
}

/// The tasks of one channel are tried again with that channel named; a touch looks at
/// the queue as it is.
pub proof fn law_what_a_look_at_the_queue_does(now: u64, name: Seq<char>, pre: PiecesView, post: PiecesView)
    ensures
        steps(CoreTold::QueueRedone { now, name }, pre, post) ==> exists|
            a: crate::queue_spec::RedoAnswers,
        | #[trigger]
            crate::queue_spec::redone(pre.queue, now, name, a, post.queue),
        steps(CoreTold::LongTouch { now }, pre, post) ==> exists|a: LoopAnswers| #[trigger]
            run_loop(pre.queue, now, a, post.queue),
        steps(CoreTold::QueueRan { now }, pre, post) ==> exists|a: LoopAnswers| #[trigger]
            run_loop(pre.queue, now, a, post.queue),
{
    reveal(steps);
    reveal(crate::core_steps::queue_did);
}

/// What the queue does reaches no other piece but by what it says: the links are handed
/// what is theirs, the app is asked about the tasks that are over, and what it asks of
/// the core waits behind what waited.
pub proof fn law_what_the_queue_does_is_its_own(word: CoreTold, pre: PiecesView, post: PiecesView)
    requires
        steps(word, pre, post),
        crate::core_steps::is_queue_step(word),
    ensures
        post.links == pre.links,
        post.source == pre.source,
        post.check == pre.check,
        post.outside == pre.outside,
        post.use_long_link == pre.use_long_link,
        pre.queue.told.is_prefix_of(post.queue.told),
        pre.pending.is_prefix_of(post.pending),
        pre.handed.is_prefix_of(post.handed),
        pre.ended.is_prefix_of(post.ended),
{
    reveal(steps);
    let said = pre.said_since(post);
    assert(pre.queue.told =~= (pre.queue.told + said).take(pre.queue.told.len() as int));
    let asked = crate::net_route::follow_ups(said);
    assert(pre.pending =~= (pre.pending + asked).take(pre.pending.len() as int));
    let handed = crate::net_route::link_words(said);
    assert(pre.handed =~= (pre.handed + handed).take(pre.handed.len() as int));
    let ended = crate::net_route::ends_said(said);
    assert(pre.ended =~= (pre.ended + ended).take(pre.ended.len() as int));
}

/// The zombies that are started again are asked of the core, each, behind what waits.
pub proof fn law_the_zombies_are_started_again(now: u64, pre: PiecesView, post: PiecesView)
    requires
        steps(CoreTold::ZombieRedo { now }, pre, post),
    ensures
        exists|tasks: Seq<Task>|
            {
                &&& post.outside == pre.outside.push(
                    #[trigger] zombies_given(now, tasks),
                )
                &&& post.pending.len() == pre.pending.len() + tasks.len()
                &&& forall|i: int|
                    0 <= i < pre.pending.len() ==> #[trigger] post.pending[i] == pre.pending[i]
                &&& forall|i: int|
                    0 <= i < tasks.len() ==> post.pending[pre.pending.len() + i]
                        == FollowView::Start(#[trigger] tasks[i])
            },
        post.queue.tasks == pre.queue.tasks,
        post.links == pre.links,
{
    reveal(steps);
    reveal(crate::core_steps::rest_did);
    let tasks = choose|tasks: Seq<Task>|
        post == pre.passed(CoreTold::ZombiesGiven { now, answer: tasks }).waiting(
            pre.pending + #[trigger] crate::core_steps::starts(tasks),
            post,
        );
    assert(post.outside == pre.outside.push(zombies_given(now, tasks)));
}

/// The zombies were given.
pub open spec fn zombies_given(now: u64, tasks: Seq<Task>) -> CoreTold {
    CoreTold::ZombiesGiven { now, answer: tasks }
}

/// A signal goes out on a link where it is up and nothing else waits, as a task of its
/// own that no answer is waited for; of several only the first does.
pub proof fn law_when_a_signal_goes_out(
    pre: crate::longlink_metadata::MetaView,
    signals: Seq<u32>,
    post: crate::longlink_metadata::MetaView,
)
    requires
        crate::core_steps::signals_sent(pre, signals, post),
    ensures
        ({
            let quiet = pre.link.status == LongLinkStatus::Connected && pre.link.queue.len() == 0;
            let goes = quiet && signals.len() > 0;
            &&& !goes ==> post == pre
            &&& goes ==> {
                &&& post.link.queue.len() == 1
                &&& post.link.queue[0].task.taskid == 0xffff_fffd
                &&& post.link.queue[0].task.cmdid == signals[0]
                &&& post.link.queue[0].task.send_only
                &&& post.link.queue[0].pos == 0
                &&& post.monitor == pre.monitor
                &&& post.checker == pre.checker
            }
        }),
{
}

/// A request is let out exactly where neither gate refuses it, and the gates took note of
/// it either way; which network it is and what time it is were asked first.
pub proof fn law_when_a_request_is_let_out(
    route: RouteView,
    task: Task,
    body: Seq<u8>,
    net_info: i32,
    now: u64,
)
    ensures
        ({
            let asked = RouteView::gate_asked(task, body, net_info, now);
            let after = route.gated(task, body, net_info, now);
            let n = route.told.len() as int;
            &&& route.lets_out(task, body, net_info, now) <==> route.gates.answer(asked) is Ok
            &&& after.gates == route.gates.checked(asked)
            &&& after.told.len() == n + 2
            &&& after.told[n] == (RouteTold::NetInfo { answer: net_info })
            &&& after.told[n + 1] == (RouteTold::Tick { answer: now })
            &&& after.pending == route.pending
        }),
{
}

/// A task that was just made: of an authenticated user, limited in bytes and in how often
/// it goes out, of the middle priority, and with no bound of its own on its tries, its
/// time or what the server takes; it names no channel, no host and no user.
pub proof fn law_what_a_new_task_is(task: Task)
    requires
        task.is_plain(),
    ensures
        task.need_authed && task.limit_flow && task.limit_frequency,
        !task.send_only && !task.network_status_sensitive,
        task.priority == 3,
        task.retry_count == -1 && task.total_timeout == -1 && task.server_process_cost == -1,
        task.channel_select == 0 && task.channel_strategy == 0 && task.channel_id == 0,
        task.channel_name@.len() == 0 && task.cgi@.len() == 0 && task.user_id@.len() == 0,
        task.shortlink_host_list@.len() == 0 && task.longlink_host_list@.len() == 0
            && task.minorlong_host_list@.len() == 0,
{
}

} // verus!
