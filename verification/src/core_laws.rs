//! What holds of a net core and its pieces as a whole.
use vstd::prelude::*;
use crate::core_pieces::{CorePieces, OutsideHost};
use crate::core_steps::{
    drifted, is_queue_step, lemma_cleared, lemma_done, lemma_done_on, lemma_link_answers,
    lemma_link_dropped, lemma_link_gone, lemma_links_cleared, lemma_passed, lemma_removed,
    lemma_settled, lemma_started, lemma_waits, link_views, statuses, steps, tied,
};
use crate::long_link::LinkHost;
use crate::longlink_connect_monitor::LongLinkStatus;
use crate::longlink_metadata::MetaView;
use crate::net_check_logic::NetCheckHost;
use crate::net_core::{status_in, CoreHost, CoreTold, CoreView, NetCore};
use crate::net_route::{ends_said, follow_ups, link_words, Ending, RouteHost};
use crate::net_source::SourceHost;
use crate::netsource_timercheck::TimerCheckHost;
use crate::queue_host::QueueHost;
use crate::queue_laws::{
    ends, law_a_pass_loses_no_task, law_nothing_is_left_of_a_released_channel,
    law_tasks_stand_by_priority,
};
use crate::queue_spec::{queued, released, run_loop, LoopAnswers};
use crate::task::Task;
use crate::task_profile::ConnectView;

verus! {

/// What happened to the pieces when a thing was asked.
proof fn lemma_step<
    X: OutsideHost<R, L, K, T>,
    R: RouteHost,
    L: QueueHost,
    S: SourceHost,
    C: NetCheckHost,
    K: LinkHost,
    T: TimerCheckHost,
>(pieces: CorePieces<X, R, L, S, C, K, T>, i: int)
    requires
        pieces.ready(),
        0 <= i < pieces.heard().len(),
    ensures
        steps(pieces.heard()[i], pieces.befores@[i], pieces.states@[i + 1]),
        drifted(pieces.states@[i], pieces.befores@[i]),
        drifted(pieces.states@.last(), pieces.pieces()),
        pieces.states@.len() == pieces.heard().len() + 1,
        pieces.states@[i].queue.wf(),
{
    reveal(tied);
    assert(steps(pieces.heard@[i], pieces.befores@[i], pieces.states@[i + 1]));
}

/// What the long-link queue says is done: from when the core was made on, the links
/// were handed exactly what the queue said to them, and, where no task was ended past
/// the queue, the app was asked about exactly the tasks the queue said to be over, in
/// that order.
pub proof fn law_what_the_queue_says_is_done<
    X: OutsideHost<R, L, K, T>,
    R: RouteHost,
    L: QueueHost,
    S: SourceHost,
    C: NetCheckHost,
    K: LinkHost,
    T: TimerCheckHost,
>(core: NetCore<CorePieces<X, R, L, S, C, K, T>>, j: int)
    requires
        core@.ready,
        0 <= j <= core@.told.len(),
    ensures
        ({
            let first = core.host.states@[0];
            let here = core.host.states@[j];
            let said = first.said_since(here);
            &&& here.queue.told == first.queue.told + said
            &&& here.handed == first.handed + link_words(said)
            &&& (forall|k: int| 0 <= k < j ==> !((#[trigger] core@.told[k]) is CalledBack))
                ==> here.ended == first.ended + ends_said(said)
        }),
    decreases j,
{
    let first = core.host.states@[0];
    let here = core.host.states@[j];
    if j == 0 {
        assert(first.said_since(here) =~= seq![]);
        assert(first.queue.told + seq![] =~= first.queue.told);
        assert(first.handed + link_words(seq![]) =~= first.handed);
        assert(first.ended + ends_said(seq![]) =~= first.ended);
    } else {
        law_what_the_queue_says_is_done(core, j - 1);
        lemma_step(core.host, j - 1);
        let before = core.host.befores@[j - 1];
        lemma_done(core@.told[j - 1], before, here);
        lemma_done_on(first, core.host.states@[j - 1], before, here);
        if forall|k: int| 0 <= k < j ==> !((#[trigger] core@.told[k]) is CalledBack) {
            assert(!(core@.told[j - 1] is CalledBack));
        }
    }
}

/// Nothing the queues asked of the core is lost on the way: what waited goes on
/// waiting, with what was asked since behind it, until the core takes the oldest.
pub proof fn law_what_was_asked_of_the_core_is_kept<
    X: OutsideHost<R, L, K, T>,
    R: RouteHost,
    L: QueueHost,
    S: SourceHost,
    C: NetCheckHost,
    K: LinkHost,
    T: TimerCheckHost,
>(core: NetCore<CorePieces<X, R, L, S, C, K, T>>, i: int)
    requires
        core@.ready,
        0 <= i < core@.told.len(),
    ensures
        ({
            let pre = core.host.befores@[i];
            let post = core.host.states@[i + 1];
            match core@.told[i] {
                CoreTold::NextPending { answer: Some(next) } => {
                    &&& pre.pending.len() > 0
                    &&& next == pre.pending[0]
                    &&& post.pending == pre.pending.drop_first()
                },
                _ => pre.pending.is_prefix_of(post.pending),
            }
        }),
        ({
            let pre = core.host.befores@[i];
            let post = core.host.states@[i + 1];
            is_queue_step(core@.told[i]) ==> post.pending == pre.pending + follow_ups(
                pre.said_since(post),
            )
        }),
{
    lemma_step(core.host, i);
    lemma_waits(core@.told[i], core.host.befores@[i], core.host.states@[i + 1]);
}

/// A core that was released leaves no task in the long-link queue, and no link.
pub proof fn law_a_released_core_holds_no_task_and_no_link<
    X: OutsideHost<R, L, K, T>,
    R: RouteHost,
    L: QueueHost,
    S: SourceHost,
    C: NetCheckHost,
    K: LinkHost,
    T: TimerCheckHost,
>(before: CoreView, core: NetCore<CorePieces<X, R, L, S, C, K, T>>)
    requires
        core@.ready,
        core@ == before.let_go(),
    ensures
        core.host.queue@.tasks.len() == 0,
        core.host.pieces().links == Map::<Seq<char>, MetaView>::empty(),
{
    let heard = core.host.heard();
    let n = before.told.len() as int;
    let words = CoreView::clear_words().push(CoreTold::LinksClear).push(CoreTold::SyncCancel);
    assert(heard == before.told + words);
    assert(words.len() == 5);
    assert(heard[n] == CoreTold::LongClear);
    assert(heard[n + 1] == CoreTold::ZombieClear);
    assert(heard[n + 2] == CoreTold::ShortClear);
    assert(heard[n + 3] == CoreTold::LinksClear);
    assert(heard[n + 4] == CoreTold::SyncCancel);
    lemma_step(core.host, n);
    lemma_step(core.host, n + 1);
    lemma_step(core.host, n + 2);
    lemma_step(core.host, n + 3);
    lemma_step(core.host, n + 4);
    let befores = core.host.befores@;
    let states = core.host.states@;
    lemma_cleared(befores[n], states[n + 1]);
    lemma_passed(CoreTold::ZombieClear, befores[n + 1]);
    lemma_passed(CoreTold::ShortClear, befores[n + 2]);
    lemma_links_cleared(befores[n + 3], states[n + 4]);
    lemma_passed(CoreTold::SyncCancel, befores[n + 4]);
    assert(core.host.pieces().links =~= Map::empty());
}

/// A link the core destroyed leaves neither its channel nor a task of it in the
/// long-link queue.
pub proof fn law_a_destroyed_link_leaves_nothing<
    X: OutsideHost<R, L, K, T>,
    R: RouteHost,
    L: QueueHost,
    S: SourceHost,
    C: NetCheckHost,
    K: LinkHost,
    T: TimerCheckHost,
>(before: CoreView, now: u64, name: Seq<char>, core: NetCore<CorePieces<X, R, L, S, C, K, T>>)
    requires
        core@.ready,
        core@ == before.link_destroyed(now, name),
        core.host.befores@[before.told.len() as int].queue.has_channel(name),
    ensures
        !core.host.queue@.has_channel(name),
        forall|j: int|
            0 <= j < core.host.queue@.tasks.len() ==> (
            #[trigger] core.host.queue@.tasks[j]).channel_name != name,
{
    let heard = core.host.heard();
    let n = before.told.len() as int;
    assert(heard[n] == CoreTold::LongRemove { now, name });
    assert(heard[n + 1] == CoreTold::LinkDrop { name });
    lemma_step(core.host, n);
    lemma_step(core.host, n + 1);
    let pre = core.host.befores@[n].queue;
    let post = core.host.states@[n + 1].queue;
    lemma_removed(now, name, core.host.befores@[n], core.host.states@[n + 1]);
    lemma_link_dropped(name, core.host.befores@[n + 1], core.host.states@[n + 2]);
    let answers = choose|answers: Seq<ConnectView>| #[trigger]
        released(pre, now, name, answers, post);
    law_nothing_is_left_of_a_released_channel(pre, now, name, answers, post);
}

/// A task the core put on the long link is in the queue, or the end of a task was
/// told: no task is lost on the way.
pub proof fn law_what_the_core_put_in_is_not_lost<
    X: OutsideHost<R, L, K, T>,
    R: RouteHost,
    L: QueueHost,
    S: SourceHost,
    C: NetCheckHost,
    K: LinkHost,
    T: TimerCheckHost,
>(core: NetCore<CorePieces<X, R, L, S, C, K, T>>, i: int)
    requires
        core@.ready,
        0 <= i < core@.told.len(),
        core@.told[i] is LongStart,
        core@.told[i]->LongStart_answer,
    ensures
        ({
            let pre = core.host.befores@[i].queue;
            let post = core.host.states@[i + 1].queue;
            post.tasks.len() + ends(post.told) == pre.tasks.len() + ends(pre.told) + 1
        }),
{
    lemma_step(core.host, i);
    let pre = core.host.befores@[i].queue;
    let post = core.host.states@[i + 1].queue;
    match core@.told[i] {
        CoreTold::LongStart { now, task, channel, answer } => {
            lemma_started(
                now,
                task,
                channel,
                answer,
                core.host.befores@[i],
                core.host.states@[i + 1],
            );
            let (given, timeout, a) = choose|given: Task, timeout: u64, a: LoopAnswers|
                given.same(&task) && #[trigger] run_loop(
                    queued(pre, now, given, channel, timeout),
                    now,
                    a,
                    post,
                );
            law_tasks_stand_by_priority(pre, now, given, channel, timeout);
            law_a_pass_loses_no_task(queued(pre, now, given, channel, timeout), now, a, post);
            let mid = queued(pre, now, given, channel, timeout);
            assert(mid.told.drop_last() =~= pre.told);
            assert(ends(mid.told) == ends(pre.told));
        },
        _ => {},
    }
}

/// What the queues asked of the core while they were running is done in the order
/// it was asked in: each thing that is taken was the oldest, and nothing is taken
/// where there is none.
pub proof fn law_what_was_asked_first_is_done_first<
    X: OutsideHost<R, L, K, T>,
    R: RouteHost,
    L: QueueHost,
    S: SourceHost,
    C: NetCheckHost,
    K: LinkHost,
    T: TimerCheckHost,
>(core: NetCore<CorePieces<X, R, L, S, C, K, T>>, i: int)
    requires
        core@.ready,
        0 <= i < core@.told.len(),
        core@.told[i] is NextPending,
    ensures
        ({
            let pre = core.host.befores@[i].pending;
            let post = core.host.states@[i + 1].pending;
            match core@.told[i]->NextPending_answer {
                Some(next) => pre.len() > 0 && next == pre[0] && post == pre.drop_first(),
                None => pre.len() == 0 && post.len() == 0,
            }
        }),
{
    lemma_step(core.host, i);
    lemma_waits(core@.told[i], core.host.befores@[i], core.host.states@[i + 1]);
}

/// The queues go by the long link as the core does, in every state a core comes to:
/// one that was made is ready, and stays so. So a core that does not use the long
/// link has no task saved that failed on one of its links.
pub proof fn law_the_queues_use_the_long_link_as_the_core_does<
    X: OutsideHost<R, L, K, T>,
    R: RouteHost,
    L: QueueHost,
    S: SourceHost,
    C: NetCheckHost,
    K: LinkHost,
    T: TimerCheckHost,
>(core: NetCore<CorePieces<X, R, L, S, C, K, T>>)
    requires
        core@.ready,
    ensures
        core.host.queue.host.use_long_link == core.use_long_link,
        core.host.queue.host@.use_long_link == core@.use_long_link,
        !core.use_long_link ==> forall|ending: Ending|
            !(#[trigger] ending.may_be_saved(core.host.queue.host.use_long_link)),
{
}

/// What was settled last is what the queues go by from there on, until it is settled
/// again.
pub proof fn law_what_was_settled_holds<
    X: OutsideHost<R, L, K, T>,
    R: RouteHost,
    L: QueueHost,
    S: SourceHost,
    C: NetCheckHost,
    K: LinkHost,
    T: TimerCheckHost,
>(core: NetCore<CorePieces<X, R, L, S, C, K, T>>, i: int, j: int)
    requires
        core@.ready,
        0 <= i < j <= core@.told.len(),
        core@.told[i] is UseLongLink,
        forall|k: int| i < k < j ==> !((#[trigger] core@.told[k]) is UseLongLink),
    ensures
        core.host.states@[j].use_long_link == core@.told[i]->UseLongLink_use_long_link,
    decreases j - i,
{
    lemma_step(core.host, j - 1);
    lemma_settled(core@.told[j - 1], core.host.befores@[j - 1], core.host.states@[j]);
    if i < j - 1 {
        law_what_was_settled_holds(core, i, j - 1);
        assert(!(core@.told[j - 1] is UseLongLink));
    }
}

/// The links the core knows are the links that were made and not let go since.
pub proof fn law_the_core_knows_its_links<
    X: OutsideHost<R, L, K, T>,
    R: RouteHost,
    L: QueueHost,
    S: SourceHost,
    C: NetCheckHost,
    K: LinkHost,
    T: TimerCheckHost,
>(core: NetCore<CorePieces<X, R, L, S, C, K, T>>)
    requires
        core@.ready,
    ensures
        core.host.links@.dom() == core@.links,
{
    assert(core.host.links@.dom() =~= statuses(link_views(core.host.links@)).dom());
}

/// A link that is asked where it is answers for the link made under that name: a
/// link there is not is idle.
pub proof fn law_a_link_answers_for_itself<
    X: OutsideHost<R, L, K, T>,
    R: RouteHost,
    L: QueueHost,
    S: SourceHost,
    C: NetCheckHost,
    K: LinkHost,
    T: TimerCheckHost,
>(core: NetCore<CorePieces<X, R, L, S, C, K, T>>, i: int)
    requires
        core@.ready,
        0 <= i < core@.told.len(),
        core@.told[i] is LinkStatus,
    ensures
        core@.told[i]->LinkStatus_answer == status_in(
            statuses(core.host.befores@[i].links),
            core@.told[i]->LinkStatus_name,
        ),
{
    lemma_step(core.host, i);
    match core@.told[i] {
        CoreTold::LinkStatus { name, answer } => {
            lemma_link_answers(name, answer, core.host.befores@[i], core.host.states@[i + 1]);
        },
        _ => {},
    }
}

/// A link that was let go answers no more: until one of its name is made again
/// there is none.
pub proof fn law_a_dropped_link_answers_no_more<
    X: OutsideHost<R, L, K, T>,
    R: RouteHost,
    L: QueueHost,
    S: SourceHost,
    C: NetCheckHost,
    K: LinkHost,
    T: TimerCheckHost,
>(core: NetCore<CorePieces<X, R, L, S, C, K, T>>, name: Seq<char>, i: int, j: int)
    requires
        core@.ready,
        0 <= i < j <= core@.told.len(),
        core@.told[i] == (CoreTold::LinkDrop { name }) || core@.told[i] == CoreTold::LinksClear,
        forall|k: int|
            i < k < j ==> !((#[trigger] core@.told[k]) matches CoreTold::LinkMake { config, .. }
                && config.name@ == name),
    ensures
        !core.host.states@[j].links.contains_key(name),
        j < core@.told.len() && core@.told[j] is LinkStatus && core@.told[j]->LinkStatus_name
            == name ==> core@.told[j]->LinkStatus_answer == LongLinkStatus::ConnectIdle,
    decreases j - i,
{
    lemma_step(core.host, j - 1);
    if i < j - 1 {
        law_a_dropped_link_answers_no_more(core, name, i, j - 1);
        assert(!(core@.told[j - 1] matches CoreTold::LinkMake { config, .. } && config.name@
            == name));
    }
    lemma_link_gone(core@.told[j - 1], core.host.befores@[j - 1], core.host.states@[j], name);
    if j < core@.told.len() {
        lemma_step(core.host, j);
        match core@.told[j] {
            CoreTold::LinkStatus { name: asked, answer } => {
                lemma_link_answers(
                    asked,
                    answer,
                    core.host.befores@[j],
                    core.host.states@[j + 1],
                );
            },
            _ => {},
        }
    }
}

} // verus!
