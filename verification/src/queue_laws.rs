//! What always holds of the long-link queue.
use vstd::prelude::*;
use crate::dynamic_timeout::NetworkKind;
use crate::queue_host::Told;
use crate::queue_spec::{
    batch_end, batch_error, batch_found, batch_hits, batch_steps, by_priority, channel_failed,
    channels_dropped, channels_failed, channels_without, expire_steps, expired, first_text,
    forbidden_with, forbids_tls, is_entry, is_slot, located, queued, received, release_steps,
    released, responded, run_loop, slot, start_pass, timeout_failure, timeout_noted, turn,
    turn_connect, turn_encode, turn_gate, turn_send, turns, upserted, BatchAnswers, BatchEntry,
    ConnectAnswers, EncodeAnswers, Expired, Failure, LoopAnswers, Pass, QueueView, RespHandle,
    ResponseAnswers, ResponseView, SendAnswers, SendCursor, Timeout, TurnAnswers, RETRY_INTERNAL,
};
use crate::task::{has_part, Task};
use crate::task_profile::{
    last_failed_noted, ConnectView, ErrCmdType, TaskFailHandleType, TaskView, LONG_TASK_TIMEOUT,
};

verus! {

/// The tasks of every other channel.
pub open spec fn off_channel(tasks: Seq<TaskView>, name: Seq<char>) -> Seq<TaskView>
    decreases tasks.len(),
{
    if tasks.len() == 0 {
        seq![]
    } else if tasks.last().channel_name != name {
        off_channel(tasks.drop_last(), name).push(tasks.last())
    } else {
        off_channel(tasks.drop_last(), name)
    }
}

/// How many tasks the app was told to be over.
pub open spec fn ends(told: Seq<Told>) -> nat
    decreases told.len(),
{
    if told.len() == 0 {
        0
    } else {
        ends(told.drop_last()) + if told.last() is Ended {
            1nat
        } else {
            0nat
        }
    }
}

/// A task of the channel that leaves is not missed on another.
proof fn lemma_off_removed(tasks: Seq<TaskView>, name: Seq<char>, i: int)
    requires
        0 <= i < tasks.len(),
        tasks[i].channel_name == name,
    ensures
        off_channel(tasks.remove(i), name) == off_channel(tasks, name),
    decreases tasks.len(),
{
    if i == tasks.len() - 1 {
        assert(tasks.remove(i) =~= tasks.drop_last());
    } else {
        assert(tasks.remove(i).drop_last() =~= tasks.drop_last().remove(i));
        assert(tasks.remove(i).last() == tasks.last());
        lemma_off_removed(tasks.drop_last(), name, i);
    }
}

/// A task of the channel that is written on is not seen on another.
proof fn lemma_off_updated(tasks: Seq<TaskView>, name: Seq<char>, i: int, t: TaskView)
    requires
        0 <= i < tasks.len(),
        tasks[i].channel_name == name,
        t.channel_name == name,
    ensures
        off_channel(tasks.update(i, t), name) == off_channel(tasks, name),
    decreases tasks.len(),
{
    if i == tasks.len() - 1 {
        assert(tasks.update(i, t).drop_last() =~= tasks.drop_last());
    } else {
        assert(tasks.update(i, t).drop_last() =~= tasks.drop_last().update(i, t));
        assert(tasks.update(i, t).last() == tasks.last());
        lemma_off_updated(tasks.drop_last(), name, i, t);
    }
}

/// One more thing was said.
proof fn lemma_ends_push(told: Seq<Told>, word: Told)
    ensures
        ends(told.push(word)) == ends(told) + if word is Ended {
            1nat
        } else {
            0nat
        },
{
    assert(told.push(word).drop_last() =~= told);
}

/// The task at `i` is failed: the other channels keep their tasks, and a task
/// that leaves is told.
proof fn lemma_failed_at(
    q: QueueView,
    now: u64,
    i: int,
    err_type: ErrCmdType,
    err_code: i32,
    handle: TaskFailHandleType,
    answer: ConnectView,
)
    requires
        0 <= i < q.tasks.len(),
    ensures
        ({
            let name = q.tasks[i].channel_name;
            let after = q.failed_at(now, i, err_type, err_code, handle, answer).q;
            &&& off_channel(after.tasks, name) == off_channel(q.tasks, name)
            &&& after.tasks.len() + ends(after.told) == q.tasks.len() + ends(q.told)
            &&& after.channels == q.channels
        }),
{
    let name = q.tasks[i].channel_name;
    let asked = q.profile_asked(name, answer);
    let after = q.failed_at(now, i, err_type, err_code, handle, answer).q;
    if q.has_channel(name) {
        lemma_ends_push(q.told, Told::ChannelProfile { name, answer });
    }
    if q.is_over(i, err_type, handle) {
        lemma_off_removed(q.tasks, name, i);
        lemma_ends_push(asked.told, after.told.last());
        assert(after.told.drop_last() =~= asked.told);
    } else {
        lemma_off_updated(q.tasks, name, i, after.tasks[i]);
    }
}

/// The steps of a failed channel.
proof fn lemma_batch_steps(
    q: QueueView,
    now: u64,
    name: Seq<char>,
    failure: Failure,
    running_only: bool,
    answers: Seq<ConnectView>,
)
    requires
        name.len() > 0,
    ensures
        ({
            let c = batch_steps(q, now, name, failure, running_only, answers);
            &&& off_channel(c.q.tasks, name) == off_channel(q.tasks, name)
            &&& c.q.tasks.len() + ends(c.q.told) == q.tasks.len() + ends(q.told)
            &&& c.q.channels == q.channels
            &&& c.i >= 0
        }),
    decreases answers.len(),
{
    if answers.len() > 0 {
        lemma_batch_steps(q, now, name, failure, running_only, answers.drop_last());
        let c = batch_steps(q, now, name, failure, running_only, answers.drop_last());
        if !c.done() && batch_hits(c, name, running_only) {
            let about = failure.src_taskid == Task::INVALID_TASK_ID || failure.src_taskid
                == c.q.tasks[c.i].task.taskid;
            lemma_failed_at(
                c.q,
                now,
                c.i,
                failure.err_type,
                if about {
                    failure.err_code
                } else {
                    0
                },
                failure.fail_handle,
                answers.last(),
            );
        }
    }
}

/// The end of a failed channel changes no task and ends none.
proof fn lemma_batch_end(q: QueueView, now: u64, name: Seq<char>, failure: Failure)
    ensures
        batch_end(q, now, name, failure).tasks == q.tasks,
        batch_end(q, now, name, failure).channels == q.channels,
        ends(batch_end(q, now, name, failure).told) == ends(q.told),
{
    assert forall|told: Seq<Told>, word: Told| !(word is Ended) implies ends(
        #[trigger] told.push(word),
    ) == ends(told) by {
        lemma_ends_push(told, word);
    }
}

/// A channel that is failed fails on its own: the tasks of every other channel
/// stay what they were, in their order.
pub proof fn law_a_failed_channel_leaves_the_others_alone(
    pre: QueueView,
    now: u64,
    name: Seq<char>,
    failure: Failure,
    running_only: bool,
    answers: Seq<ConnectView>,
    post: QueueView,
)
    requires
        name.len() > 0,
        batch_error(pre, now, name, failure, running_only, answers, post),
    ensures
        off_channel(post.tasks, name) == off_channel(pre.tasks, name),
        post.channels == pre.channels,
{
    lemma_batch_steps(pre, now, name, failure, running_only, answers);
    let c = batch_steps(pre, now, name, failure, running_only, answers);
    lemma_batch_end(c.q, now, name, failure);
}

/// No task of a failed channel is lost: each is still in the queue, or the app
/// was told that it is over.
pub proof fn law_a_failed_task_waits_or_is_told(
    pre: QueueView,
    now: u64,
    name: Seq<char>,
    failure: Failure,
    running_only: bool,
    answers: Seq<ConnectView>,
    post: QueueView,
)
    requires
        name.len() > 0,
        batch_error(pre, now, name, failure, running_only, answers, post),
    ensures
        post.tasks.len() + ends(post.told) == pre.tasks.len() + ends(pre.told),
{
    lemma_batch_steps(pre, now, name, failure, running_only, answers);
    let c = batch_steps(pre, now, name, failure, running_only, answers);
    lemma_batch_end(c.q, now, name, failure);
}

/// What the pass over a failed channel went by is not out on it any more.
proof fn lemma_nothing_stays_out(
    q: QueueView,
    now: u64,
    name: Seq<char>,
    failure: Failure,
    running_only: bool,
    answers: Seq<ConnectView>,
)
    requires
        name.len() > 0,
    ensures
        ({
            let c = batch_steps(q, now, name, failure, running_only, answers);
            &&& 0 <= c.i
            &&& forall|j: int|
                0 <= j < c.i && j < c.q.tasks.len() && (#[trigger] c.q.tasks[j]).channel_name
                    == name ==> !c.q.tasks[j].is_running()
        }),
    decreases answers.len(),
{
    if answers.len() > 0 {
        lemma_nothing_stays_out(q, now, name, failure, running_only, answers.drop_last());
    }
}

/// A failure of a channel is one of everything that is out on it: none of its
/// tasks is out afterwards.
pub proof fn law_nothing_stays_out_on_a_failed_channel(
    pre: QueueView,
    now: u64,
    name: Seq<char>,
    failure: Failure,
    running_only: bool,
    answers: Seq<ConnectView>,
    post: QueueView,
)
    requires
        name.len() > 0,
        batch_error(pre, now, name, failure, running_only, answers, post),
    ensures
        forall|j: int|
            0 <= j < post.tasks.len() && (#[trigger] post.tasks[j]).channel_name == name
                ==> !post.tasks[j].is_running(),
{
    lemma_nothing_stays_out(pre, now, name, failure, running_only, answers);
    let c = batch_steps(pre, now, name, failure, running_only, answers);
    lemma_batch_end(c.q, now, name, failure);
}

/// A task that heard nothing fails with everything else that is out on the same
/// link, and the link itself is taken down; the tasks of the other links stay
/// what they were.
pub proof fn law_a_timeout_takes_the_link_down(
    pre: QueueView,
    now: u64,
    entry: BatchEntry,
    a: BatchAnswers,
)
    requires
        entry.name.len() > 0,
        pre.has_channel(entry.name),
        channel_failed(pre, now, entry, a),
    ensures
        forall|j: int|
            0 <= j < a.left.tasks.len() && (#[trigger] a.left.tasks[j]).channel_name == entry.name
                ==> !a.left.tasks[j].is_running(),
        a.left.told.last() == (Told::Disconnect {
            name: entry.name,
            code: crate::long_link::DisconnectInternalCode::TaskTimeout,
        }),
        off_channel(a.left.tasks, entry.name) == off_channel(pre.tasks, entry.name),
{
    let noted = timeout_noted(pre, entry, a.profile);
    let failure = timeout_failure(entry);
    law_nothing_stays_out_on_a_failed_channel(
        noted,
        now,
        entry.name,
        failure,
        true,
        a.each,
        a.left,
    );
    law_a_failed_channel_leaves_the_others_alone(
        noted,
        now,
        entry.name,
        failure,
        true,
        a.each,
        a.left,
    );
}

/// After a channel was failed for anything but a local reason, and unless every
/// task is to be tried again, every task of the queue that was tried before
/// waits [`RETRY_INTERNAL`]: until then a pass does not look at it.
pub proof fn law_every_task_waits_out_the_queue(
    pre: QueueView,
    now: u64,
    name: Seq<char>,
    failure: Failure,
    running_only: bool,
    answers: Seq<ConnectView>,
    post: QueueView,
    later: u64,
    network: NetworkKind,
    i: int,
    sent: int,
    a: TurnAnswers,
)
    requires
        batch_error(pre, now, name, failure, running_only, answers, post),
        failure.err_type != ErrCmdType::Local,
        failure.fail_handle != TaskFailHandleType::SessionTimeout,
        failure.fail_handle != TaskFailHandleType::RetryAllTasks,
        now <= later < now + RETRY_INTERNAL,
        0 <= i < post.tasks.len(),
        !post.tasks[i].is_running(),
        post.tasks[i].retried(),
    ensures
        turn_gate(SendCursor { q: post, i, sent }, start_pass(post, later, network), a) == (
        SendCursor { q: post, i: i + 1, sent }),
{
    reveal(turn_gate);
    let c = batch_steps(pre, now, name, failure, running_only, answers);
    lemma_batch_end(c.q, now, name, failure);
}

/// A task that is out is not sent again: a pass goes by it and says nothing.
pub proof fn law_a_task_that_is_out_is_not_sent_again(c: SendCursor, pass: Pass, a: TurnAnswers)
    requires
        0 <= c.i < c.q.tasks.len(),
        c.q.tasks[c.i].is_running(),
    ensures
        turn_gate(c, pass, a).q == c.q,
{
    reveal(turn_gate);
}

/// A task whose user is not authenticated, or whose channel is not there, waits:
/// the pass leaves it as it is.
pub proof fn law_a_task_without_a_user_or_a_channel_waits(
    c: SendCursor,
    pass: Pass,
    a: TurnAnswers,
)
    requires
        0 <= c.i < c.q.tasks.len(),
        (c.q.tasks[c.i].task.need_authed && !a.authed) || !c.q.has_channel(
            c.q.tasks[c.i].channel_name,
        ),
    ensures
        turn_gate(c, pass, a).q.tasks == c.q.tasks,
        turn_gate(c, pass, a).q.channels == c.q.channels,
{
    reveal(turn_gate);
}

/// The steps of a channel that is gone: what the pass went by is on another
/// channel.
proof fn lemma_release_steps(
    q: QueueView,
    now: u64,
    name: Seq<char>,
    answers: Seq<ConnectView>,
)
    ensures
        ({
            let c = release_steps(q, now, name, answers);
            &&& 0 <= c.i
            &&& off_channel(c.q.tasks, name) == off_channel(q.tasks, name)
            &&& c.q.tasks.len() + ends(c.q.told) == q.tasks.len() + ends(q.told)
            &&& c.q.channels == q.channels
            &&& forall|j: int|
                0 <= j < c.i && j < c.q.tasks.len() ==> (#[trigger] c.q.tasks[j]).channel_name
                    != name
        }),
    decreases answers.len(),
{
    if answers.len() > 0 {
        lemma_release_steps(q, now, name, answers.drop_last());
        let c = release_steps(q, now, name, answers.drop_last());
        if !c.done() && c.q.tasks[c.i].channel_name == name {
            lemma_failed_at(
                c.q,
                now,
                c.i,
                ErrCmdType::Local,
                crate::task_profile::LOCAL_LONG_LINK_RELEASED,
                TaskFailHandleType::TaskEnd,
                answers.last(),
            );
        }
    }
}

/// What is left of a channel that is gone: no task goes out on it, no channel
/// has its name, the tasks of the others are untouched, and the app was told
/// about every task that left.
pub proof fn law_nothing_is_left_of_a_released_channel(
    pre: QueueView,
    now: u64,
    name: Seq<char>,
    answers: Seq<ConnectView>,
    post: QueueView,
)
    requires
        released(pre, now, name, answers, post),
    ensures
        forall|j: int|
            0 <= j < post.tasks.len() ==> (#[trigger] post.tasks[j]).channel_name != name,
        !post.has_channel(name),
        off_channel(post.tasks, name) == off_channel(pre.tasks, name),
        post.tasks.len() + ends(post.told) == pre.tasks.len() + ends(pre.told),
{
    broadcast use vstd::seq_lib::group_filter_ensures;

    lemma_release_steps(pre, now, name, answers);
    let c = release_steps(pre, now, name, answers);
    let left = channels_without(c.q.channels, name);
    assert forall|i: int| 0 <= i < left.len() implies (#[trigger] left[i]).name@ != name by {
        assert(left.contains(left[i]));
    }
}

/// Emptying the queue is not failing its tasks: the app is told about none of
/// them.
pub proof fn law_clearing_tells_nothing(q: QueueView, n: int)
    requires
        0 <= n <= q.channels.len(),
    ensures
        ends(channels_dropped(q, n).told) == ends(q.told),
        channels_dropped(q, n).channels == q.channels,
    decreases n,
{
    if n > 0 {
        law_clearing_tells_nothing(q, n - 1);
        let before = channels_dropped(q, n - 1);
        let name = q.channels[n - 1].name@;
        if before.has_channel(name) {
            lemma_ends_push(
                before.told,
                Told::Disconnect { name, code: crate::long_link::DisconnectInternalCode::Reset },
            );
        }
    }
}

/// A task that has no try left is over with the next answer, whatever it is.
pub proof fn law_a_task_runs_out_of_tries(
    q: QueueView,
    at: int,
    err_type: ErrCmdType,
    handle: TaskFailHandleType,
)
    requires
        0 <= at < q.tasks.len(),
        q.tasks[at].remain_retry_count <= 0,
    ensures
        q.is_over(at, err_type, handle),
{
}

/// An answer that is not the end spends one try of the task and leaves the task
/// where it stands, ready to go out again.
pub proof fn law_a_failure_costs_a_try(
    q: QueueView,
    now: u64,
    at: int,
    err_type: ErrCmdType,
    err_code: i32,
    handle: TaskFailHandleType,
    profile: ConnectView,
)
    requires
        0 <= at < q.tasks.len(),
        !q.is_over(at, err_type, handle),
    ensures
        ({
            let after = q.single_resp(now, at, err_type, err_code, handle, profile);
            &&& after.tasks.len() == q.tasks.len()
            &&& after.tasks[at].remain_retry_count == q.tasks[at].remain_retry_count - 1
            &&& !after.tasks[at].is_running()
            &&& after.tasks[at].task == q.tasks[at].task
            &&& after.tasks[at].channel_name == q.tasks[at].channel_name
            &&& after.told == q.told
        }),
{
}

/// No channel is in the list twice.
pub open spec fn each_once(batch: Seq<BatchEntry>) -> bool {
    forall|i: int, j: int|
        0 <= i < j < batch.len() ==> (#[trigger] batch[i]).name != (#[trigger] batch[j]).name
}

/// A channel that has no entry is not in the list.
proof fn lemma_no_entry(batch: Seq<BatchEntry>, name: Seq<char>)
    requires
        !(exists|i: int| is_entry(batch, name, i)),
    ensures
        forall|i: int| 0 <= i < batch.len() ==> (#[trigger] batch[i]).name != name,
{
    assert forall|i: int| 0 <= i < batch.len() implies (#[trigger] batch[i]).name != name by {
        lemma_no_entry_at(batch, name, i);
    }
}

/// The same, one place at a time.
proof fn lemma_no_entry_at(batch: Seq<BatchEntry>, name: Seq<char>, i: int)
    requires
        !(exists|i: int| is_entry(batch, name, i)),
        0 <= i < batch.len(),
    ensures
        batch[i].name != name,
    decreases i,
{
    assert forall|j: int| 0 <= j < i implies (#[trigger] batch[j]).name != name by {
        lemma_no_entry_at(batch, name, j);
    }
    assert(!is_entry(batch, name, i));
}

/// Noting a read timeout keeps one entry for each channel.
proof fn lemma_upserted(batch: Seq<BatchEntry>, name: Seq<char>, code: i32, taskid: u32)
    requires
        each_once(batch),
    ensures
        each_once(upserted(batch, name, code, taskid)),
{
    if !(exists|i: int| is_entry(batch, name, i)) {
        lemma_no_entry(batch, name);
    }
}

/// A pass fails a channel once, however many of its tasks answered nothing.
pub proof fn law_a_channel_is_failed_once(
    q: QueueView,
    now: u64,
    entries: Seq<Expired>,
    answers: Seq<ConnectView>,
)
    ensures
        each_once(expire_steps(q, now, entries, answers).batch),
    decreases answers.len(),
{
    if answers.len() > 0 {
        law_a_channel_is_failed_once(q, now, entries, answers.drop_last());
        let c = expire_steps(q, now, entries, answers.drop_last());
        let e = entries[answers.len() - 1];
        let noted = match e.read {
            Some(timeout) => upserted(
                c.batch,
                e.name,
                crate::queue_spec::timeout_code(timeout),
                e.taskid,
            ),
            None => c.batch,
        };
        match e.read {
            Some(timeout) => {
                lemma_upserted(
                    c.batch,
                    e.name,
                    crate::queue_spec::timeout_code(timeout),
                    e.taskid,
                );
            },
            None => {},
        }
        if !(exists|i: int| is_entry(noted, e.name, i)) {
            lemma_no_entry(noted, e.name);
        }
    }
}

/// Nothing comes of an answer on a channel the queue does not have.
pub proof fn law_an_answer_on_no_channel_is_nothing(
    pre: QueueView,
    now: u64,
    r: ResponseView,
    a: ResponseAnswers,
    post: QueueView,
    handle: Option<RespHandle>,
)
    requires
        responded(pre, now, r, a, post, handle),
        !pre.has_channel(r.name),
    ensures
        post == pre,
        handle is None,
{
}

/// Tasks that stand by priority have a place for every other.
proof fn lemma_has_slot(tasks: Seq<TaskView>, priority: i32)
    requires
        by_priority(tasks),
    ensures
        exists|p: int| is_slot(tasks, priority, p),
    decreases tasks.len(),
{
    reveal(by_priority);
    if tasks.len() == 0 {
        assert(is_slot(tasks, priority, 0));
    } else if tasks.last().task.priority <= priority {
        assert(tasks[tasks.len() - 1] == tasks.last());
        assert(is_slot(tasks, priority, tasks.len() as int));
    } else {
        let before = tasks.drop_last();
        lemma_has_slot(before, priority);
        let p = choose|p: int| is_slot(before, priority, p);
        assert forall|j: int| 0 <= j < p implies (#[trigger] tasks[j]).task.priority
            <= priority by {
            assert(before[j] == tasks[j]);
        }
        assert forall|j: int| p <= j < tasks.len() implies (#[trigger] tasks[j]).task.priority
            > priority by {
            if j < before.len() {
                assert(before[j] == tasks[j]);
            }
        }
        assert(is_slot(tasks, priority, p));
    }
}

/// A task that is asked for stands behind every task of its priority or a
/// smaller one and before every other; the tasks that were there keep their
/// order.
pub proof fn law_tasks_stand_by_priority(
    q: QueueView,
    now: u64,
    task: Task,
    channel: i32,
    timeout: u64,
)
    requires
        by_priority(q.tasks),
    ensures
        ({
            let after = queued(q, now, task, channel, timeout).tasks;
            let p = slot(q.tasks, task.priority);
            &&& 0 <= p <= q.tasks.len()
            &&& after.len() == q.tasks.len() + 1
            &&& after[p].task == task
            &&& after.remove(p) == q.tasks
            &&& forall|j: int| 0 <= j < p ==> (#[trigger] after[j]).task.priority <= task.priority
            &&& forall|j: int|
                p < j < after.len() ==> (#[trigger] after[j]).task.priority > task.priority
        }),
{
    lemma_has_slot(q.tasks, task.priority);
    let p = slot(q.tasks, task.priority);
    let after = queued(q, now, task, channel, timeout).tasks;
    assert(is_slot(q.tasks, task.priority, p));
    assert(after.remove(p) =~= q.tasks);
}

/// How often a link was told that a task is not waited for any more.
pub open spec fn stops(told: Seq<Told>) -> nat
    decreases told.len(),
{
    if told.len() == 0 {
        0
    } else {
        stops(told.drop_last()) + if told.last() is Stop {
            1nat
        } else {
            0nat
        }
    }
}

/// The tasks the queue answers for, in it or told to be over, and the tasks it
/// took off a link.
pub open spec fn balance(q: QueueView) -> (nat, nat) {
    (q.tasks.len() + ends(q.told), stops(q.told))
}

/// Something else was said.
proof fn lemma_balance_heard(q: QueueView, word: Told)
    requires
        !(word is Ended),
        !(word is Stop),
    ensures
        balance(q.heard(word)) == balance(q),
{
    lemma_ends_push(q.told, word);
    assert(q.told.push(word).drop_last() =~= q.told);
}

/// The connect of a channel was asked for.
proof fn lemma_balance_asked(q: QueueView, name: Seq<char>, answer: ConnectView)
    ensures
        balance(q.profile_asked(name, answer)) == balance(q),
        q.profile_asked(name, answer).tasks == q.tasks,
{
    if q.has_channel(name) {
        lemma_balance_heard(q, Told::ChannelProfile { name, answer });
    }
}

/// A task was answered.
proof fn lemma_balance_resp(
    q: QueueView,
    now: u64,
    at: int,
    err_type: ErrCmdType,
    err_code: i32,
    handle: TaskFailHandleType,
    profile: ConnectView,
)
    requires
        0 <= at < q.tasks.len(),
    ensures
        balance(q.single_resp(now, at, err_type, err_code, handle, profile)) == balance(q),
{
    let after = q.single_resp(now, at, err_type, err_code, handle, profile);
    if q.is_over(at, err_type, handle) {
        lemma_ends_push(q.told, after.told.last());
        assert(after.told.drop_last() =~= q.told);
    }
}

/// A look at a task that ends with the task failed.
proof fn lemma_balance_refused(
    c: SendCursor,
    now: u64,
    err_type: ErrCmdType,
    err_code: i32,
    answer: ConnectView,
)
    requires
        0 <= c.i < c.q.tasks.len(),
    ensures
        balance(c.refused(now, err_type, err_code, answer).q) == balance(c.q),
{
    let name = c.task().channel_name;
    lemma_balance_asked(c.q, name, answer);
    lemma_balance_resp(
        c.q.profile_asked(name, answer),
        now,
        c.i,
        err_type,
        err_code,
        TaskFailHandleType::TaskEnd,
        c.q.profile_of(name, answer),
    );
}

/// A request that goes out.
proof fn lemma_balance_send(
    c: SendCursor,
    pass: Pass,
    id: Option<u16>,
    body: Seq<u8>,
    a: SendAnswers,
)
    requires
        0 <= c.i < c.q.tasks.len(),
    ensures
        balance(turn_send(c, pass, id, body, a).q) == balance(c.q),
{
    reveal(turn_send);
    assert forall|q: QueueView, word: Told| !(word is Ended) && !(word is Stop) implies balance(
        #[trigger] q.heard(word),
    ) == balance(q) by {
        lemma_balance_heard(q, word);
    }
    assert forall|q: QueueView, name: Seq<char>, answer: ConnectView| balance(
        #[trigger] q.profile_asked(name, answer),
    ) == balance(q) && q.profile_asked(name, answer).tasks == q.tasks by {
        lemma_balance_asked(q, name, answer);
    }
    assert forall|q: QueueView, profile: ConnectView| 0 <= c.i < q.tasks.len() implies balance(
        #[trigger] q.single_resp(
            pass.now,
            c.i,
            ErrCmdType::NoError,
            0,
            TaskFailHandleType::Normal,
            profile,
        ),
    ) == balance(q) by {
        lemma_balance_resp(
            q,
            pass.now,
            c.i,
            ErrCmdType::NoError,
            0,
            TaskFailHandleType::Normal,
            profile,
        );
    }
}

/// A look at the link of a task.
proof fn lemma_balance_connect(
    c: SendCursor,
    pass: Pass,
    id: Option<u16>,
    body: Seq<u8>,
    a: ConnectAnswers,
)
    requires
        0 <= c.i < c.q.tasks.len(),
    ensures
        balance(turn_connect(c, pass, id, body, a).q) == balance(c.q),
{
    reveal(turn_connect);
    let t = c.task();
    let name = t.channel_name;
    let c1 = c.heard(Told::MakeSureConnected { name, answer: a.connected });
    lemma_balance_heard(c.q, Told::MakeSureConnected { name, answer: a.connected });
    if !a.connected {
        if t.task.channel_id != 0 {
            lemma_balance_refused(
                c1.stamped(id),
                pass.now,
                ErrCmdType::Local,
                crate::task_profile::LOCAL_CHANNEL_ID,
                a.profile,
            );
        }
    } else {
        let p = c1.q.profile_of(name, a.profile);
        let c2 = SendCursor { q: c1.q.profile_asked(name, a.profile), ..c1 };
        lemma_balance_asked(c1.q, name, a.profile);
        if t.task.channel_id != 0 && p.start_time != t.task.channel_id {
            lemma_balance_resp(
                c2.stamped(id).q,
                pass.now,
                c.i,
                ErrCmdType::Local,
                crate::task_profile::LOCAL_CHANNEL_ID,
                TaskFailHandleType::TaskEnd,
                p,
            );
        } else {
            let kept = Told::KeptAnswer { now: pass.now, cgi: t.task.cgi@, answer: a.kept };
            let c3 = c2.heard(kept);
            lemma_balance_heard(c2.q, kept);
            match a.kept {
                Some(answer) => {
                    let read = Told::Decode { task: t.task, body: answer, answer: a.decoded };
                    let c4 = c3.heard(read);
                    lemma_balance_heard(c3.q, read);
                    lemma_balance_resp(
                        c4.with_task(
                            received(t, answer.len() as usize, pass.now),
                        ).stamped(id).q,
                        pass.now,
                        c.i,
                        ErrCmdType::EnDecode,
                        a.decoded.0,
                        a.decoded.1,
                        ConnectView::blank(),
                    );
                },
                None => {
                    lemma_balance_send(c3, pass, id, body, a.send);
                },
            }
        }
    }
}

/// A look at the request of a task.
proof fn lemma_balance_encode(c: SendCursor, pass: Pass, a: EncodeAnswers)
    requires
        0 <= c.i < c.q.tasks.len(),
    ensures
        balance(turn_encode(c, pass, a).q) == balance(c.q),
{
    reveal(turn_encode);
    let t = c.task();
    let id = if t.antiavalanche_checked {
        None
    } else {
        Some(a.sequence_id)
    };
    let c1 = if t.antiavalanche_checked {
        c
    } else {
        c.heard(Told::SequenceId { answer: a.sequence_id })
    };
    lemma_balance_heard(c.q, Told::SequenceId { answer: a.sequence_id });
    let made = Told::Encode { task: t.task, answer: a.encoded };
    let c2 = c1.heard(made);
    lemma_balance_heard(c1.q, made);
    match a.encoded {
        Err(code) => {
            lemma_balance_refused(
                c2.stamped(id),
                pass.now,
                ErrCmdType::EnDecode,
                code,
                a.profile,
            );
        },
        Ok(body) => {
            let asked = Told::Allowed { task: t.task, body, answer: a.allowed };
            let c3 = c2.heard(asked);
            lemma_balance_heard(c2.q, asked);
            if !a.allowed {
                lemma_balance_refused(
                    c3.stamped(id),
                    pass.now,
                    ErrCmdType::Local,
                    crate::task_profile::LOCAL_ANTI_AVALANCHE,
                    a.profile,
                );
            } else {
                lemma_balance_connect(
                    c3.with_task(TaskView { antiavalanche_checked: true, ..t }),
                    pass,
                    id,
                    body,
                    a.connect,
                );
            }
        },
    }
}

/// One look at a task.
proof fn lemma_balance_turn(c: SendCursor, pass: Pass, a: TurnAnswers)
    requires
        0 <= c.i,
    ensures
        balance(turn(c, pass, a).q) == balance(c.q),
        0 <= turn(c, pass, a).i,
{
    reveal(turn_gate);
    reveal(turn_encode);
    reveal(turn_connect);
    reveal(turn_send);
    if !c.done() {
        let t = c.task();
        let word = Told::Authed {
            host: first_text(t.task.longlink_host_list@),
            user_id: t.task.user_id@,
            answer: a.authed,
        };
        lemma_balance_heard(c.q, word);
        lemma_balance_encode(c, pass, a.encode);
        lemma_balance_encode(c.heard(word), pass, a.encode);
    }
}

/// A pass of sends.
proof fn lemma_balance_turns(q: QueueView, pass: Pass, answers: Seq<TurnAnswers>)
    ensures
        balance(turns(q, pass, answers).q) == balance(q),
        0 <= turns(q, pass, answers).i,
    decreases answers.len(),
{
    if answers.len() > 0 {
        lemma_balance_turns(q, pass, answers.drop_last());
        lemma_balance_turn(turns(q, pass, answers.drop_last()), pass, answers.last());
    }
}

/// A pass over a failed channel.
proof fn lemma_balance_batch(
    q: QueueView,
    now: u64,
    name: Seq<char>,
    failure: Failure,
    running_only: bool,
    answers: Seq<ConnectView>,
)
    ensures
        balance(batch_steps(q, now, name, failure, running_only, answers).q) == balance(q),
        0 <= batch_steps(q, now, name, failure, running_only, answers).i,
    decreases answers.len(),
{
    if answers.len() > 0 {
        lemma_balance_batch(q, now, name, failure, running_only, answers.drop_last());
        let c = batch_steps(q, now, name, failure, running_only, answers.drop_last());
        if !c.done() && batch_hits(c, name, running_only) {
            let about = failure.src_taskid == Task::INVALID_TASK_ID || failure.src_taskid
                == c.q.tasks[c.i].task.taskid;
            let channel = c.q.tasks[c.i].channel_name;
            lemma_balance_asked(c.q, channel, answers.last());
            lemma_balance_resp(
                c.q.profile_asked(channel, answers.last()),
                now,
                c.i,
                failure.err_type,
                if about {
                    failure.err_code
                } else {
                    0
                },
                failure.fail_handle,
                c.q.profile_of(channel, answers.last()),
            );
        }
    }
}

/// The end of a failed channel.
proof fn lemma_balance_end(q: QueueView, now: u64, name: Seq<char>, failure: Failure)
    ensures
        balance(batch_end(q, now, name, failure)) == balance(q),
{
    assert forall|p: QueueView, word: Told| !(word is Ended) && !(word is Stop) implies balance(
        #[trigger] p.heard(word),
    ) == balance(p) by {
        lemma_balance_heard(p, word);
    }
}

/// The first tasks of a pass of timeouts.
proof fn lemma_balance_expire(
    q: QueueView,
    now: u64,
    entries: Seq<Expired>,
    answers: Seq<ConnectView>,
)
    ensures
        balance(expire_steps(q, now, entries, answers).q) == balance(q),
    decreases answers.len(),
{
    if answers.len() > 0 {
        lemma_balance_expire(q, now, entries, answers.drop_last());
        let c = expire_steps(q, now, entries, answers.drop_last());
        let e = entries[answers.len() - 1];
        match located(c.q.tasks, e.taskid) {
            None => {},
            Some(at) => {
                let q1 = if e.read == Some(Timeout::FirstPkg) {
                    c.q.with_task(at, last_failed_noted(c.q.tasks[at]))
                } else {
                    c.q
                };
                if e.over {
                    lemma_balance_asked(q1, e.name, answers.last());
                    lemma_balance_resp(
                        q1.profile_asked(e.name, answers.last()),
                        now,
                        at,
                        ErrCmdType::Local,
                        crate::task_profile::LOCAL_TASK_TIMEOUT,
                        TaskFailHandleType::TaskTimeout,
                        q1.profile_of(e.name, answers.last()),
                    );
                }
            },
        }
    }
}

/// The channels of a pass of timeouts, one after the other.
proof fn lemma_balance_channels(
    pre: QueueView,
    now: u64,
    batch: Seq<BatchEntry>,
    answers: Seq<BatchAnswers>,
    post: QueueView,
    k: int,
)
    requires
        channels_failed(pre, now, batch, answers, post),
        0 <= k <= answers.len(),
    ensures
        balance(batch_found(pre, answers, k)) == balance(pre),
    decreases k,
{
    if k > 0 {
        lemma_balance_channels(pre, now, batch, answers, post, k - 1);
        let before = batch_found(pre, answers, k - 1);
        let entry = batch[k - 1];
        let a = answers[k - 1];
        assert(channel_failed(before, now, entry, a));
        let noted = timeout_noted(before, entry, a.profile);
        if entry.code != LONG_TASK_TIMEOUT {
            lemma_balance_asked(before, entry.name, a.profile);
            assert forall|p: QueueView, word: Told|
                !(word is Ended) && !(word is Stop) implies balance(#[trigger] p.heard(word))
                == balance(p) by {
                lemma_balance_heard(p, word);
            }
        }
        let failure = timeout_failure(entry);
        lemma_balance_batch(noted, now, entry.name, failure, true, a.each);
        let c = batch_steps(noted, now, entry.name, failure, true, a.each);
        lemma_balance_end(c.q, now, entry.name, failure);
    }
}

/// A pass of the queue loses no task: each that was in it still is, or the app
/// was told that it is over. And no link is told to stop a task: that is said
/// only where the app asked for it.
pub proof fn law_a_pass_loses_no_task(pre: QueueView, now: u64, a: LoopAnswers, post: QueueView)
    requires
        run_loop(pre, now, a, post),
    ensures
        post.tasks.len() + ends(post.told) == pre.tasks.len() + ends(pre.told),
        stops(post.told) == stops(pre.told),
{
    if pre.tasks.len() > 0 {
        let t = a.timeouts;
        let asked = pre.heard(Told::Network { answer: t.network });
        lemma_balance_heard(pre, Told::Network { answer: t.network });
        let entries = expired(pre.tasks, now, t.network);
        lemma_balance_expire(asked, now, entries, t.overs);
        let c = expire_steps(asked, now, entries, t.overs);
        lemma_balance_channels(c.q, now, c.batch, t.batches, a.mid, t.batches.len() as int);
        assert(balance(a.mid) == balance(pre));
        let word = Told::Network { answer: a.starts.network };
        lemma_balance_heard(a.mid, word);
        lemma_balance_turns(
            a.mid.heard(word),
            start_pass(a.mid, now, a.starts.network),
            a.starts.turns,
        );
        assert(balance(post) == balance(pre));
    }
}


/// What is in the list of forbidden hosts after more were added.
proof fn lemma_forbidden_with(forbidden: Seq<Seq<char>>, hosts: Seq<Seq<char>>, host: Seq<char>)
    ensures
        forbidden_with(forbidden, hosts).contains(host) <==> forbidden.contains(host) || (
        hosts.contains(host) && has_part(host, "long"@)),
    decreases hosts.len(),
{
    if hosts.len() > 0 {
        let earlier = hosts.drop_last();
        let before = forbidden_with(forbidden, earlier);
        lemma_forbidden_with(forbidden, earlier, host);
        assert(hosts.contains(host) <==> earlier.contains(host) || hosts.last() == host) by {
            if hosts.contains(host) {
                let i = choose|i: int| 0 <= i < hosts.len() && hosts[i] == host;
                if i < hosts.len() - 1 {
                    assert(earlier[i] == host);
                }
            }
            if earlier.contains(host) {
                let i = choose|i: int| 0 <= i < earlier.len() && earlier[i] == host;
                assert(hosts[i] == host);
            }
            if hosts.last() == host {
                assert(hosts[hosts.len() - 1] == host);
            }
        }
        assert(before.push(hosts.last()).contains(host) <==> before.contains(host) || hosts.last()
            == host) by {
            let more = before.push(hosts.last());
            if more.contains(host) {
                let i = choose|i: int| 0 <= i < more.len() && more[i] == host;
                if i < before.len() {
                    assert(before[i] == host);
                }
            }
            if before.contains(host) {
                let i = choose|i: int| 0 <= i < before.len() && before[i] == host;
                assert(more[i] == host);
            }
            assert(more[more.len() - 1] == hosts.last());
        }
    }
}

/// The hosts tls is forbidden for after lists of them were added one by one.
pub open spec fn forbidden_after(adds: Seq<Seq<Seq<char>>>) -> Seq<Seq<char>>
    decreases adds.len(),
{
    if adds.len() == 0 {
        seq![]
    } else {
        forbidden_with(forbidden_after(adds.drop_last()), adds.last())
    }
}

/// A host stands in one of the lists.
pub open spec fn was_added(adds: Seq<Seq<Seq<char>>>, host: Seq<char>) -> bool {
    exists|k: int| 0 <= k < adds.len() && (#[trigger] adds[k]).contains(host)
}

/// Tls is forbidden for a channel exactly where one of its hosts was added at
/// some time and has "long" in it, whatever the order the hosts were added in and
/// however often.
pub proof fn law_tls_is_forbidden_by_what_was_added(
    adds: Seq<Seq<Seq<char>>>,
    hosts: Seq<Seq<char>>,
)
    ensures
        forbids_tls(forbidden_after(adds), hosts) <==> exists|i: int|
            0 <= i < hosts.len() && was_added(adds, #[trigger] hosts[i]) && has_part(
                hosts[i],
                "long"@,
            ),
{
    assert forall|i: int| 0 <= i < hosts.len() implies (forbidden_after(adds).contains(
        #[trigger] hosts[i],
    ) <==> was_added(adds, hosts[i]) && has_part(hosts[i], "long"@)) by {
        lemma_forbidden_after(adds, hosts[i]);
    }
}

/// What is in the list of forbidden hosts after lists of them were added.
proof fn lemma_forbidden_after(adds: Seq<Seq<Seq<char>>>, host: Seq<char>)
    ensures
        forbidden_after(adds).contains(host) <==> was_added(adds, host) && has_part(host, "long"@),
    decreases adds.len(),
{
    if adds.len() > 0 {
        let earlier = adds.drop_last();
        lemma_forbidden_after(earlier, host);
        lemma_forbidden_with(forbidden_after(earlier), adds.last(), host);
        assert(was_added(adds, host) <==> was_added(earlier, host) || adds.last().contains(host)) by {
            if was_added(adds, host) {
                let k = choose|k: int| 0 <= k < adds.len() && (#[trigger] adds[k]).contains(host);
                if k < adds.len() - 1 {
                    assert(earlier[k].contains(host));
                }
            }
            if was_added(earlier, host) {
                let k = choose|k: int|
                    0 <= k < earlier.len() && (#[trigger] earlier[k]).contains(host);
                assert(adds[k].contains(host));
            }
            assert(adds[adds.len() - 1] == adds.last());
        }
    }
}

} // verus!
