//! What the long-link queue promises for a task: when it stays, when it goes out, and
//! when an app hears that it is over.
use vstd::prelude::*;
use crate::dynamic_timeout::{tag_of, DynamicTimeoutStatus, NetworkKind};
use crate::long_link::DisconnectInternalCode;
use crate::net_source::LonglinkConfig;
use crate::queue_host::Told;
use crate::queue_spec::{
    answer_came, batch_end, batch_error, batch_found, batch_step, batch_steps, by_priority,
    channel_failed, channels_failed, channels_of_user, channels_without, error_came, error_failure,
    expire_step, expire_steps, expired, handshake_given_back, is_due, is_first, is_slot, located,
    name_found, names_failed, read_due, redo_step, redo_steps, release_step, release_steps,
    released, responded, run_loop, start_pass, timeout_failure, timeout_noted, turn, turn_connect,
    turn_encode, turn_gate, turn_send, turns, users_retried, BatchAnswers, BatchEntry, Cursor,
    Expired, Failure, LoopAnswers, NameAnswers, Pass, QueueView, RespHandle, ResponseAnswers,
    ResponseView, RetryAnswers, SendCursor, Timeout, TurnAnswers,
};
use crate::task::Task;
use crate::task_profile::{ConnectView, ErrCmdType, TaskFailHandleType, TaskView};

verus! {

// ---- one answer for one task -------------------------------------------------

/// A task that still has a try left, and is failed with anything but an end or a
/// timeout of its own, stays in the queue with one try fewer, and nothing is told to
/// the app: that holds of a session that is over and of a retry of everything too. Any
/// other task leaves, and the app is told so once, with what ended it.
pub proof fn law_a_task_with_a_try_left_stays(
    q: QueueView,
    now: u64,
    at: int,
    err_type: ErrCmdType,
    err_code: i32,
    handle: TaskFailHandleType,
    profile: ConnectView,
)
    requires
        0 <= at < q.tasks.len(),
    ensures
        ({
            let t = q.tasks[at];
            let next = q.single_resp(now, at, err_type, err_code, handle, profile);
            let stays = t.remain_retry_count > 0 && err_type != ErrCmdType::NoError && handle
                != TaskFailHandleType::TaskEnd && handle != TaskFailHandleType::TaskTimeout;
            &&& stays ==> {
                &&& next.tasks.len() == q.tasks.len()
                &&& next.told == q.told
                &&& spent_a_try(t, next.tasks[at])
                &&& next.tasks[at].err_type == err_type
                &&& next.tasks[at].err_code == err_code
                &&& next.tasks[at].history.last().connect_profile == profile
                &&& next.tasks[at].history.last().error_type == err_type
                &&& next.tasks[at].history.last().error_code == err_code
                &&& forall|i: int|
                    0 <= i < q.tasks.len() && i != at ==> #[trigger] next.tasks[i] == q.tasks[i]
            }
            &&& !stays ==> {
                &&& next.tasks.len() == q.tasks.len() - 1
                &&& forall|i: int| 0 <= i < at ==> #[trigger] next.tasks[i] == q.tasks[i]
                &&& forall|i: int|
                    at <= i < next.tasks.len() ==> #[trigger] next.tasks[i] == q.tasks[i + 1]
                &&& next.told.len() == q.told.len() + 1
                &&& forall|i: int| 0 <= i < q.told.len() ==> #[trigger] next.told[i] == q.told[i]
                &&& next.told.last() == (Told::Ended {
                    err_type,
                    err_code,
                    handle,
                    task: t.task,
                    cost: if now >= t.start_task_time {
                        (now - t.start_task_time) as u32
                    } else {
                        0
                    },
                    profile,
                })
            }
            &&& err_type == ErrCmdType::NoError ==> next.fail_count == 0 && next.retry_interval == 0
            &&& err_type != ErrCmdType::NoError ==> next.retry_interval == q.retry_interval && (
            next.fail_count == q.fail_count + 1 || (q.fail_count == u32::MAX && next.fail_count
                == u32::MAX))
            &&& next == (QueueView {
                tasks: next.tasks,
                told: next.told,
                fail_count: next.fail_count,
                retry_interval: next.retry_interval,
                ..q
            })
        }),
{
}

/// What a task that stays after a failure is: the same task on the same channel, with
/// one try fewer and as much time as before, not out any more, and with the try that
/// failed in its history.
pub open spec fn spent_a_try(t: TaskView, u: TaskView) -> bool {
    &&& u.task == t.task
    &&& u.channel_name == t.channel_name
    &&& u.remain_retry_count == t.remain_retry_count - 1
    &&& u.running is None
    &&& u.start_task_time == t.start_task_time
    &&& u.task_timeout == t.task_timeout
    &&& u.antiavalanche_checked == t.antiavalanche_checked
    &&& u.transfer_profile.start_send_time == 0
    &&& u.transfer_profile.last_receive_pkg_time == 0
    &&& u.transfer_profile.send_data_size == 0
    &&& u.transfer_profile.received_size == 0
    &&& u.history.len() == t.history.len() + 1
    &&& u.history.last().start_send_time == t.transfer_profile.start_send_time
    &&& u.history.last().send_data_size == t.transfer_profile.send_data_size
    &&& forall|i: int| 0 <= i < t.history.len() ==> #[trigger] u.history[i] == t.history[i]
}

// ---- a pass over the queue ------------------------------------------------------

/// What the app was told to be over, in order.
pub open spec fn told_over(told: Seq<Told>) -> Seq<Told> {
    told.filter(|word: Told| word is Ended)
}

proof fn lemma_told_push(told: Seq<Told>, word: Told)
    ensures
        told_over(told.push(word)) == (if word is Ended {
            told_over(told).push(word)
        } else {
            told_over(told)
        }),
{
    reveal(Seq::filter);
    assert(told.push(word).drop_last() =~= told);
}

/// The tasks of `pre` went one by one: those that are `over` left, each told so with a
/// word that is right for it, and the rest stand in their order, each as it should be
/// `left`.
pub open spec fn went_over(
    pre: QueueView,
    post: QueueView,
    over: spec_fn(TaskView) -> bool,
    left: spec_fn(TaskView, TaskView) -> bool,
    word: spec_fn(TaskView, Told) -> bool,
) -> bool {
    let kept = pre.tasks.filter(|t: TaskView| !over(t));
    let gone = pre.tasks.filter(over);
    let before = told_over(pre.told);
    let since = told_over(post.told);
    &&& post.tasks.len() == kept.len()
    &&& forall|j: int| 0 <= j < kept.len() ==> #[trigger] left(kept[j], post.tasks[j])
    &&& since.len() == before.len() + gone.len()
    &&& forall|j: int| 0 <= j < before.len() ==> #[trigger] since[j] == before[j]
    &&& forall|j: int|
        0 <= j < gone.len() ==> #[trigger] word(gone[j], since[before.len() + j])
}

/// The same of the first `k` tasks, while the others stand untouched behind them.
spec fn going(
    pre: QueueView,
    c: Cursor,
    k: int,
    over: spec_fn(TaskView) -> bool,
    left: spec_fn(TaskView, TaskView) -> bool,
    word: spec_fn(TaskView, Told) -> bool,
) -> bool {
    let first = pre.tasks.take(k);
    let kept = first.filter(|t: TaskView| !over(t));
    let gone = first.filter(over);
    let before = told_over(pre.told);
    let since = told_over(c.q.told);
    &&& 0 <= k <= pre.tasks.len()
    &&& c.i == kept.len()
    &&& c.q.tasks.len() == kept.len() + (pre.tasks.len() - k)
    &&& forall|j: int| 0 <= j < kept.len() ==> #[trigger] left(kept[j], c.q.tasks[j])
    &&& forall|j: int|
        kept.len() <= j < c.q.tasks.len() ==> #[trigger] c.q.tasks[j] == pre.tasks[j - kept.len()
            + k]
    &&& since.len() == before.len() + gone.len()
    &&& forall|j: int| 0 <= j < before.len() ==> #[trigger] since[j] == before[j]
    &&& forall|j: int|
        0 <= j < gone.len() ==> #[trigger] word(gone[j], since[before.len() + j])
}

proof fn lemma_going_begins(
    pre: QueueView,
    over: spec_fn(TaskView) -> bool,
    left: spec_fn(TaskView, TaskView) -> bool,
    word: spec_fn(TaskView, Told) -> bool,
)
    ensures
        going(pre, Cursor { q: pre, i: 0 }, 0, over, left, word),
{
    reveal(Seq::filter);
    assert(pre.tasks.take(0).filter(over).len() == 0);
    assert(pre.tasks.take(0).filter(|t: TaskView| !over(t)).len() == 0);
}

/// One task more that stays.
proof fn lemma_going_stays(
    pre: QueueView,
    c: Cursor,
    k: int,
    u: TaskView,
    next: Cursor,
    over: spec_fn(TaskView) -> bool,
    left: spec_fn(TaskView, TaskView) -> bool,
    word: spec_fn(TaskView, Told) -> bool,
)
    requires
        going(pre, c, k, over, left, word),
        k < pre.tasks.len(),
        !over(pre.tasks[k]),
        left(pre.tasks[k], u),
        next.q.tasks == c.q.tasks.update(c.i, u),
        next.i == c.i + 1,
        told_over(next.q.told) == told_over(c.q.told),
    ensures
        going(pre, next, k + 1, over, left, word),
{
    reveal(Seq::filter);
    let keep = |t: TaskView| !over(t);
    let first = pre.tasks.take(k);
    let more = pre.tasks.take(k + 1);
    assert(more.drop_last() =~= first);
    assert(more.last() == pre.tasks[k]);
    assert(keep(pre.tasks[k]));
    assert(more.filter(keep) == first.filter(keep).push(pre.tasks[k]));
    assert(more.filter(over) == first.filter(over));
    let kept = first.filter(keep);
    assert forall|j: int| 0 <= j < more.filter(keep).len() implies #[trigger] left(
        more.filter(keep)[j],
        next.q.tasks[j],
    ) by {
        if j < kept.len() {
            assert(left(kept[j], c.q.tasks[j]));
        }
    }
    assert forall|j: int|
        more.filter(keep).len() <= j < next.q.tasks.len() implies #[trigger] next.q.tasks[j]
        == pre.tasks[j - more.filter(keep).len() + (k + 1)] by {
        assert(c.q.tasks[j] == pre.tasks[j - kept.len() + k]);
    }
}

/// One task more that leaves.
proof fn lemma_going_leaves(
    pre: QueueView,
    c: Cursor,
    k: int,
    said: Told,
    next: Cursor,
    over: spec_fn(TaskView) -> bool,
    left: spec_fn(TaskView, TaskView) -> bool,
    word: spec_fn(TaskView, Told) -> bool,
)
    requires
        going(pre, c, k, over, left, word),
        k < pre.tasks.len(),
        over(pre.tasks[k]),
        word(pre.tasks[k], said),
        next.q.tasks == c.q.tasks.remove(c.i),
        next.i == c.i,
        told_over(next.q.told) == told_over(c.q.told).push(said),
    ensures
        going(pre, next, k + 1, over, left, word),
{
    reveal(Seq::filter);
    let keep = |t: TaskView| !over(t);
    let first = pre.tasks.take(k);
    let more = pre.tasks.take(k + 1);
    assert(more.drop_last() =~= first);
    assert(more.last() == pre.tasks[k]);
    assert(!keep(pre.tasks[k]));
    assert(more.filter(keep) == first.filter(keep));
    assert(more.filter(over) == first.filter(over).push(pre.tasks[k]));
    let kept = first.filter(keep);
    let gone = first.filter(over);
    let before = told_over(pre.told);
    let since = told_over(c.q.told);
    let later = told_over(next.q.told);
    assert forall|j: int| 0 <= j < kept.len() implies #[trigger] left(
        more.filter(keep)[j],
        next.q.tasks[j],
    ) by {
        assert(left(kept[j], c.q.tasks[j]));
    }
    assert forall|j: int|
        kept.len() <= j < next.q.tasks.len() implies #[trigger] next.q.tasks[j] == pre.tasks[j
        - kept.len() + (k + 1)] by {
        assert(c.q.tasks[j + 1] == pre.tasks[j + 1 - kept.len() + k]);
    }
    assert forall|j: int| 0 <= j < before.len() implies #[trigger] later[j] == before[j] by {
        assert(since[j] == before[j]);
    }
    assert forall|j: int| 0 <= j < more.filter(over).len() implies #[trigger] word(
        more.filter(over)[j],
        later[before.len() + j],
    ) by {
        if j < gone.len() {
            assert(word(gone[j], since[before.len() + j]));
        }
    }
}

/// A pass that is done went over every task.
proof fn lemma_going_ends(
    pre: QueueView,
    c: Cursor,
    k: int,
    over: spec_fn(TaskView) -> bool,
    left: spec_fn(TaskView, TaskView) -> bool,
    word: spec_fn(TaskView, Told) -> bool,
)
    requires
        going(pre, c, k, over, left, word),
        c.i >= c.q.tasks.len() || k == pre.tasks.len(),
    ensures
        went_over(pre, c.q, over, left, word),
{
    assert(k == pre.tasks.len());
    assert(pre.tasks.take(k) =~= pre.tasks);
}

/// What one failed task of a pass leaves in the words of the app.
proof fn lemma_failed_at(
    q: QueueView,
    now: u64,
    i: int,
    err_type: ErrCmdType,
    err_code: i32,
    handle: TaskFailHandleType,
    answer: ConnectView,
)
    requires
        0 <= i < q.tasks.len(),
    ensures
        ({
            let t = q.tasks[i];
            let next = q.failed_at(now, i, err_type, err_code, handle, answer);
            let stays = t.remain_retry_count > 0 && err_type != ErrCmdType::NoError && handle
                != TaskFailHandleType::TaskEnd && handle != TaskFailHandleType::TaskTimeout;
            &&& stays ==> next.i == i + 1 && next.q.tasks == q.tasks.update(i, next.q.tasks[i])
                && spent_a_try(t, next.q.tasks[i]) && told_over(next.q.told) == told_over(q.told)
            &&& !stays ==> next.i == i && next.q.tasks == q.tasks.remove(i) && is_end_of(
                t,
                err_type,
                err_code,
                handle,
                next.q.told.last(),
            ) && told_over(next.q.told) == told_over(q.told).push(next.q.told.last())
            &&& next.q.channels == q.channels
            &&& next.q.retry_interval == (if err_type == ErrCmdType::NoError {
                0u64
            } else {
                q.retry_interval
            })
        }),
{
    let name = q.tasks[i].channel_name;
    let asked = q.profile_asked(name, answer);
    lemma_told_push(q.told, Told::ChannelProfile { name, answer });
    assert(told_over(asked.told) == told_over(q.told));
    let next = q.failed_at(now, i, err_type, err_code, handle, answer);
    let profile = q.profile_of(name, answer);
    law_a_task_with_a_try_left_stays(asked, now, i, err_type, err_code, handle, profile);
    if next.i == i {
        lemma_told_push(asked.told, next.q.told.last());
        assert(next.q.told == asked.told.push(next.q.told.last()));
    } else {
        assert(next.q.tasks =~= q.tasks.update(i, next.q.tasks[i]));
    }
}

/// The app is told that a task is over, with what ended it.
pub open spec fn is_end_of(
    t: TaskView,
    err_type: ErrCmdType,
    err_code: i32,
    handle: TaskFailHandleType,
    word: Told,
) -> bool {
    &&& word is Ended
    &&& word->Ended_task == t.task
    &&& word->Ended_err_type == err_type
    &&& word->Ended_err_code == err_code
    &&& word->Ended_handle == handle
}

// ---- a channel fails ---------------------------------------------------------------

/// A failure of a channel reaches a task that goes out on it, or any task where no
/// channel is named; one that is only of what is out reaches no task that waits.
pub open spec fn is_reached(t: TaskView, name: Seq<char>, running_only: bool) -> bool {
    (name.len() == 0 || t.channel_name == name) && (running_only ==> t.running is Some)
}

/// The failure is the end of every task it reaches, tries or none.
pub open spec fn ends_all(failure: Failure) -> bool {
    failure.err_type == ErrCmdType::NoError || failure.fail_handle == TaskFailHandleType::TaskEnd
        || failure.fail_handle == TaskFailHandleType::TaskTimeout
}

/// The tasks a failure ends: of those it reaches, all where it is the end of all, and
/// otherwise those without a try left.
pub open spec fn is_ended(
    name: Seq<char>,
    failure: Failure,
    running_only: bool,
) -> spec_fn(TaskView) -> bool {
    |t: TaskView|
        is_reached(t, name, running_only) && (ends_all(failure) || t.remain_retry_count <= 0)
}

/// How a failure leaves a task: one it reaches has one try fewer, any other is what it
/// was.
pub open spec fn is_left(name: Seq<char>, running_only: bool) -> spec_fn(TaskView, TaskView) -> bool {
    |t: TaskView, u: TaskView|
        if is_reached(t, name, running_only) {
            spent_a_try(t, u)
        } else {
            u == t
        }
}

/// What the app hears of a task a failure ends: the code is the failure's where it is
/// about that task or about all, and none otherwise.
pub open spec fn is_told_of(failure: Failure) -> spec_fn(TaskView, Told) -> bool {
    |t: TaskView, word: Told|
        is_end_of(
            t,
            failure.err_type,
            if failure.src_taskid == 0 || failure.src_taskid == t.task.taskid {
                failure.err_code
            } else {
                0
            },
            failure.fail_handle,
            word,
        )
}

proof fn lemma_batch_goes(
    q: QueueView,
    now: u64,
    name: Seq<char>,
    failure: Failure,
    running_only: bool,
    answers: Seq<ConnectView>,
)
    ensures
        exists|k: int| #[trigger]
            going(
                q,
                batch_steps(q, now, name, failure, running_only, answers),
                k,
                is_ended(name, failure, running_only),
                is_left(name, running_only),
                is_told_of(failure),
            ),
    decreases answers.len(),
{
    let over = is_ended(name, failure, running_only);
    let left = is_left(name, running_only);
    let word = is_told_of(failure);
    if answers.len() == 0 {
        lemma_going_begins(q, over, left, word);
    } else {
        lemma_batch_goes(q, now, name, failure, running_only, answers.drop_last());
        let c = batch_steps(q, now, name, failure, running_only, answers.drop_last());
        let k = choose|k: int| #[trigger] going(q, c, k, over, left, word);
        let next = batch_step(c, now, name, failure, running_only, answers.last());
        if c.done() {
            assert(going(q, next, k, over, left, word));
        } else {
            let t = c.q.tasks[c.i];
            assert(t == q.tasks[k]);
            if !is_reached(t, name, running_only) {
                assert(c.q.tasks.update(c.i, t) =~= c.q.tasks);
                lemma_going_stays(q, c, k, t, next, over, left, word);
            } else {
                let code = if failure.src_taskid == 0 || failure.src_taskid == t.task.taskid {
                    failure.err_code
                } else {
                    0
                };
                let handle = failure.fail_handle;
                lemma_failed_at(c.q, now, c.i, failure.err_type, code, handle, answers.last());
                if over(t) {
                    lemma_going_leaves(q, c, k, next.q.told.last(), next, over, left, word);
                } else {
                    lemma_going_stays(q, c, k, next.q.tasks[c.i], next, over, left, word);
                }
            }
            assert(going(q, next, k + 1, over, left, word));
        }
    }
}

/// What a failed channel comes to beyond its tasks. The reading is noted. A session
/// that is over and a retry of everything let every task go out again at once; any
/// other failure but one of the task's own has what is left wait for a second. The link
/// is taken down for an answer nobody can use and for a timeout, if it is there, and
/// not for a name, a socket or a cancel that failed by itself.
pub proof fn law_what_a_failed_channel_comes_to(
    q: QueueView,
    now: u64,
    name: Seq<char>,
    failure: Failure,
)
    ensures
        ({
            let post = batch_end(q, now, name, failure);
            let said = post.told.skip(q.told.len() as int);
            let e = failure.err_type;
            let h = failure.fail_handle;
            let again = h == TaskFailHandleType::SessionTimeout || h
                == TaskFailHandleType::RetryAllTasks;
            let useless = h == TaskFailHandleType::Default && e != ErrCmdType::Dns && e
                != ErrCmdType::Socket && e != ErrCmdType::Canceld;
            let bad = Told::Disconnect { name, code: DisconnectInternalCode::DecodeErr };
            let late = Told::Disconnect { name, code: DisconnectInternalCode::TaskTimeout };
            &&& post.tasks == q.tasks
            &&& post.channels == q.channels
            &&& post.fail_count == q.fail_count
            &&& post.last_batch_error_time == now
            &&& again ==> post.retry_interval == 0
            &&& !again && e != ErrCmdType::Local && q.tasks.len() > 0 ==> post.retry_interval
                == 1_000
            &&& !again && (e == ErrCmdType::Local || q.tasks.len() == 0) ==> post.retry_interval
                == q.retry_interval
            &&& post.told == q.told + said
            &&& forall|i: int|
                0 <= i < said.len() ==> #[trigger] said[i] == bad || said[i] == late
            &&& said.contains(bad) == (q.has_channel(name) && (again || useless))
            &&& said.contains(late) == (q.has_channel(name) && e == ErrCmdType::NetMsgXp)
            &&& told_over(post.told) == told_over(q.told)
        }),
{
    let post = batch_end(q, now, name, failure);
    let n = q.told.len() as int;
    let said = post.told.skip(n);
    assert(post.told =~= q.told + said);
    let bad = Told::Disconnect { name, code: DisconnectInternalCode::DecodeErr };
    let late = Told::Disconnect { name, code: DisconnectInternalCode::TaskTimeout };
    lemma_told_push(q.told, bad);
    lemma_told_push(q.told, late);
    lemma_told_push(q.told.push(bad), late);
    if said.len() > 0 {
        assert(said[0] == post.told[n]);
    }
    if said.len() > 1 {
        assert(said[1] == post.told[n + 1]);
    }
}

/// Who stays of a channel that failed: every task the failure does not reach, as it
/// was, and every task it reaches that has a try left, with one try fewer, unless the
/// failure is the end of all. The order stays too. Every other task is told to the app
/// once, with the failure, in that order.
pub proof fn law_who_stays_of_a_failed_channel(
    pre: QueueView,
    now: u64,
    name: Seq<char>,
    failure: Failure,
    running_only: bool,
    answers: Seq<ConnectView>,
    post: QueueView,
)
    requires
        batch_error(pre, now, name, failure, running_only, answers, post),
    ensures
        went_over(
            pre,
            post,
            is_ended(name, failure, running_only),
            is_left(name, running_only),
            is_told_of(failure),
        ),
{
    let over = is_ended(name, failure, running_only);
    let left = is_left(name, running_only);
    let word = is_told_of(failure);
    lemma_batch_goes(pre, now, name, failure, running_only, answers);
    let c = batch_steps(pre, now, name, failure, running_only, answers);
    let k = choose|k: int| #[trigger] going(pre, c, k, over, left, word);
    lemma_going_ends(pre, c, k, over, left, word);
    law_what_a_failed_channel_comes_to(c.q, now, name, failure);
}

/// A task that is not over in a pass stands in the queue after it, as it should be left.
proof fn lemma_stands_after(
    pre: QueueView,
    post: QueueView,
    over: spec_fn(TaskView) -> bool,
    left: spec_fn(TaskView, TaskView) -> bool,
    word: spec_fn(TaskView, Told) -> bool,
    i: int,
)
    requires
        went_over(pre, post, over, left, word),
        0 <= i < pre.tasks.len(),
        !over(pre.tasks[i]),
    ensures
        exists|j: int|
            0 <= j < post.tasks.len() && left(pre.tasks[i], #[trigger] post.tasks[j]),
{
    let keep = |t: TaskView| !over(t);
    let kept = pre.tasks.filter(keep);
    pre.tasks.lemma_filter_contains(keep, i);
    let j = choose|j: int| 0 <= j < kept.len() && kept[j] == pre.tasks[i];
    assert(left(kept[j], post.tasks[j]));
}

// ---- a user's tasks are tried again ----------------------------------------------

/// The task stands in the queue, with at most one try fewer.
pub open spec fn still_stands(t: TaskView, post: QueueView) -> bool {
    exists|j: int|
        {
            &&& 0 <= j < post.tasks.len()
            &&& (#[trigger] post.tasks[j]).task == t.task
            &&& post.tasks[j].channel_name == t.channel_name
            &&& post.tasks[j] == t || spent_a_try(t, post.tasks[j])
        }
}

proof fn lemma_names_keep(
    pre: QueueView,
    now: u64,
    names: Seq<Seq<char>>,
    failure: Failure,
    answers: Seq<NameAnswers>,
    post: QueueView,
    k: int,
    i: int,
)
    requires
        names_failed(pre, now, names, failure, answers, post),
        !ends_all(failure),
        0 <= k <= answers.len(),
        0 <= i < pre.tasks.len(),
        pre.tasks[i].remain_retry_count > 0 || pre.tasks[i].running is None,
    ensures
        still_stands(pre.tasks[i], name_found(pre, answers, k)),
    decreases k,
{
    let t = pre.tasks[i];
    if k == 0 {
        assert(pre.tasks[i] == t);
    } else {
        lemma_names_keep(pre, now, names, failure, answers, post, k - 1, i);
        let before = name_found(pre, answers, k - 1);
        let a = answers[k - 1];
        assert(batch_error(before, now, names[k - 1], failure, true, a.each, a.left));
        law_who_stays_of_a_failed_channel(
            before,
            now,
            names[k - 1],
            failure,
            true,
            a.each,
            a.left,
        );
        let j = choose|j: int|
            {
                &&& 0 <= j < before.tasks.len()
                &&& (#[trigger] before.tasks[j]).task == t.task
                &&& before.tasks[j].channel_name == t.channel_name
                &&& before.tasks[j] == t || spent_a_try(t, before.tasks[j])
            };
        let over = is_ended(names[k - 1], failure, true);
        let left = is_left(names[k - 1], true);
        assert(!over(before.tasks[j]));
        lemma_stands_after(before, a.left, over, left, is_told_of(failure), j);
        let m = choose|m: int|
            0 <= m < a.left.tasks.len() && left(before.tasks[j], #[trigger] a.left.tasks[m]);
        assert(a.left.tasks[m].task == t.task);
    }
}

/// Where the session of a user is over, or everything is to be tried again, every task
/// with a try left still stands in the queue when the channels were failed, with at
/// most one try fewer, whosever it is; and so does every task that was not out.
pub proof fn law_a_retry_keeps_every_task_with_a_try_left(
    pre: QueueView,
    now: u64,
    failure: Failure,
    user_id: Seq<char>,
    a: RetryAnswers,
    post: QueueView,
    i: int,
)
    requires
        users_retried(pre, now, failure, user_id, a, post),
        failure.err_type != ErrCmdType::NoError,
        failure.fail_handle == TaskFailHandleType::SessionTimeout || failure.fail_handle
            == TaskFailHandleType::RetryAllTasks,
        0 <= i < pre.tasks.len(),
        pre.tasks[i].remain_retry_count > 0 || pre.tasks[i].running is None,
    ensures
        still_stands(pre.tasks[i], a.mid),
{
    let names = channels_of_user(pre.tasks, user_id);
    lemma_names_keep(pre, now, names, failure, a.each, a.mid, a.each.len() as int, i);
}

/// After such a retry nothing of the queue waits: the next pass holds no task back.
pub proof fn law_after_a_retry_no_task_waits(
    pre: QueueView,
    now: u64,
    failure: Failure,
    user_id: Seq<char>,
    a: RetryAnswers,
    post: QueueView,
    network: NetworkKind,
)
    requires
        users_retried(pre, now, failure, user_id, a, post),
        failure.fail_handle == TaskFailHandleType::SessionTimeout || failure.fail_handle
            == TaskFailHandleType::RetryAllTasks,
        a.each.len() > 0,
    ensures
        a.mid.retry_interval == 0,
        start_pass(a.mid, now, network).can_retry,
{
    let n = a.each.len() as int;
    let before = name_found(pre, a.each, n - 1);
    let names = channels_of_user(pre.tasks, user_id);
    let last = a.each[n - 1];
    assert(batch_error(before, now, names[n - 1], failure, true, last.each, last.left));
}

// ---- a channel is released, the tasks are tried again -----------------------------

/// The tasks that leave with a channel: those that go out on it.
pub open spec fn goes_with(name: Seq<char>) -> spec_fn(TaskView) -> bool {
    |t: TaskView| t.channel_name == name
}

/// A task is what it was.
pub open spec fn is_kept() -> spec_fn(TaskView, TaskView) -> bool {
    |t: TaskView, u: TaskView| u == t
}

/// What the app hears of a task whose link is gone.
pub open spec fn is_told_gone() -> spec_fn(TaskView, Told) -> bool {
    |t: TaskView, word: Told|
        is_end_of(t, ErrCmdType::Local, (-15) as i32, TaskFailHandleType::TaskEnd, word)
}

proof fn lemma_release_goes(q: QueueView, now: u64, name: Seq<char>, answers: Seq<ConnectView>)
    ensures
        exists|k: int| #[trigger]
            going(
                q,
                release_steps(q, now, name, answers),
                k,
                goes_with(name),
                is_kept(),
                is_told_gone(),
            ),
        release_steps(q, now, name, answers).q.channels == q.channels,
    decreases answers.len(),
{
    let over = goes_with(name);
    let left = is_kept();
    let word = is_told_gone();
    if answers.len() == 0 {
        lemma_going_begins(q, over, left, word);
    } else {
        lemma_release_goes(q, now, name, answers.drop_last());
        let c = release_steps(q, now, name, answers.drop_last());
        let k = choose|k: int| #[trigger] going(q, c, k, over, left, word);
        let next = release_step(c, now, name, answers.last());
        if c.done() {
            assert(going(q, next, k, over, left, word));
        } else {
            let t = c.q.tasks[c.i];
            assert(t == q.tasks[k]);
            if t.channel_name != name {
                assert(c.q.tasks.update(c.i, t) =~= c.q.tasks);
                lemma_going_stays(q, c, k, t, next, over, left, word);
            } else {
                lemma_failed_at(
                    c.q,
                    now,
                    c.i,
                    ErrCmdType::Local,
                    (-15) as i32,
                    TaskFailHandleType::TaskEnd,
                    answers.last(),
                );
                lemma_going_leaves(q, c, k, next.q.told.last(), next, over, left, word);
            }
            assert(going(q, next, k + 1, over, left, word));
        }
    }
}

/// A channel that is released takes its tasks with it, tries or none: each is told to
/// the app once, with the code of a link that is gone. Every other task stays as it is,
/// and so does every other channel.
pub proof fn law_who_stays_of_a_released_channel(
    pre: QueueView,
    now: u64,
    name: Seq<char>,
    answers: Seq<ConnectView>,
    post: QueueView,
)
    requires
        released(pre, now, name, answers, post),
    ensures
        went_over(
            pre,
            post,
            goes_with(name),
            is_kept(),
            is_told_gone(),
        ),
        !post.has_channel(name),
        forall|i: int|
            0 <= i < pre.channels.len() && (#[trigger] pre.channels[i]).name@ != name
                ==> post.channels.contains(pre.channels[i]),
        forall|i: int|
            0 <= i < post.channels.len() ==> pre.channels.contains(#[trigger] post.channels[i]),
{
    let over = goes_with(name);
    let left = is_kept();
    let word = is_told_gone();
    lemma_release_goes(pre, now, name, answers);
    let c = release_steps(pre, now, name, answers);
    let k = choose|k: int| #[trigger] going(pre, c, k, over, left, word);
    lemma_going_ends(pre, c, k, over, left, word);
    lemma_channels_left(pre.channels, name);
    assert(post.channels == channels_without(pre.channels, name));
    if post.has_channel(name) {
        let i = choose|i: int|
            0 <= i < post.channels.len() && (#[trigger] post.channels[i]).name@ == name;
        assert(post.channels[i].name@ != name);
    }
}

/// The channels that stay are those of another name.
proof fn lemma_channels_left(channels: Seq<LonglinkConfig>, name: Seq<char>)
    ensures
        forall|i: int|
            0 <= i < channels_without(channels, name).len() ==> (
            #[trigger] channels_without(channels, name)[i]).name@ != name && channels.contains(
                channels_without(channels, name)[i],
            ),
        forall|i: int|
            0 <= i < channels.len() && (#[trigger] channels[i]).name@ != name
                ==> channels_without(channels, name).contains(channels[i]),
    decreases channels.len(),
{
    reveal(Seq::filter);
    let left = channels_without(channels, name);
    if channels.len() > 0 {
        let fewer = channels.drop_last();
        let before = channels_without(fewer, name);
        lemma_channels_left(fewer, name);
        assert forall|i: int| 0 <= i < left.len() implies (#[trigger] left[i]).name@ != name
            && channels.contains(left[i]) by {
            if i < before.len() {
                assert(left[i] == before[i]);
                let j = choose|j: int| 0 <= j < fewer.len() && fewer[j] == before[i];
                assert(channels[j] == left[i]);
            } else {
                assert(channels[channels.len() - 1] == left[i]);
            }
        }
        assert forall|i: int|
            0 <= i < channels.len() && (#[trigger] channels[i]).name@ != name implies left.contains(
            channels[i],
        ) by {
            if i < fewer.len() {
                assert(fewer[i] == channels[i]);
                let j = choose|j: int| 0 <= j < before.len() && before[j] == fewer[i];
                assert(left[j] == channels[i]);
            } else {
                assert(left[left.len() - 1] == channels[i]);
            }
        }
    }
}

/// What a filter keeps comes from the list and passed.
proof fn lemma_filter_from<A>(list: Seq<A>, keep: spec_fn(A) -> bool)
    ensures
        forall|i: int|
            0 <= i < list.filter(keep).len() ==> keep(#[trigger] list.filter(keep)[i])
                && list.contains(list.filter(keep)[i]),
    decreases list.len(),
{
    reveal(Seq::filter);
    if list.len() > 0 {
        let fewer = list.drop_last();
        lemma_filter_from(fewer, keep);
        assert forall|i: int| 0 <= i < list.filter(keep).len() implies keep(
            #[trigger] list.filter(keep)[i],
        ) && list.contains(list.filter(keep)[i]) by {
            if i < fewer.filter(keep).len() {
                let a = fewer.filter(keep)[i];
                assert(list.filter(keep)[i] == a);
                let j = choose|j: int| 0 <= j < fewer.len() && fewer[j] == a;
                assert(list[j] == a);
            } else {
                assert(list[list.len() - 1] == list.filter(keep)[i]);
            }
        }
    }
}

/// The task is one that is tried again: of the channel, or any where none is named.
pub open spec fn is_of(t: TaskView, name: Seq<char>) -> bool {
    name.len() == 0 || t.channel_name == name
}

/// What becomes of a task that is tried again: what the network was last taken for is
/// forgotten, and one that is out has one try fewer.
pub open spec fn is_redone(name: Seq<char>) -> spec_fn(TaskView, TaskView) -> bool {
    |t: TaskView, u: TaskView|
        {
            &&& !is_of(t, name) ==> u == t
            &&& is_of(t, name) ==> u.last_failed_dyntime_status == DynamicTimeoutStatus::Evaluating
            &&& is_of(t, name) && t.running is Some ==> spent_a_try(t, u)
            &&& is_of(t, name) && t.running is None ==> u == (TaskView {
                last_failed_dyntime_status: DynamicTimeoutStatus::Evaluating,
                ..t
            })
        }
}

/// The tasks a redo ends: of those it reaches, what is out and has no try left.
pub open spec fn is_cancelled(name: Seq<char>) -> spec_fn(TaskView) -> bool {
    |t: TaskView| is_of(t, name) && t.running is Some && t.remain_retry_count <= 0
}

/// What the app hears of one.
pub open spec fn is_told_cancelled() -> spec_fn(TaskView, Told) -> bool {
    |t: TaskView, word: Told|
        is_end_of(t, ErrCmdType::Local, (-7) as i32, TaskFailHandleType::Default, word)
}

proof fn lemma_redo_goes(q: QueueView, now: u64, name: Seq<char>, answers: Seq<ConnectView>)
    ensures
        exists|k: int| #[trigger]
            going(
                q,
                redo_steps(q, now, name, answers),
                k,
                is_cancelled(name),
                is_redone(name),
                is_told_cancelled(),
            ),
    decreases answers.len(),
{
    let over = is_cancelled(name);
    let left = is_redone(name);
    let word = is_told_cancelled();
    if answers.len() == 0 {
        lemma_going_begins(q, over, left, word);
    } else {
        lemma_redo_goes(q, now, name, answers.drop_last());
        let c = redo_steps(q, now, name, answers.drop_last());
        let k = choose|k: int| #[trigger] going(q, c, k, over, left, word);
        let next = redo_step(c, now, name, answers.last());
        if c.done() {
            assert(going(q, next, k, over, left, word));
        } else {
            let t = c.q.tasks[c.i];
            assert(t == q.tasks[k]);
            if !is_of(t, name) {
                assert(c.q.tasks.update(c.i, t) =~= c.q.tasks);
                lemma_going_stays(q, c, k, t, next, over, left, word);
            } else {
                let fresh = TaskView {
                    last_failed_dyntime_status: DynamicTimeoutStatus::Evaluating,
                    ..t
                };
                let at = c.q.with_task(c.i, fresh);
                if t.running is Some {
                    lemma_failed_at(
                        at,
                        now,
                        c.i,
                        ErrCmdType::Local,
                        (-7) as i32,
                        TaskFailHandleType::Default,
                        answers.last(),
                    );
                    if over(t) {
                        assert(at.tasks.remove(c.i) =~= c.q.tasks.remove(c.i));
                        lemma_going_leaves(q, c, k, next.q.told.last(), next, over, left, word);
                    } else {
                        let u = next.q.tasks[c.i];
                        assert(next.q.tasks =~= c.q.tasks.update(c.i, u));
                        lemma_going_stays(q, c, k, u, next, over, left, word);
                    }
                } else {
                    lemma_going_stays(q, c, k, fresh, next, over, left, word);
                }
            }
            assert(going(q, next, k + 1, over, left, word));
        }
    }
}

/// Trying the tasks again reaches those of the channel, or all where none is named. One
/// that is out is cancelled: it has one try fewer, or is over with the code of a cancel
/// where it has none. Every other stays as it is. After that no task is held back.
pub proof fn law_who_stays_of_a_redo(
    pre: QueueView,
    now: u64,
    name: Seq<char>,
    a: crate::queue_spec::RedoAnswers,
    post: QueueView,
    network: NetworkKind,
)
    requires
        crate::queue_spec::redone(pre, now, name, a, post),
    ensures
        exists|mid: QueueView|
            {
                &&& #[trigger] crate::queue_spec::run_loop(mid, now, a.pass, post)
                &&& mid.retry_interval == 0
                &&& start_pass(mid, now, network).can_retry
                &&& went_over(
                    pre,
                    mid,
                    is_cancelled(name),
                    is_redone(name),
                    is_told_cancelled(),
                )
            },
{
    let over = is_cancelled(name);
    let left = is_redone(name);
    let word = is_told_cancelled();
    lemma_redo_goes(pre, now, name, a.each);
    let c = redo_steps(pre, now, name, a.each);
    let k = choose|k: int| #[trigger] going(pre, c, k, over, left, word);
    lemma_going_ends(pre, c, k, over, left, word);
    let mid = QueueView { retry_interval: 0, ..c.q };
    assert(crate::queue_spec::run_loop(mid, now, a.pass, post));
}

// ---- what runs out ------------------------------------------------------------------

/// A wait from a reading is over; the last reading there is ends every wait.
pub open spec fn is_past(now: u64, then: u64, wait: u64) -> bool {
    then + wait <= now || now == u64::MAX
}

/// When each of the waits of a task runs out: its own always counts, from when it was
/// asked for; the others only while its request is out and was sent. Until the first
/// package it is the wait for that one, from the send; from there on the wait for the
/// next, twelve seconds on a mobile network and eight on another, from the last; and
/// throughout the one for the whole answer, from the send.
pub proof fn law_when_the_waits_of_a_task_run_out(t: TaskView, now: u64, network: NetworkKind)
    ensures
        ({
            let sent = t.transfer_profile.start_send_time;
            let last = t.transfer_profile.last_receive_pkg_time;
            let out = t.running is Some && sent != 0;
            let gap = if network == NetworkKind::Mobile {
                12_000u64
            } else {
                8_000u64
            };
            let first_pkg = out && last == 0 && is_past(
                now,
                sent,
                t.transfer_profile.first_pkg_timeout,
            );
            let pkg_pkg = out && last != 0 && is_past(now, last, gap);
            let read_write = out && is_past(now, sent, t.transfer_profile.read_write_timeout);
            &&& is_due(t, now, network, Timeout::Task) == is_past(
                now,
                t.start_task_time,
                t.task_timeout,
            )
            &&& is_due(t, now, network, Timeout::FirstPkg) == first_pkg
            &&& is_due(t, now, network, Timeout::PkgPkg) == pkg_pkg
            &&& is_due(t, now, network, Timeout::ReadWrite) == read_write
            &&& read_due(t, now, network) is None <==> !first_pkg && !pkg_pkg && !read_write
            &&& read_write ==> read_due(t, now, network) == Some(Timeout::ReadWrite)
            &&& !read_write && pkg_pkg ==> read_due(t, now, network) == Some(Timeout::PkgPkg)
            &&& !read_write && first_pkg ==> read_due(t, now, network) == Some(Timeout::FirstPkg)
        }),
{
    let all = crate::queue_spec::deadlines_of(t, network);
    assert(all[0].0 == Timeout::Task);
    if all.len() > 1 {
        assert(all[1].0 == Timeout::FirstPkg || all[1].0 == Timeout::PkgPkg);
        assert(all[2].0 == Timeout::ReadWrite);
    }
}

/// What each wait is reported with.
pub proof fn law_what_a_timeout_is_reported_with()
    ensures
        crate::queue_spec::timeout_code(Timeout::Task) == -1,
        crate::queue_spec::timeout_code(Timeout::FirstPkg) == -500,
        crate::queue_spec::timeout_code(Timeout::PkgPkg) == -501,
        crate::queue_spec::timeout_code(Timeout::ReadWrite) == -502,
{
}

/// Every task has an id, and no two have one.
pub open spec fn told_apart(tasks: Seq<TaskView>) -> bool {
    &&& forall|i: int| 0 <= i < tasks.len() ==> (#[trigger] tasks[i]).task.taskid != 0
    &&& forall|i: int, j: int|
        0 <= i < j < tasks.len() ==> (#[trigger] tasks[i]).task.taskid != (
        #[trigger] tasks[j]).task.taskid
}

/// How a pass of timeouts leaves a task that has time left: as it was, but for what the
/// network was taken for when its first package did not come.
pub open spec fn is_noted(now: u64, network: NetworkKind) -> spec_fn(TaskView, TaskView) -> bool {
    |t: TaskView, u: TaskView|
        {
            let missed = read_due(t, now, network) == Some(Timeout::FirstPkg)
                && t.remain_retry_count > 0;
            u == (TaskView {
                last_failed_dyntime_status: if missed {
                    t.current_dyntime_status
                } else {
                    t.last_failed_dyntime_status
                },
                ..t
            })
        }
}

/// The tasks whose own time ran out.
pub open spec fn is_out_of_time(now: u64) -> spec_fn(TaskView) -> bool {
    |t: TaskView| is_past(now, t.start_task_time, t.task_timeout)
}

/// What the app hears of one.
pub open spec fn is_told_late() -> spec_fn(TaskView, Told) -> bool {
    |t: TaskView, word: Told|
        is_end_of(t, ErrCmdType::Local, (-1) as i32, TaskFailHandleType::TaskTimeout, word)
}

/// A task that was kept stands in the list before the next.
proof fn lemma_kept_apart(
    tasks: Seq<TaskView>,
    k: int,
    over: spec_fn(TaskView) -> bool,
    j: int,
)
    requires
        told_apart(tasks),
        0 <= k < tasks.len(),
        0 <= j < tasks.take(k).filter(|t: TaskView| !over(t)).len(),
    ensures
        tasks.take(k).filter(|t: TaskView| !over(t))[j].task.taskid != tasks[k].task.taskid,
{
    let keep = |t: TaskView| !over(t);
    let first = tasks.take(k);
    lemma_filter_from(first, keep);
    let a = first.filter(keep)[j];
    assert(first.contains(a));
    let i = choose|i: int| 0 <= i < first.len() && first[i] == a;
    assert(tasks[i] == a);
}

/// The task that is next is the one its id finds.
proof fn lemma_expire_finds(q: QueueView, cur: Cursor, k: int, now: u64, network: NetworkKind)
    requires
        told_apart(q.tasks),
        0 <= k < q.tasks.len(),
        going(q, cur, k, is_out_of_time(now), is_noted(now, network), is_told_late()),
    ensures
        located(cur.q.tasks, q.tasks[k].task.taskid) == Some(cur.i),
        cur.q.tasks[cur.i] == q.tasks[k],
        0 <= cur.i < cur.q.tasks.len(),
{
    let over = is_out_of_time(now);
    let left = is_noted(now, network);
    let keep = |t: TaskView| !over(t);
    let kept = q.tasks.take(k).filter(keep);
    let at = cur.i;
    let taskid = q.tasks[k].task.taskid;
    assert(cur.q.tasks[at] == q.tasks[k]);
    assert forall|j: int| 0 <= j < at implies (#[trigger] cur.q.tasks[j]).task.taskid
        != taskid by {
        assert(left(kept[j], cur.q.tasks[j]));
        lemma_kept_apart(q.tasks, k, over, j);
    }
    assert(is_first(cur.q.tasks, taskid, at));
    let found = located(cur.q.tasks, taskid)->0;
    assert(is_first(cur.q.tasks, taskid, found));
}

/// One step of a pass of timeouts, from the place the task stands at.
proof fn lemma_expire_at(
    q: QueueView,
    at: int,
    now: u64,
    network: NetworkKind,
    batch: Seq<BatchEntry>,
    answer: ConnectView,
)
    requires
        0 <= at < q.tasks.len(),
        located(q.tasks, q.tasks[at].task.taskid) == Some(at),
    ensures
        ({
            let t = q.tasks[at];
            let e = Expired {
                taskid: t.task.taskid,
                name: t.channel_name,
                read: read_due(t, now, network),
                over: is_due(t, now, network, Timeout::Task),
            };
            let next = expire_step(
                crate::queue_spec::ExpireCursor { q, batch },
                now,
                e,
                answer,
            ).q;
            let over = is_out_of_time(now);
            let left = is_noted(now, network);
            let word = is_told_late();
            &&& over(t) ==> next.tasks == q.tasks.remove(at) && word(t, next.told.last())
                && told_over(next.told) == told_over(q.told).push(next.told.last())
            &&& !over(t) ==> next.tasks == q.tasks.update(at, next.tasks[at]) && left(
                t,
                next.tasks[at],
            ) && told_over(next.told) == told_over(q.told)
        }),
{
    let t = q.tasks[at];
    let e = Expired {
        taskid: t.task.taskid,
        name: t.channel_name,
        read: read_due(t, now, network),
        over: is_due(t, now, network, Timeout::Task),
    };
    let next = expire_step(crate::queue_spec::ExpireCursor { q, batch }, now, e, answer).q;
    law_when_the_waits_of_a_task_run_out(t, now, network);
    let noted = if e.read == Some(Timeout::FirstPkg) {
        q.with_task(at, crate::task_profile::last_failed_noted(t))
    } else {
        q
    };
    if e.over {
        let asked = noted.profile_asked(e.name, answer);
        lemma_told_push(noted.told, Told::ChannelProfile { name: e.name, answer });
        law_a_task_with_a_try_left_stays(
            asked,
            now,
            at,
            ErrCmdType::Local,
            (-1) as i32,
            TaskFailHandleType::TaskTimeout,
            noted.profile_of(e.name, answer),
        );
        lemma_told_push(asked.told, next.told.last());
        assert(next.told == asked.told.push(next.told.last()));
        assert(next.tasks =~= q.tasks.remove(at));
    } else {
        assert(next.tasks =~= q.tasks.update(at, next.tasks[at]));
    }
}

proof fn lemma_expire_goes(
    q: QueueView,
    now: u64,
    network: NetworkKind,
    answers: Seq<ConnectView>,
)
    requires
        told_apart(q.tasks),
        answers.len() <= q.tasks.len(),
    ensures
        ({
            let c = expire_steps(q, now, expired(q.tasks, now, network), answers);
            let over = is_out_of_time(now);
            let kept = q.tasks.take(answers.len() as int).filter(|t: TaskView| !over(t));
            going(
                q,
                Cursor { q: c.q, i: kept.len() as int },
                answers.len() as int,
                over,
                is_noted(now, network),
                is_told_late(),
            )
        }),
    decreases answers.len(),
{
    let over = is_out_of_time(now);
    let left = is_noted(now, network);
    let word = is_told_late();
    let keep = |t: TaskView| !over(t);
    let entries = expired(q.tasks, now, network);
    if answers.len() == 0 {
        lemma_going_begins(q, over, left, word);
        reveal(Seq::filter);
        assert(q.tasks.take(0).filter(keep).len() == 0);
    } else {
        let fewer = answers.drop_last();
        lemma_expire_goes(q, now, network, fewer);
        let c = expire_steps(q, now, entries, fewer);
        let k = fewer.len() as int;
        let kept = q.tasks.take(k).filter(keep);
        let at = kept.len() as int;
        let cur = Cursor { q: c.q, i: at };
        let e = entries[k];
        let t = q.tasks[k];
        let next = expire_step(c, now, e, answers.last());
        lemma_expire_finds(q, cur, k, now, network);
        lemma_expire_at(c.q, at, now, network, c.batch, answers.last());
        let more = q.tasks.take(k + 1);
        assert(more.drop_last() =~= q.tasks.take(k));
        reveal(Seq::filter);
        if over(t) {
            let after = Cursor { q: next.q, i: at };
            lemma_going_leaves(q, cur, k, next.q.told.last(), after, over, left, word);
            assert(!keep(t));
            assert(more.filter(keep) == kept);
        } else {
            let after = Cursor { q: next.q, i: at + 1 };
            lemma_going_stays(q, cur, k, next.q.tasks[at], after, over, left, word);
            assert(keep(t));
            assert(more.filter(keep) == kept.push(t));
        }
        assert(answers.len() == k + 1);
    }
}

/// A task whose own time ran out is over, tries or none: it leaves, and the app is told
/// so once. A task that has time left stays: that another wait of it ran out is no end
/// of it by itself.
pub proof fn law_who_runs_out_of_time(
    pre: QueueView,
    now: u64,
    network: NetworkKind,
    answers: Seq<ConnectView>,
)
    requires
        told_apart(pre.tasks),
        answers.len() == pre.tasks.len(),
    ensures
        went_over(
            pre,
            expire_steps(pre, now, expired(pre.tasks, now, network), answers).q,
            is_out_of_time(now),
            is_noted(now, network),
            is_told_late(),
        ),
{
    lemma_expire_goes(pre, now, network, answers);
    let c = expire_steps(pre, now, expired(pre.tasks, now, network), answers);
    let over = is_out_of_time(now);
    let kept = pre.tasks.take(answers.len() as int).filter(|t: TaskView| !over(t));
    lemma_going_ends(
        pre,
        Cursor { q: c.q, i: kept.len() as int },
        answers.len() as int,
        over,
        is_noted(now, network),
        is_told_late(),
    );
}

/// The channel is in the list of those to fail.
pub open spec fn is_listed(batch: Seq<BatchEntry>, name: Seq<char>) -> bool {
    exists|i: int| 0 <= i < batch.len() && (#[trigger] batch[i]).name == name
}

/// One task of a pass of timeouts: its channel is to be failed where any wait of it ran
/// out, and the channels there were before still are. It is failed for that task where
/// a read ran out, with the code of that; a task that only ran out of its own time does
/// not take the place of one that did.
pub proof fn law_which_channel_a_task_fails(
    c: crate::queue_spec::ExpireCursor,
    now: u64,
    e: Expired,
    answer: ConnectView,
    other: Seq<char>,
)
    requires
        located(c.q.tasks, e.taskid) is Some,
    ensures
        ({
            let next = expire_step(c, now, e, answer).batch;
            &&& is_listed(next, other) == (is_listed(c.batch, other) || (other == e.name && (
            e.read is Some || e.over)))
            &&& e.read is Some ==> exists|i: int|
                0 <= i < next.len() && #[trigger] next[i] == (BatchEntry {
                    name: e.name,
                    code: crate::queue_spec::timeout_code(e.read->0),
                    src_taskid: e.taskid,
                })
            &&& e.read is None && e.over && !is_listed(c.batch, e.name) ==> next.last() == (
            BatchEntry { name: e.name, code: (-503) as i32, src_taskid: e.taskid })
            &&& e.read is None && (!e.over || is_listed(c.batch, e.name)) ==> next == c.batch
        }),
{
    lemma_listed(c.batch, e.name);
    let next = expire_step(c, now, e, answer).batch;
    match e.read {
        Some(timeout) => {
            let code = crate::queue_spec::timeout_code(timeout);
            let b = crate::queue_spec::upserted(c.batch, e.name, code, e.taskid);
            if is_listed(c.batch, e.name) {
                let i = choose|i: int| crate::queue_spec::is_entry(c.batch, e.name, i);
                assert(b[i].name == e.name);
                assert forall|j: int| 0 <= j < b.len() implies (#[trigger] b[j]).name
                    == c.batch[j].name by {}
                if is_listed(c.batch, other) {
                    let j = choose|j: int|
                        0 <= j < c.batch.len() && (#[trigger] c.batch[j]).name == other;
                    assert(b[j].name == other);
                }
                if is_listed(b, other) {
                    let j = choose|j: int| 0 <= j < b.len() && (#[trigger] b[j]).name == other;
                    assert(c.batch[j].name == other);
                }
            } else {
                assert(b.last().name == e.name);
                lemma_listed_push(
                    c.batch,
                    BatchEntry { name: e.name, code, src_taskid: e.taskid },
                    other,
                );
            }
            lemma_listed(b, e.name);
            assert(is_listed(b, e.name));
            assert(next == b);
        },
        None => {
            lemma_listed_push(
                c.batch,
                BatchEntry { name: e.name, code: (-503) as i32, src_taskid: e.taskid },
                other,
            );
        },
    }
}

/// A channel has an entry exactly where it is in the list.
proof fn lemma_listed(batch: Seq<BatchEntry>, name: Seq<char>)
    ensures
        is_listed(batch, name) <==> exists|i: int| crate::queue_spec::is_entry(batch, name, i),
{
    if is_listed(batch, name) {
        let i = choose|i: int| 0 <= i < batch.len() && (#[trigger] batch[i]).name == name;
        lemma_first_entry(batch, name, i);
    }
    if exists|i: int| crate::queue_spec::is_entry(batch, name, i) {
        let i = choose|i: int| crate::queue_spec::is_entry(batch, name, i);
        assert(batch[i].name == name);
    }
}

proof fn lemma_first_entry(batch: Seq<BatchEntry>, name: Seq<char>, i: int)
    requires
        0 <= i < batch.len(),
        batch[i].name == name,
    ensures
        exists|j: int| crate::queue_spec::is_entry(batch, name, j),
    decreases i,
{
    if exists|j: int| 0 <= j < i && (#[trigger] batch[j]).name == name {
        let j = choose|j: int| 0 <= j < i && (#[trigger] batch[j]).name == name;
        lemma_first_entry(batch, name, j);
    } else {
        assert(crate::queue_spec::is_entry(batch, name, i));
    }
}

proof fn lemma_listed_push(batch: Seq<BatchEntry>, entry: BatchEntry, name: Seq<char>)
    ensures
        is_listed(batch.push(entry), name) == (is_listed(batch, name) || entry.name == name),
{
    let more = batch.push(entry);
    if is_listed(batch, name) {
        let j = choose|j: int| 0 <= j < batch.len() && (#[trigger] batch[j]).name == name;
        assert(more[j].name == name);
    }
    assert(more[more.len() - 1].name == entry.name);
    if is_listed(more, name) {
        let j = choose|j: int| 0 <= j < more.len() && (#[trigger] more[j]).name == name;
        if j < batch.len() {
            assert(batch[j].name == name);
        }
    }
}

/// A channel that is failed for a timeout is failed as one, for the task that timed
/// out; the app hears of the pair unless the task only ran out of its own time.
pub proof fn law_what_a_timeout_fails_a_channel_with(
    q: QueueView,
    entry: BatchEntry,
    answer: ConnectView,
)
    ensures
        ({
            let failure = timeout_failure(entry);
            let noted = timeout_noted(q, entry, answer);
            let said = noted.told.skip(q.told.len() as int);
            &&& failure.err_type == ErrCmdType::NetMsgXp
            &&& failure.fail_handle == TaskFailHandleType::Default
            &&& failure.src_taskid == entry.src_taskid
            &&& failure.err_code == (if entry.code == -503 {
                -1i32
            } else {
                entry.code
            })
            &&& noted.tasks == q.tasks
            &&& entry.code == -503 ==> noted == q
            &&& entry.code != -503 ==> said.len() > 0 && said.last() is NetworkErr
                && said.last()->NetworkErr_name == entry.name
                && said.last()->NetworkErr_err_type == ErrCmdType::NetMsgXp
                && said.last()->NetworkErr_err_code == entry.code
            &&& entry.code != -503 && q.has_channel(entry.name) ==> said.last()->NetworkErr_ip
                == answer.ip && said.last()->NetworkErr_port == answer.port
        }),
{
    let noted = timeout_noted(q, entry, answer);
    let n = q.told.len() as int;
    let said = noted.told.skip(n);
    if entry.code != -503 {
        assert(said.last() == noted.told.last());
    }
}

// ---- a task goes out ------------------------------------------------------------------

/// What was sent, in order.
pub open spec fn told_sent(told: Seq<Told>) -> Seq<Told> {
    told.filter(|word: Told| word is Send)
}

proof fn lemma_pushes()
    ensures
        forall|told: Seq<Told>, word: Told|
            told_over(#[trigger] told.push(word)) == (if word is Ended {
                told_over(told).push(word)
            } else {
                told_over(told)
            }),
        forall|told: Seq<Told>, word: Told|
            told_sent(#[trigger] told.push(word)) == (if word is Send {
                told_sent(told).push(word)
            } else {
                told_sent(told)
            }),
{
    reveal(Seq::filter);
    assert forall|told: Seq<Told>, word: Told|
        told_over(#[trigger] told.push(word)) == (if word is Ended {
            told_over(told).push(word)
        } else {
            told_over(told)
        }) by {
        assert(told.push(word).drop_last() =~= told);
    }
    assert forall|told: Seq<Told>, word: Told|
        told_sent(#[trigger] told.push(word)) == (if word is Send {
            told_sent(told).push(word)
        } else {
            told_sent(told)
        }) by {
        assert(told.push(word).drop_last() =~= told);
    }
}

/// The same task, but for the id it is reported under.
pub open spec fn is_same_task(t: Task, u: Task) -> bool {
    u == (Task { client_sequence_id: u.client_sequence_id, ..t })
}

/// The look left the task where it stands: the same task with the same tries, and the
/// look goes on behind it.
pub open spec fn left_standing(c: SendCursor, r: SendCursor) -> bool {
    let t = c.q.tasks[c.i];
    let u = r.q.tasks[c.i];
    &&& r.i == c.i + 1
    &&& r.q.tasks == c.q.tasks.update(c.i, u)
    &&& is_same_task(t.task, u.task)
    &&& u.channel_name == t.channel_name
    &&& u.remain_retry_count == t.remain_retry_count
    &&& u.start_task_time == t.start_task_time
    &&& u.task_timeout == t.task_timeout
    &&& u.history == t.history
    &&& told_over(r.q.told) == told_over(c.q.told)
}

/// The look ended the task: it is gone, and the app was told so once, with that error.
pub open spec fn ended_with(
    c: SendCursor,
    r: SendCursor,
    err_type: ErrCmdType,
    err_code: i32,
    handle: TaskFailHandleType,
) -> bool {
    let t = c.q.tasks[c.i];
    let word = told_over(r.q.told).last();
    &&& r.i == c.i
    &&& r.q.tasks == c.q.tasks.remove(c.i)
    &&& told_over(r.q.told) == told_over(c.q.told).push(word)
    &&& word is Ended
    &&& is_same_task(t.task, word->Ended_task)
    &&& word->Ended_err_type == err_type
    &&& word->Ended_err_code == err_code
    &&& word->Ended_handle == handle
}

/// The request goes out, or it is given to the link, or the link would not take it.
#[verifier::spinoff_prover]
#[verifier::rlimit(60)]
proof fn lemma_sends(
    c: SendCursor,
    pass: Pass,
    id: Option<u16>,
    body: Seq<u8>,
    a: crate::queue_spec::SendAnswers,
)
    requires
        0 <= c.i < c.q.tasks.len(),
    ensures
        ({
            let t = c.task();
            let r = turn_send(c, pass, id, body, a);
            let word = Told::Send { name: t.channel_name, task: t.task, body, answer: a.run };
            let u = r.q.tasks[c.i];
            &&& told_sent(r.q.told) == told_sent(c.q.told).push(word)
            &&& a.run is None ==> left_standing(c, r) && u.running == t.running && r.sent == c.sent
            &&& a.run is Some ==> r.sent == c.sent + 1
            &&& a.run is Some && !t.task.send_only ==> left_standing(c, r) && u.running == a.run
            &&& a.run is Some && t.task.send_only ==> ended_with(
                c,
                r,
                ErrCmdType::NoError,
                0,
                TaskFailHandleType::Normal,
            )
            &&& !(a.run is Some && t.task.send_only) ==> {
                &&& u.transfer_profile.first_pkg_timeout == a.first_pkg
                &&& u.transfer_profile.read_write_timeout == a.read_write
                &&& u.transfer_profile.loop_start_task_time == pass.now
                &&& u.transfer_profile.send_data_size == body.len() as usize
                &&& u.current_dyntime_status == (if t.task.server_process_cost <= 0 {
                    c.q.timeout.status
                } else {
                    DynamicTimeoutStatus::Evaluating
                })
            }
            &&& r.q.channels == c.q.channels
        }),
{
    reveal(turn_send);
    lemma_pushes();
    let r = turn_send(c, pass, id, body, a);
    if a.run is Some && c.task().task.send_only {
        assert(r.q.tasks =~= c.q.tasks.remove(c.i));
    } else {
        assert(r.q.tasks =~= c.q.tasks.update(c.i, r.q.tasks[c.i]));
    }
}

/// The link is looked at.
#[verifier::spinoff_prover]
#[verifier::rlimit(60)]
proof fn lemma_connects(
    c: SendCursor,
    pass: Pass,
    id: Option<u16>,
    body: Seq<u8>,
    a: crate::queue_spec::ConnectAnswers,
)
    requires
        0 <= c.i < c.q.tasks.len(),
        c.q.has_channel(c.task().channel_name),
    ensures
        ({
            let t = c.task();
            let r = turn_connect(c, pass, id, body, a);
            let word = Told::Send { name: t.channel_name, task: t.task, body, answer: a.send.run };
            let other = t.task.channel_id != 0 && a.profile.start_time != t.task.channel_id;
            let goes = a.connected && !other && a.kept is None;
            let again = t.remain_retry_count > 0 && a.decoded.1 != TaskFailHandleType::TaskEnd
                && a.decoded.1 != TaskFailHandleType::TaskTimeout;
            let u = r.q.tasks[c.i];
            &&& goes ==> told_sent(r.q.told) == told_sent(c.q.told).push(word)
            &&& !goes ==> told_sent(r.q.told) == told_sent(c.q.told) && r.sent == c.sent
            &&& !a.connected && t.task.channel_id == 0 ==> left_standing(c, r) && u.running
                == t.running
            &&& (!a.connected && t.task.channel_id != 0) || (a.connected && other) ==> ended_with(
                c,
                r,
                ErrCmdType::Local,
                (-14) as i32,
                TaskFailHandleType::TaskEnd,
            )
            &&& a.connected && !other && a.kept is Some && !again ==> ended_with(
                c,
                r,
                ErrCmdType::EnDecode,
                a.decoded.0,
                a.decoded.1,
            )
            &&& a.connected && !other && a.kept is Some && again ==> r.i == c.i + 1
                && told_over(r.q.told) == told_over(c.q.told) && r.q.tasks == c.q.tasks.update(
                c.i,
                u,
            ) && u.remain_retry_count == t.remain_retry_count - 1 && u.running is None
                && is_same_task(t.task, u.task)
            &&& goes ==> r.sent == c.sent + (if a.send.run is Some {
                1int
            } else {
                0int
            })
            &&& goes && a.send.run is None ==> left_standing(c, r) && u.running == t.running
            &&& goes && a.send.run is Some && !t.task.send_only ==> left_standing(c, r)
                && u.running == a.send.run
            &&& goes && a.send.run is Some && t.task.send_only ==> ended_with(
                c,
                r,
                ErrCmdType::NoError,
                0,
                TaskFailHandleType::Normal,
            )
        }),
{
    reveal(turn_connect);
    lemma_pushes();
    let t = c.task();
    let name = t.channel_name;
    let r = turn_connect(c, pass, id, body, a);
    let c1 = c.heard(Told::MakeSureConnected { name, answer: a.connected });
    let other = t.task.channel_id != 0 && a.profile.start_time != t.task.channel_id;
    if a.connected && !other && a.kept is None {
        let c2 = SendCursor { q: c1.q.profile_asked(name, a.profile), ..c1 };
        let c3 = c2.heard(Told::KeptAnswer { now: pass.now, cgi: t.task.cgi@, answer: a.kept });
        lemma_sends(c3, pass, id, body, a.send);
        assert(r == turn_send(c3, pass, id, body, a.send));
    } else if r.i == c.i {
        assert(r.q.tasks =~= c.q.tasks.remove(c.i));
    } else {
        assert(r.q.tasks =~= c.q.tasks.update(c.i, r.q.tasks[c.i]));
    }
}

/// When a task goes out. It goes exactly where it is not out already, does not owe the
/// queue a wait, its user is authenticated where that is asked for, its channel is
/// there, its request was made and let through the gates, its link is up and the one it
/// asked for, and no answer was kept for it. Then, and only then, its request is given
/// to the link of its channel.
#[verifier::spinoff_prover]
#[verifier::rlimit(60)]
pub proof fn law_when_a_task_goes_out(c: SendCursor, pass: Pass, a: TurnAnswers)
    requires
        0 <= c.i < c.q.tasks.len(),
    ensures
        ({
            let t = c.q.tasks[c.i];
            let r = turn(c, pass, a);
            let u = r.q.tasks[c.i];
            let link = a.encode.connect;
            let free = t.running is None && (t.remain_retry_count >= t.task.retry_count
                || pass.can_retry) && (t.task.need_authed ==> a.authed) && c.q.has_channel(
                t.channel_name,
            );
            let let_through = free && a.encode.encoded is Ok && a.encode.allowed;
            let other = t.task.channel_id != 0 && link.profile.start_time != t.task.channel_id;
            let goes = let_through && link.connected && !other && link.kept is None;
            let run = link.send.run;
            &&& told_sent(r.q.told) == (if goes {
                told_sent(c.q.told).push(
                    Told::Send {
                        name: t.channel_name,
                        task: t.task,
                        body: a.encode.encoded->Ok_0,
                        answer: run,
                    },
                )
            } else {
                told_sent(c.q.told)
            })
            &&& r.sent == c.sent + (if t.running is Some || (goes && run is Some) {
                1int
            } else {
                0int
            })
            &&& !free ==> left_standing(c, r) && u == t
            &&& free && a.encode.encoded is Err ==> ended_with(
                c,
                r,
                ErrCmdType::EnDecode,
                a.encode.encoded->Err_0,
                TaskFailHandleType::TaskEnd,
            )
            &&& free && a.encode.encoded is Ok && !a.encode.allowed ==> ended_with(
                c,
                r,
                ErrCmdType::Local,
                (-4) as i32,
                TaskFailHandleType::TaskEnd,
            )
            &&& let_through && !link.connected && t.task.channel_id == 0 ==> left_standing(c, r)
                && u.running is None && u.antiavalanche_checked
            &&& let_through && ((!link.connected && t.task.channel_id != 0) || (link.connected
                && other)) ==> ended_with(
                c,
                r,
                ErrCmdType::Local,
                (-14) as i32,
                TaskFailHandleType::TaskEnd,
            )
            &&& goes && run is None ==> left_standing(c, r) && u.running is None
            &&& goes && run is Some && !t.task.send_only ==> left_standing(c, r) && u.running == run
            &&& goes && run is Some && t.task.send_only ==> ended_with(
                c,
                r,
                ErrCmdType::NoError,
                0,
                TaskFailHandleType::Normal,
            )
        }),
{
    reveal(turn_gate);
    reveal(turn_encode);
    lemma_pushes();
    let t = c.task();
    let r = turn(c, pass, a);
    let free = t.running is None && (t.remain_retry_count >= t.task.retry_count || pass.can_retry)
        && (t.task.need_authed ==> a.authed) && c.q.has_channel(t.channel_name);
    if free {
        let c0 = if t.task.need_authed {
            c.heard(
                Told::Authed {
                    host: crate::queue_spec::first_text(t.task.longlink_host_list@),
                    user_id: t.task.user_id@,
                    answer: a.authed,
                },
            )
        } else {
            c
        };
        let e = a.encode;
        let c1 = if t.antiavalanche_checked {
            c0
        } else {
            c0.heard(Told::SequenceId { answer: e.sequence_id })
        };
        let c2 = c1.heard(Told::Encode { task: t.task, answer: e.encoded });
        let id = if t.antiavalanche_checked {
            None
        } else {
            Some(e.sequence_id)
        };
        match e.encoded {
            Err(_) => {
                assert(r.q.tasks =~= c.q.tasks.remove(c.i));
            },
            Ok(body) => {
                let c3 = c2.heard(Told::Allowed { task: t.task, body, answer: e.allowed });
                if e.allowed {
                    let c4 = c3.with_task(TaskView { antiavalanche_checked: true, ..t });
                    lemma_connects(c4, pass, id, body, e.connect);
                    lemma_keeps_mark(c4, pass, id, body, e.connect);
                    assert(r == turn_connect(c4, pass, id, body, e.connect));
                    if r.i == c.i {
                        assert(c4.q.tasks.remove(c.i) =~= c.q.tasks.remove(c.i));
                    } else {
                        assert(c4.q.tasks.update(c.i, r.q.tasks[c.i]) =~= c.q.tasks.update(
                            c.i,
                            r.q.tasks[c.i],
                        ));
                    }
                } else {
                    assert(r.q.tasks =~= c.q.tasks.remove(c.i));
                }
            },
        }
    } else {
        assert(r.q.tasks =~= c.q.tasks.update(c.i, t));
    }
}

/// A task whose link is down is still one the gates let through.
proof fn lemma_keeps_mark(
    c: SendCursor,
    pass: Pass,
    id: Option<u16>,
    body: Seq<u8>,
    a: crate::queue_spec::ConnectAnswers,
)
    requires
        0 <= c.i < c.q.tasks.len(),
    ensures
        !a.connected && c.task().task.channel_id == 0 ==> turn_connect(
            c,
            pass,
            id,
            body,
            a,
        ).q.tasks[c.i].antiavalanche_checked
            == c.task().antiavalanche_checked,
{
    reveal(turn_connect);
}

/// The wait after a failed channel holds back what was tried, until it is over.
pub proof fn law_when_a_pass_lets_a_task_try_again(q: QueueView, now: u64, network: NetworkKind)
    ensures
        start_pass(q, now, network).can_retry <==> now >= q.last_batch_error_time
            + q.retry_interval || q.retry_interval == 0,
        start_pass(q, now, network).now == now,
        start_pass(q, now, network).mobile <==> network == NetworkKind::Mobile,
{
}

// ---- an answer comes in ------------------------------------------------------------------

/// Of an answer nothing comes but of one on a channel the queue has: the server pushing
/// is handed on as it is, an answer for a task that is over is dropped, and an error
/// fails the whole channel.
pub proof fn law_what_an_answer_is_taken_for(
    pre: QueueView,
    now: u64,
    r: ResponseView,
    a: ResponseAnswers,
    post: QueueView,
    handle: Option<RespHandle>,
)
    requires
        responded(pre, now, r, a, post, handle),
    ensures
        ({
            let there = pre.has_channel(r.name);
            let push = r.err_type == ErrCmdType::NoError && r.taskid == 0;
            let known = r.taskid != 0 && exists|i: int|
                0 <= i < pre.tasks.len() && (#[trigger] pre.tasks[i]).task.taskid == r.taskid;
            &&& !there ==> post == pre && handle is None
            &&& there && push ==> post.tasks == pre.tasks && handle is None && post.told
                == pre.told.push(
                Told::Push { name: r.name, cmdid: r.cmdid, taskid: r.taskid, body: r.body },
            )
            &&& there && !push && r.err_type == ErrCmdType::NoError && !known ==> post == pre
                && handle is None
            &&& there && !push && r.err_type == ErrCmdType::NoError && known ==> handle is Some
            &&& there && r.err_type != ErrCmdType::NoError ==> handle is Some && post.told.len()
                >= pre.told.len() && post.last_batch_error_time == now
        }),
{
    lemma_known(pre.tasks, r.taskid);
    if pre.has_channel(r.name) && r.err_type != ErrCmdType::NoError {
        let given = handshake_given_back(pre, r);
        lemma_told_grows(given, now, r.name, error_failure(r), true, a.each);
    }
}

/// A task is found exactly where one has that id.
proof fn lemma_known(tasks: Seq<TaskView>, taskid: u32)
    ensures
        located(tasks, taskid) is Some <==> taskid != 0 && exists|i: int|
            0 <= i < tasks.len() && (#[trigger] tasks[i]).task.taskid == taskid,
        located(tasks, taskid) is Some ==> is_first(tasks, taskid, located(tasks, taskid)->0),
{
    if exists|i: int| 0 <= i < tasks.len() && (#[trigger] tasks[i]).task.taskid == taskid {
        let i = choose|i: int| 0 <= i < tasks.len() && (#[trigger] tasks[i]).task.taskid == taskid;
        lemma_first_task(tasks, taskid, i);
    }
    if exists|i: int| is_first(tasks, taskid, i) {
        let i = choose|i: int| is_first(tasks, taskid, i);
        assert(tasks[i].task.taskid == taskid);
    }
}

proof fn lemma_first_task(tasks: Seq<TaskView>, taskid: u32, i: int)
    requires
        0 <= i < tasks.len(),
        tasks[i].task.taskid == taskid,
    ensures
        exists|j: int| is_first(tasks, taskid, j),
    decreases i,
{
    if exists|j: int| 0 <= j < i && (#[trigger] tasks[j]).task.taskid == taskid {
        let j = choose|j: int| 0 <= j < i && (#[trigger] tasks[j]).task.taskid == taskid;
        lemma_first_task(tasks, taskid, j);
    } else {
        assert(is_first(tasks, taskid, i));
    }
}

/// A pass over a failed channel takes nothing back of what was told.
proof fn lemma_told_grows(
    q: QueueView,
    now: u64,
    name: Seq<char>,
    failure: Failure,
    running_only: bool,
    answers: Seq<ConnectView>,
)
    ensures
        batch_steps(q, now, name, failure, running_only, answers).q.told.len() >= q.told.len(),
    decreases answers.len(),
{
    if answers.len() > 0 {
        lemma_told_grows(q, now, name, failure, running_only, answers.drop_last());
    }
}

/// What becomes of the task of an answer, by what the app made of it. A good one ends
/// the task well, and a bad one that is the end ends it with the app's code; one that
/// is to end silently leaves, and nobody hears of it. Where the session is over, or
/// everything is to be tried again, the task stays with all its tries until the core
/// comes back to it. Anything else fails every task that is out on the channel.
#[verifier::spinoff_prover]
#[verifier::rlimit(60)]
pub proof fn law_what_becomes_of_an_answered_task(
    pre: QueueView,
    now: u64,
    at: int,
    r: ResponseView,
    a: ResponseAnswers,
    post: QueueView,
    handle: Option<RespHandle>,
)
    requires
        0 <= at < pre.tasks.len(),
        answer_came(pre, now, at, r, a, post, handle),
    ensures
        ({
            let t = pre.tasks[at];
            let code = a.decoded.0;
            let over = told_over(post.told);
            let before = told_over(pre.told);
            match a.decoded.1 {
                TaskFailHandleType::Normal => {
                    &&& handle == Some(RespHandle::Ended)
                    &&& post.tasks == pre.tasks.remove(at)
                    &&& over == before.push(over.last())
                    &&& is_end_of(
                        t,
                        ErrCmdType::NoError,
                        code,
                        TaskFailHandleType::Normal,
                        over.last(),
                    )
                    &&& post.told.last() == (Told::NetworkErr {
                        name: r.name,
                        err_type: ErrCmdType::NoError,
                        err_code: code,
                        ip: r.profile.ip,
                        port: r.profile.port,
                    })
                    &&& post.fail_count == 0
                    &&& post.retry_interval == 0
                },
                TaskFailHandleType::TaskEnd => {
                    &&& handle == Some(RespHandle::Ended)
                    &&& post.tasks == pre.tasks.remove(at)
                    &&& over == before.push(over.last())
                    &&& is_end_of(
                        t,
                        ErrCmdType::EnDecode,
                        code,
                        TaskFailHandleType::TaskEnd,
                        over.last(),
                    )
                    &&& post.timeout == pre.timeout
                },
                TaskFailHandleType::SlientTaskEnd => {
                    &&& handle == Some(RespHandle::Ended)
                    &&& post.tasks == pre.tasks.remove(at)
                    &&& over == before
                    &&& post.fail_count == pre.fail_count
                    &&& post.timeout == pre.timeout
                },
                TaskFailHandleType::SessionTimeout | TaskFailHandleType::RetryAllTasks => {
                    &&& handle == Some(RespHandle::Deferred)
                    &&& post.tasks == pre.tasks.update(at, post.tasks[at])
                    &&& post.tasks[at].task == t.task
                    &&& post.tasks[at].remain_retry_count == t.remain_retry_count
                    &&& post.tasks[at].running == t.running
                    &&& over == before
                    &&& post.told.last() == (Told::RetryAllTasks {
                        err_type: ErrCmdType::EnDecode,
                        err_code: code,
                        handle: a.decoded.1,
                        src_taskid: t.task.taskid,
                        user_id: t.task.user_id@,
                    })
                },
                TaskFailHandleType::Default | TaskFailHandleType::TaskTimeout => {
                    let read = crate::queue_spec::answer_read(pre, now, at, r, a);
                    let failure = Failure {
                        err_type: ErrCmdType::EnDecode,
                        err_code: code,
                        fail_handle: a.decoded.1,
                        src_taskid: r.taskid,
                    };
                    &&& read.tasks.len() == pre.tasks.len()
                    &&& went_over(
                        read,
                        post,
                        is_ended(t.channel_name, failure, true),
                        is_left(t.channel_name, true),
                        is_told_of(failure),
                    )
                    &&& handle == Some(RespHandle::Retried) <==> post.has_task(r.taskid)
                    &&& handle == Some(RespHandle::Retried) || handle == Some(RespHandle::Ended)
                    &&& post.last_batch_error_time == now
                },
            }
        }),
{
    lemma_pushes();
    let t = pre.tasks[at];
    let read = crate::queue_spec::answer_read(pre, now, at, r, a);
    assert(read.tasks.remove(at) =~= pre.tasks.remove(at));
    assert(told_over(read.told) == told_over(pre.told));
    match a.decoded.1 {
        TaskFailHandleType::Default | TaskFailHandleType::TaskTimeout => {
            let failure = Failure {
                err_type: ErrCmdType::EnDecode,
                err_code: a.decoded.0,
                fail_handle: a.decoded.1,
                src_taskid: r.taskid,
            };
            let name = t.channel_name;
            let mid = choose|mid: QueueView|
                {
                    &&& #[trigger] batch_error(read, now, name, failure, true, a.each, mid)
                    &&& post == mid.heard(
                        Told::NetworkErr {
                            name: r.name,
                            err_type: ErrCmdType::EnDecode,
                            err_code: crate::task_profile::fail_handle_code(a.decoded.1) as i32,
                            ip: r.profile.ip,
                            port: r.profile.port,
                        },
                    )
                    &&& handle == Some(
                        if post.has_task(r.taskid) {
                            RespHandle::Retried
                        } else {
                            RespHandle::Ended
                        },
                    )
                };
            law_who_stays_of_a_failed_channel(read, now, name, failure, true, a.each, mid);
        },
        _ => {},
    }
}

/// An error of a channel fails every task that is out on it, as an error nobody named a
/// way out of. A handshake the two ends did not agree on gives the task it names a try
/// back first; nothing else gives one back.
pub proof fn law_what_an_error_does(
    pre: QueueView,
    now: u64,
    r: ResponseView,
    each: Seq<ConnectView>,
    post: QueueView,
    handle: Option<RespHandle>,
)
    requires
        error_came(pre, now, r, each, post, handle),
    ensures
        ({
            let given = handshake_given_back(pre, r);
            let failure = error_failure(r);
            let back = r.err_code == -10503;
            &&& went_over(
                given,
                post,
                is_ended(r.name, failure, true),
                is_left(r.name, true),
                is_told_of(failure),
            )
            &&& failure.err_type == r.err_type
            &&& failure.err_code == r.err_code
            &&& failure.fail_handle == TaskFailHandleType::Default
            &&& failure.src_taskid == 0
            &&& given.told == pre.told
            &&& given.tasks.len() == pre.tasks.len()
            &&& forall|i: int|
                0 <= i < pre.tasks.len() ==> #[trigger] given.tasks[i] == (if back && is_first(
                    pre.tasks,
                    r.taskid,
                    i,
                ) && r.taskid != 0 {
                    TaskView {
                        remain_retry_count: (pre.tasks[i].remain_retry_count + 1) as i32,
                        ..pre.tasks[i]
                    }
                } else {
                    pre.tasks[i]
                })
            &&& r.taskid != 0 ==> (handle == Some(RespHandle::Retried) <==> exists|i: int|
                0 <= i < post.tasks.len() && (#[trigger] post.tasks[i]).task.taskid == r.taskid)
            &&& r.taskid == 0 ==> (handle == Some(RespHandle::Retried) <==> exists|i: int|
                0 <= i < post.tasks.len() && (#[trigger] post.tasks[i]).channel_name == r.name)
            &&& handle == Some(RespHandle::Retried) || handle == Some(RespHandle::Ended)
        }),
{
    let given = handshake_given_back(pre, r);
    lemma_known(pre.tasks, r.taskid);
    law_the_tasks_of_a_channel_are_counted(post.tasks, r.name);
    law_who_stays_of_a_failed_channel(given, now, r.name, error_failure(r), true, each, post);
}

/// A task that was just asked for stands in the queue with all its tries, not out, its
/// time running from that reading; every other task stands as it did, in its order.
pub proof fn law_a_new_task_has_all_its_tries(
    q: QueueView,
    now: u64,
    task: Task,
    channel: i32,
    timeout: u64,
)
    requires
        by_priority(q.tasks),
    ensures
        ({
            let next = crate::queue_spec::queued(q, now, task, channel, timeout);
            let p = crate::queue_spec::slot(q.tasks, task.priority);
            let t = next.tasks[p];
            &&& 0 <= p <= q.tasks.len()
            &&& next.tasks == q.tasks.insert(p, t)
            &&& forall|j: int| 0 <= j < p ==> (#[trigger] q.tasks[j]).task.priority <= task.priority
            &&& forall|j: int|
                p <= j < q.tasks.len() ==> (#[trigger] q.tasks[j]).task.priority > task.priority
            &&& t.task == task
            &&& t.remain_retry_count == task.retry_count
            &&& t.running is None
            &&& t.start_task_time == now
            &&& t.task_timeout == timeout
            &&& t.history.len() == 0
            &&& !t.antiavalanche_checked
            &&& t.link_type == channel
            &&& t.channel_name == (if channel != 4 {
                task.channel_name@
            } else if task.minorlong_host_list@.len() > 0 {
                task.minorlong_host_list@[0]@
            } else {
                seq![]
            })
            &&& next.told == q.told.push(Told::TaskTimeout { task, answer: timeout })
            &&& next.fail_count == q.fail_count
            &&& next.retry_interval == q.retry_interval
        }),
{
    lemma_slot(q.tasks, task.priority, q.tasks.len() as int);
    let p = crate::queue_spec::slot(q.tasks, task.priority);
    assert(is_slot(q.tasks, task.priority, p));
}

/// There is a place for a task of any priority.
proof fn lemma_slot(tasks: Seq<TaskView>, priority: i32, k: int)
    requires
        by_priority(tasks),
        0 <= k <= tasks.len(),
        forall|j: int| k <= j < tasks.len() ==> (#[trigger] tasks[j]).task.priority > priority,
    ensures
        exists|p: int| is_slot(tasks, priority, p),
    decreases k,
{
    reveal(by_priority);
    if k == 0 || tasks[k - 1].task.priority <= priority {
        assert forall|j: int| 0 <= j < k implies (#[trigger] tasks[j]).task.priority
            <= priority by {
            assert(tasks[j].task.priority <= tasks[k - 1].task.priority);
        }
        assert(is_slot(tasks, priority, k));
    } else {
        lemma_slot(tasks, priority, k - 1);
    }
}

// ---- what is looked for in the queue -----------------------------------------------------

/// A task is found by its id, the first of that id, wherever one has it; the id of no
/// task finds none.
pub proof fn law_a_task_is_found_by_its_id(tasks: Seq<TaskView>, taskid: u32)
    ensures
        match located(tasks, taskid) {
            Some(at) => {
                &&& taskid != 0
                &&& 0 <= at < tasks.len()
                &&& tasks[at].task.taskid == taskid
                &&& forall|j: int| 0 <= j < at ==> (#[trigger] tasks[j]).task.taskid != taskid
            },
            None => taskid == 0 || forall|j: int|
                0 <= j < tasks.len() ==> (#[trigger] tasks[j]).task.taskid != taskid,
        },
{
    lemma_known(tasks, taskid);
}

/// A task of the user goes out on that channel.
pub open spec fn has_user_on(tasks: Seq<TaskView>, user_id: Seq<char>, name: Seq<char>) -> bool {
    exists|i: int|
        0 <= i < tasks.len() && (#[trigger] tasks[i]).task.user_id@ == user_id
            && tasks[i].channel_name == name
}

/// The channels a retry fails are those of the user's tasks: each of them, and no other.
pub proof fn law_a_retry_fails_the_channels_of_the_user(tasks: Seq<TaskView>, user_id: Seq<char>)
    ensures
        ({
            let names = channels_of_user(tasks, user_id);
            &&& forall|i: int|
                0 <= i < tasks.len() && (#[trigger] tasks[i]).task.user_id@ == user_id
                    ==> names.contains(tasks[i].channel_name)
            &&& forall|k: int|
                0 <= k < names.len() ==> has_user_on(tasks, user_id, #[trigger] names[k])
        }),
    decreases tasks.len(),
{
    let names = channels_of_user(tasks, user_id);
    if tasks.len() > 0 {
        let fewer = tasks.drop_last();
        let before = channels_of_user(fewer, user_id);
        law_a_retry_fails_the_channels_of_the_user(fewer, user_id);
        assert forall|i: int|
            0 <= i < tasks.len() && (#[trigger] tasks[i]).task.user_id@
                == user_id implies names.contains(tasks[i].channel_name) by {
            if i < fewer.len() {
                assert(fewer[i] == tasks[i]);
                assert(before.contains(fewer[i].channel_name));
                let k = choose|k: int| 0 <= k < before.len() && before[k] == tasks[i].channel_name;
                assert(names[k] == tasks[i].channel_name);
            } else {
                assert(names[names.len() - 1] == tasks[i].channel_name);
            }
        }
        assert forall|k: int| 0 <= k < names.len() implies has_user_on(
            tasks,
            user_id,
            #[trigger] names[k],
        ) by {
            if k < before.len() {
                assert(names[k] == before[k]);
                assert(has_user_on(fewer, user_id, before[k]));
                let i = choose|i: int|
                    0 <= i < fewer.len() && (#[trigger] fewer[i]).task.user_id@ == user_id
                        && fewer[i].channel_name == before[k];
                assert(tasks[i] == fewer[i]);
            } else {
                assert(tasks[tasks.len() - 1].channel_name == names[k]);
            }
        }
    }
}

/// How many tasks go out on a channel: as many as are there, one by one.
pub proof fn law_the_tasks_of_a_channel_are_counted(tasks: Seq<TaskView>, name: Seq<char>)
    ensures
        crate::queue_spec::count_on(tasks, name) <= tasks.len(),
        crate::queue_spec::count_on(tasks, name) > 0 <==> exists|i: int|
            0 <= i < tasks.len() && (#[trigger] tasks[i]).channel_name == name,
        crate::queue_spec::count_on(tasks, name) == tasks.len() <==> forall|i: int|
            0 <= i < tasks.len() ==> (#[trigger] tasks[i]).channel_name == name,
        forall|t: TaskView|
            crate::queue_spec::count_on(#[trigger] tasks.push(t), name)
                == crate::queue_spec::count_on(tasks, name) + (if t.channel_name == name {
                1nat
            } else {
                0nat
            }),
    decreases tasks.len(),
{
    assert forall|t: TaskView|
        crate::queue_spec::count_on(#[trigger] tasks.push(t), name)
            == crate::queue_spec::count_on(tasks, name) + (if t.channel_name == name {
            1nat
        } else {
            0nat
        }) by {
        assert(tasks.push(t).drop_last() =~= tasks);
    }
    if tasks.len() > 0 {
        let fewer = tasks.drop_last();
        law_the_tasks_of_a_channel_are_counted(fewer, name);
        assert forall|i: int| 0 <= i < fewer.len() implies #[trigger] tasks[i] == fewer[i] by {}
        if exists|i: int| 0 <= i < fewer.len() && (#[trigger] fewer[i]).channel_name == name {
            let i = choose|i: int| 0 <= i < fewer.len() && (#[trigger] fewer[i]).channel_name
                == name;
            assert(tasks[i].channel_name == name);
        }
        assert(tasks[tasks.len() - 1] == tasks.last());
        if forall|i: int| 0 <= i < tasks.len() ==> (#[trigger] tasks[i]).channel_name == name {
            assert forall|i: int| 0 <= i < fewer.len() implies (#[trigger] fewer[i]).channel_name
                == name by {
                assert(tasks[i].channel_name == name);
            }
        }
    }
}

/// Every channel is taken apart and made again, each once, in their order, and nothing
/// else is said or changed.
pub proof fn law_every_channel_is_made_again(q: QueueView, n: int)
    requires
        0 <= n <= q.channels.len(),
    ensures
        ({
            let next = crate::queue_spec::channels_reset(q, n);
            &&& next == (QueueView { told: next.told, ..q })
            &&& next.told.len() == q.told.len() + n
            &&& forall|i: int| 0 <= i < q.told.len() ==> #[trigger] next.told[i] == q.told[i]
            &&& forall|i: int|
                0 <= i < n ==> #[trigger] next.told[q.told.len() + i] == (Told::ResetChannel {
                    name: q.channels[i].name@,
                })
        }),
    decreases n,
{
    if n > 0 {
        law_every_channel_is_made_again(q, n - 1);
        let before = crate::queue_spec::channels_reset(q, n - 1);
        let next = crate::queue_spec::channels_reset(q, n);
        assert forall|i: int| 0 <= i < q.told.len() implies #[trigger] next.told[i]
            == q.told[i] by {
            assert(next.told[i] == before.told[i]);
        }
        assert forall|i: int| 0 <= i < n implies #[trigger] next.told[q.told.len() + i] == (
        Told::ResetChannel { name: q.channels[i].name@ }) by {
            if i < n - 1 {
                assert(next.told[q.told.len() + i] == before.told[q.told.len() + i]);
            }
        }
    }
}

/// Every channel is taken down with a reset, each once, in their order, and nothing else
/// is said or changed.
pub proof fn law_every_channel_is_taken_down(q: QueueView, n: int)
    requires
        0 <= n <= q.channels.len(),
    ensures
        ({
            let next = crate::queue_spec::channels_dropped(q, n);
            &&& next == (QueueView { told: next.told, ..q })
            &&& next.told.len() == q.told.len() + n
            &&& forall|i: int| 0 <= i < q.told.len() ==> #[trigger] next.told[i] == q.told[i]
            &&& forall|i: int|
                0 <= i < n ==> #[trigger] next.told[q.told.len() + i] == (Told::Disconnect {
                    name: q.channels[i].name@,
                    code: DisconnectInternalCode::Reset,
                })
        }),
    decreases n,
{
    if n > 0 {
        law_every_channel_is_taken_down(q, n - 1);
        let before = crate::queue_spec::channels_dropped(q, n - 1);
        let next = crate::queue_spec::channels_dropped(q, n);
        assert(q.channels[n - 1].name@ == q.channels[n - 1].name@);
        assert(before.has_channel(q.channels[n - 1].name@));
        assert forall|i: int| 0 <= i < q.told.len() implies #[trigger] next.told[i]
            == q.told[i] by {
            assert(next.told[i] == before.told[i]);
        }
        assert forall|i: int| 0 <= i < n implies #[trigger] next.told[q.told.len() + i] == (
        Told::Disconnect {
            name: q.channels[i].name@,
            code: DisconnectInternalCode::Reset,
        }) by {
            if i < n - 1 {
                assert(next.told[q.told.len() + i] == before.told[q.told.len() + i]);
            }
        }
    }
}

/// When the queue is due: no wait of any task runs out before that, neither its own nor
/// that of its answer, nor the wait the queue owes it; and a queue with a task in it is
/// always due at some time, no later than the task's own time runs out.
pub proof fn law_the_queue_is_due_before_any_task(
    q: QueueView,
    network: NetworkKind,
    due: Option<u64>,
    i: int,
)
    requires
        crate::queue_spec::due_at(q, network, due),
        0 <= i < q.tasks.len(),
    ensures
        ({
            let t = q.tasks[i];
            let sent = t.transfer_profile.start_send_time;
            let last = t.transfer_profile.last_receive_pkg_time;
            let out = t.running is Some && sent != 0;
            &&& due is Some
            &&& due->0 <= t.start_task_time + t.task_timeout
            &&& out ==> due->0 <= sent + t.transfer_profile.read_write_timeout
            &&& out && last == 0 ==> due->0 <= sent + t.transfer_profile.first_pkg_timeout
            &&& out && last != 0 ==> due->0 <= last + (if network == NetworkKind::Mobile {
                12_000int
            } else {
                8_000int
            })
            &&& t.running is None && t.remain_retry_count < t.task.retry_count ==> due->0
                <= q.last_batch_error_time + q.retry_interval
        }),
{
    let t = q.tasks[i];
    let all = crate::queue_spec::deadlines_of(t, network);
    let at = due->0;
    assert(crate::queue_spec::deadlines_of(q.tasks[i], network)[0].1 == all[0].1);
    assert(crate::queue_spec::is_waited_for(q, network, all[0].1));
    if all.len() > 1 {
        assert(crate::queue_spec::deadlines_of(q.tasks[i], network)[1].1 == all[1].1);
        assert(crate::queue_spec::is_waited_for(q, network, all[1].1));
        assert(crate::queue_spec::deadlines_of(q.tasks[i], network)[2].1 == all[2].1);
        assert(crate::queue_spec::is_waited_for(q, network, all[2].1));
    }
    if t.running is None && t.remain_retry_count < t.task.retry_count {
        let end = crate::queue_spec::after(q.last_batch_error_time, q.retry_interval);
        assert(!q.tasks[i].is_running());
        assert(crate::queue_spec::is_waited_for(q, network, end));
    }
}

/// A network change asks every channel, each once; the tasks of one that says the
/// network is another are tried again, and those of one that does not are left alone.
pub proof fn law_a_network_change_asks_every_channel(
    pre: QueueView,
    now: u64,
    answers: Seq<crate::queue_spec::ChangeAnswers>,
    post: QueueView,
    k: int,
)
    requires
        crate::queue_spec::network_changed(pre, now, answers, post),
        0 <= k < pre.channels.len(),
    ensures
        ({
            let found = crate::queue_spec::change_found(pre, answers, k);
            let name = pre.channels[k].name@;
            let asked = QueueView {
                told: found.told.push(
                    Told::NetworkChange { name, answer: answers[k].changed },
                ),
                ..found
            };
            &&& answers.len() == pre.channels.len()
            &&& !answers[k].changed ==> answers[k].left == asked
            &&& answers[k].changed ==> crate::queue_spec::redone(
                asked,
                now,
                name,
                answers[k].redo,
                answers[k].left,
            )
            &&& k == 0 ==> found == pre
            &&& k > 0 ==> found == answers[k - 1].left
            &&& k == pre.channels.len() - 1 ==> post == answers[k].left
        }),
{
    let found = crate::queue_spec::change_found(pre, answers, k);
    assert(crate::queue_spec::channel_changed(found, now, pre.channels[k].name@, answers[k]));
}

// ---- what is asked and noted on the way ----------------------------------------------------

/// An answer that was read is on its task: how long it is, and when it came. The app was
/// given it, and asked whether to keep it, and it is kept exactly where it says so.
pub proof fn law_what_is_noted_of_an_answer(
    q: QueueView,
    now: u64,
    at: int,
    r: ResponseView,
    a: ResponseAnswers,
)
    requires
        0 <= at < q.tasks.len(),
    ensures
        ({
            let t = q.tasks[at];
            let next = crate::queue_spec::answer_read(q, now, at, r, a);
            let u = next.tasks[at];
            let n = q.told.len() as int;
            &&& next.tasks == q.tasks.update(at, u)
            &&& u.transfer_profile.received_size == r.body.len() as usize
            &&& u.transfer_profile.receive_data_size == r.body.len() as usize
            &&& u.transfer_profile.last_receive_pkg_time == now
            &&& u.transfer_profile.start_send_time == t.transfer_profile.start_send_time
            &&& u.task == t.task
            &&& u.running == t.running
            &&& u.remain_retry_count == t.remain_retry_count
            &&& next.told[n] == (Told::Decode { task: t.task, body: r.body, answer: a.decoded })
            &&& next.told[n + 1] == (Told::ShouldKeep {
                err_code: a.decoded.0,
                answer: a.keep,
            })
            &&& a.keep ==> next.told.len() == n + 3 && next.told[n + 2] == (Told::KeepAnswer {
                now,
                cgi: t.task.cgi@,
                body: r.body,
            })
            &&& !a.keep ==> next.told.len() == n + 2
        }),
{
}

/// A good answer is measured for what it is: its bytes both ways, over the time since its
/// request went out, on the network there is.
pub proof fn law_how_a_good_answer_is_measured(
    q: QueueView,
    now: u64,
    at: int,
    r: ResponseView,
    a: ResponseAnswers,
)
    requires
        0 <= at < q.tasks.len(),
    ensures
        ({
            let t = q.tasks[at].transfer_profile;
            let next = crate::queue_spec::answered_well(q, now, at, r, a);
            let took = if now >= t.start_send_time {
                (now - t.start_send_time) as u64
            } else {
                0
            };
            &&& next.timeout == q.timeout.recorded(
                tag_of(a.network, (t.send_data_size + r.body.len()) as u32, took),
                now,
            )
            &&& next.told[q.told.len() as int] == (Told::Network { answer: a.network })
        }),
{
}

/// What the timeouts of a request are asked for with: the cost the task gives the server,
/// the bytes that go out, how many tasks are out already, how the network is judged, and
/// whether it is a mobile one.
pub proof fn law_what_the_timeouts_are_asked_for_with(
    c: SendCursor,
    pass: Pass,
    id: Option<u16>,
    body: Seq<u8>,
    a: crate::queue_spec::SendAnswers,
)
    requires
        0 <= c.i < c.q.tasks.len(),
    ensures
        ({
            let t = c.task();
            let r = turn_send(c, pass, id, body, a);
            let n = c.q.told.len() as int;
            &&& r.q.told.len() > n + 2
            &&& r.q.told[n] == (Told::FirstPkgTimeout {
                server_cost: t.task.server_process_cost as i64,
                send_len: body.len() as usize,
                sent_count: c.sent as i32,
                status: c.q.timeout.status,
                mobile: pass.mobile,
                answer: a.first_pkg,
            })
            &&& r.q.told[n + 1] == (Told::ReadWriteTimeout {
                first_pkg: a.first_pkg,
                mobile: pass.mobile,
                answer: a.read_write,
            })
            &&& r.q.told[n + 2] == (Told::Send {
                name: t.channel_name,
                task: t.task,
                body,
                answer: a.run,
            })
        }),
{
    reveal(turn_send);
}

/// What a task is asked about on its way out, in this order: its user, where it has to be
/// authenticated; its id, before its first request; its request; the gates; its link. No
/// question is put that an earlier answer made idle.
pub proof fn law_what_a_task_is_asked_on_its_way_out(c: SendCursor, pass: Pass, a: TurnAnswers)
    requires
        0 <= c.i < c.q.tasks.len(),
        c.task().running is None,
        c.task().remain_retry_count >= c.task().task.retry_count || pass.can_retry,
        c.q.has_channel(c.task().channel_name),
    ensures
        ({
            let t = c.task();
            let r = turn(c, pass, a);
            let n = c.q.told.len() as int;
            let authed = if t.task.need_authed {
                1int
            } else {
                0
            };
            let id = if t.antiavalanche_checked {
                0int
            } else {
                1
            };
            let m = n + authed + id;
            let free = t.task.need_authed ==> a.authed;
            &&& t.task.need_authed ==> r.q.told.len() > n && r.q.told[n] is Authed
                && r.q.told[n]->Authed_user_id == t.task.user_id@ && r.q.told[n]->Authed_answer
                == a.authed
            &&& !free ==> r.q.told.len() == n + 1
            &&& free ==> {
                &&& r.q.told.len() > m
                &&& !t.antiavalanche_checked ==> r.q.told[n + authed] == (Told::SequenceId {
                    answer: a.encode.sequence_id,
                })
                &&& r.q.told[m] == (Told::Encode { task: t.task, answer: a.encode.encoded })
                &&& a.encode.encoded is Ok ==> r.q.told.len() > m + 1 && r.q.told[m + 1] == (
                Told::Allowed {
                    task: t.task,
                    body: a.encode.encoded->Ok_0,
                    answer: a.encode.allowed,
                })
                &&& a.encode.encoded is Ok && a.encode.allowed ==> r.q.told.len() > m + 2
                    && r.q.told[m + 2] == (Told::MakeSureConnected {
                    name: t.channel_name,
                    answer: a.encode.connect.connected,
                })
            }
        }),
{
    reveal(turn_gate);
    reveal(turn_encode);
    let t = c.task();
    if t.task.need_authed ==> a.authed {
        let c0 = if t.task.need_authed {
            c.heard(
                Told::Authed {
                    host: crate::queue_spec::first_text(t.task.longlink_host_list@),
                    user_id: t.task.user_id@,
                    answer: a.authed,
                },
            )
        } else {
            c
        };
        let e = a.encode;
        let c1 = if t.antiavalanche_checked {
            c0
        } else {
            c0.heard(Told::SequenceId { answer: e.sequence_id })
        };
        let c2 = c1.heard(Told::Encode { task: t.task, answer: e.encoded });
        let id = if t.antiavalanche_checked {
            None
        } else {
            Some(e.sequence_id)
        };
        if e.encoded is Ok && e.allowed {
            let body = e.encoded->Ok_0;
            let c3 = c2.heard(Told::Allowed { task: t.task, body, answer: e.allowed });
            let c4 = c3.with_task(TaskView { antiavalanche_checked: true, ..t });
            lemma_link_asked(c4, pass, id, body, e.connect);
        }
    }
}

/// The link is asked first, and nothing that was said is taken back.
#[verifier::spinoff_prover]
#[verifier::rlimit(60)]
proof fn lemma_link_asked(
    c: SendCursor,
    pass: Pass,
    id: Option<u16>,
    body: Seq<u8>,
    a: crate::queue_spec::ConnectAnswers,
)
    requires
        0 <= c.i < c.q.tasks.len(),
    ensures
        ({
            let r = turn_connect(c, pass, id, body, a);
            let n = c.q.told.len() as int;
            &&& r.q.told.len() > n
            &&& forall|i: int| 0 <= i < n ==> #[trigger] r.q.told[i] == c.q.told[i]
            &&& r.q.told[n] == (Told::MakeSureConnected {
                name: c.task().channel_name,
                answer: a.connected,
            })
        }),
{
    reveal(turn_connect);
    let t = c.task();
    let name = t.channel_name;
    let c1 = c.heard(Told::MakeSureConnected { name, answer: a.connected });
    let c2 = SendCursor { q: c1.q.profile_asked(name, a.profile), ..c1 };
    let c3 = c2.heard(Told::KeptAnswer { now: pass.now, cgi: t.task.cgi@, answer: a.kept });
    lemma_send_told(c3, pass, id, body, a.send);
}

/// A send takes nothing back of what was said.
proof fn lemma_send_told(
    c: SendCursor,
    pass: Pass,
    id: Option<u16>,
    body: Seq<u8>,
    a: crate::queue_spec::SendAnswers,
)
    requires
        0 <= c.i < c.q.tasks.len(),
    ensures
        ({
            let r = turn_send(c, pass, id, body, a);
            let n = c.q.told.len() as int;
            &&& r.q.told.len() > n
            &&& forall|i: int| 0 <= i < n ==> #[trigger] r.q.told[i] == c.q.told[i]
        }),
{
    reveal(turn_send);
}

// ---- a whole pass ------------------------------------------------------------------------------

/// A task that fails is told, or tried again, with the connect of its channel: what the
/// channel answers where it is there, and that it is not available where it is not.
pub proof fn law_which_connect_a_failed_task_has(
    q: QueueView,
    now: u64,
    i: int,
    err_type: ErrCmdType,
    err_code: i32,
    handle: TaskFailHandleType,
    answer: ConnectView,
)
    requires
        0 <= i < q.tasks.len(),
    ensures
        ({
            let name = q.tasks[i].channel_name;
            let next = q.failed_at(now, i, err_type, err_code, handle, answer);
            let connect = if next.i == i {
                next.q.told.last()->Ended_profile
            } else {
                next.q.tasks[i].history.last().connect_profile
            };
            &&& q.has_channel(name) ==> connect == answer
            &&& !q.has_channel(name) ==> connect == (ConnectView {
                disconn_errtype: ErrCmdType::Local,
                conn_errcode: (-16) as i32,
                ..ConnectView::blank()
            })
            &&& next.i == i ==> next.q.told.last() is Ended
        }),
{
    let name = q.tasks[i].channel_name;
    let asked = q.profile_asked(name, answer);
    law_a_task_with_a_try_left_stays(
        asked,
        now,
        i,
        err_type,
        err_code,
        handle,
        q.profile_of(name, answer),
    );
}

/// A pass of sends starts with the first task and nothing counted as out, and looks at
/// the tasks one by one from there.
pub proof fn law_a_pass_starts_with_the_first_task(
    q: QueueView,
    pass: Pass,
    answers: Seq<TurnAnswers>,
    a: TurnAnswers,
)
    ensures
        turns(q, pass, seq![]).q == q,
        turns(q, pass, seq![]).i == 0,
        turns(q, pass, seq![]).sent == 0,
        turns(q, pass, answers.push(a)) == turn(turns(q, pass, answers), pass, a),
{
    assert(answers.push(a).drop_last() =~= answers);
}

/// Nothing is taken back of what was told, and no channel comes or goes.
spec fn goes_on(before: QueueView, after: QueueView) -> bool {
    before.told.is_prefix_of(after.told) && after.channels == before.channels
}

proof fn lemma_goes_on(a: QueueView, b: QueueView, c: QueueView)
    requires
        goes_on(a, b),
        goes_on(b, c),
    ensures
        goes_on(a, c),
{
    assert(a.told =~= c.told.take(a.told.len() as int)) by {
        assert forall|i: int| 0 <= i < a.told.len() implies a.told[i] == c.told[i] by {
            assert(a.told[i] == b.told[i]);
            assert(b.told[i] == c.told[i]);
        }
    }
}

proof fn lemma_single_goes_on(
    q: QueueView,
    now: u64,
    at: int,
    err_type: ErrCmdType,
    err_code: i32,
    handle: TaskFailHandleType,
    profile: ConnectView,
)
    ensures
        goes_on(q, q.single_resp(now, at, err_type, err_code, handle, profile)),
{
    let next = q.single_resp(now, at, err_type, err_code, handle, profile);
    assert(q.told =~= next.told.take(q.told.len() as int));
}

proof fn lemma_asked_goes_on(q: QueueView, name: Seq<char>, answer: ConnectView)
    ensures
        goes_on(q, q.profile_asked(name, answer)),
{
    let next = q.profile_asked(name, answer);
    assert(q.told =~= next.told.take(q.told.len() as int));
}

proof fn lemma_batch_goes_on(
    q: QueueView,
    now: u64,
    name: Seq<char>,
    failure: Failure,
    answers: Seq<ConnectView>,
)
    ensures
        goes_on(q, batch_steps(q, now, name, failure, true, answers).q),
    decreases answers.len(),
{
    if answers.len() == 0 {
        assert(q.told =~= q.told.take(q.told.len() as int));
    } else {
        lemma_batch_goes_on(q, now, name, failure, answers.drop_last());
        let c = batch_steps(q, now, name, failure, true, answers.drop_last());
        let next = batch_step(c, now, name, failure, true, answers.last());
        if !c.done() && crate::queue_spec::batch_hits(c, name, true) {
            let t = c.q.tasks[c.i];
            let code = if failure.src_taskid == 0 || failure.src_taskid == t.task.taskid {
                failure.err_code
            } else {
                0
            };
            let asked = c.q.profile_asked(t.channel_name, answers.last());
            lemma_asked_goes_on(c.q, t.channel_name, answers.last());
            lemma_single_goes_on(
                asked,
                now,
                c.i,
                failure.err_type,
                code,
                failure.fail_handle,
                c.q.profile_of(t.channel_name, answers.last()),
            );
            lemma_goes_on(c.q, asked, next.q);
        } else {
            assert(c.q.told =~= c.q.told.take(c.q.told.len() as int));
        }
        lemma_goes_on(q, c.q, next.q);
    }
}

/// One channel that is failed for a timeout.
proof fn lemma_failed_goes_on(pre: QueueView, now: u64, entry: BatchEntry, a: BatchAnswers)
    requires
        channel_failed(pre, now, entry, a),
    ensures
        goes_on(pre, a.left),
        pre.has_channel(entry.name) ==> a.left.told.contains(
            Told::Disconnect { name: entry.name, code: DisconnectInternalCode::TaskTimeout },
        ),
{
    let noted = timeout_noted(pre, entry, a.profile);
    assert(pre.told =~= noted.told.take(pre.told.len() as int));
    let failure = timeout_failure(entry);
    lemma_batch_goes_on(noted, now, entry.name, failure, a.each);
    let c = batch_steps(noted, now, entry.name, failure, true, a.each);
    law_what_a_failed_channel_comes_to(c.q, now, entry.name, failure);
    let said = a.left.told.skip(c.q.told.len() as int);
    assert(c.q.told =~= a.left.told.take(c.q.told.len() as int));
    lemma_goes_on(pre, noted, c.q);
    lemma_goes_on(pre, c.q, a.left);
    if pre.has_channel(entry.name) {
        let word = Told::Disconnect {
            name: entry.name,
            code: DisconnectInternalCode::TaskTimeout,
        };
        assert(c.q.has_channel(entry.name));
        assert(said.contains(word));
        let i = choose|i: int| 0 <= i < said.len() && said[i] == word;
        assert(a.left.told[c.q.told.len() + i] == word);
    }
}

/// The channels that are failed one after the other.
proof fn lemma_channels_go_on(
    pre: QueueView,
    now: u64,
    batch: Seq<BatchEntry>,
    answers: Seq<BatchAnswers>,
    post: QueueView,
    k: int,
    n: int,
)
    requires
        channels_failed(pre, now, batch, answers, post),
        0 <= k <= n <= answers.len(),
    ensures
        goes_on(batch_found(pre, answers, k), batch_found(pre, answers, n)),
    decreases n - k,
{
    if k == n {
        let q = batch_found(pre, answers, k);
        assert(q.told =~= q.told.take(q.told.len() as int));
    } else {
        lemma_channels_go_on(pre, now, batch, answers, post, k, n - 1);
        let before = batch_found(pre, answers, n - 1);
        assert(channel_failed(before, now, batch[n - 1], answers[n - 1]));
        lemma_failed_goes_on(before, now, batch[n - 1], answers[n - 1]);
        lemma_goes_on(
            batch_found(pre, answers, k),
            before,
            batch_found(pre, answers, n),
        );
    }
}

/// A look at a task takes nothing back.
#[verifier::spinoff_prover]
#[verifier::rlimit(60)]
proof fn lemma_turn_told(c: SendCursor, pass: Pass, a: TurnAnswers)
    requires
        0 <= c.i < c.q.tasks.len(),
    ensures
        forall|i: int| 0 <= i < c.q.told.len() ==> #[trigger] turn(c, pass, a).q.told[i]
            == c.q.told[i],
        turn(c, pass, a).q.told.len() >= c.q.told.len(),
{
    reveal(turn_gate);
    reveal(turn_encode);
    let t = c.task();
    let c0 = if t.task.need_authed {
        c.heard(
            Told::Authed {
                host: crate::queue_spec::first_text(t.task.longlink_host_list@),
                user_id: t.task.user_id@,
                answer: a.authed,
            },
        )
    } else {
        c
    };
    let e = a.encode;
    let c1 = if t.antiavalanche_checked {
        c0
    } else {
        c0.heard(Told::SequenceId { answer: e.sequence_id })
    };
    let c2 = c1.heard(Told::Encode { task: t.task, answer: e.encoded });
    let id = if t.antiavalanche_checked {
        None
    } else {
        Some(e.sequence_id)
    };
    if e.encoded is Ok {
        let body = e.encoded->Ok_0;
        let c3 = c2.heard(Told::Allowed { task: t.task, body, answer: e.allowed });
        let c4 = c3.with_task(TaskView { antiavalanche_checked: true, ..t });
        lemma_link_asked(c4, pass, id, body, e.connect);
    }
}

proof fn lemma_turns_told(q: QueueView, pass: Pass, answers: Seq<TurnAnswers>)
    ensures
        turns(q, pass, answers).i >= 0,
        q.told.is_prefix_of(turns(q, pass, answers).q.told),
    decreases answers.len(),
{
    if answers.len() == 0 {
        assert(q.told =~= q.told.take(q.told.len() as int));
    } else {
        lemma_turns_told(q, pass, answers.drop_last());
        let c = turns(q, pass, answers.drop_last());
        let r = turns(q, pass, answers);
        if !c.done() {
            lemma_turn_told(c, pass, answers.last());
            law_when_a_task_goes_out(c, pass, answers.last());
            lemma_turn_place(c, pass, answers.last());
            assert forall|i: int| 0 <= i < q.told.len() implies q.told[i] == r.q.told[i] by {
                assert(q.told[i] == c.q.told[i]);
            }
            assert(q.told =~= r.q.told.take(q.told.len() as int));
        }
    }
}

/// A look leaves the cursor where it was, or behind that.
proof fn lemma_turn_place(c: SendCursor, pass: Pass, a: TurnAnswers)
    requires
        0 <= c.i < c.q.tasks.len(),
    ensures
        turn(c, pass, a).i >= c.i,
{
    reveal(turn_gate);
    reveal(turn_encode);
    reveal(turn_connect);
    reveal(turn_send);
}

/// The channels to fail after the first tasks were looked at: every one a task of which
/// ran into something is there.
proof fn lemma_expire_lists(
    q: QueueView,
    now: u64,
    network: NetworkKind,
    answers: Seq<ConnectView>,
    i: int,
)
    requires
        told_apart(q.tasks),
        0 <= i < answers.len() <= q.tasks.len(),
        read_due(q.tasks[i], now, network) is Some || is_past(
            now,
            q.tasks[i].start_task_time,
            q.tasks[i].task_timeout,
        ),
    ensures
        is_listed(
            expire_steps(q, now, expired(q.tasks, now, network), answers).batch,
            q.tasks[i].channel_name,
        ),
    decreases answers.len(),
{
    let entries = expired(q.tasks, now, network);
    let fewer = answers.drop_last();
    let k = fewer.len() as int;
    let c = expire_steps(q, now, entries, fewer);
    let over = is_out_of_time(now);
    let kept = q.tasks.take(k).filter(|t: TaskView| !over(t));
    lemma_expire_goes(q, now, network, fewer);
    lemma_expire_finds(q, Cursor { q: c.q, i: kept.len() as int }, k, now, network);
    law_when_the_waits_of_a_task_run_out(q.tasks[k], now, network);
    let name = q.tasks[i].channel_name;
    law_which_channel_a_task_fails(c, now, entries[k], answers.last(), name);
    if i < k {
        lemma_expire_lists(q, now, network, fewer, i);
    }
}

proof fn lemma_expire_goes_on(
    q: QueueView,
    now: u64,
    entries: Seq<Expired>,
    answers: Seq<ConnectView>,
)
    ensures
        goes_on(q, expire_steps(q, now, entries, answers).q),
    decreases answers.len(),
{
    if answers.len() == 0 {
        assert(q.told =~= q.told.take(q.told.len() as int));
    } else {
        let fewer = answers.drop_last();
        lemma_expire_goes_on(q, now, entries, fewer);
        let c = expire_steps(q, now, entries, fewer);
        let e = entries[answers.len() - 1];
        let next = expire_step(c, now, e, answers.last());
        match located(c.q.tasks, e.taskid) {
            None => {},
            Some(at) => {
                let q1 = if e.read == Some(Timeout::FirstPkg) {
                    c.q.with_task(at, crate::task_profile::last_failed_noted(c.q.tasks[at]))
                } else {
                    c.q
                };
                assert(c.q.told =~= q1.told.take(c.q.told.len() as int));
                let asked = q1.profile_asked(e.name, answers.last());
                lemma_asked_goes_on(q1, e.name, answers.last());
                lemma_single_goes_on(
                    asked,
                    now,
                    at,
                    ErrCmdType::Local,
                    (-1) as i32,
                    TaskFailHandleType::TaskTimeout,
                    q1.profile_of(e.name, answers.last()),
                );
                lemma_goes_on(c.q, q1, asked);
                if e.over {
                    lemma_goes_on(c.q, asked, next.q);
                }
                lemma_goes_on(q, c.q, next.q);
            },
        }
    }
}

/// A pass takes the link of every task down that ran into a wait of its answer, or out of
/// its own time, where that link is there.
pub proof fn law_a_pass_takes_the_link_of_a_late_task_down(
    pre: QueueView,
    now: u64,
    a: LoopAnswers,
    post: QueueView,
    i: int,
)
    requires
        run_loop(pre, now, a, post),
        told_apart(pre.tasks),
        0 <= i < pre.tasks.len(),
        pre.has_channel(pre.tasks[i].channel_name),
        read_due(pre.tasks[i], now, a.timeouts.network) is Some || is_past(
            now,
            pre.tasks[i].start_task_time,
            pre.tasks[i].task_timeout,
        ),
    ensures
        post.told.contains(
            Told::Disconnect {
                name: pre.tasks[i].channel_name,
                code: DisconnectInternalCode::TaskTimeout,
            },
        ),
{
    let t = a.timeouts;
    let name = pre.tasks[i].channel_name;
    let word = Told::Disconnect { name, code: DisconnectInternalCode::TaskTimeout };
    let asked = pre.heard(Told::Network { answer: t.network });
    let entries = expired(pre.tasks, now, t.network);
    let c = expire_steps(asked, now, entries, t.overs);
    lemma_expire_lists(asked, now, t.network, t.overs, i);
    lemma_expire_goes_on(asked, now, entries, t.overs);
    let k = choose|k: int| 0 <= k < c.batch.len() && (#[trigger] c.batch[k]).name == name;
    let n = t.batches.len() as int;
    lemma_channels_go_on(c.q, now, c.batch, t.batches, a.mid, 0, k);
    lemma_channels_go_on(c.q, now, c.batch, t.batches, a.mid, k + 1, n);
    let before = batch_found(c.q, t.batches, k);
    assert(channel_failed(before, now, c.batch[k], t.batches[k]));
    lemma_failed_goes_on(before, now, c.batch[k], t.batches[k]);
    assert(before.has_channel(name));
    let left = t.batches[k].left;
    assert(left.told.contains(word));
    let j = choose|j: int| 0 <= j < left.told.len() && left.told[j] == word;
    assert(a.mid.told[j] == word);
    let looked = a.mid.heard(Told::Network { answer: a.starts.network });
    lemma_turns_told(looked, start_pass(a.mid, now, a.starts.network), a.starts.turns);
    assert(looked.told[j] == word);
    assert(post.told[j] == word);
}

/// A pass tells the app of every task that ran out of its own time, as one that did.
pub proof fn law_a_pass_ends_every_task_that_is_out_of_time(
    pre: QueueView,
    now: u64,
    a: LoopAnswers,
    post: QueueView,
    i: int,
)
    requires
        run_loop(pre, now, a, post),
        told_apart(pre.tasks),
        0 <= i < pre.tasks.len(),
        is_past(now, pre.tasks[i].start_task_time, pre.tasks[i].task_timeout),
    ensures
        exists|j: int|
            0 <= j < post.told.len() && is_end_of(
                pre.tasks[i],
                ErrCmdType::Local,
                (-1) as i32,
                TaskFailHandleType::TaskTimeout,
                #[trigger] post.told[j],
            ),
{
    let t = a.timeouts;
    let asked = pre.heard(Told::Network { answer: t.network });
    let entries = expired(pre.tasks, now, t.network);
    let c = expire_steps(asked, now, entries, t.overs);
    law_who_runs_out_of_time(asked, now, t.network, t.overs);
    let over = is_out_of_time(now);
    let left = is_noted(now, t.network);
    let late = is_told_late();
    let gone = asked.tasks.filter(over);
    asked.tasks.lemma_filter_contains(over, i);
    let g = choose|g: int| 0 <= g < gone.len() && gone[g] == pre.tasks[i];
    let since = told_over(c.q.told);
    let before = told_over(asked.told);
    assert(went_over(asked, c.q, over, left, late));
    assert(late(gone[g], since[before.len() + g]));
    let word = since[before.len() + g];
    lemma_filter_from(c.q.told, |w: Told| w is Ended);
    assert(c.q.told.contains(word));
    let j = choose|j: int| 0 <= j < c.q.told.len() && c.q.told[j] == word;
    let n = t.batches.len() as int;
    lemma_channels_go_on(c.q, now, c.batch, t.batches, a.mid, 0, n);
    assert(a.mid.told[j] == word);
    let looked = a.mid.heard(Told::Network { answer: a.starts.network });
    lemma_turns_told(looked, start_pass(a.mid, now, a.starts.network), a.starts.turns);
    assert(looked.told[j] == word);
    assert(post.told[j] == word);
}

} // verus!
