//! What a net core promises an app: where a task goes, what an app hears of it, and
//! what is done when the network or a link changes.
use vstd::prelude::*;
use crate::dynamic_timeout::{DynamicTimeoutStatus, DynamicView};
use crate::longlink_connect_monitor::LongLinkStatus;
use crate::net_core::{
    is_acceptable, status_code, with_defaults, CoreTold, CoreView, ErrorAnswers, NetStatus,
    StartAnswers,
};
use crate::net_route::{CallFrom, EndAnswers, Ending, FollowView, RouteTold};
use crate::net_source::LonglinkConfig;
use crate::task::Task;
use crate::task_profile::{fail_handle_code, ConnectView, ErrCmdType, TaskFailHandleType};

verus! {

/// What the pieces heard from one state of a core to a later one.
pub open spec fn heard_since(before: CoreView, after: CoreView) -> Seq<CoreTold> {
    after.told.skip(before.told.len() as int)
}

/// One thing was heard before another.
pub open spec fn comes_before(words: Seq<CoreTold>, first: CoreTold, second: CoreTold) -> bool {
    exists|i: int, j: int|
        0 <= i < j < words.len() && #[trigger] words[i] == first && #[trigger] words[j] == second
}

proof fn lemma_since(core: CoreView, words: Seq<CoreTold>)
    ensures
        heard_since(core, core.heard_all(words)) == words,
{
    assert((core.told + words).skip(core.told.len() as int) =~= words);
}

// ---- where a task goes -------------------------------------------------------

/// While the long link is used, a task that may use either link goes on the long one
/// exactly where the link it names is there and connected, unless it is a fast task
/// with another one of its channel out already, and on the short one otherwise.
pub proof fn law_a_task_that_may_use_either_link_prefers_the_long_one(
    core: CoreView,
    task: Task,
    a: StartAnswers,
)
    requires
        core.use_long_link,
        task.channel_select == 7 || task.channel_select == 3,
    ensures
        ({
            let connected = core.links.contains(task.channel_name@)
                && core.statuses.contains_key(task.channel_name@)
                && core.statuses[task.channel_name@] == LongLinkStatus::Connected;
            let fast = task.channel_strategy == 1;
            &&& !fast ==> core.channel(task, a) == (if connected {
                2i32
            } else {
                1i32
            })
            &&& fast ==> core.channel(task, a) == (if connected && a.count == 0 {
                2i32
            } else {
                1i32
            })
        }),
{
}

/// A task that names one channel goes out on that one, while the long link is used;
/// one that may use the short link or a minor long link, and not the long one, goes on
/// the short one. Without the long link every task goes on the short one.
pub proof fn law_a_task_goes_where_it_names(core: CoreView, task: Task, a: StartAnswers)
    ensures
        core.use_long_link && task.channel_select != 7 && task.channel_select != 3
            && task.channel_select != 5 ==> core.channel(task, a) == task.channel_select,
        core.use_long_link && task.channel_select == 5 ==> core.channel(task, a) == 1,
        !core.use_long_link ==> core.channel(task, a) == 1,
{
}

/// Tasks that differ in nothing the channel is chosen by go the same way: neither who
/// sent a task, nor what it asks for, nor how it is tried has a say.
pub proof fn law_a_channel_is_chosen_by_little(
    core: CoreView,
    task: Task,
    other: Task,
    a: StartAnswers,
    b: StartAnswers,
)
    requires
        task.channel_select == other.channel_select,
        task.channel_strategy == other.channel_strategy,
        task.channel_name@ == other.channel_name@,
        a.count == b.count,
    ensures
        core.channel(task, a) == core.channel(other, b),
{
}

/// A task is put on exactly one queue, where it gets that far and its channel is one
/// there is a queue for: on the long-link queue for a long or a minor long channel and
/// on the short-link queue for the short one, at that reading and as it is handed on.
#[verifier::spinoff_prover]
#[verifier::rlimit(60)]
pub proof fn law_a_task_is_put_on_the_queue_of_its_channel(
    core: CoreView,
    now: u64,
    task: Task,
    a: StartAnswers,
)
    ensures
        ({
            let words = core.start_words(now, task, a);
            let channel = core.channel(core.named(a.processed), a);
            let out = core.gets_out(task, a);
            &&& forall|i: int|
                0 <= i < words.len() && (#[trigger] words[i]) is LongStart ==> words[i]
                    == (CoreTold::LongStart { now, task: a.handed, channel, answer: a.started })
                    && out && (channel == 2 || channel == 4)
            &&& forall|i: int|
                0 <= i < words.len() && (#[trigger] words[i]) is ShortStart ==> words[i]->ShortStart_now
                    == now && words[i]->ShortStart_task == a.handed
                    && words[i]->ShortStart_answer == a.started && out && channel == 1
            &&& out && (channel == 2 || channel == 4) ==> words.contains(
                CoreTold::LongStart { now, task: a.handed, channel, answer: a.started },
            )
            &&& out && channel == 1 ==> exists|i: int|
                0 <= i < words.len() && (#[trigger] words[i]) is ShortStart
            &&& core.starts(task, a) ==> out && a.started && (channel == 1 || channel == 2
                || channel == 4)
            &&& out && a.started && (channel == 1 || channel == 2 || channel == 4) ==> core.starts(
                task,
                a,
            )
        }),
{
    reveal(CoreView::start_words);
    reveal(CoreView::network_words);
    reveal(CoreView::choose_words);
    reveal(CoreView::put_words);
    reveal(CoreView::out_words);
    let words = core.start_words(now, task, a);
    let named = core.named(a.processed);
    let channel = core.channel(named, a);
    if core.gets_out(task, a) && (channel == 1 || channel == 2 || channel == 4) {
        let n = 1 + core.network_words(named, a).len() + core.choose_words(named, a).len();
        let put = core.put_words(now, channel, a)[0];
        assert(words[n as int] == put);
    }
}

/// A task is handed to its queue as the app left it, named by the main link where it
/// had no name: only the hosts the short link falls back to are filled in, with the
/// hosts of the task itself, and only while the long link is used.
pub proof fn law_a_task_is_handed_on_as_it_is(core: CoreView, task: Task, a: StartAnswers)
    requires
        core.hands(core.named(a.processed), a),
    ensures
        ({
            let named = core.named(a.processed);
            &&& named.channel_name@ == (if a.processed.channel_name@.len() > 0
                || core.default_link is None {
                a.processed.channel_name@
            } else {
                core.default_link->0@
            })
            &&& named == (Task { channel_name: named.channel_name, ..a.processed })
            &&& a.handed == (Task {
                shortlink_fallback_hostlist: a.handed.shortlink_fallback_hostlist,
                ..named
            })
            &&& core.channel(named, a) == 1 && core.use_long_link
                ==> a.handed.shortlink_fallback_hostlist@ == named.shortlink_host_list@
            &&& core.channel(named, a) != 1 || !core.use_long_link
                ==> a.handed.shortlink_fallback_hostlist == named.shortlink_fallback_hostlist
        }),
{
}

/// A task is refused for its parameters exactly where the server may take over two
/// minutes, it may be tried over thirty times, or it may take over ten minutes.
pub proof fn law_what_a_task_is_refused_for(task: Task)
    ensures
        is_acceptable(task) <==> task.server_process_cost <= 120_000 && task.retry_count <= 30
            && task.total_timeout <= 600_000,
{
}

/// What is filled in for a task: the long link is given up by one without a cmdid and
/// the short link by one without a cgi, bit by bit and nothing else; a negative number
/// of tries is one try.
pub proof fn law_what_is_filled_in_for_a_task(task: Task)
    ensures
        ({
            let filled = with_defaults(task);
            let c = task.channel_select;
            &&& filled == (Task {
                channel_select: filled.channel_select,
                retry_count: filled.retry_count,
                ..task
            })
            &&& filled.retry_count == (if task.retry_count < 0 {
                1i32
            } else {
                task.retry_count
            })
            &&& (filled.channel_select & 2 != 0) == (c & 2 != 0 && task.cmdid != 0)
            &&& (filled.channel_select & 1 != 0) == (c & 1 != 0 && task.cgi@.len() > 0)
            &&& filled.channel_select & !3i32 == c & !3i32
        }),
{
    let c = task.channel_select;
    assert((c & !2i32) & 2i32 == 0) by (bit_vector);
    assert((c & !1i32) & 1i32 == 0) by (bit_vector);
    assert(((c & !2i32) & !1i32) & 2i32 == 0) by (bit_vector);
    assert(((c & !2i32) & !1i32) & 1i32 == 0) by (bit_vector);
    assert(((c & !1i32) & 2i32 == 0) == (c & 2i32 == 0)) by (bit_vector);
    assert(((c & !2i32) & 1i32 == 0) == (c & 1i32 == 0)) by (bit_vector);
    assert((c & !2i32) & !3i32 == c & !3i32) by (bit_vector);
    assert((c & !1i32) & !3i32 == c & !3i32) by (bit_vector);
    assert(((c & !2i32) & !1i32) & !3i32 == c & !3i32) by (bit_vector);
}

/// Why a task that is not started is over: its parameters, no channel to go out on, no
/// network while it asked to be told and its link is down, or a queue that would not
/// take it; each comes in that order, and only for that reason.
#[verifier::spinoff_prover]
#[verifier::rlimit(60)]
pub proof fn law_why_a_task_is_not_started(
    core: CoreView,
    now: u64,
    task: Task,
    a: StartAnswers,
)
    requires
        !core.released,
        !core.starts(task, a),
    ensures
        ({
            let last = core.start_words(now, task, a).last();
            let named = core.named(a.processed);
            let down = core.use_long_link && core.links.contains(named.channel_name@)
                && !(core.statuses.contains_key(named.channel_name@)
                && core.statuses[named.channel_name@] == LongLinkStatus::Connected);
            let no_net = named.network_status_sensitive && a.net == -1 && down;
            &&& last is TaskEnd
            &&& last->TaskEnd_taskid == (if is_acceptable(task) {
                a.processed.taskid
            } else {
                task.taskid
            })
            &&& last->TaskEnd_user_id == (if is_acceptable(task) {
                a.processed.user_id@
            } else {
                task.user_id@
            })
            &&& last->TaskEnd_err_type == ErrCmdType::Local
            &&& last->TaskEnd_profile == ConnectView::blank()
            &&& last->TaskEnd_err_code == (if !is_acceptable(task) {
                -12i32
            } else if a.processed.channel_select == 0 {
                -5i32
            } else if no_net {
                -6i32
            } else {
                -3i32
            })
        }),
{
    reveal(CoreView::start_words);
    reveal(CoreView::network_words);
    reveal(CoreView::choose_words);
    reveal(CoreView::put_words);
    reveal(CoreView::out_words);
}

/// The zombies are told of a start exactly where a queue took the task and the long
/// link is used.
#[verifier::spinoff_prover]
#[verifier::rlimit(60)]
pub proof fn law_the_zombies_hear_of_a_start(
    core: CoreView,
    now: u64,
    task: Task,
    a: StartAnswers,
)
    ensures
        core.start_words(now, task, a).contains(CoreTold::ZombieTaskStarted { now })
            <==> core.starts(task, a) && core.use_long_link,
{
    reveal(CoreView::start_words);
    reveal(CoreView::network_words);
    reveal(CoreView::choose_words);
    reveal(CoreView::put_words);
    reveal(CoreView::out_words);
    let words = core.start_words(now, task, a);
    if core.starts(task, a) && core.use_long_link {
        assert(words[words.len() - 1] == CoreTold::ZombieTaskStarted { now });
    }
}

// ---- a network change ---------------------------------------------------------

/// After a network change every queue in use was asked to try its tasks again at that
/// reading: the short link always, the long link and the zombies where the long link
/// is used. What was learned of the old network was thrown away before that, by the
/// source, by both queues and by the core itself; and nothing else was asked.
pub proof fn law_a_network_change_tries_every_task_again(core: CoreView, now: u64)
    ensures
        ({
            let after = core.network_changed(now);
            let said = heard_since(core, after);
            let redo = CoreTold::ShortRedo { now };
            let long = CoreTold::LongNetworkChange { now };
            let zombies = CoreTold::ZombieRedo { now };
            let sync = CoreTold::SyncNetworkChange { now };
            &&& after.told == core.told + said
            &&& said.no_duplicates()
            &&& said.contains(redo)
            &&& said.contains(CoreTold::ClearCache)
            &&& said.contains(CoreTold::ShortResetTimeout)
            &&& said.contains(CoreTold::LongResetTimeout)
            &&& said.contains(long) == core.use_long_link
            &&& said.contains(zombies) == core.use_long_link
            &&& said.contains(sync) == core.use_long_link
            &&& said.len() == if core.use_long_link {
                7int
            } else {
                4int
            }
            &&& comes_before(said, CoreTold::ClearCache, redo)
            &&& comes_before(said, CoreTold::ShortResetTimeout, redo)
            &&& core.use_long_link ==> comes_before(said, CoreTold::ClearCache, long)
                && comes_before(said, CoreTold::LongResetTimeout, long) && comes_before(
                said,
                long,
                zombies,
            ) && comes_before(said, zombies, redo)
        }),
        ({
            let after = core.network_changed(now);
            &&& after.timeout == DynamicView::fresh()
            &&& after.timeout.status == DynamicTimeoutStatus::Evaluating
            &&& after.error_count == 0
            &&& !after.try_flag
            &&& after == (CoreView {
                timeout: after.timeout,
                error_count: after.error_count,
                try_flag: after.try_flag,
                told: after.told,
                ..core
            })
        }),
{
    lemma_since(core, core.network_change_words(now));
    let said = heard_since(core, core.network_changed(now));
    assert(said == core.network_change_words(now));
    assert(said[0] == CoreTold::ClearCache);
    assert(said[1] == CoreTold::ShortResetTimeout);
    assert(said[2] == CoreTold::LongResetTimeout);
    if core.use_long_link {
        assert(said[3] == CoreTold::SyncNetworkChange { now });
        assert(said[4] == CoreTold::LongNetworkChange { now });
        assert(said[5] == CoreTold::ZombieRedo { now });
        assert(said[6] == CoreTold::ShortRedo { now });
    } else {
        assert(said[3] == CoreTold::ShortRedo { now });
    }
}

/// Trying every task again asks the same queues, once each, after the cache was
/// cleared.
pub proof fn law_a_redo_reaches_every_queue(core: CoreView, now: u64)
    ensures
        ({
            let said = core.redo_words(now);
            let redo = CoreTold::ShortRedo { now };
            let long = CoreTold::LongRedo { now };
            let zombies = CoreTold::ZombieRedo { now };
            &&& said.no_duplicates()
            &&& said.contains(redo)
            &&& said.contains(long) == core.use_long_link
            &&& said.contains(zombies) == core.use_long_link
            &&& comes_before(said, CoreTold::ClearCache, redo)
            &&& core.use_long_link ==> comes_before(said, CoreTold::ClearCache, long)
                && comes_before(said, long, zombies) && comes_before(said, zombies, redo)
            &&& said.len() == if core.use_long_link {
                4int
            } else {
                2int
            }
        }),
{
    let said = core.redo_words(now);
    assert(said[0] == CoreTold::ClearCache);
    if core.use_long_link {
        assert(said[1] == CoreTold::LongRedo { now });
        assert(said[2] == CoreTold::ZombieRedo { now });
        assert(said[3] == CoreTold::ShortRedo { now });
    } else {
        assert(said[1] == CoreTold::ShortRedo { now });
    }
}

/// A session that is over, or an answer nobody could read, has every task of the user
/// looked at again on both links, with that very error: on the long link only where it
/// is used.
pub proof fn law_a_retry_reaches_both_links(
    core: CoreView,
    now: u64,
    err_type: ErrCmdType,
    err_code: i32,
    handle: TaskFailHandleType,
    src_taskid: u32,
    user_id: Seq<char>,
)
    ensures
        ({
            let said = core.retry_words(now, err_type, err_code, handle, src_taskid, user_id);
            let short = CoreTold::ShortRetry { now, err_type, err_code, handle, src_taskid };
            let long = CoreTold::LongRetry {
                now,
                err_type,
                err_code,
                handle,
                src_taskid,
                user_id,
            };
            &&& said.contains(short)
            &&& said.contains(long) == core.use_long_link
            &&& forall|i: int| 0 <= i < said.len() ==> #[trigger] said[i] == short || said[i] == long
            &&& said.no_duplicates()
        }),
{
    let said = core.retry_words(now, err_type, err_code, handle, src_taskid, user_id);
    assert(said[0] == CoreTold::ShortRetry { now, err_type, err_code, handle, src_taskid });
    if core.use_long_link {
        assert(said[1] == CoreTold::LongRetry {
            now,
            err_type,
            err_code,
            handle,
            src_taskid,
            user_id,
        });
    }
}

// ---- looking for a task --------------------------------------------------------

/// A task that is to be stopped is looked for on the long link, then among the
/// zombies, then on the short link: each is asked for that task where those before it
/// did not have it, and not otherwise.
pub proof fn law_a_task_is_looked_for_until_it_is_stopped(
    taskid: u32,
    long: bool,
    zombie: bool,
    short: bool,
)
    ensures
        ({
            let said = CoreView::stop_words(taskid, long, zombie, short);
            &&& said.len() > 0
            &&& said[0] == CoreTold::LongStop { taskid, answer: long }
            &&& said.len() > 1 <==> !long
            &&& !long ==> said[1] == CoreTold::ZombieStop { taskid, answer: zombie }
            &&& said.len() > 2 <==> !long && !zombie
            &&& !long && !zombie ==> said[2] == CoreTold::ShortStop { taskid, answer: short }
            &&& said.len() <= 3
        }),
{
}

/// A task is looked for among the zombies, then on the long link, then on the short
/// link: each is asked where those before it did not have it, and not otherwise.
pub proof fn law_a_task_is_looked_for_until_it_is_found(
    taskid: u32,
    zombie: bool,
    long: bool,
    short: bool,
)
    ensures
        ({
            let said = CoreView::has_words(taskid, zombie, long, short);
            &&& said.len() > 0
            &&& said[0] == CoreTold::ZombieHas { taskid, answer: zombie }
            &&& said.len() > 1 <==> !zombie
            &&& !zombie ==> said[1] == CoreTold::LongHas { taskid, answer: long }
            &&& said.len() > 2 <==> !zombie && !long
            &&& !zombie && !long ==> said[2] == CoreTold::ShortHas { taskid, answer: short }
            &&& said.len() <= 3
        }),
{
}

/// Clearing reaches every queue, once.
pub proof fn law_clearing_reaches_every_queue()
    ensures
        CoreView::clear_words().contains(CoreTold::LongClear),
        CoreView::clear_words().contains(CoreTold::ZombieClear),
        CoreView::clear_words().contains(CoreTold::ShortClear),
        CoreView::clear_words().len() == 3,
{
    let said = CoreView::clear_words();
    assert(said[0] == CoreTold::LongClear);
    assert(said[1] == CoreTold::ZombieClear);
    assert(said[2] == CoreTold::ShortClear);
}

/// The core is due when the first of its pieces is: no piece is due before it, and one
/// is due just then; it is not due at all only where none is. Every piece is asked.
pub proof fn law_the_core_is_due_with_its_first_piece(
    zombie: Option<u64>,
    short: Option<u64>,
    long: Option<u64>,
    sync: Option<u64>,
)
    ensures
        ({
            let due = CoreView::earliest(zombie, short, long, sync);
            let all = seq![zombie, short, long, sync];
            &&& due is None <==> forall|i: int| 0 <= i < 4 ==> (#[trigger] all[i]) is None
            &&& due is Some ==> (due == zombie || due == short || due == long || due == sync)
            &&& forall|i: int|
                0 <= i < 4 && (#[trigger] all[i]) is Some ==> due is Some && due->0 <= all[i]->0
        }),
        ({
            let said = CoreView::due_words(zombie, short, long, sync);
            &&& said.contains(CoreTold::ZombieDue { answer: zombie })
            &&& said.contains(CoreTold::ShortDue { answer: short })
            &&& said.contains(CoreTold::LongDue { answer: long })
            &&& said.contains(CoreTold::SyncDue { answer: sync })
            &&& said.len() == 4
        }),
{
    let all = seq![zombie, short, long, sync];
    assert(all[0] == zombie && all[1] == short && all[2] == long && all[3] == sync);
    let said = CoreView::due_words(zombie, short, long, sync);
    assert(said[0] == CoreTold::ZombieDue { answer: zombie });
    assert(said[1] == CoreTold::ShortDue { answer: short });
    assert(said[2] == CoreTold::LongDue { answer: long });
    assert(said[3] == CoreTold::SyncDue { answer: sync });
}

/// The connect of a task is asked of the queue its channel is one of: the short-link
/// queue for the short channel, the long-link queue for the long, the minor long or
/// both, where the long link is used, and of none otherwise; what that queue knows is
/// what comes back, and a blank one where it knows nothing.
pub proof fn law_a_connect_is_asked_of_the_queue_of_its_channel(
    core: CoreView,
    taskid: u32,
    channel_select: i32,
    short: Option<ConnectView>,
    long: ConnectView,
)
    ensures
        ({
            let said = core.profile_words(taskid, channel_select, short, long);
            let found = core.profile_found(channel_select, short, long);
            let is_long = core.use_long_link && (channel_select == 2 || channel_select == 4
                || channel_select == 3);
            &&& channel_select == 1 ==> said == seq![
                CoreTold::ShortProfile { taskid, answer: short },
            ] && found == (match short {
                Some(profile) => profile,
                None => ConnectView::blank(),
            })
            &&& is_long ==> said == seq![CoreTold::LongProfile { taskid, answer: long }] && found
                == long
            &&& channel_select != 1 && !is_long ==> said.len() == 0 && found
                == ConnectView::blank()
        }),
{
}

// ---- errors of a link ----------------------------------------------------------

/// Of an error of a long link, where that is used and the core not released: the
/// diagnosis always hears, the app exactly of the main link, the zombies exactly where
/// nothing went wrong, and the source of the pair unless the error is no fault of the
/// pair: a dial, an http or a server error or one of the task's own.
pub proof fn law_who_hears_of_a_long_link_error(
    core: CoreView,
    now: u64,
    name: Seq<char>,
    err_type: ErrCmdType,
    err_code: i32,
    ip: Seq<char>,
    port: u16,
    a: ErrorAnswers,
)
    ensures
        ({
            let said = core.long_error_words(now, name, err_type, err_code, ip, port, a);
            let ok = err_type == ErrCmdType::NoError;
            let main = core.default_link is Some && core.default_link->0@ == name;
            let heard = core.use_long_link && !core.released;
            let pair = err_type != ErrCmdType::Dial && err_type != ErrCmdType::Http && err_type
                != ErrCmdType::Server && err_type != ErrCmdType::Local;
            &&& !heard ==> said.len() == 0
            &&& said.contains(CoreTold::CheckLong { now, fails: a.fails, ok }) == heard
            &&& said.contains(CoreTold::LongErr { err_type, err_code, ip, port }) == (heard && main)
            &&& said.contains(CoreTold::ZombieRedo { now }) == (heard && ok)
            &&& said.contains(CoreTold::ReportLong { now, secs: a.secs, ok, ip, port }) == (heard
                && pair)
            &&& said.no_duplicates()
        }),
{
    reveal(CoreView::long_error_words);
    let said = core.long_error_words(now, name, err_type, err_code, ip, port, a);
    let ok = err_type == ErrCmdType::NoError;
    if core.use_long_link && !core.released {
        assert(said[1] == CoreTold::CheckLong { now, fails: a.fails, ok });
        let n: int = if core.is_default(name) {
            3
        } else {
            2
        };
        if core.is_default(name) {
            assert(said[2] == CoreTold::LongErr { err_type, err_code, ip, port });
        }
        if ok {
            assert(said[n] == CoreTold::ZombieRedo { now });
        }
        let m: int = if ok {
            n + 1
        } else {
            n
        };
        if CoreView::is_long_pair_error(err_type) {
            assert(said[m + 1] == CoreTold::ReportLong { now, secs: a.secs, ok, ip, port });
        }
    }
}

/// Of an error of a short link, where the core is not released: the diagnosis and the
/// app always hear; an answer that came back ends the row of errors, and starts the
/// zombies again where the long link is used; any other error makes the row longer.
/// The source hears of the pair unless the error is no fault of the pair: a dial, a
/// timeout of the answer, a server error or one of the task's own.
#[verifier::rlimit(40)]
pub proof fn law_who_hears_of_a_short_link_error(
    core: CoreView,
    now: u64,
    err_type: ErrCmdType,
    err_code: i32,
    ip: Seq<char>,
    host: Seq<char>,
    port: u16,
    a: ErrorAnswers,
)
    requires
        !core.released,
    ensures
        ({
            let told = core.short_error_told(now, err_type, err_code, ip, host, port, a);
            let said = heard_since(core, told);
            let ok = err_type == ErrCmdType::NoError;
            &&& said.contains(CoreTold::CheckShort { now, fails: a.fails, ok })
            &&& said.contains(CoreTold::ShortErr { err_type, err_code, ip, host, port })
            &&& told.try_flag
            &&& ok ==> told.error_count == 0
            &&& !ok && core.error_count < i32::MAX ==> told.error_count == core.error_count + 1
            &&& !ok && core.error_count == i32::MAX ==> told.error_count == i32::MAX
        }),
        ({
            let said = core.short_pair_words(now, err_type, ip, host, port, a);
            let ok = err_type == ErrCmdType::NoError;
            let pair = err_type != ErrCmdType::Dial && err_type != ErrCmdType::NetMsgXp && err_type
                != ErrCmdType::Server && err_type != ErrCmdType::Local;
            &&& said.contains(CoreTold::ZombieRedo { now }) == (ok && core.use_long_link)
            &&& said.contains(CoreTold::ReportShort { now, secs: a.secs, ok, ip, host, port })
                == pair
        }),
        core.short_error(now, err_type, err_code, ip, host, port, a) == core.short_error_told(
            now,
            err_type,
            err_code,
            ip,
            host,
            port,
            a,
        ).status_called().heard_all(core.short_pair_words(now, err_type, ip, host, port, a)),
{
    reveal(CoreView::short_error);
    reveal(CoreView::short_pair_words);
    let ok = err_type == ErrCmdType::NoError;
    let told = core.short_error_told(now, err_type, err_code, ip, host, port, a);
    let said = heard_since(core, told);
    let n = core.told.len() as int;
    assert(said[1] == told.told[n + 1]);
    assert(said[2] == told.told[n + 2]);
    let pairs = core.short_pair_words(now, err_type, ip, host, port, a);
    if ok && core.use_long_link {
        assert(pairs[0] == CoreTold::ZombieRedo { now });
    }
    if CoreView::is_short_pair_error(err_type) {
        assert(pairs[pairs.len() - 1] == CoreTold::ReportShort {
            now,
            secs: a.secs,
            ok,
            ip,
            host,
            port,
        });
    }
}

/// What the app is told the connection is like. With the long link: nothing of a main
/// link there is not or that went down; connected in both where it is up; connecting
/// where it is on the way, and of everything what the short link shows where that has
/// tried; a server that failed where the link failed. Three short-link errors in a row
/// are a server that failed, none is a connection, and anything between says nothing.
/// Without the long link only three errors in a row are anything but a connection.
pub proof fn law_what_the_connection_is_told_to_be(core: CoreView)
    ensures
        ({
            let after = core.status_called();
            let said = heard_since(core, after);
            let name = core.default_link->0@;
            let there = core.default_link is Some && core.links.contains(name);
            let link = if core.statuses.contains_key(name) {
                core.statuses[name]
            } else {
                LongLinkStatus::ConnectIdle
            };
            let silent = core.use_long_link && (!there || link == LongLinkStatus::DisConnected);
            let tried = if !core.try_flag || 0 < core.error_count < 3 || core.error_count < 0 {
                NetStatus::Unknown
            } else if core.error_count == 0 {
                NetStatus::Connected
            } else {
                NetStatus::ServerFailed
            };
            &&& silent ==> after == (CoreView { told: after.told, ..core }) && forall|i: int|
                0 <= i < said.len() ==> !((#[trigger] said[i]) is ConnectStatus)
            &&& !silent ==> said.len() > 0 && said.last() == (CoreTold::ConnectStatus {
                all: after.all_status,
                longlink: after.longlink_status,
            })
            &&& !core.use_long_link ==> after.longlink_status == NetStatus::Unknown
                && after.all_status == (if core.error_count >= 3 {
                NetStatus::ServerFailed
            } else {
                NetStatus::Connected
            }) && after.error_count == core.error_count && after.try_flag == core.try_flag
            &&& core.use_long_link && there ==> match link {
                LongLinkStatus::DisConnected => true,
                LongLinkStatus::Connected => after.all_status == NetStatus::Connected
                    && after.longlink_status == NetStatus::Connected && after.error_count == 0
                    && !after.try_flag,
                LongLinkStatus::ConnectFailed => after.all_status == tried
                    && after.longlink_status == NetStatus::ServerFailed && after.error_count
                    == core.error_count && after.try_flag == core.try_flag,
                LongLinkStatus::ConnectIdle | LongLinkStatus::Connecting => {
                    &&& after.longlink_status == NetStatus::Connecting
                    &&& after.all_status == (if tried == NetStatus::Unknown {
                        NetStatus::Connecting
                    } else {
                        tried
                    })
                    &&& after.error_count == core.error_count
                    &&& after.try_flag == core.try_flag
                },
            }
        }),
{
    reveal(CoreView::status_called);
    let after = core.status_called();
    let n = core.told.len() as int;
    let said = heard_since(core, after);
    if after.told.len() > n {
        assert(said.last() == after.told.last());
    }
}

/// A long link that changed where it is: the timing sync hears of it, the zombies
/// exactly where it came up, and the app last of all; a core that does not use the long
/// link says nothing.
pub proof fn law_who_hears_of_a_status(core: CoreView, now: u64, status: LongLinkStatus)
    ensures
        ({
            let after = core.status_changed(now, status);
            let said = heard_since(core, after);
            &&& !core.use_long_link ==> after == core
            &&& core.use_long_link ==> {
                &&& said.len() > 0
                &&& said[0] == CoreTold::SyncStatus { now, status }
                &&& said.last() == CoreTold::StatusChange { status }
                &&& said.contains(CoreTold::ZombieRedo { now }) == (status
                    == LongLinkStatus::Connected)
            }
        }),
{
    reveal(CoreView::status_changed);
    reveal(CoreView::status_called);
    let after = core.status_changed(now, status);
    let said = heard_since(core, after);
    let n = core.told.len() as int;
    if core.use_long_link {
        assert(said[0] == after.told[n]);
        assert(said.last() == after.told.last());
        assert(said[1] == after.told[n + 1]);
        assert forall|i: int| 0 <= i < said.len() implies #[trigger] said[i] == after.told[n
            + i] by {}
    }
}

// ---- the links -----------------------------------------------------------------

/// A link is made exactly where the long link is used and the queue takes its channel;
/// from there on it is one of the links, and the main one where its config says so. A
/// link there is already is there, and is not made again.
pub proof fn law_a_link_is_made_once(
    core: CoreView,
    config: LonglinkConfig,
    added: bool,
    status: LongLinkStatus,
)
    ensures
        ({
            let (after, there) = core.link_made(config, added, status);
            let said = heard_since(core, after);
            let made = core.use_long_link && added;
            &&& there == (made || (core.use_long_link && core.links.contains(config.name@)))
            &&& said.contains(CoreTold::LinkMake { config, encoder: core.encoder }) == made
            &&& after.links == (if made {
                core.links.insert(config.name@)
            } else {
                core.links
            })
            &&& after.default_link == (if made && config.is_main {
                Some(config.name)
            } else {
                core.default_link
            })
            &&& made ==> after.statuses == core.statuses.insert(config.name@, status)
            &&& !core.use_long_link ==> after == core
        }),
{
    let (after, there) = core.link_made(config, added, status);
    let said = heard_since(core, after);
    let n = core.told.len() as int;
    if core.use_long_link && added {
        assert(said[1] == after.told[n + 1]);
    } else if core.use_long_link {
        assert(said[0] == after.told[n]);
    }
}

/// A link that is destroyed is gone from the queue and from the links, and is the main
/// one no more; every other link stays as it is.
pub proof fn law_a_destroyed_link_is_gone(core: CoreView, now: u64, name: Seq<char>)
    ensures
        ({
            let after = core.link_destroyed(now, name);
            let said = heard_since(core, after);
            &&& !after.links.contains(name)
            &&& forall|other: Seq<char>|
                other != name ==> #[trigger] after.links.contains(other) == core.links.contains(
                    other,
                )
            &&& after.default_link is Some ==> after.default_link->0@ != name
            &&& (core.default_link is Some && core.default_link->0@ != name) ==> after.default_link
                == core.default_link
            &&& said == seq![CoreTold::LongRemove { now, name }, CoreTold::LinkDrop { name }]
            &&& after.statuses == core.statuses.remove(name)
            &&& after.use_long_link == core.use_long_link
            &&& after.released == core.released
        }),
{
    let after = core.link_destroyed(now, name);
    assert(heard_since(core, after) =~= seq![
        CoreTold::LongRemove { now, name },
        CoreTold::LinkDrop { name },
    ]);
}

/// A core that is let go drops every task and every link, stops the timing sync, and
/// has no main link any more.
pub proof fn law_a_released_core_keeps_nothing(core: CoreView)
    ensures
        ({
            let after = core.let_go();
            let said = heard_since(core, after);
            &&& after.released
            &&& after.default_link is None
            &&& forall|name: Seq<char>| !(#[trigger] after.links.contains(name))
            &&& forall|name: Seq<char>| !(#[trigger] after.statuses.contains_key(name))
            &&& said.contains(CoreTold::LongClear)
            &&& said.contains(CoreTold::ZombieClear)
            &&& said.contains(CoreTold::ShortClear)
            &&& said.contains(CoreTold::LinksClear)
            &&& said.contains(CoreTold::SyncCancel)
            &&& said.len() == 5
        }),
{
    let after = core.let_go();
    let said = heard_since(core, after);
    let n = core.told.len() as int;
    assert(said[0] == after.told[n]);
    assert(said[1] == after.told[n + 1]);
    assert(said[2] == after.told[n + 2]);
    assert(said[3] == after.told[n + 3]);
    assert(said[4] == after.told[n + 4]);
}

// ---- a task that ended -----------------------------------------------------------

/// What becomes of a task that ended. The app has the first say, and where it says
/// none, that is all. A task is saved as a zombie only where it failed by itself: it
/// neither answered, nor was it ended by the app, nor by the core going away; it is no
/// zombie already, and the long link is used. What is not saved is over, and the app
/// hears of it once; the connect it ran on is told only where the task answered or the
/// app ended it.
pub proof fn law_what_becomes_of_a_task_that_ended(
    ending: Ending,
    use_long_link: bool,
    a: EndAnswers,
)
    ensures
        ({
            let said = ending.words(use_long_link, a);
            let gone = ending.err_type == ErrCmdType::Local && ending.err_code == -9;
            let done = ending.err_type == ErrCmdType::NoError || ending.handle
                == TaskFailHandleType::TaskEnd;
            let asked = a.callback != 0 && !gone && !done && ending.from != CallFrom::Zombie
                && use_long_link;
            let saved = RouteTold::Saved {
                now: ending.now,
                task: ending.task,
                cost: ending.cost,
                answer: a.saved,
            };
            let end = RouteTold::TaskEnd {
                taskid: ending.task.taskid,
                user_id: ending.task.user_id@,
                err_type: ending.err_type,
                err_code: ending.err_code,
                profile: if done && !gone {
                    ending.profile
                } else {
                    ConnectView::blank()
                },
                answer: a.end,
            };
            &&& said.len() > 0
            &&& said[0] == (RouteTold::Callback {
                from: ending.from,
                err_type: ending.err_type,
                err_code: ending.err_code,
                handle: ending.handle,
                task: ending.task,
                answer: a.callback,
            })
            &&& said.contains(saved) == asked
            &&& said.contains(end) == (a.callback != 0 && !(asked && a.saved))
            &&& forall|i: int|
                0 < i < said.len() ==> #[trigger] said[i] == saved || said[i] == end
            &&& said.no_duplicates()
            &&& ending.code(use_long_link, a) == (if a.callback == 0 || (asked && a.saved) {
                0i32
            } else {
                a.end
            })
        }),
{
    reveal(Ending::words);
    let said = ending.words(use_long_link, a);
    let gone = ending.err_type == ErrCmdType::Local && ending.err_code == -9;
    let done = ending.err_type == ErrCmdType::NoError || ending.handle
        == TaskFailHandleType::TaskEnd;
    let asked = a.callback != 0 && !gone && !done && ending.from != CallFrom::Zombie
        && use_long_link;
    let saved = RouteTold::Saved {
        now: ending.now,
        task: ending.task,
        cost: ending.cost,
        answer: a.saved,
    };
    let end = RouteTold::TaskEnd {
        taskid: ending.task.taskid,
        user_id: ending.task.user_id@,
        err_type: ending.err_type,
        err_code: ending.err_code,
        profile: if done && !gone {
            ending.profile
        } else {
            ConnectView::blank()
        },
        answer: a.end,
    };
    let first = said[0];
    if asked && a.saved {
        assert(said =~= seq![first, saved]);
        assert(said[1] == saved);
    } else if asked {
        assert(said =~= seq![first, saved, end]);
        assert(said[1] == saved && said[2] == end);
    } else if a.callback != 0 {
        assert(said =~= seq![first, end]);
        assert(said[1] == end);
    } else {
        assert(said =~= seq![first]);
    }
}

// ---- a task that is started --------------------------------------------------------------

/// A task gets as far as a queue exactly where the core is not released, its parameters
/// are in bounds, the app left it a channel, and it does not care about the network or
/// there is one or its link is up or is not one of the core's.
pub proof fn law_when_a_task_gets_as_far_as_a_queue(core: CoreView, task: Task, a: StartAnswers)
    ensures
        ({
            let name = core.named(a.processed).channel_name@;
            let up = core.statuses.contains_key(name) && core.statuses[name]
                == LongLinkStatus::Connected;
            let cut_off = a.processed.network_status_sensitive && a.net == -1 && core.use_long_link
                && core.links.contains(name) && !up;
            core.gets_out(task, a) <==> !core.released && task.server_process_cost <= 120_000
                && task.retry_count <= 30 && task.total_timeout <= 600_000
                && a.processed.channel_select != 0 && !cut_off
        }),
{
}

/// The app is given a task with what is filled in for it, before anything else is done
/// with it; a task that is refused for its parameters is not given to it, and of one on
/// a released core nothing is said at all.
pub proof fn law_the_app_sees_a_task_first(core: CoreView, now: u64, task: Task, a: StartAnswers)
    ensures
        ({
            let said = core.start_words(now, task, a);
            let seen = CoreTold::TaskProcess { task: with_defaults(task), answer: a.processed };
            &&& core.released ==> said.len() == 0
            &&& !core.released && is_acceptable(task) ==> said.len() > 1 && said[0] == seen
            &&& !core.released && !is_acceptable(task) ==> said.len() == 1 && said[0] is TaskEnd
        }),
{
    reveal(CoreView::start_words);
    reveal(CoreView::network_words);
    reveal(CoreView::choose_words);
    reveal(CoreView::put_words);
    reveal(CoreView::out_words);
    let said = core.start_words(now, task, a);
    if !core.released && is_acceptable(task) {
        assert(said[0] == CoreTold::TaskProcess {
            task: with_defaults(task),
            answer: a.processed,
        });
    }
}

/// The link of a task is asked for where it is only where that counts, and it is asked
/// how much is out on it only for a fast task whose link is up.
pub proof fn law_what_is_asked_to_choose_a_channel(core: CoreView, task: Task, a: StartAnswers)
    ensures
        ({
            let said = core.choose_words(task, a);
            let name = task.channel_name@;
            let there = core.links.contains(name);
            let up = there && core.statuses.contains_key(name) && core.statuses[name]
                == LongLinkStatus::Connected;
            &&& said.contains(CoreTold::LongCount { name, answer: a.count }) <==> up
                && task.channel_strategy == 1
            &&& !there ==> said.len() == 0
            &&& there ==> said.len() > 0 && said[0] is LinkStatus && said[0]->LinkStatus_name
                == name
        }),
{
    reveal(CoreView::choose_words);
    let said = core.choose_words(task, a);
    if said.len() == 2 {
        assert(said[1] == CoreTold::LongCount { name: task.channel_name@, answer: a.count });
    }
}

// ---- what was asked of the core ---------------------------------------------------------

/// What the queues asked for while they were running is done one after the other, each
/// after it was taken, and the last thing heard is that nothing is left.
pub proof fn law_what_was_asked_for_is_done(
    core: CoreView,
    now: u64,
    asked: Seq<FollowView>,
    states: Seq<CoreView>,
    after: CoreView,
    i: int,
)
    requires
        core.drained(now, asked, states, after),
        asked.len() < u64::MAX,
        0 <= i < asked.len(),
    ensures
        after.told.last() == (CoreTold::NextPending { answer: None }),
        after.told.drop_last() == states[asked.len() as int].told,
        states[0] == core,
        ({
            let taken = CoreView {
                told: states[i].told.push(CoreTold::NextPending { answer: Some(asked[i]) }),
                ..states[i]
            };
            match asked[i] {
                FollowView::Start(task) => exists|a: StartAnswers|
                    states[i + 1] == taken.heard_all(#[trigger] taken.start_words(now, task, a)),
                FollowView::Retry { err_type, err_code, handle, src_taskid, user_id } => {
                    let short = CoreTold::ShortRetry {
                        now,
                        err_type,
                        err_code,
                        handle,
                        src_taskid,
                    };
                    let long = CoreTold::LongRetry {
                        now,
                        err_type,
                        err_code,
                        handle,
                        src_taskid,
                        user_id,
                    };
                    &&& states[i + 1].told.contains(short)
                    &&& taken.use_long_link ==> states[i + 1].told.contains(long)
                },
                FollowView::LongLinkError { name, err_type, err_code, ip, port } => exists|
                    a: ErrorAnswers,
                |
                    states[i + 1] == taken.heard_all(
                        #[trigger] taken.long_error_words(
                            now,
                            name,
                            err_type,
                            err_code,
                            ip,
                            port,
                            a,
                        ),
                    ),
                FollowView::ShortLinkError { err_type, err_code, ip, host, port } => exists|
                    a: ErrorAnswers,
                |
                    states[i + 1] == #[trigger] taken.short_error(
                        now,
                        err_type,
                        err_code,
                        ip,
                        host,
                        port,
                        a,
                    ),
            }
        }),
{
    let next = asked[i];
    assert(states[i].took(now, next, states[i + 1]));
    let taken = CoreView {
        told: states[i].told.push(CoreTold::NextPending { answer: Some(next) }),
        ..states[i]
    };
    assert(states[i].told + seq![CoreTold::NextPending { answer: Some(next) }]
        =~= taken.told);
    assert(after.told.drop_last() =~= states[asked.len() as int].told);
    match next {
        FollowView::Retry { err_type, err_code, handle, src_taskid, user_id } => {
            let words = taken.retry_words(now, err_type, err_code, handle, src_taskid, user_id);
            let later = states[i + 1].told;
            let n = taken.told.len() as int;
            assert(later == taken.told + words);
            assert(later[n] == words[0]);
            if taken.use_long_link {
                assert(later[n + 1] == words[1]);
            }
        },
        _ => {},
    }
}

/// No two things the connection may be are reported alike.
pub proof fn law_every_status_has_a_number_of_its_own(left: NetStatus, right: NetStatus)
    ensures
        status_code(left) == status_code(right) ==> left == right,
        status_code(NetStatus::Unknown) == -1,
        status_code(NetStatus::Unavailable) == 0,
        status_code(NetStatus::GatewayFailed) == 1,
        status_code(NetStatus::ServerFailed) == 2,
        status_code(NetStatus::Connecting) == 3,
        status_code(NetStatus::Connected) == 4,
        status_code(NetStatus::ServerDown) == 5,
{
}

/// No two ways to go on after a task failed are reported alike.
pub proof fn law_every_handle_has_a_number_of_its_own(
    left: TaskFailHandleType,
    right: TaskFailHandleType,
)
    ensures
        fail_handle_code(left) == fail_handle_code(right) ==> left == right,
        fail_handle_code(TaskFailHandleType::Normal) == 0,
        fail_handle_code(TaskFailHandleType::Default) == -1,
        fail_handle_code(TaskFailHandleType::RetryAllTasks) == -12,
        fail_handle_code(TaskFailHandleType::SessionTimeout) == -13,
        fail_handle_code(TaskFailHandleType::TaskEnd) == -14,
        fail_handle_code(TaskFailHandleType::TaskTimeout) == -15,
        fail_handle_code(TaskFailHandleType::SlientTaskEnd) == -16,
{
}

/// A core that was just made has no task out, no link but what is made with it, an error
/// count of nothing, and a network that is being evaluated.
pub proof fn law_how_a_core_starts(
    use_long_link: bool,
    encoder: crate::longlink::LongLinkEncoder,
    told: Seq<CoreTold>,
)
    ensures
        ({
            let core = CoreView::fresh(use_long_link, encoder, told);
            &&& core.use_long_link == use_long_link
            &&& !core.released
            &&& core.error_count == 0
            &&& !core.try_flag
            &&& core.default_link is None
            &&& core.told == told.push(CoreTold::UseLongLink { use_long_link })
            &&& core.encoder == encoder
            &&& core.timeout.status == DynamicTimeoutStatus::Evaluating
            &&& forall|name: Seq<char>| !(#[trigger] core.links.contains(name))
        }),
{
}

/// A touch looks at both queues, once each, at that reading, and asks nothing else.
pub proof fn law_a_touch_reaches_both_queues(now: u64)
    ensures
        CoreView::touch_words(now).contains(CoreTold::LongTouch { now }),
        CoreView::touch_words(now).contains(CoreTold::ShortTouch { now }),
        CoreView::touch_words(now).len() == 2,
{
    assert(CoreView::touch_words(now)[0] == CoreTold::LongTouch { now });
    assert(CoreView::touch_words(now)[1] == CoreTold::ShortTouch { now });
}

} // verus!
