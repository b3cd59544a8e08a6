//! Where a task that ended goes, and what a queue that is running asks for.
//!
//! A queue cannot re-enter the net core from inside its own run, so what it
//! asks of it is collected ([`FollowUp`]) and done afterwards. A task that
//! ended is answered where it is asked: the app's own say on it first, then the
//! end of a task that is really over, and the zombie queue for one that is not.
use vstd::prelude::*;
use crate::anti_avalanche::{asked_of, AntiAvalanche, Asked, AvalancheView};
use crate::dynamic_timeout::{DynamicTimeoutStatus, NetworkKind};
use crate::history::lemma_said;
use crate::long_link::DisconnectInternalCode;
use crate::queue_host::{kept, request, Fixed, QueueHost, Told};
use crate::task::Task;
use crate::task_profile::{
    ConnectProfile, ConnectView, ErrCmdType, RunId, TaskFailHandleType, LOCAL_RESET,
};

verus! {

/// A mobile network, as the platform numbers it.
pub const NET_TYPE_MOBILE: i32 = 2;

/// A wifi, as the platform numbers it.
pub const NET_TYPE_WIFI: i32 = 1;

/// Which queue the task that ended came from, which decides whether it can be
/// saved as a zombie: a zombie that is saved again would never end.
#[derive(Debug, Clone, Copy, PartialEq, Eq, Structural)]
pub enum CallFrom {
    Long,
    Short,
    Zombie,
}

/// What a queue asked of the net core while it was running.
#[derive(Debug, Clone, PartialEq, Eq)]
#[allow(inconsistent_fields)]
pub enum FollowUp {
    /// A zombie is started again.
    Start(Task),
    /// An answer that could not be read, or a session timeout: every task of
    /// that user has to be looked at again.
    Retry {
        err_type: ErrCmdType,
        err_code: i32,
        handle: TaskFailHandleType,
        src_taskid: u32,
        user_id: String,
    },
    /// An error of a long link.
    LongLinkError { name: String, err_type: ErrCmdType, err_code: i32, ip: String, port: u16 },
    /// An error of a short link.
    ShortLinkError { err_type: ErrCmdType, err_code: i32, ip: String, host: String, port: u16 },
}

/// The contents of a [`FollowUp`].
#[allow(inconsistent_fields)]
pub enum FollowView {
    Start(Task),
    Retry {
        err_type: ErrCmdType,
        err_code: i32,
        handle: TaskFailHandleType,
        src_taskid: u32,
        user_id: Seq<char>,
    },
    LongLinkError {
        name: Seq<char>,
        err_type: ErrCmdType,
        err_code: i32,
        ip: Seq<char>,
        port: u16,
    },
    ShortLinkError {
        err_type: ErrCmdType,
        err_code: i32,
        ip: Seq<char>,
        host: Seq<char>,
        port: u16,
    },
}

impl View for FollowUp {
    type V = FollowView;

    open spec fn view(&self) -> FollowView {
        match *self {
            FollowUp::Start(task) => FollowView::Start(task),
            FollowUp::Retry { err_type, err_code, handle, src_taskid, user_id } => {
                FollowView::Retry { err_type, err_code, handle, src_taskid, user_id: user_id@ }
            },
            FollowUp::LongLinkError { name, err_type, err_code, ip, port } => {
                FollowView::LongLinkError { name: name@, err_type, err_code, ip: ip@, port }
            },
            FollowUp::ShortLinkError { err_type, err_code, ip, host, port } => {
                FollowView::ShortLinkError { err_type, err_code, ip: ip@, host: host@, port }
            },
        }
    }
}

/// The contents of what was asked.
pub open spec fn follow_views(pending: Seq<FollowUp>) -> Seq<FollowView> {
    pending.map_values(|f: FollowUp| f@)
}

/// The app and the zombie queue, as a queue that is running reaches them.
///
/// A host may answer what it likes; each call is one more thing that it heard.
pub trait RouteHost: Sized {
    /// Everything the host was told and asked so far, in order. Each host says
    /// what that is of it.
    open spec fn heard(&self) -> Seq<RouteTold> {
        Seq::empty()
    }

    /// The reading of the clock.
    fn tick(&mut self) -> (answer: u64)
        ensures
            final(self).heard() == old(self).heard().push(RouteTold::Tick { answer }),
    ;

    /// The app's own say on a task that ended: `0` is a task the net core is
    /// done with.
    fn task_callback(
        &mut self,
        from: CallFrom,
        err_type: ErrCmdType,
        err_code: i32,
        handle: TaskFailHandleType,
        task: &Task,
    ) -> (answer: i32)
        ensures
            final(self).heard() == old(self).heard().push(
                RouteTold::Callback { from, err_type, err_code, handle, task: *task, answer },
            ),
    ;

    /// A task is over. The answer is the code it is remembered with.
    fn on_task_end(
        &mut self,
        taskid: u32,
        user_id: &str,
        err_type: ErrCmdType,
        err_code: i32,
        profile: &ConnectProfile,
    ) -> (answer: i32)
        ensures
            final(self).heard() == old(self).heard().push(
                RouteTold::TaskEnd {
                    taskid,
                    user_id: user_id@,
                    err_type,
                    err_code,
                    profile: profile@,
                    answer,
                },
            ),
    ;

    /// A task is saved as a zombie, unless there is no time left for it.
    fn save_zombie(&mut self, now: u64, task: &Task, cost: u32) -> (answer: bool)
        ensures
            final(self).heard() == old(self).heard().push(
                RouteTold::Saved { now, task: *task, cost, answer },
            ),
    ;

    /// A push, before the app is given it.
    fn push_preprocess(&mut self, cmdid: u32, body: &[u8])
        ensures
            final(self).heard() == old(self).heard().push(
                RouteTold::PushPreprocess { cmdid, body: body@ },
            ),
    ;

    /// A push.
    fn on_push(&mut self, name: &str, cmdid: u32, taskid: u32, body: &[u8])
        ensures
            final(self).heard() == old(self).heard().push(
                RouteTold::Push { name: name@, cmdid, taskid, body: body@ },
            ),
    ;

    /// Which network it is, as the platform numbers it.
    fn net_info(&mut self) -> (answer: i32)
        ensures
            final(self).heard() == old(self).heard().push(RouteTold::NetInfo { answer }),
    ;
}

/// One thing the app or the zombie queue was told or asked, and the answer.
#[allow(inconsistent_fields)]
pub enum RouteTold {
    Tick { answer: u64 },
    Callback {
        from: CallFrom,
        err_type: ErrCmdType,
        err_code: i32,
        handle: TaskFailHandleType,
        task: Task,
        answer: i32,
    },
    TaskEnd {
        taskid: u32,
        user_id: Seq<char>,
        err_type: ErrCmdType,
        err_code: i32,
        profile: ConnectView,
        answer: i32,
    },
    Saved { now: u64, task: Task, cost: u32, answer: bool },
    PushPreprocess { cmdid: u32, body: Seq<u8> },
    Push { name: Seq<char>, cmdid: u32, taskid: u32, body: Seq<u8> },
    NetInfo { answer: i32 },
}

/// What a task that ended was answered.
pub struct EndAnswers {
    /// The app's own say.
    pub callback: i32,
    /// The zombie queue took it.
    pub saved: bool,
    /// The code it is remembered with.
    pub end: i32,
}

/// A task that ended, from one of the three queues.
pub struct Ending {
    pub now: u64,
    pub from: CallFrom,
    pub err_type: ErrCmdType,
    pub err_code: i32,
    pub handle: TaskFailHandleType,
    pub task: Task,
    pub cost: u32,
    pub profile: ConnectView,
}

impl Ending {
    /// The net core itself is gone.
    pub open spec fn is_reset(self) -> bool {
        self.err_type == ErrCmdType::Local && self.err_code == LOCAL_RESET
    }

    /// The task answered, or the app said not to try it again.
    pub open spec fn is_over(self) -> bool {
        self.err_type == ErrCmdType::NoError || self.handle == TaskFailHandleType::TaskEnd
    }

    /// The task is one the zombie queue is asked to take.
    pub open spec fn may_be_saved(self, use_long_link: bool) -> bool {
        !self.is_reset() && !self.is_over() && self.from != CallFrom::Zombie && use_long_link
    }

    /// The app is given the connect only of a task that is over by itself.
    pub open spec fn told_profile(self) -> ConnectView {
        if !self.is_reset() && self.is_over() {
            self.profile
        } else {
            ConnectView::blank()
        }
    }

    /// What is said of a task that ended.
    #[verifier::opaque]
    pub open spec fn words(self, use_long_link: bool, a: EndAnswers) -> Seq<RouteTold> {
        let asked = seq![
            RouteTold::Callback {
                from: self.from,
                err_type: self.err_type,
                err_code: self.err_code,
                handle: self.handle,
                task: self.task,
                answer: a.callback,
            },
        ];
        let saving = if self.may_be_saved(use_long_link) {
            asked.push(
                RouteTold::Saved {
                    now: self.now,
                    task: self.task,
                    cost: self.cost,
                    answer: a.saved,
                },
            )
        } else {
            asked
        };
        if a.callback == 0 {
            asked
        } else if self.may_be_saved(use_long_link) && a.saved {
            saving
        } else {
            saving.push(
                RouteTold::TaskEnd {
                    taskid: self.task.taskid,
                    user_id: self.task.user_id@,
                    err_type: self.err_type,
                    err_code: self.err_code,
                    profile: self.told_profile(),
                    answer: a.end,
                },
            )
        }
    }

    /// The code a task that ended is remembered with: none where the app or
    /// the zombie queue took it.
    pub open spec fn code(self, use_long_link: bool, a: EndAnswers) -> i32 {
        if a.callback == 0 || (self.may_be_saved(use_long_link) && a.saved) {
            0
        } else {
            a.end
        }
    }
}

/// What a queue that is running reaches: the app, the zombie queue, the gates a
/// request has to pass, and the links behind it.
pub struct Routing<R, L> {
    /// The app and the zombie queue.
    pub host: R,
    /// The links, and what else the long-link queue asks for.
    pub links: L,
    /// The gates a request has to pass.
    pub gates: AntiAvalanche,
    pub use_long_link: bool,
    /// What was asked of the net core, the oldest first.
    pub pending: Vec<FollowUp>,
    /// Everything the long-link queue said and asked so far.
    pub heard: Ghost<Seq<Told>>,
    /// What it said and asked since the mark was set.
    pub since: Ghost<Seq<Told>>,
    /// Where everything stood when the mark was set.
    pub mark: Ghost<Mark>,
}

/// Where the long-link queue, and what it reaches, stood at some time.
pub struct Mark {
    /// What the queue had said and asked.
    pub heard: Seq<Told>,
    /// What the links had been handed.
    pub handed: Seq<Told>,
    /// The tasks of the long link the app had been asked about.
    pub ended: Seq<EndSaid>,
    /// What was still asked of the net core.
    pub pending: Seq<FollowView>,
}

impl Mark {
    /// Nothing had happened yet.
    pub open spec fn none() -> Mark {
        Mark { heard: seq![], handed: seq![], ended: seq![], pending: seq![] }
    }
}

/// The contents of a [`Routing`].
pub struct RouteView {
    pub gates: AvalancheView,
    pub use_long_link: bool,
    pub pending: Seq<FollowView>,
    /// Everything the app and the zombie queue were told and asked so far.
    pub told: Seq<RouteTold>,
    /// Everything that was handed on to the links so far.
    pub handed: Seq<Told>,
    /// Everything the long-link queue said and asked so far.
    pub heard: Seq<Told>,
    /// What it said and asked since the mark was set.
    pub since: Seq<Told>,
    /// Where everything stood when the mark was set.
    pub mark: Mark,
}

impl<R: RouteHost, L: QueueHost> View for Routing<R, L> {
    type V = RouteView;

    open spec fn view(&self) -> RouteView {
        RouteView {
            gates: self.gates@,
            use_long_link: self.use_long_link,
            pending: follow_views(self.pending@),
            told: self.host.heard(),
            handed: self.links.heard(),
            heard: self.heard@,
            since: self.since@,
            mark: self.mark@,
        }
    }
}

impl RouteView {
    /// The long-link queue says one more thing.
    pub open spec fn took(self, word: Told) -> RouteView {
        RouteView { heard: self.heard.push(word), since: self.since.push(word), ..self }
    }

    /// The long-link queue says one more thing, which is handed on to the links,
    /// and answered by them.
    pub open spec fn passed_on(self, word: Told) -> RouteView {
        RouteView { handed: self.handed.push(word), ..self.took(word) }
    }

    /// Since the mark was set the links heard exactly what the queue said to them,
    /// the app was asked about exactly the tasks the queue said to be over, and
    /// exactly what the queue asked of the net core waits for it, in order.
    pub open spec fn sound(self) -> bool {
        &&& self.heard == self.mark.heard + self.since
        &&& self.handed == self.mark.handed + link_words(self.since)
        &&& long_ends(self.told) == self.mark.ended + ends_said(self.since)
        &&& self.pending == self.mark.pending + follow_ups(self.since)
    }

    /// The mark is set.
    pub open spec fn marked(self) -> RouteView {
        RouteView {
            since: seq![],
            mark: Mark {
                heard: self.heard,
                handed: self.handed,
                ended: long_ends(self.told),
                pending: self.pending,
            },
            ..self
        }
    }

    /// Things were said.
    pub open spec fn said(self, words: Seq<RouteTold>) -> RouteView {
        RouteView { told: self.told + words, ..self }
    }

    /// What the gates look at of a request, on that network and at that reading
    /// of the clock.
    pub open spec fn gate_asked(task: Task, body: Seq<u8>, net_info: i32, now: u64) -> Asked {
        asked_of(task, body, kind_of(net_info) == NetworkKind::Mobile, now)
    }

    /// The gates let the request out.
    pub open spec fn lets_out(self, task: Task, body: Seq<u8>, net_info: i32, now: u64) -> bool {
        self.gates.answer(RouteView::gate_asked(task, body, net_info, now)) is Ok
    }

    /// The gates looked at a request: which network it is and what time it is
    /// were asked, and the gates took note of it.
    pub open spec fn gated(self, task: Task, body: Seq<u8>, net_info: i32, now: u64) -> RouteView {
        RouteView {
            gates: self.gates.checked(RouteView::gate_asked(task, body, net_info, now)),
            ..self.said(
                seq![RouteTold::NetInfo { answer: net_info }].push(RouteTold::Tick { answer: now }),
            )
        }
    }

    /// One more thing is asked of the net core.
    pub open spec fn asked(self, follow_up: FollowView) -> RouteView {
        RouteView { pending: self.pending.push(follow_up), ..self }
    }

    /// A push: it is preprocessed, and the app is given it.
    pub open spec fn pushed(
        self,
        name: Seq<char>,
        cmdid: u32,
        taskid: u32,
        body: Seq<u8>,
    ) -> RouteView {
        self.said(
            seq![
                RouteTold::PushPreprocess { cmdid, body },
                RouteTold::Push { name, cmdid, taskid, body },
            ],
        )
    }
}

/// What the app is asked about a task that ended.
pub struct EndSaid {
    pub err_type: ErrCmdType,
    pub err_code: i32,
    pub handle: TaskFailHandleType,
    pub task: Task,
}

/// A thing the long-link queue says is the links'.
pub open spec fn is_for_links(word: Told) -> bool {
    match word {
        Told::Ended { .. }
        | Told::NetworkErr { .. }
        | Told::RetryAllTasks { .. }
        | Told::Push { .. }
        | Told::Network { .. }
        | Told::Allowed { .. } => false,
        _ => true,
    }
}

/// What of it is the links'.
pub open spec fn link_words(heard: Seq<Told>) -> Seq<Told>
    decreases heard.len(),
{
    if heard.len() == 0 {
        seq![]
    } else if is_for_links(heard.last()) {
        link_words(heard.drop_last()).push(heard.last())
    } else {
        link_words(heard.drop_last())
    }
}

/// The tasks the long-link queue said to be over.
pub open spec fn ends_said(heard: Seq<Told>) -> Seq<EndSaid>
    decreases heard.len(),
{
    if heard.len() == 0 {
        seq![]
    } else {
        match heard.last() {
            Told::Ended { err_type, err_code, handle, task, .. } => ends_said(
                heard.drop_last(),
            ).push(EndSaid { err_type, err_code, handle, task }),
            _ => ends_said(heard.drop_last()),
        }
    }
}

/// What a thing the long-link queue says asks of the net core.
pub open spec fn follow_of(word: Told) -> Option<FollowView> {
    match word {
        Told::NetworkErr { name, err_type, err_code, ip, port } => Some(
            FollowView::LongLinkError { name, err_type, err_code, ip, port },
        ),
        Told::RetryAllTasks { err_type, err_code, handle, src_taskid, user_id } => Some(
            FollowView::Retry { err_type, err_code, handle, src_taskid, user_id },
        ),
        _ => None,
    }
}

/// What the long-link queue asked of the net core.
pub open spec fn follow_ups(heard: Seq<Told>) -> Seq<FollowView>
    decreases heard.len(),
{
    if heard.len() == 0 {
        seq![]
    } else {
        match follow_of(heard.last()) {
            Some(next) => follow_ups(heard.drop_last()).push(next),
            None => follow_ups(heard.drop_last()),
        }
    }
}

/// The tasks of the long link the app was asked about.
pub open spec fn long_ends(told: Seq<RouteTold>) -> Seq<EndSaid>
    decreases told.len(),
{
    if told.len() == 0 {
        seq![]
    } else {
        match told.last() {
            RouteTold::Callback { from: CallFrom::Long, err_type, err_code, handle, task, .. } => {
                long_ends(told.drop_last()).push(EndSaid { err_type, err_code, handle, task })
            },
            _ => long_ends(told.drop_last()),
        }
    }
}

/// What was said one after the other is counted one after the other.
pub proof fn lemma_long_ends(a: Seq<RouteTold>, b: Seq<RouteTold>)
    ensures
        long_ends(a + b) == long_ends(a) + long_ends(b),
    decreases b.len(),
{
    if b.len() == 0 {
        assert(a + b =~= a);
        assert(long_ends(a) + long_ends(b) =~= long_ends(a));
    } else {
        assert((a + b).drop_last() =~= a + b.drop_last());
        lemma_long_ends(a, b.drop_last());
        assert(long_ends(a + b) =~= long_ends(a) + long_ends(b));
    }
}

/// What was said one after the other is sorted one after the other.
pub proof fn lemma_words(a: Seq<Told>, b: Seq<Told>)
    ensures
        link_words(a + b) == link_words(a) + link_words(b),
        ends_said(a + b) == ends_said(a) + ends_said(b),
        follow_ups(a + b) == follow_ups(a) + follow_ups(b),
    decreases b.len(),
{
    if b.len() == 0 {
        assert(a + b =~= a);
    } else {
        assert((a + b).drop_last() =~= a + b.drop_last());
        lemma_words(a, b.drop_last());
    }
    assert(link_words(a + b) =~= link_words(a) + link_words(b));
    assert(ends_said(a + b) =~= ends_said(a) + ends_said(b));
    assert(follow_ups(a + b) =~= follow_ups(a) + follow_ups(b));
}

/// One more thing the long-link queue says is the links', is a task that is over, or
/// asks something of the net core, and what is sound stays so.
proof fn lemma_took(pre: RouteView, word: Told, post: RouteView)
    requires
        post.heard == pre.heard.push(word),
        post.since == pre.since.push(word),
        post.mark == pre.mark,
        post.handed == (if is_for_links(word) {
            pre.handed.push(word)
        } else {
            pre.handed
        }),
        long_ends(post.told) == (match word {
            Told::Ended { err_type, err_code, handle, task, .. } => long_ends(pre.told).push(
                EndSaid { err_type, err_code, handle, task },
            ),
            _ => long_ends(pre.told),
        }),
        post.pending == (match follow_of(word) {
            Some(next) => pre.pending.push(next),
            None => pre.pending,
        }),
    ensures
        post.sound() == pre.sound(),
{
    assert(pre.since.push(word).drop_last() =~= pre.since);
    lemma_both(pre.mark.heard, pre.heard, pre.since, word);
    lemma_both(pre.mark.handed, pre.handed, link_words(pre.since), word);
    match word {
        Told::Ended { err_type, err_code, handle, task, .. } => {
            let said = EndSaid { err_type, err_code, handle, task };
            lemma_both(pre.mark.ended, long_ends(pre.told), ends_said(pre.since), said);
        },
        _ => {},
    }
    match follow_of(word) {
        Some(next) => {
            lemma_both(pre.mark.pending, pre.pending, follow_ups(pre.since), next);
        },
        None => {},
    }
}

/// What the queue did since the mark was set, said over what it said since.
pub proof fn lemma_since(before: RouteView, after: RouteView)
    requires
        before == before.marked(),
        after.mark == before.mark,
        after.sound(),
    ensures
        after.heard == before.heard + after.heard.skip(before.heard.len() as int),
        after.handed == before.handed + link_words(after.heard.skip(before.heard.len() as int)),
        long_ends(after.told) == long_ends(before.told) + ends_said(
            after.heard.skip(before.heard.len() as int),
        ),
        after.pending == before.pending + follow_ups(
            after.heard.skip(before.heard.len() as int),
        ),
{
    assert(after.heard.skip(before.heard.len() as int) =~= after.since);
}

/// The task of the long link the app is asked about where one ended.
pub open spec fn long_end(ending: Ending) -> Seq<EndSaid> {
    if ending.from == CallFrom::Long {
        seq![
            EndSaid {
                err_type: ending.err_type,
                err_code: ending.err_code,
                handle: ending.handle,
                task: ending.task,
            },
        ]
    } else {
        seq![]
    }
}

/// A task that ended is asked about once.
pub proof fn lemma_ended_words(ending: Ending, use_long_link: bool, a: EndAnswers)
    ensures
        long_ends(ending.words(use_long_link, a)) == long_end(ending),
{
    reveal(Ending::words);
    reveal_with_fuel(long_ends, 4);
    let words = ending.words(use_long_link, a);
    let first = words[0];
    if words.len() == 1 {
        assert(words.drop_last() =~= seq![]);
    } else if words.len() == 2 {
        assert(words.drop_last() =~= seq![first]);
        assert(seq![first].drop_last() =~= seq![]);
    } else {
        assert(words.drop_last() =~= seq![first, words[1]]);
        assert(seq![first, words[1]].drop_last() =~= seq![first]);
        assert(seq![first].drop_last() =~= seq![]);
    }
}

/// A thing that goes to two lists keeps them the same, or not.
proof fn lemma_both<A>(before: Seq<A>, left: Seq<A>, right: Seq<A>, word: A)
    ensures
        (left.push(word) == before + right.push(word)) == (left == before + right),
{
    assert(before + right.push(word) =~= (before + right).push(word));
    assert(left.push(word).drop_last() =~= left);
    assert((before + right).push(word).drop_last() =~= before + right);
}

/// The network a platform number stands for.
pub open spec fn kind_of(net_info: i32) -> NetworkKind {
    if net_info == NET_TYPE_MOBILE {
        NetworkKind::Mobile
    } else {
        NetworkKind::Wifi
    }
}

impl<R: RouteHost, L: QueueHost> Routing<R, L> {
    /// The mark is set: what the queue says counts from here on.
    pub fn set_mark(&mut self)
        ensures
            final(self)@ == old(self)@.marked(),
            final(self)@.sound(),
            final(self).host == old(self).host,
            final(self).links == old(self).links,
            final(self).gates == old(self).gates,
            final(self).pending == old(self).pending,
    {
        proof {
            let here = self@.marked();
            self.since@ = here.since;
            self.mark@ = here.mark;
            assert(here.heard + here.since =~= here.heard);
            assert(here.handed + link_words(here.since) =~= here.handed);
            assert(here.mark.ended + ends_said(here.since) =~= here.mark.ended);
            assert(here.pending + follow_ups(here.since) =~= here.pending);
        }
    }

    /// The long-link queue said one more thing, which was done.
    fn hear(&mut self, Ghost(before): Ghost<RouteView>, Ghost(word): Ghost<Told>)
        requires
            ({
                let pre = old(self)@;
                &&& pre.heard == before.heard
                &&& pre.since == before.since
                &&& pre.mark == before.mark
                &&& pre.handed == (if is_for_links(word) {
                    before.handed.push(word)
                } else {
                    before.handed
                })
                &&& long_ends(pre.told) == (match word {
                    Told::Ended { err_type, err_code, handle, task, .. } => long_ends(
                        before.told,
                    ).push(EndSaid { err_type, err_code, handle, task }),
                    _ => long_ends(before.told),
                })
                &&& pre.pending == (match follow_of(word) {
                    Some(next) => before.pending.push(next),
                    None => before.pending,
                })
            }),
        ensures
            final(self)@ == old(self)@.took(word),
            final(self)@.sound() == before.sound(),
    {
        proof {
            self.heard@ = self.heard@.push(word);
            self.since@ = self.since@.push(word);
            lemma_took(before, word, self@);
        }
    }

    /// Nothing has been asked yet.
    pub fn new(host: R, links: L, gates: AntiAvalanche, use_long_link: bool) -> (routing: Self)
        ensures
            routing@ == (RouteView {
                gates: gates@,
                use_long_link,
                pending: seq![],
                told: host.heard(),
                handed: links.heard(),
                heard: seq![],
                since: seq![],
                mark: Mark {
                    heard: seq![],
                    handed: links.heard(),
                    ended: long_ends(host.heard()),
                    pending: seq![],
                },
            }),
            routing@.sound(),
    {
        let mut routing = Routing {
            host,
            links,
            gates,
            use_long_link,
            pending: Vec::new(),
            heard: Ghost(Seq::empty()),
            since: Ghost(Seq::empty()),
            mark: Ghost(Mark::none()),
        };
        assert(routing@.pending =~= seq![]);
        routing.set_mark();
        routing
    }

    /// One more thing is asked of the net core.
    pub fn post(&mut self, follow_up: FollowUp)
        ensures
            final(self)@ == old(self)@.asked(follow_up@),
    {
        self.pending.push(follow_up);
        assert(follow_views(self.pending@) =~= old(self)@.pending.push(follow_up@));
    }

    /// Whether anything was asked.
    pub fn has_pending(&self) -> (has: bool)
        ensures
            has == (self@.pending.len() > 0),
    {
        self.pending.len() > 0
    }

    /// How much was asked.
    pub fn pending_count(&self) -> (count: usize)
        ensures
            count == self@.pending.len(),
    {
        self.pending.len()
    }

    /// The oldest thing that was asked.
    pub fn next_pending(&mut self) -> (next: Option<FollowUp>)
        ensures
            match next {
                Some(follow_up) => {
                    &&& old(self)@.pending.len() > 0
                    &&& follow_up@ == old(self)@.pending[0]
                    &&& final(self)@ == (RouteView {
                        pending: old(self)@.pending.drop_first(),
                        ..old(self)@
                    })
                },
                None => old(self)@.pending.len() == 0 && final(self)@ == old(self)@,
            },
    {
        if self.pending.len() == 0 {
            return None;
        }
        let next = self.pending.remove(0);
        assert(follow_views(self.pending@) =~= old(self)@.pending.drop_first());
        Some(next)
    }

    /// A task is over.
    fn end_task(
        &mut self,
        task: &Task,
        err_type: ErrCmdType,
        err_code: i32,
        profile: &ConnectProfile,
    ) -> (code: i32)
        ensures
            final(self)@ == (RouteView {
                told: old(self)@.told.push(
                    RouteTold::TaskEnd {
                        taskid: task.taskid,
                        user_id: task.user_id@,
                        err_type,
                        err_code,
                        profile: profile@,
                        answer: code,
                    },
                ),
                ..old(self)@
            }),
    {
        let code: i32 = self.host.on_task_end(
            task.taskid,
            task.user_id.as_str(),
            err_type,
            err_code,
            profile,
        );
        code
    }

    /// A task that ended, from one of the three queues: the app's own say on it
    /// first, then the end of a task that is really over, and the zombie queue
    /// for one that is not.
    pub fn call_back_at(
        &mut self,
        now: u64,
        from: CallFrom,
        err_type: ErrCmdType,
        err_code: i32,
        handle: TaskFailHandleType,
        task: &Task,
        cost: u32,
        profile: &ConnectProfile,
    ) -> (code: i32)
        ensures
            exists|a: EndAnswers| #[trigger]
                (Ending {
                    now,
                    from,
                    err_type,
                    err_code,
                    handle,
                    task: *task,
                    cost,
                    profile: profile@,
                }).code(old(self)@.use_long_link, a) == code && final(self)@ == old(self)@.said(
                    (Ending {
                        now,
                        from,
                        err_type,
                        err_code,
                        handle,
                        task: *task,
                        cost,
                        profile: profile@,
                    }).words(old(self)@.use_long_link, a),
                ),
    {
        let ghost ending = Ending {
            now,
            from,
            err_type,
            err_code,
            handle,
            task: *task,
            cost,
            profile: profile@,
        };
        let ghost before = self@;
        let (code, Ghost(a)) = self.route(now, from, err_type, err_code, handle, task, cost, profile);
        assert(ending.code(before.use_long_link, a) == code);
        code
    }

    /// The same, with what it was answered.
    fn route(
        &mut self,
        now: u64,
        from: CallFrom,
        err_type: ErrCmdType,
        err_code: i32,
        handle: TaskFailHandleType,
        task: &Task,
        cost: u32,
        profile: &ConnectProfile,
    ) -> (r: (i32, Ghost<EndAnswers>))
        ensures
            ({
                let ending = Ending {
                    now,
                    from,
                    err_type,
                    err_code,
                    handle,
                    task: *task,
                    cost,
                    profile: profile@,
                };
                &&& r.0 == ending.code(old(self)@.use_long_link, r.1@)
                &&& final(self)@ == old(self)@.said(ending.words(old(self)@.use_long_link, r.1@))
            }),
    {
        proof {
            reveal(Ending::words);
        }
        let ghost told = self.host.heard();
        let callback: i32 = self.host.task_callback(from, err_type, err_code, handle, task);
        let ghost asked = RouteTold::Callback {
            from,
            err_type,
            err_code,
            handle,
            task: *task,
            answer: callback,
        };
        proof {
            lemma_said(told, asked, asked, asked);
        }
        let ghost a = EndAnswers { callback, saved: false, end: 0 };
        if callback == 0 {
            return (0, Ghost(a));
        }
        let reset = err_type == ErrCmdType::Local && err_code == LOCAL_RESET;
        let over = err_type == ErrCmdType::NoError || handle == TaskFailHandleType::TaskEnd;
        if !reset && over {
            let code: i32 = self.end_task(task, err_type, err_code, profile);
            proof {
                lemma_said(told, asked, self.host.heard().last(), asked);
            }
            return (code, Ghost(EndAnswers { end: code, ..a }));
        }
        let blank = ConnectProfile::new();
        if reset || from == CallFrom::Zombie || !self.use_long_link {
            let code: i32 = self.end_task(task, err_type, err_code, &blank);
            proof {
                lemma_said(told, asked, self.host.heard().last(), asked);
            }
            return (code, Ghost(EndAnswers { end: code, ..a }));
        }
        let saved = self.host.save_zombie(now, task, cost);
        let ghost saving = RouteTold::Saved { now, task: *task, cost, answer: saved };
        proof {
            lemma_said(told, asked, saving, saving);
        }
        if saved {
            return (0, Ghost(EndAnswers { saved, ..a }));
        }
        let code: i32 = self.end_task(task, err_type, err_code, &blank);
        proof {
            lemma_said(told, asked, saving, self.host.heard().last());
        }
        (code, Ghost(EndAnswers { end: code, ..a }))
    }
}

impl RouteView {
    /// The clock is read and a task that ended is routed.
    pub open spec fn routed(
        self,
        tick: u64,
        from: CallFrom,
        err_type: ErrCmdType,
        err_code: i32,
        handle: TaskFailHandleType,
        task: Task,
        cost: u32,
        profile: ConnectView,
        a: EndAnswers,
    ) -> (RouteView, i32) {
        let ending = Ending {
            now: tick,
            from,
            err_type,
            err_code,
            handle,
            task,
            cost,
            profile,
        };
        let clocked = RouteView { told: self.told.push(RouteTold::Tick { answer: tick }), ..self };
        (
            clocked.said(ending.words(self.use_long_link, a)),
            ending.code(self.use_long_link, a),
        )
    }
}

impl<R: RouteHost, L: QueueHost> Routing<R, L> {
    /// The clock is read and a task that ended is routed.
    fn route_now(
        &mut self,
        from: CallFrom,
        err_type: ErrCmdType,
        err_code: i32,
        handle: TaskFailHandleType,
        task: &Task,
        cost: u32,
        profile: &ConnectProfile,
    ) -> (code: i32)
        ensures
            exists|tick: u64, a: EndAnswers|
                (final(self)@, code) == #[trigger] old(self)@.routed(
                    tick,
                    from,
                    err_type,
                    err_code,
                    handle,
                    *task,
                    cost,
                    profile@,
                    a,
                ),
    {
        let ghost before = self@;
        let tick: u64 = self.host.tick();
        let (code, Ghost(a)) = self.route(
            tick,
            from,
            err_type,
            err_code,
            handle,
            task,
            cost,
            profile,
        );
        assert((self@, code) == before.routed(
            tick,
            from,
            err_type,
            err_code,
            handle,
            *task,
            cost,
            profile@,
            a,
        ));
        code
    }

    /// A task ended on the short link.
    pub fn short_ended(
        &mut self,
        err_type: ErrCmdType,
        err_code: i32,
        handle: TaskFailHandleType,
        task: &Task,
        cost: u32,
        profile: &ConnectProfile,
    ) -> (code: i32)
        ensures
            exists|tick: u64, a: EndAnswers|
                (final(self)@, code) == #[trigger] old(self)@.routed(
                    tick,
                    CallFrom::Short,
                    err_type,
                    err_code,
                    handle,
                    *task,
                    cost,
                    profile@,
                    a,
                ),
    {
        self.route_now(CallFrom::Short, err_type, err_code, handle, task, cost, profile)
    }

    /// A zombie ended: there is no connect it ran on.
    pub fn zombie_ended(
        &mut self,
        err_type: ErrCmdType,
        err_code: i32,
        handle: TaskFailHandleType,
        task: &Task,
        cost: u32,
    ) -> (code: i32)
        ensures
            exists|tick: u64, a: EndAnswers|
                (final(self)@, code) == #[trigger] old(self)@.routed(
                    tick,
                    CallFrom::Zombie,
                    err_type,
                    err_code,
                    handle,
                    *task,
                    cost,
                    ConnectView::blank(),
                    a,
                ),
    {
        let blank = ConnectProfile::new();
        self.route_now(CallFrom::Zombie, err_type, err_code, handle, task, cost, &blank)
    }

    /// A zombie is started again, once the queue that asked is done.
    pub fn zombie_started(&mut self, task: Task)
        ensures
            final(self)@ == old(self)@.asked(FollowView::Start(task)),
    {
        self.post(FollowUp::Start(task));
    }

    /// An error of a short link.
    pub fn short_network_err(
        &mut self,
        err_type: ErrCmdType,
        err_code: i32,
        ip: &str,
        host: &str,
        port: u16,
    )
        ensures
            final(self)@ == old(self)@.asked(
                FollowView::ShortLinkError { err_type, err_code, ip: ip@, host: host@, port },
            ),
    {
        self.post(
            FollowUp::ShortLinkError {
                err_type,
                err_code,
                ip: ip.to_owned(),
                host: host.to_owned(),
                port,
            },
        );
    }

    /// Every task of a user has to be looked at again.
    pub fn retry_all(
        &mut self,
        err_type: ErrCmdType,
        err_code: i32,
        handle: TaskFailHandleType,
        src_taskid: u32,
        user_id: &str,
    )
        ensures
            final(self)@ == old(self)@.asked(
                FollowView::Retry { err_type, err_code, handle, src_taskid, user_id: user_id@ },
            ),
    {
        self.post(
            FollowUp::Retry {
                err_type,
                err_code,
                handle,
                src_taskid,
                user_id: user_id.to_owned(),
            },
        );
    }

    /// Which network a queue is on.
    pub fn network_kind(&mut self) -> (kind: NetworkKind)
        ensures
            exists|net_info: i32|
                kind == #[trigger] kind_of(net_info) && final(self)@ == old(self)@.said(
                    seq![RouteTold::NetInfo { answer: net_info }],
                ),
    {
        let ghost told = self.host.heard();
        let net_info: i32 = self.host.net_info();
        proof {
            lemma_said(
                told,
                RouteTold::NetInfo { answer: net_info },
                RouteTold::NetInfo { answer: net_info },
                RouteTold::NetInfo { answer: net_info },
            );
        }
        let kind = if net_info == NET_TYPE_MOBILE {
            NetworkKind::Mobile
        } else {
            NetworkKind::Wifi
        };
        assert(kind == kind_of(net_info));
        kind
    }

    /// Whether a request may go out at all, on the network there is.
    pub fn anti_avalanche_check(&mut self, task: &Task, body: &[u8]) -> (allowed: bool)
        ensures
            exists|net_info: i32, now: u64|
                final(self)@ == #[trigger] old(self)@.gated(*task, body@, net_info, now) && allowed
                    == old(self)@.lets_out(*task, body@, net_info, now),
    {
        let ghost told = self.host.heard();
        let net_info: i32 = self.host.net_info();
        let mobile = net_info == NET_TYPE_MOBILE;
        let now: u64 = self.host.tick();
        let answer = self.gates.check_at(task, body, mobile, now);
        proof {
            let clocked = RouteTold::Tick { answer: now };
            lemma_said(told, RouteTold::NetInfo { answer: net_info }, clocked, clocked);
            assert(self@ == old(self)@.gated(*task, body@, net_info, now));
        }
        answer.is_ok()
    }
}

/// What the long-link queue asks of the net core goes here, and the rest to the
/// links.
impl<R: RouteHost, L: QueueHost> QueueHost for Routing<R, L> {
    open spec fn heard(&self) -> Seq<Told> {
        self.heard@
    }

    open spec fn fixed(&self) -> Fixed {
        Fixed {
            sound: self@.sound(),
            use_long_link: self.use_long_link,
            mark: self.mark@,
        }
    }

    fn ended(
        &mut self,
        err_type: ErrCmdType,
        err_code: i32,
        handle: TaskFailHandleType,
        task: &Task,
        cost: u32,
        profile: &ConnectProfile,
    )
        ensures
            exists|tick: u64, a: EndAnswers|
                final(self)@ == (#[trigger] old(self)@.took(
                    Told::Ended { err_type, err_code, handle, task: *task, cost, profile: profile@ },
                ).routed(
                    tick,
                    CallFrom::Long,
                    err_type,
                    err_code,
                    handle,
                    *task,
                    cost,
                    profile@,
                    a,
                )).0,
    {
        let ghost before = self@;
        let ghost word = Told::Ended {
            err_type,
            err_code,
            handle,
            task: *task,
            cost,
            profile: profile@,
        };
        let code: i32 = self.route_now(
            CallFrom::Long,
            err_type,
            err_code,
            handle,
            task,
            cost,
            profile,
        );
        proof {
            let (tick, a) = choose|tick: u64, a: EndAnswers|
                (self@, code) == #[trigger] before.routed(
                    tick,
                    CallFrom::Long,
                    err_type,
                    err_code,
                    handle,
                    *task,
                    cost,
                    profile@,
                    a,
                );
            let ending = Ending {
                now: tick,
                from: CallFrom::Long,
                err_type,
                err_code,
                handle,
                task: *task,
                cost,
                profile: profile@,
            };
            let told = before.told;
            let clocked = told.push(RouteTold::Tick { answer: tick });
            let said = EndSaid { err_type, err_code, handle, task: *task };
            lemma_ended_words(ending, before.use_long_link, a);
            lemma_long_ends(clocked, ending.words(before.use_long_link, a));
            assert(clocked.drop_last() =~= told);
            assert(long_ends(self.host.heard()) =~= long_ends(told).push(said));
            assert(before.took(word).routed(
                tick,
                CallFrom::Long,
                err_type,
                err_code,
                handle,
                *task,
                cost,
                profile@,
                a,
            ).0 == self@.took(word));
        }
        self.hear(Ghost(before), Ghost(word));
    }

    fn network_err(&mut self, name: &str, err_type: ErrCmdType, err_code: i32, ip: &str, port: u16)
        ensures
            final(self)@ == old(self)@.took(
                Told::NetworkErr { name: name@, err_type, err_code, ip: ip@, port },
            ).asked(
                FollowView::LongLinkError { name: name@, err_type, err_code, ip: ip@, port },
            ),
    {
        let ghost before = self@;
        self.post(
            FollowUp::LongLinkError {
                name: name.to_owned(),
                err_type,
                err_code,
                ip: ip.to_owned(),
                port,
            },
        );
        self.hear(
            Ghost(before),
            Ghost(Told::NetworkErr { name: name@, err_type, err_code, ip: ip@, port }),
        );
    }

    fn retry_all_tasks(
        &mut self,
        err_type: ErrCmdType,
        err_code: i32,
        handle: TaskFailHandleType,
        src_taskid: u32,
        user_id: &str,
    )
        ensures
            final(self)@ == old(self)@.took(
                Told::RetryAllTasks { err_type, err_code, handle, src_taskid, user_id: user_id@ },
            ).asked(
                FollowView::Retry { err_type, err_code, handle, src_taskid, user_id: user_id@ },
            ),
    {
        let ghost before = self@;
        self.retry_all(err_type, err_code, handle, src_taskid, user_id);
        self.hear(
            Ghost(before),
            Ghost(
                Told::RetryAllTasks {
                    err_type,
                    err_code,
                    handle,
                    src_taskid,
                    user_id: user_id@,
                },
            ),
        );
    }

    fn push(&mut self, name: &str, cmdid: u32, taskid: u32, body: &[u8])
        ensures
            final(self)@ == old(self)@.took(
                Told::Push { name: name@, cmdid, taskid, body: body@ },
            ).pushed(name@, cmdid, taskid, body@),
    {
        let ghost before = self@;
        let ghost told = self.host.heard();
        self.host.push_preprocess(cmdid, body);
        self.host.on_push(name, cmdid, taskid, body);
        proof {
            let first = RouteTold::PushPreprocess { cmdid, body: body@ };
            let second = RouteTold::Push { name: name@, cmdid, taskid, body: body@ };
            lemma_said(told, first, second, second);
            lemma_long_ends(told, seq![first, second]);
            reveal_with_fuel(long_ends, 3);
            assert(long_ends(seq![first, second]) =~= seq![]);
            assert(long_ends(told) + Seq::<EndSaid>::empty() =~= long_ends(told));
        }
        self.hear(
            Ghost(before),
            Ghost(Told::Push { name: name@, cmdid, taskid, body: body@ }),
        );
    }

    fn stop(&mut self, name: &str, taskid: u32)
        ensures
            final(self)@ == old(self)@.passed_on(
                Told::Stop { name: name@, taskid },
            ),
    {
        let ghost before = self@;
        self.links.stop(name, taskid);
        self.hear(Ghost(before), Ghost(Told::Stop { name: name@, taskid }));
    }

    fn disconnect(&mut self, name: &str, code: DisconnectInternalCode)
        ensures
            final(self)@ == old(self)@.passed_on(
                Told::Disconnect { name: name@, code },
            ),
    {
        let ghost before = self@;
        self.links.disconnect(name, code);
        self.hear(Ghost(before), Ghost(Told::Disconnect { name: name@, code }));
    }

    fn reset_channel(&mut self, name: &str)
        ensures
            final(self)@ == old(self)@.passed_on(
                Told::ResetChannel { name: name@ },
            ),
    {
        let ghost before = self@;
        self.links.reset_channel(name);
        self.hear(Ghost(before), Ghost(Told::ResetChannel { name: name@ }));
    }

    fn keep_answer(&mut self, now: u64, cgi: &str, body: &[u8])
        ensures
            final(self)@ == old(self)@.passed_on(
                Told::KeepAnswer { now, cgi: cgi@, body: body@ },
            ),
    {
        let ghost before = self@;
        self.links.keep_answer(now, cgi, body);
        self.hear(Ghost(before), Ghost(Told::KeepAnswer { now, cgi: cgi@, body: body@ }));
    }

    fn kept_answer(&mut self, now: u64, cgi: &str) -> (answer: Option<Vec<u8>>)
        ensures
            final(self)@ == old(self)@.passed_on(
                Told::KeptAnswer { now, cgi: cgi@, answer: kept(answer) },
            ),
    {
        let ghost before = self@;
        let answer: Option<Vec<u8>> = self.links.kept_answer(now, cgi);
        self.hear(
            Ghost(before),
            Ghost(Told::KeptAnswer { now, cgi: cgi@, answer: kept(answer) }),
        );
        answer
    }

    fn should_keep(&mut self, err_code: i32) -> (keep: bool)
        ensures
            final(self)@ == old(self)@.passed_on(
                Told::ShouldKeep { err_code, answer: keep },
            ),
    {
        let ghost before = self@;
        let keep: bool = self.links.should_keep(err_code);
        self.hear(Ghost(before), Ghost(Told::ShouldKeep { err_code, answer: keep }));
        keep
    }

    fn network(&mut self) -> (kind: NetworkKind)
        ensures
            exists|net_info: i32|
                kind == #[trigger] kind_of(net_info) && final(self)@ == old(self)@.took(
                    Told::Network { answer: kind },
                ).said(
                    seq![RouteTold::NetInfo { answer: net_info }],
                ),
    {
        let ghost before = self@;
        let ghost told = self.host.heard();
        let kind = self.network_kind();
        proof {
            let net_info = choose|net_info: i32|
                kind == #[trigger] kind_of(net_info) && self.host.heard() == told
                    + seq![RouteTold::NetInfo { answer: net_info }];
            let words = seq![RouteTold::NetInfo { answer: net_info }];
            lemma_long_ends(told, words);
            reveal_with_fuel(long_ends, 2);
            assert(long_ends(words) =~= seq![]);
            assert(long_ends(told) + Seq::<EndSaid>::empty() =~= long_ends(told));
        }
        self.hear(Ghost(before), Ghost(Told::Network { answer: kind }));
        kind
    }

    fn channel_profile(&mut self, name: &str) -> (profile: ConnectProfile)
        ensures
            final(self)@ == old(self)@.passed_on(
                Told::ChannelProfile { name: name@, answer: profile@ },
            ),
    {
        let ghost before = self@;
        let profile: ConnectProfile = self.links.channel_profile(name);
        self.hear(
            Ghost(before),
            Ghost(Told::ChannelProfile { name: name@, answer: profile@ }),
        );
        profile
    }

    fn task_timeout(&mut self, task: &Task) -> (timeout: u64)
        ensures
            final(self)@ == old(self)@.passed_on(
                Told::TaskTimeout { task: *task, answer: timeout },
            ),
    {
        let ghost before = self@;
        let timeout: u64 = self.links.task_timeout(task);
        self.hear(Ghost(before), Ghost(Told::TaskTimeout { task: *task, answer: timeout }));
        timeout
    }

    fn first_pkg_timeout(
        &mut self,
        server_cost: i64,
        send_len: usize,
        sent_count: i32,
        status: DynamicTimeoutStatus,
        mobile: bool,
    ) -> (timeout: u64)
        ensures
            final(self)@ == old(self)@.passed_on(
                Told::FirstPkgTimeout {
                    server_cost,
                    send_len,
                    sent_count,
                    status,
                    mobile,
                    answer: timeout,
                },
            ),
    {
        let ghost before = self@;
        let timeout: u64 = self.links.first_pkg_timeout(server_cost, send_len, sent_count, status, mobile);
        self.hear(
            Ghost(before),
            Ghost(Told::FirstPkgTimeout { server_cost, send_len, sent_count, status, mobile, answer: timeout }),
        );
        timeout
    }

    fn read_write_timeout(&mut self, first_pkg: u64, mobile: bool) -> (timeout: u64)
        ensures
            final(self)@ == old(self)@.passed_on(
                Told::ReadWriteTimeout { first_pkg, mobile, answer: timeout },
            ),
    {
        let ghost before = self@;
        let timeout: u64 = self.links.read_write_timeout(first_pkg, mobile);
        self.hear(
            Ghost(before),
            Ghost(Told::ReadWriteTimeout { first_pkg, mobile, answer: timeout }),
        );
        timeout
    }

    fn authed(&mut self, host: &str, user_id: &str) -> (authed: bool)
        ensures
            final(self)@ == old(self)@.passed_on(
                Told::Authed { host: host@, user_id: user_id@, answer: authed },
            ),
    {
        let ghost before = self@;
        let authed: bool = self.links.authed(host, user_id);
        self.hear(
            Ghost(before),
            Ghost(Told::Authed { host: host@, user_id: user_id@, answer: authed }),
        );
        authed
    }

    fn sequence_id(&mut self) -> (id: u16)
        ensures
            final(self)@ == old(self)@.passed_on(
                Told::SequenceId { answer: id },
            ),
    {
        let ghost before = self@;
        let id: u16 = self.links.sequence_id();
        self.hear(Ghost(before), Ghost(Told::SequenceId { answer: id }));
        id
    }

    fn encode(&mut self, task: &Task) -> (encoded: Result<Vec<u8>, i32>)
        ensures
            final(self)@ == old(self)@.passed_on(
                Told::Encode { task: *task, answer: request(encoded) },
            ),
    {
        let ghost before = self@;
        let encoded: Result<Vec<u8>, i32> = self.links.encode(task);
        self.hear(
            Ghost(before),
            Ghost(Told::Encode { task: *task, answer: request(encoded) }),
        );
        encoded
    }

    fn decode(&mut self, task: &Task, body: &[u8]) -> (answer: (i32, TaskFailHandleType))
        ensures
            final(self)@ == old(self)@.passed_on(
                Told::Decode { task: *task, body: body@, answer },
            ),
    {
        let ghost before = self@;
        let answer: (i32, TaskFailHandleType) = self.links.decode(task, body);
        self.hear(Ghost(before), Ghost(Told::Decode { task: *task, body: body@, answer }));
        answer
    }

    fn allowed(&mut self, task: &Task, body: &[u8]) -> (allowed: bool)
        ensures
            exists|net_info: i32, now: u64|
                final(self)@ == (#[trigger] old(self)@.gated(*task, body@, net_info, now)).took(
                    Told::Allowed { task: *task, body: body@, answer: allowed },
                ) && allowed == old(self)@.lets_out(*task, body@, net_info, now),
    {
        let ghost before = self@;
        let ghost told = self.host.heard();
        let allowed = self.anti_avalanche_check(task, body);
        let ghost word = Told::Allowed { task: *task, body: body@, answer: allowed };
        proof {
            let (net_info, now) = choose|net_info: i32, now: u64|
                self@ == #[trigger] old(self)@.gated(*task, body@, net_info, now) && allowed
                    == old(self)@.lets_out(*task, body@, net_info, now);
            let words = seq![RouteTold::NetInfo { answer: net_info }].push(
                RouteTold::Tick { answer: now },
            );
            lemma_long_ends(told, words);
            reveal_with_fuel(long_ends, 3);
            assert(long_ends(words) =~= seq![]);
            assert(long_ends(told) + Seq::<EndSaid>::empty() =~= long_ends(told));
            assert(self@ == before.gated(*task, body@, net_info, now));
        }
        self.hear(Ghost(before), Ghost(word));
        allowed
    }

    fn make_sure_connected(&mut self, name: &str) -> (connected: bool)
        ensures
            final(self)@ == old(self)@.passed_on(
                Told::MakeSureConnected { name: name@, answer: connected },
            ),
    {
        let ghost before = self@;
        let connected: bool = self.links.make_sure_connected(name);
        self.hear(
            Ghost(before),
            Ghost(Told::MakeSureConnected { name: name@, answer: connected }),
        );
        connected
    }

    fn send(&mut self, name: &str, task: &Task, body: &[u8]) -> (run: Option<RunId>)
        ensures
            final(self)@ == old(self)@.passed_on(
                Told::Send { name: name@, task: *task, body: body@, answer: run },
            ),
    {
        let ghost before = self@;
        let run: Option<RunId> = self.links.send(name, task, body);
        self.hear(
            Ghost(before),
            Ghost(Told::Send { name: name@, task: *task, body: body@, answer: run }),
        );
        run
    }

    fn network_change(&mut self, name: &str) -> (changed: bool)
        ensures
            final(self)@ == old(self)@.passed_on(
                Told::NetworkChange { name: name@, answer: changed },
            ),
    {
        let ghost before = self@;
        let changed: bool = self.links.network_change(name);
        self.hear(Ghost(before), Ghost(Told::NetworkChange { name: name@, answer: changed }));
        changed
    }
}

/// A zombie that ends is over: it is not saved again, and neither is a task
/// that answered or one the app said not to try again.
pub proof fn law_a_zombie_is_not_saved_again(ending: Ending, use_long_link: bool, a: EndAnswers)
    requires
        ending.from == CallFrom::Zombie || ending.is_over() || ending.is_reset() || !use_long_link,
        a.callback != 0,
    ensures
        ending.code(use_long_link, a) == a.end,
        ending.words(use_long_link, a).len() == 2,
        ending.words(use_long_link, a)[1] == (RouteTold::TaskEnd {
            taskid: ending.task.taskid,
            user_id: ending.task.user_id@,
            err_type: ending.err_type,
            err_code: ending.err_code,
            profile: ending.told_profile(),
            answer: a.end,
        }),
{
    reveal(Ending::words);
}

/// A task that ended is the app's, the zombie queue's or over, and just one of
/// them: the app hears of the end of no task that it took itself or that was
/// saved.
pub proof fn law_a_task_ends_once(ending: Ending, use_long_link: bool, a: EndAnswers)
    ensures
        a.callback == 0 ==> ending.words(use_long_link, a).len() == 1,
        a.callback != 0 && ending.may_be_saved(use_long_link) && a.saved ==> ending.words(
            use_long_link,
            a,
        ).last() is Saved,
        a.callback != 0 && !(ending.may_be_saved(use_long_link) && a.saved) ==> ending.words(
            use_long_link,
            a,
        ).last() is TaskEnd,
        forall|i: int|
            0 <= i < ending.words(use_long_link, a).len() - 1 ==> !((#[trigger] ending.words(
                use_long_link,
                a,
            )[i]) is TaskEnd),
{
    reveal(Ending::words);
}

} // verus!
