//! "Is the network good right now?"
//!
//! Every finished task is classified (met its budget / finished normally /
//! failed) and the last ten of those are kept in a sliding window. Enough good
//! packages in a row make the status `Excellent`, too many failures make it
//! `Bad`; the status is what the first-package timeout is picked by.
use vstd::prelude::*;

use crate::config::{
    DYN_TIME_BIGGER_PACKAGE_GPRS_COSTTIME, DYN_TIME_BIGGER_PACKAGE_WIFI_COSTTIME,
    DYN_TIME_BIG_PACKAGE_GPRS_COSTTIME, DYN_TIME_BIG_PACKAGE_LEN,
    DYN_TIME_BIG_PACKAGE_WIFI_COSTTIME, DYN_TIME_COUNT_EXPIRE_TIME,
    DYN_TIME_MAX_CONTINUOUS_EXCELLENT_COUNT, DYN_TIME_MIDDLE_PACKAGE_GPRS_COSTTIME,
    DYN_TIME_MIDDLE_PACKAGE_LEN, DYN_TIME_MIDDLE_PACKAGE_WIFI_COSTTIME,
    DYN_TIME_MIN_NORMAL_PKG_COUNT, DYN_TIME_SMALL_PACKAGE_GPRS_COSTTIME, DYN_TIME_SMALL_PACKAGE_LEN,
    DYN_TIME_SMALL_PACKAGE_WIFI_COSTTIME, DYN_TIME_TASK_FAILED_PKG_LEN,
};

verus! {

/// What the network is taken for.
#[derive(Debug, Clone, Copy, PartialEq, Eq, Structural)]
pub enum DynamicTimeoutStatus {
    /// Not enough history yet.
    Evaluating,
    /// The network consistently met its budgets.
    Excellent,
    /// Too many of the last packages failed.
    Bad,
}

impl Default for DynamicTimeoutStatus {
    fn default() -> (status: Self)
        ensures
            status == DynamicTimeoutStatus::Evaluating,
    {
        DynamicTimeoutStatus::Evaluating
    }
}

/// Which network a task ran on.
#[derive(Debug, Clone, Copy, PartialEq, Eq, Structural)]
pub enum NetworkKind {
    /// Wi-Fi: the tighter budgets.
    Wifi,
    /// Mobile: the looser budgets.
    Mobile,
}

/// The classification of one finished task.
#[derive(Debug, Clone, Copy, PartialEq, Eq, Structural)]
pub enum TaskTag {
    /// A small package within budget.
    MeetExpect,
    MidPkgMeetExpect,
    BigPkgMeetExpect,
    BiggerPkgMeetExpect,
    /// Finished, but slower than its budget.
    Normal,
    Failed,
}

/// How long a package of `total_size` bytes may take to be within budget.
pub open spec fn budget(network: NetworkKind, total_size: u32) -> u64 {
    let wifi = network == NetworkKind::Wifi;
    if total_size <= DYN_TIME_SMALL_PACKAGE_LEN {
        if wifi { DYN_TIME_SMALL_PACKAGE_WIFI_COSTTIME } else { DYN_TIME_SMALL_PACKAGE_GPRS_COSTTIME }
    } else if total_size <= DYN_TIME_MIDDLE_PACKAGE_LEN {
        if wifi { DYN_TIME_MIDDLE_PACKAGE_WIFI_COSTTIME } else { DYN_TIME_MIDDLE_PACKAGE_GPRS_COSTTIME }
    } else if total_size <= DYN_TIME_BIG_PACKAGE_LEN {
        if wifi { DYN_TIME_BIG_PACKAGE_WIFI_COSTTIME } else { DYN_TIME_BIG_PACKAGE_GPRS_COSTTIME }
    } else {
        if wifi { DYN_TIME_BIGGER_PACKAGE_WIFI_COSTTIME } else { DYN_TIME_BIGGER_PACKAGE_GPRS_COSTTIME }
    }
}

/// What a finished task counts as: a size that stands for a failure, or no
/// time at all, is a failure; within its budget it is good, by how big it was;
/// anything else is normal.
pub open spec fn tag_of(network: NetworkKind, total_size: u32, cost_time: u64) -> TaskTag {
    if total_size == DYN_TIME_TASK_FAILED_PKG_LEN || cost_time == 0 {
        TaskTag::Failed
    } else if cost_time > budget(network, total_size) {
        TaskTag::Normal
    } else if total_size <= DYN_TIME_SMALL_PACKAGE_LEN {
        TaskTag::MeetExpect
    } else if total_size <= DYN_TIME_MIDDLE_PACKAGE_LEN {
        TaskTag::MidPkgMeetExpect
    } else if total_size <= DYN_TIME_BIG_PACKAGE_LEN {
        TaskTag::BigPkgMeetExpect
    } else {
        TaskTag::BiggerPkgMeetExpect
    }
}

impl TaskTag {
    /// The classification of a task of `total_size` bytes that took
    /// `cost_time`.
    pub fn of(network: NetworkKind, total_size: u32, cost_time: u64) -> (tag: Self)
        ensures
            tag == tag_of(network, total_size, cost_time),
    {
        if total_size == DYN_TIME_TASK_FAILED_PKG_LEN || cost_time == 0 {
            return TaskTag::Failed;
        }
        let (small, middle, big, bigger): (u64, u64, u64, u64) = match network {
            NetworkKind::Wifi => (
                DYN_TIME_SMALL_PACKAGE_WIFI_COSTTIME,
                DYN_TIME_MIDDLE_PACKAGE_WIFI_COSTTIME,
                DYN_TIME_BIG_PACKAGE_WIFI_COSTTIME,
                DYN_TIME_BIGGER_PACKAGE_WIFI_COSTTIME,
            ),
            NetworkKind::Mobile => (
                DYN_TIME_SMALL_PACKAGE_GPRS_COSTTIME,
                DYN_TIME_MIDDLE_PACKAGE_GPRS_COSTTIME,
                DYN_TIME_BIG_PACKAGE_GPRS_COSTTIME,
                DYN_TIME_BIGGER_PACKAGE_GPRS_COSTTIME,
            ),
        };
        if total_size <= DYN_TIME_SMALL_PACKAGE_LEN {
            if cost_time <= small {
                return TaskTag::MeetExpect;
            }
        } else if total_size <= DYN_TIME_MIDDLE_PACKAGE_LEN {
            if cost_time <= middle {
                return TaskTag::MidPkgMeetExpect;
            }
        } else if total_size <= DYN_TIME_BIG_PACKAGE_LEN {
            if cost_time <= big {
                return TaskTag::BigPkgMeetExpect;
            }
        } else if cost_time <= bigger {
            return TaskTag::BiggerPkgMeetExpect;
        }
        TaskTag::Normal
    }
}

/// How many packages the window holds.
pub const HISTORY_LEN: usize = 10;

/// The network as the last ten packages show it.
#[derive(Debug, Clone)]
pub struct DynamicTimeout {
    pub status: DynamicTimeoutStatus,
    pub continuous_good_count: u32,
    pub latest_bigpkg_goodtime: u64,
    /// The last ten sends, `true` when one finished normally or better.
    pub history: [bool; 10],
    pub fncount_latest_modify_time: u64,
    pub pos: usize,
}

/// The contents of a [`DynamicTimeout`].
pub struct DynamicView {
    pub status: DynamicTimeoutStatus,
    pub continuous_good_count: u32,
    pub latest_bigpkg_goodtime: u64,
    pub history: Seq<bool>,
    pub fncount_latest_modify_time: u64,
    pub pos: usize,
}

/// How many of a window's packages finished normally or better.
pub open spec fn normals(history: Seq<bool>) -> nat
    decreases history.len(),
{
    if history.len() == 0 {
        0
    } else {
        normals(history.drop_last()) + if history.last() { 1nat } else { 0nat }
    }
}

impl DynamicView {
    /// Nothing has been recorded.
    pub open spec fn fresh() -> DynamicView {
        DynamicView {
            status: DynamicTimeoutStatus::Evaluating,
            continuous_good_count: 0,
            latest_bigpkg_goodtime: 0,
            history: Seq::new(HISTORY_LEN as nat, |i: int| true),
            fncount_latest_modify_time: 0,
            pos: 0,
        }
    }

    /// The window is ten packages and the cursor stands inside it.
    pub open spec fn wf(self) -> bool {
        &&& self.history.len() == HISTORY_LEN
        &&& self.pos < HISTORY_LEN
    }

    /// The window has run out, or was never started.
    pub open spec fn expired(self, now: u64) -> bool {
        ||| self.fncount_latest_modify_time == 0
        ||| now - self.fncount_latest_modify_time > DYN_TIME_COUNT_EXPIRE_TIME
    }

    /// A window that has run out is started again with nothing but what the
    /// network was last taken for.
    pub open spec fn renewed(self, now: u64) -> DynamicView {
        if self.expired(now) {
            DynamicView {
                fncount_latest_modify_time: now,
                pos: 0,
                history: Seq::new(
                    HISTORY_LEN as nat,
                    |i: int| self.status != DynamicTimeoutStatus::Bad,
                ),
                ..self
            }
        } else {
            self
        }
    }

    /// One package is written down at the next place of the window. One more
    /// that met its budget makes the row of those longer, whatever the network is
    /// taken for; any other ends it.
    pub open spec fn noted(self, tag: TaskTag, now: u64) -> DynamicView {
        let pos: usize = if self.pos + 1 >= HISTORY_LEN { 0 } else { (self.pos + 1) as usize };
        let evaluating = self.status == DynamicTimeoutStatus::Evaluating;
        let good = tag != TaskTag::Normal && tag != TaskTag::Failed;
        let forgets = tag == TaskTag::Failed || (tag == TaskTag::Normal && evaluating);
        let count = self.continuous_good_count;
        DynamicView {
            pos,
            history: self.history.update(pos as int, tag != TaskTag::Failed),
            continuous_good_count: if !good {
                0
            } else if count < u32::MAX {
                (count + 1) as u32
            } else {
                count
            },
            latest_bigpkg_goodtime: if forgets {
                0
            } else if good && tag != TaskTag::MeetExpect && evaluating {
                now
            } else {
                self.latest_bigpkg_goodtime
            },
            ..self
        }
    }

    /// What the network is taken for, given the window, the good packages in a
    /// row and the package that was written down last.
    pub open spec fn judged(self, tag: TaskTag, now: u64) -> DynamicView {
        match self.status {
            DynamicTimeoutStatus::Evaluating => if self.continuous_good_count
                >= DYN_TIME_MAX_CONTINUOUS_EXCELLENT_COUNT && now - self.latest_bigpkg_goodtime
                <= DYN_TIME_COUNT_EXPIRE_TIME {
                DynamicView { status: DynamicTimeoutStatus::Excellent, ..self }
            } else if normals(self.history) < DYN_TIME_MIN_NORMAL_PKG_COUNT {
                DynamicView {
                    status: DynamicTimeoutStatus::Bad,
                    fncount_latest_modify_time: 0,
                    ..self
                }
            } else {
                self
            },
            DynamicTimeoutStatus::Excellent => if tag == TaskTag::Failed {
                DynamicView { status: DynamicTimeoutStatus::Evaluating, ..self }
            } else {
                self
            },
            DynamicTimeoutStatus::Bad => if normals(self.history) >= DYN_TIME_MIN_NORMAL_PKG_COUNT {
                DynamicView {
                    status: DynamicTimeoutStatus::Evaluating,
                    fncount_latest_modify_time: 0,
                    ..self
                }
            } else {
                self
            },
        }
    }

    /// One finished task is taken into account.
    pub open spec fn recorded(self, tag: TaskTag, now: u64) -> DynamicView {
        self.renewed(now).noted(tag, now).judged(tag, now)
    }
}

impl View for DynamicTimeout {
    type V = DynamicView;

    open spec fn view(&self) -> DynamicView {
        DynamicView {
            status: self.status,
            continuous_good_count: self.continuous_good_count,
            latest_bigpkg_goodtime: self.latest_bigpkg_goodtime,
            history: self.history@,
            fncount_latest_modify_time: self.fncount_latest_modify_time,
            pos: self.pos,
        }
    }
}

impl Default for DynamicTimeout {
    fn default() -> (timeout: Self)
        ensures
            timeout@ == DynamicView::fresh(),
    {
        DynamicTimeout::new()
    }
}

/// A window in which nothing went wrong.
fn clean_history() -> (history: [bool; 10])
    ensures
        history@ == DynamicView::fresh().history,
{
    let history: [bool; 10] = [true, true, true, true, true, true, true, true, true, true];
    assert(history@ =~= DynamicView::fresh().history);
    history
}

impl DynamicTimeout {
    /// Nothing has been recorded.
    pub fn new() -> (timeout: Self)
        ensures
            timeout@ == DynamicView::fresh(),
            timeout@.wf(),
    {
        let timeout = DynamicTimeout {
            status: DynamicTimeoutStatus::Evaluating,
            continuous_good_count: 0,
            latest_bigpkg_goodtime: 0,
            history: clean_history(),
            fncount_latest_modify_time: 0,
            pos: 0,
        };
        timeout
    }

    /// A task of `total_size` bytes finished in `cost_time`, at the reading
    /// `now`.
    pub fn record_at(&mut self, network: NetworkKind, total_size: u32, cost_time: u64, now: u64)
        requires
            old(self)@.wf(),
        ensures
            final(self)@ == old(self)@.recorded(tag_of(network, total_size, cost_time), now),
            final(self)@.wf(),
    {
        self.status_switch(TaskTag::of(network, total_size, cost_time), now);
    }

    /// What the network is taken for.
    pub fn status(&self) -> (status: DynamicTimeoutStatus)
        ensures
            status == self@.status,
    {
        self.status
    }

    /// How many packages in a row met their budget.
    pub fn continuous_good_count(&self) -> (count: u32)
        ensures
            count == self@.continuous_good_count,
    {
        self.continuous_good_count
    }

    /// How many of the last ten packages finished normally or better.
    pub fn normal_count(&self) -> (count: usize)
        ensures
            count == normals(self@.history),
            count <= HISTORY_LEN,
    {
        let mut count: usize = 0;
        let mut i: usize = 0;
        while i < 10
            invariant
                i <= 10,
                count <= i,
                count == normals(self.history@.subrange(0, i as int)),
            decreases 10 - i,
        {
            if self.history[i] {
                count += 1;
            }
            i += 1;
            assert(self.history@.subrange(0, i as int).drop_last() == self.history@.subrange(
                0,
                i - 1,
            ));
        }
        assert(self.history@.subrange(0, 10) == self.history@);
        count
    }

    /// Everything that was recorded is forgotten.
    pub fn reset(&mut self)
        ensures
            final(self)@ == DynamicView::fresh(),
            final(self)@.wf(),
    {
        self.status = DynamicTimeoutStatus::Evaluating;
        self.continuous_good_count = 0;
        self.latest_bigpkg_goodtime = 0;
        self.history = clean_history();
        self.fncount_latest_modify_time = 0;
        self.pos = 0;
    }

    /// One finished task is taken into account.
    pub fn status_switch(&mut self, tag: TaskTag, now: u64)
        requires
            old(self)@.wf(),
        ensures
            final(self)@ == old(self)@.recorded(tag, now),
            final(self)@.wf(),
    {
        if self.fncount_latest_modify_time == 0 || now.saturating_sub(
            self.fncount_latest_modify_time,
        ) > DYN_TIME_COUNT_EXPIRE_TIME {
            self.fncount_latest_modify_time = now;
            self.pos = 0;
            self.history = if self.status == DynamicTimeoutStatus::Bad {
                [false; 10]
            } else {
                [true; 10]
            };
        }
        assert(self@.history == old(self)@.renewed(now).history);
        assert(self@ == old(self)@.renewed(now));
        let ghost renewed = self@;

        self.pos = if self.pos + 1 >= HISTORY_LEN {
            0
        } else {
            self.pos + 1
        };
        match tag {
            TaskTag::MidPkgMeetExpect | TaskTag::BigPkgMeetExpect | TaskTag::BiggerPkgMeetExpect => {
                if self.status == DynamicTimeoutStatus::Evaluating {
                    self.latest_bigpkg_goodtime = now;
                }
                self.continuous_good_count = self.continuous_good_count.saturating_add(1);
                self.history[self.pos] = true;
            },
            TaskTag::MeetExpect => {
                self.continuous_good_count = self.continuous_good_count.saturating_add(1);
                self.history[self.pos] = true;
            },
            TaskTag::Normal => {
                self.continuous_good_count = 0;
                if self.status == DynamicTimeoutStatus::Evaluating {
                    self.latest_bigpkg_goodtime = 0;
                }
                self.history[self.pos] = true;
            },
            TaskTag::Failed => {
                self.continuous_good_count = 0;
                self.latest_bigpkg_goodtime = 0;
                self.history[self.pos] = false;
            },
        }
        assert(self@.history == renewed.noted(tag, now).history);
        assert(self@ == renewed.noted(tag, now));

        let normal_count: usize = self.normal_count();
        match self.status {
            DynamicTimeoutStatus::Evaluating => {
                if self.continuous_good_count >= DYN_TIME_MAX_CONTINUOUS_EXCELLENT_COUNT
                    && now.saturating_sub(self.latest_bigpkg_goodtime)
                    <= DYN_TIME_COUNT_EXPIRE_TIME {
                    self.status = DynamicTimeoutStatus::Excellent;
                } else if normal_count < DYN_TIME_MIN_NORMAL_PKG_COUNT {
                    self.status = DynamicTimeoutStatus::Bad;
                    self.fncount_latest_modify_time = 0;
                }
            },
            DynamicTimeoutStatus::Excellent => {
                if tag == TaskTag::Failed {
                    self.status = DynamicTimeoutStatus::Evaluating;
                }
            },
            DynamicTimeoutStatus::Bad => {
                if normal_count >= DYN_TIME_MIN_NORMAL_PKG_COUNT {
                    self.status = DynamicTimeoutStatus::Evaluating;
                    self.fncount_latest_modify_time = 0;
                }
            },
        }
    }
}

/// One failure ends an excellent network: it has to be found out about again.
pub proof fn law_one_failure_ends_an_excellent_network(view: DynamicView, now: u64)
    requires
        view.wf(),
        view.status == DynamicTimeoutStatus::Excellent,
    ensures
        view.recorded(TaskTag::Failed, now).status == DynamicTimeoutStatus::Evaluating,
{
}

/// The network is never taken for excellent right after it was bad, nor for bad
/// right after it was excellent: there is always an evaluation in between.
pub proof fn law_the_status_goes_through_an_evaluation(
    view: DynamicView,
    tag: TaskTag,
    now: u64,
)
    requires
        view.wf(),
    ensures
        view.status == DynamicTimeoutStatus::Bad ==> view.recorded(tag, now).status
            != DynamicTimeoutStatus::Excellent,
        view.status == DynamicTimeoutStatus::Excellent ==> view.recorded(tag, now).status
            != DynamicTimeoutStatus::Bad,
        view.recorded(tag, now).wf(),
{
}

/// Only a package within its budget makes a network excellent, and only after
/// enough of them in a row.
pub proof fn law_only_good_packages_make_a_network_excellent(
    view: DynamicView,
    tag: TaskTag,
    now: u64,
)
    requires
        view.wf(),
        view.status == DynamicTimeoutStatus::Evaluating,
        view.recorded(tag, now).status == DynamicTimeoutStatus::Excellent,
    ensures
        tag != TaskTag::Failed,
        tag != TaskTag::Normal,
        view.continuous_good_count + 1 >= DYN_TIME_MAX_CONTINUOUS_EXCELLENT_COUNT,
{
}

/// The window after the first `k` of some packages.
pub open spec fn noted_all(view: DynamicView, tags: Seq<TaskTag>, nows: Seq<u64>, k: int) -> DynamicView
    decreases k,
{
    if k <= 0 {
        view
    } else {
        noted_all(view, tags, nows, k - 1).noted(tags[k - 1], nows[k - 1])
    }
}

/// The window is what the last ten packages were, and nothing that came before
/// them.
pub proof fn law_the_window_is_the_last_ten(
    view: DynamicView,
    tags: Seq<TaskTag>,
    nows: Seq<u64>,
    k: int,
)
    requires
        view.wf(),
        0 <= k <= HISTORY_LEN,
        k <= tags.len(),
        k <= nows.len(),
    ensures
        ({
            let after = noted_all(view, tags, nows, k);
            &&& after.wf()
            &&& after.pos == (view.pos + k) % 10
            &&& forall|i: int|
                0 <= i < k ==> after.history[(view.pos + 1 + i) % 10] == (#[trigger] tags[i]
                    != TaskTag::Failed)
        }),
    decreases k,
{
    if k > 0 {
        law_the_window_is_the_last_ten(view, tags, nows, k - 1);
        let before = noted_all(view, tags, nows, k - 1);
        let after = noted_all(view, tags, nows, k);
        assert(after.pos == (view.pos + k) % 10);
        assert forall|i: int| 0 <= i < k implies after.history[(view.pos + 1 + i) % 10] == (
        #[trigger] tags[i] != TaskTag::Failed) by {
            if i < k - 1 {
                assert((view.pos + 1 + i) % 10 != (view.pos + k) % 10);
            }
        }
    }
}


/// A window has as many normal packages as there are places that say so.
proof fn lemma_normals(history: Seq<bool>)
    ensures
        normals(history) == history.filter(|normal: bool| normal).len(),
    decreases history.len(),
{
    reveal(Seq::filter);
    if history.len() > 0 {
        lemma_normals(history.drop_last());
    }
}

/// A package that met its budget: it did not fail, and took no longer than one of its
/// size may on that network. Up to 3 KiB that is half a second on wifi and a second on
/// a mobile network, up to 10 KiB two seconds and three, up to 30 KiB four and five,
/// and six and seven above that.
pub open spec fn met_budget(network: NetworkKind, total_size: u32, cost_time: u64) -> bool {
    &&& total_size != 0xffff_ffff
    &&& 0 < cost_time
    &&& match network {
        NetworkKind::Wifi => {
            ||| total_size <= 3072 && cost_time <= 500
            ||| 3072 < total_size <= 10240 && cost_time <= 2000
            ||| 10240 < total_size <= 30720 && cost_time <= 4000
            ||| 30720 < total_size && cost_time <= 6000
        },
        NetworkKind::Mobile => {
            ||| total_size <= 3072 && cost_time <= 1000
            ||| 3072 < total_size <= 10240 && cost_time <= 3000
            ||| 10240 < total_size <= 30720 && cost_time <= 5000
            ||| 30720 < total_size && cost_time <= 7000
        },
    }
}

/// The tag of a package says whether it failed, whether it met its budget, and how big
/// it was, and nothing else.
pub proof fn law_a_tag_says_what_a_package_did(
    network: NetworkKind,
    total_size: u32,
    cost_time: u64,
)
    ensures
        ({
            let tag = tag_of(network, total_size, cost_time);
            let met = met_budget(network, total_size, cost_time);
            &&& tag == TaskTag::Failed <==> total_size == 0xffff_ffff || cost_time == 0
            &&& tag == TaskTag::Normal <==> !met && tag != TaskTag::Failed
            &&& tag == TaskTag::MeetExpect <==> met && total_size <= 3072
            &&& tag == TaskTag::MidPkgMeetExpect <==> met && 3072 < total_size <= 10240
            &&& tag == TaskTag::BigPkgMeetExpect <==> met && 10240 < total_size <= 30720
            &&& tag == TaskTag::BiggerPkgMeetExpect <==> met && 30720 < total_size
        }),
{
}

/// A package that is no bigger or no slower is judged no worse than one that is, and a
/// mobile network is forgiven whatever wifi is.
pub proof fn law_a_faster_package_is_no_worse(
    network: NetworkKind,
    total_size: u32,
    fast: u64,
    slow: u64,
)
    requires
        0 < fast <= slow,
        met_budget(network, total_size, slow),
    ensures
        tag_of(network, total_size, fast) == tag_of(network, total_size, slow),
        tag_of(NetworkKind::Mobile, total_size, slow) == tag_of(network, total_size, slow),
{
}

/// A network that is being evaluated becomes excellent exactly when the tenth package
/// or a later one in a row met its budget, and one of more than 3 KiB did so within
/// the last five minutes: this one, or the last such one that was written down.
pub proof fn law_a_network_becomes_excellent_on_big_packages(
    view: DynamicView,
    network: NetworkKind,
    total_size: u32,
    cost_time: u64,
    now: u64,
)
    requires
        view.status == DynamicTimeoutStatus::Evaluating,
    ensures
        ({
            let after = view.recorded(tag_of(network, total_size, cost_time), now);
            let met = met_budget(network, total_size, cost_time);
            &&& after.status == DynamicTimeoutStatus::Excellent <==> {
                &&& met
                &&& view.continuous_good_count >= 9
                &&& total_size > 3072 || now - view.latest_bigpkg_goodtime <= 5 * 60 * 1000
            }
            &&& after.status == DynamicTimeoutStatus::Excellent ==> now
                - after.latest_bigpkg_goodtime <= 5 * 60 * 1000
        }),
{
}

/// The reading kept of a big package that met its budget is the reading of this one,
/// the one that was kept, or none: it comes from no other package. It is forgotten by
/// a failure, and while the network is evaluated by any package over its budget.
pub proof fn law_the_reading_kept_is_a_big_packages(
    view: DynamicView,
    network: NetworkKind,
    total_size: u32,
    cost_time: u64,
    now: u64,
)
    ensures
        ({
            let after = view.recorded(tag_of(network, total_size, cost_time), now);
            let met = met_budget(network, total_size, cost_time);
            let failed = total_size == 0xffff_ffff || cost_time == 0;
            let evaluating = view.status == DynamicTimeoutStatus::Evaluating;
            &&& evaluating && met && total_size > 3072 ==> after.latest_bigpkg_goodtime == now
            &&& failed || (evaluating && !met) ==> after.latest_bigpkg_goodtime == 0
            &&& !failed && (!evaluating || (met && total_size <= 3072))
                ==> after.latest_bigpkg_goodtime == view.latest_bigpkg_goodtime
        }),
{
}

/// The packages in a row that met their budget: one more that did makes the row
/// longer, whatever the network is taken for, and any other ends it.
pub proof fn law_a_row_is_of_good_packages(
    view: DynamicView,
    network: NetworkKind,
    total_size: u32,
    cost_time: u64,
    now: u64,
)
    ensures
        ({
            let after = view.recorded(tag_of(network, total_size, cost_time), now);
            let met = met_budget(network, total_size, cost_time);
            &&& !met ==> after.continuous_good_count == 0
            &&& met && view.continuous_good_count < u32::MAX ==> after.continuous_good_count
                == view.continuous_good_count + 1
            &&& met && view.continuous_good_count == u32::MAX ==> after.continuous_good_count
                == u32::MAX
        }),
{
}

/// The network after some packages: what each was, and when it was written down.
pub struct Package {
    pub network: NetworkKind,
    pub total_size: u32,
    pub cost_time: u64,
    pub now: u64,
}

/// The network after the first `k` of some packages.
pub open spec fn recorded_all(view: DynamicView, packages: Seq<Package>, k: int) -> DynamicView
    decreases k,
{
    if k <= 0 {
        view
    } else {
        let p = packages[k - 1];
        recorded_all(view, packages, k - 1).recorded(
            tag_of(p.network, p.total_size, p.cost_time),
            p.now,
        )
    }
}

/// The row counts packages that came one right after the other, each within its
/// budget: as long as it is, so many of the last packages were good.
pub proof fn law_a_row_is_the_last_packages(packages: Seq<Package>, k: int, i: int)
    requires
        0 <= k <= packages.len(),
        k - recorded_all(DynamicView::fresh(), packages, k).continuous_good_count <= i < k,
    ensures
        recorded_all(DynamicView::fresh(), packages, k).continuous_good_count <= k,
        met_budget(packages[i].network, packages[i].total_size, packages[i].cost_time),
    decreases k,
{
    let before = recorded_all(DynamicView::fresh(), packages, k - 1);
    let p = packages[k - 1];
    law_a_row_is_of_good_packages(before, p.network, p.total_size, p.cost_time, p.now);
    lemma_row_fits(packages, k);
    lemma_row_fits(packages, k - 1);
    if i < k - 1 {
        law_a_row_is_the_last_packages(packages, k - 1, i);
    }
}

/// A row is no longer than there are packages.
proof fn lemma_row_fits(packages: Seq<Package>, k: int)
    requires
        0 <= k <= packages.len(),
    ensures
        recorded_all(DynamicView::fresh(), packages, k).continuous_good_count <= k,
    decreases k,
{
    if k > 0 {
        lemma_row_fits(packages, k - 1);
        let p = packages[k - 1];
        law_a_row_is_of_good_packages(
            recorded_all(DynamicView::fresh(), packages, k - 1),
            p.network,
            p.total_size,
            p.cost_time,
            p.now,
        );
    }
}

/// The reading kept is none, or that of a package of more than 3 KiB that met its
/// budget: small packages alone never leave one.
pub proof fn law_the_reading_kept_was_written_down(packages: Seq<Package>, k: int)
    requires
        0 <= k <= packages.len(),
    ensures
        ({
            let at = recorded_all(DynamicView::fresh(), packages, k).latest_bigpkg_goodtime;
            at != 0 ==> exists|i: int|
                0 <= i < k && (#[trigger] packages[i]).now == at && packages[i].total_size > 3072
                    && met_budget(
                    packages[i].network,
                    packages[i].total_size,
                    packages[i].cost_time,
                )
        }),
    decreases k,
{
    if k > 0 {
        law_the_reading_kept_was_written_down(packages, k - 1);
        let p = packages[k - 1];
        law_the_reading_kept_is_a_big_packages(
            recorded_all(DynamicView::fresh(), packages, k - 1),
            p.network,
            p.total_size,
            p.cost_time,
            p.now,
        );
    }
}

/// A network is taken for excellent only after ten packages in a row met their budget,
/// and once the clock is past its first five minutes only after one of more than 3 KiB
/// did so no more than five minutes ago.
pub proof fn law_an_excellent_network_was_fast(packages: Seq<Package>, k: int)
    requires
        0 < k <= packages.len(),
        recorded_all(DynamicView::fresh(), packages, k - 1).status
            == DynamicTimeoutStatus::Evaluating,
        recorded_all(DynamicView::fresh(), packages, k).status == DynamicTimeoutStatus::Excellent,
    ensures
        k >= 10,
        forall|i: int|
            k - 10 <= i < k ==> met_budget(
                (#[trigger] packages[i]).network,
                packages[i].total_size,
                packages[i].cost_time,
            ),
        packages[k - 1].now > 5 * 60 * 1000 ==> exists|i: int|
            0 <= i < k && (#[trigger] packages[i]).total_size > 3072 && packages[k - 1].now
                - packages[i].now <= 5 * 60 * 1000 && met_budget(
                packages[i].network,
                packages[i].total_size,
                packages[i].cost_time,
            ),
{
    let before = recorded_all(DynamicView::fresh(), packages, k - 1);
    let p = packages[k - 1];
    law_a_network_becomes_excellent_on_big_packages(
        before,
        p.network,
        p.total_size,
        p.cost_time,
        p.now,
    );
    law_a_row_is_of_good_packages(before, p.network, p.total_size, p.cost_time, p.now);
    law_the_reading_kept_was_written_down(packages, k);
    lemma_row_fits(packages, k);
    assert forall|i: int| k - 10 <= i < k implies met_budget(
        (#[trigger] packages[i]).network,
        packages[i].total_size,
        packages[i].cost_time,
    ) by {
        law_a_row_is_the_last_packages(packages, k, i);
    }
}

/// The window: a place that failed is written down as such and any other as normal, at
/// the next of the ten places. A window that is older than five minutes, or was never
/// begun, is started over first: all normal, or all failed where the network was bad.
pub proof fn law_a_package_takes_the_next_place(view: DynamicView, tag: TaskTag, now: u64)
    requires
        view.wf(),
    ensures
        ({
            let after = view.recorded(tag, now);
            let begun = view.fncount_latest_modify_time;
            let over = begun == 0 || now - begun > 5 * 60 * 1000;
            let from: int = if over {
                0
            } else {
                view.pos as int
            };
            &&& after.history.len() == 10
            &&& after.pos == (from + 1) % 10
            &&& after.history[after.pos as int] == (tag != TaskTag::Failed)
            &&& forall|i: int|
                0 <= i < 10 && i != after.pos ==> (#[trigger] after.history[i]) == if over {
                    view.status != DynamicTimeoutStatus::Bad
                } else {
                    view.history[i]
                }
        }),
{
}

/// A network that is being evaluated, and does not become excellent, becomes bad
/// exactly when fewer than six of the ten places of the window are normal; a bad one
/// is evaluated again exactly when six are, and an excellent one exactly when a
/// package failed. There is no other way from one status to another.
pub proof fn law_how_a_status_changes(view: DynamicView, tag: TaskTag, now: u64)
    requires
        view.wf(),
    ensures
        ({
            let after = view.recorded(tag, now);
            let normal = after.history.filter(|normal: bool| normal).len();
            match view.status {
                DynamicTimeoutStatus::Evaluating => after.status
                    != DynamicTimeoutStatus::Excellent ==> (after.status
                    == DynamicTimeoutStatus::Bad <==> normal < 6),
                DynamicTimeoutStatus::Excellent => after.status == if tag == TaskTag::Failed {
                    DynamicTimeoutStatus::Evaluating
                } else {
                    DynamicTimeoutStatus::Excellent
                },
                DynamicTimeoutStatus::Bad => after.status == if normal >= 6 {
                    DynamicTimeoutStatus::Evaluating
                } else {
                    DynamicTimeoutStatus::Bad
                },
            }
        }),
        ({
            let after = view.recorded(tag, now);
            let begun = view.fncount_latest_modify_time;
            let over = begun == 0 || now - begun > 5 * 60 * 1000;
            let bad = DynamicTimeoutStatus::Bad;
            after.fncount_latest_modify_time == if (view.status == bad) != (after.status == bad) {
                0
            } else if over {
                now
            } else {
                begun
            }
        }),
{
    lemma_normals(view.recorded(tag, now).history);
}

/// A network nothing is known of is being evaluated, with a clean window and no row.
pub proof fn law_a_fresh_network_is_evaluated()
    ensures
        DynamicView::fresh().wf(),
        DynamicView::fresh().status == DynamicTimeoutStatus::Evaluating,
        DynamicView::fresh().continuous_good_count == 0,
        DynamicView::fresh().latest_bigpkg_goodtime == 0,
        DynamicView::fresh().fncount_latest_modify_time == 0,
        forall|i: int| 0 <= i < 10 ==> #[trigger] DynamicView::fresh().history[i],
{
}

} // verus!
