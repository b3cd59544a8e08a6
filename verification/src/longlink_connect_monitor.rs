//! How soon the long link is tried again.
//!
//! The long link is not reconnected the moment it goes down: the monitor waits
//! an interval that depends on what the app is doing ([`INTERVALS`]: foreground
//! and active get the short ones, background and inactive the long ones), and
//! while the app is in the background it walks a ladder of its own
//! ([`RECONNECT_INTERVAL`]), up when the link is being rebuilt quickly and down
//! when it has been up for a while. How long there is left to wait is what the
//! methods that ask it answer, and `0` means "now".
//!
//! What the link, the app and the network are is told to the monitor by its
//! setters, and kept current by the host; what the monitor asks for goes to the
//! host ([`MonitorHost`]). The two alarms are due times the host compares its
//! own clock against ([`LongLinkConnectMonitor::rebuild_due_time`] and
//! [`LongLinkConnectMonitor::wake_due_time`]).
use vstd::prelude::*;
use crate::net_source::NO_NET;
use crate::queue_spec::since;

verus! {

/// How often a link is probed where the platform asks for it, in milliseconds.
pub const TIME_CHECK_PERIOD: u64 = 10 * 1000;

/// How soon the first such probe comes, in milliseconds.
pub const START_CHECK_PERIOD: u64 = 3 * 1000;

/// How much longer the wait is while the app is not active, in milliseconds.
pub const INACTIVE_BUFFER: u64 = 30 * 1000;

/// The interval with no network at all.
pub const NO_NET_SALT_RATE: u64 = 3;

pub const NO_NET_SALT_RISE: u64 = 600;

/// The interval with no account to connect for.
pub const NO_ACCOUNT_INFO_SALT_RATE: u64 = 2;

pub const NO_ACCOUNT_INFO_SALT_RISE: u64 = 300;

/// A week, in seconds: with no account and no active app there is nothing to
/// reconnect for.
pub const NO_ACCOUNT_INFO_INACTIVE_INTERVAL: u64 = 7 * 24 * 60 * 60;

/// Ten minutes: a link that came back sooner than this moves the ladder up, one
/// that held longer moves it down.
pub const UP_OR_DOWN_THRESHOLD: u64 = 10 * 60 * 1000;

/// How soon the monitor looks again after a disconnect or a failed connect.
pub const WAKE_ALARM_INTERVAL: u64 = 500;

/// How far a wait is spread, in seconds: what is drawn on top of it is below this.
pub const JITTER: usize = 20;

/// Seconds to wait, by [`ConnectType`] and [`ActiveState`].
pub const INTERVALS: [[u64; 5]; 3] = [
    [5, 10, 20, 30, 300],
    [15, 30, 120, 300, 600],
    [0, 0, 0, 0, 0],
];

/// The ladder the background wait walks, in seconds.
pub const RECONNECT_INTERVAL: [u64; 7] = [0, 60, 120, 240, 360, 480, 600];

/// The top of the ladder.
pub const INTERNAL_MAX_INDEX: usize = 6;

/// Where a long link is.
#[derive(Debug, Clone, Copy, PartialEq, Eq, Structural)]
pub enum LongLinkStatus {
    ConnectIdle,
    Connecting,
    Connected,
    DisConnected,
    ConnectFailed,
}

/// Why a connect is being asked for.
#[derive(Debug, Clone, Copy, PartialEq, Eq, Structural)]
pub enum ConnectType {
    /// A task needs the link.
    Task,
    /// The alarm went off.
    LongLink,
    NetworkChange,
}

/// What the app is doing.
#[derive(Debug, Clone, Copy, PartialEq, Eq, Structural)]
pub enum ActiveState {
    /// Foreground for less than a minute.
    ForegroundOneMinute,
    /// Foreground for more than a minute.
    ForegroundTenMinute,
    /// Foreground for more than ten minutes.
    ForegroundActive,
    /// Active, but in the background.
    BackgroundActive,
    /// Not active at all.
    Inactive,
}

/// The row of [`INTERVALS`].
pub open spec fn row(kind: ConnectType) -> int {
    match kind {
        ConnectType::Task => 0,
        ConnectType::LongLink => 1,
        ConnectType::NetworkChange => 2,
    }
}

/// The column of [`INTERVALS`].
pub open spec fn column(state: ActiveState) -> int {
    match state {
        ActiveState::ForegroundOneMinute => 0,
        ActiveState::ForegroundTenMinute => 1,
        ActiveState::ForegroundActive => 2,
        ActiveState::BackgroundActive => 3,
        ActiveState::Inactive => 4,
    }
}

impl ConnectType {
    fn row(self) -> (index: usize)
        ensures
            index == row(self),
            index < 3,
    {
        match self {
            ConnectType::Task => 0,
            ConnectType::LongLink => 1,
            ConnectType::NetworkChange => 2,
        }
    }
}

impl ActiveState {
    fn column(self) -> (index: usize)
        ensures
            index == column(self),
            index < 5,
    {
        match self {
            ActiveState::ForegroundOneMinute => 0,
            ActiveState::ForegroundTenMinute => 1,
            ActiveState::ForegroundActive => 2,
            ActiveState::BackgroundActive => 3,
            ActiveState::Inactive => 4,
        }
    }
}

/// What the monitor goes by of a link.
#[derive(Debug, Clone, Copy, PartialEq, Eq, Structural)]
pub struct LinkState {
    /// The server turned the trigger off.
    pub is_svr_trig_off: bool,
    /// Where the link is.
    pub connect_status: LongLinkStatus,
    /// When the link last asked dns.
    pub dns_time: u64,
}

/// The link, as the monitor asks for it.
pub trait MonitorHost: Sized {
    /// What asking for the link makes of it; a link that does not say may do
    /// anything.
    open spec fn connects(before: Self, after: Self, answer: LongLinkStatus) -> bool {
        true
    }

    /// What dropping the link makes of it.
    open spec fn drops(before: Self, after: Self, answer: LinkState) -> bool {
        true
    }

    /// What resetting the link makes of it.
    open spec fn resets(before: Self, after: Self) -> bool {
        true
    }

    /// What drawing a number makes of the link.
    open spec fn draws(before: Self, after: Self, bound: usize, answer: usize) -> bool {
        true
    }

    /// A number below `bound`, which spreads the links of many apps over the wait.
    fn random(&mut self, bound: usize) -> (answer: usize)
        requires
            bound > 0,
        ensures
            answer < bound,
            Self::draws(*old(self), *final(self), bound, answer),
    ;

    /// The link is asked for; what it is then.
    fn connect(&mut self) -> (answer: LongLinkStatus)
        ensures
            Self::connects(*old(self), *final(self), answer),
    ;

    /// The link is dropped, because the network is another one; what it is
    /// then.
    fn disconnect(&mut self) -> (answer: LinkState)
        ensures
            Self::drops(*old(self), *final(self), answer),
    ;

    /// The link is reset.
    fn longlink_reset(&mut self)
        ensures
            Self::resets(*old(self), *final(self)),
    ;
}

/// How soon a long link is tried again.
pub struct LongLinkConnectMonitor<H> {
    /// The link.
    pub host: H,
    pub status: LongLinkStatus,
    pub last_connect_time: u64,
    pub last_connect_net_type: i32,
    /// The rung of the ladder.
    pub current_interval_index: usize,
    pub rebuild_longlink: bool,
    pub is_keep_alive: bool,
    pub rebuild_due: Option<u64>,
    pub wake_due: Option<u64>,
    /// The server turned the trigger off.
    pub is_svr_trig_off: bool,
    /// Where the link is.
    pub connect_status: LongLinkStatus,
    /// When the link last asked dns.
    pub dns_time: u64,
    pub is_active: bool,
    pub is_foreground: bool,
    pub last_foreground_change_time: u64,
    pub net_info: i32,
    pub has_account: bool,
    /// The host wants to be asked for a reset.
    pub longlink_reset: bool,
}

/// The contents of a [`LongLinkConnectMonitor`].
pub struct MonitorView {
    pub status: LongLinkStatus,
    pub last_connect_time: u64,
    pub last_connect_net_type: i32,
    pub current_interval_index: usize,
    pub rebuild_longlink: bool,
    pub is_keep_alive: bool,
    pub rebuild_due: Option<u64>,
    pub wake_due: Option<u64>,
    pub is_svr_trig_off: bool,
    pub connect_status: LongLinkStatus,
    pub dns_time: u64,
    pub is_active: bool,
    pub is_foreground: bool,
    pub last_foreground_change_time: u64,
    pub net_info: i32,
    pub has_account: bool,
    pub longlink_reset: bool,
}

impl<H> View for LongLinkConnectMonitor<H> {
    type V = MonitorView;

    open spec fn view(&self) -> MonitorView {
        MonitorView {
            status: self.status,
            last_connect_time: self.last_connect_time,
            last_connect_net_type: self.last_connect_net_type,
            current_interval_index: self.current_interval_index,
            rebuild_longlink: self.rebuild_longlink,
            is_keep_alive: self.is_keep_alive,
            rebuild_due: self.rebuild_due,
            wake_due: self.wake_due,
            is_svr_trig_off: self.is_svr_trig_off,
            connect_status: self.connect_status,
            dns_time: self.dns_time,
            is_active: self.is_active,
            is_foreground: self.is_foreground,
            last_foreground_change_time: self.last_foreground_change_time,
            net_info: self.net_info,
            has_account: self.has_account,
            longlink_reset: self.longlink_reset,
        }
    }
}

impl MonitorView {
    /// A monitor nothing has been told to: the link is down, there is no
    /// network and no account, and the app is not active.
    pub open spec fn fresh(now: u64, is_keep_alive: bool) -> MonitorView {
        MonitorView {
            status: LongLinkStatus::DisConnected,
            last_connect_time: now,
            last_connect_net_type: NO_NET,
            current_interval_index: 0,
            rebuild_longlink: false,
            is_keep_alive,
            rebuild_due: None,
            wake_due: None,
            is_svr_trig_off: false,
            connect_status: LongLinkStatus::ConnectIdle,
            dns_time: 0,
            is_active: false,
            is_foreground: false,
            last_foreground_change_time: 0,
            net_info: NO_NET,
            has_account: false,
            longlink_reset: false,
        }
    }

    /// The monitor stands on a rung of the ladder.
    pub open spec fn wf(self) -> bool {
        self.current_interval_index <= INTERNAL_MAX_INDEX
    }

    /// What the app is doing.
    pub open spec fn active_state(self, now: u64) -> ActiveState {
        let foreground = since(now, self.last_foreground_change_time);
        if !self.is_active {
            ActiveState::Inactive
        } else if !self.is_foreground {
            ActiveState::BackgroundActive
        } else if foreground >= 10 * 60 * 1000 {
            ActiveState::ForegroundActive
        } else if foreground >= 60 * 1000 {
            ActiveState::ForegroundTenMinute
        } else {
            ActiveState::ForegroundOneMinute
        }
    }

    /// The wait is salted: it is the alarm's own connect, and the app is inactive
    /// or has been in the foreground for long.
    pub open spec fn is_salted(self, now: u64, kind: ConnectType) -> bool {
        let state = self.active_state(now);
        kind == ConnectType::LongLink && (state == ActiveState::Inactive || state
            == ActiveState::ForegroundActive)
    }

    /// The salt is a number that is drawn: there is a network, and an account.
    pub open spec fn is_spread(self, now: u64, kind: ConnectType) -> bool {
        self.is_salted(now, kind) && self.has_account && self.net_info != NO_NET
    }

    /// How long a connect of that kind waits, in seconds: the table's, salted
    /// for the alarm's own connects while the app is inactive or has been in
    /// the foreground for long.
    pub open spec fn interval(self, now: u64, kind: ConnectType, drawn: usize) -> int {
        let state = self.active_state(now);
        let base = INTERVALS@[row(kind)]@[column(state)];
        if !self.is_salted(now, kind) {
            base as int
        } else if !self.is_active && !self.has_account {
            NO_ACCOUNT_INFO_INACTIVE_INTERVAL as int
        } else if self.net_info == NO_NET {
            base * NO_NET_SALT_RATE + NO_NET_SALT_RISE
        } else if !self.has_account {
            base * NO_ACCOUNT_INFO_SALT_RATE + NO_ACCOUNT_INFO_SALT_RISE
        } else {
            base + drawn
        }
    }

    /// The link was asked for, and is there or not.
    pub open spec fn connected(self, answer: LongLinkStatus) -> MonitorView {
        MonitorView {
            connect_status: answer,
            ..self
        }
    }

    /// The link was dropped, and is what it then said.
    pub open spec fn dropped(self, answer: LinkState) -> MonitorView {
        MonitorView {
            is_svr_trig_off: answer.is_svr_trig_off,
            connect_status: answer.connect_status,
            dns_time: answer.dns_time,
            ..self
        }
    }

    /// The link need not be asked for: the server turned the trigger off, or
    /// it is up or coming up.
    pub open spec fn settled(self) -> bool {
        ||| self.is_svr_trig_off
        ||| self.connect_status == LongLinkStatus::Connecting
        ||| self.connect_status == LongLinkStatus::Connected
    }

    /// The wait is the table's: the app is active, or the network is another
    /// one.
    pub open spec fn goes_by_table(self, kind: ConnectType) -> bool {
        self.is_active || kind == ConnectType::NetworkChange
    }

    /// What is left of the table's wait, in milliseconds.
    pub open spec fn table_wait(self, now: u64, kind: ConnectType, drawn: usize) -> int {
        let interval = self.interval(now, kind, drawn) * 1000;
        let post = since(now, self.dns_time);
        let buffer = if self.is_active { 0int } else { INACTIVE_BUFFER as int };
        if post + buffer >= interval {
            0
        } else {
            interval - post
        }
    }

    /// The rung the next background wait is on: up while the link keeps coming
    /// back quickly, down once it has held.
    pub open spec fn next_rung(self, now: u64) -> int {
        if since(now, self.dns_time) < UP_OR_DOWN_THRESHOLD {
            if self.current_interval_index + 1 <= INTERNAL_MAX_INDEX {
                self.current_interval_index + 1
            } else {
                INTERNAL_MAX_INDEX as int
            }
        } else if self.current_interval_index == 0 {
            0
        } else {
            self.current_interval_index - 1
        }
    }

    /// What is left of the rung's wait, in milliseconds, capped.
    pub open spec fn ladder_wait(self, now: u64) -> int {
        let left = RECONNECT_INTERVAL@[self.next_rung(now)] * 1000 - since(now, self.dns_time);
        if left <= 0 {
            0
        } else if left >= UP_OR_DOWN_THRESHOLD {
            UP_OR_DOWN_THRESHOLD as int
        } else {
            left
        }
    }

    /// How long there is left to wait; `0` is a link that was asked for now,
    /// or need not be.
    pub open spec fn wait(self, now: u64, kind: ConnectType, drawn: usize) -> int {
        if self.settled() {
            0
        } else if self.goes_by_table(kind) {
            self.table_wait(now, kind, drawn)
        } else if self.rebuild_longlink {
            0
        } else {
            self.ladder_wait(now)
        }
    }

    /// A connect is asked for: at once where there is nothing left to wait.
    pub open spec fn interval_connected(
        self,
        now: u64,
        kind: ConnectType,
        drawn: usize,
        answer: LongLinkStatus,
    ) -> MonitorView {
        if self.settled() {
            self
        } else {
            let moved = if self.goes_by_table(kind) {
                MonitorView { current_interval_index: 0, ..self }
            } else if self.rebuild_longlink {
                MonitorView { rebuild_longlink: false, ..self }
            } else {
                MonitorView { current_interval_index: self.next_rung(now) as usize, ..self }
            };
            if self.wait(now, kind, drawn) == 0 {
                moved.connected(answer)
            } else {
                moved
            }
        }
    }

    /// A number is drawn.
    pub open spec fn draws(self, now: u64, kind: ConnectType) -> bool {
        !self.settled() && self.is_spread(now, kind)
    }

    /// The link is asked for.
    pub open spec fn asks(self, now: u64, kind: ConnectType, drawn: usize) -> bool {
        !self.settled() && self.wait(now, kind, drawn) == 0
    }

    /// The status of the link is another one: both alarms are cancelled, and a link
    /// that went down or failed to come up arms the wake one.
    pub open spec fn status_noted(self, now: u64, status: LongLinkStatus) -> MonitorView {
        MonitorView {
            rebuild_due: None,
            wake_due: if status == LongLinkStatus::ConnectFailed || status
                == LongLinkStatus::DisConnected {
                Some(crate::queue_spec::after(now, WAKE_ALARM_INTERVAL))
            } else {
                None
            },
            status,
            last_connect_time: now,
            last_connect_net_type: self.net_info,
            ..self
        }
    }

    /// Both alarms are cancelled.
    pub open spec fn silenced(self) -> MonitorView {
        MonitorView { rebuild_due: None, wake_due: None, ..self }
    }

    /// Both alarms are cancelled, a connect is asked for, and the rebuild
    /// alarm is armed with what is left to wait.
    pub open spec fn auto_connected(
        self,
        now: u64,
        drawn: usize,
        answer: LongLinkStatus,
    ) -> MonitorView {
        let asked = self.silenced().interval_connected(now, ConnectType::LongLink, drawn, answer);
        let left = self.wait(now, ConnectType::LongLink, drawn);
        if left == 0 {
            asked
        } else {
            MonitorView {
                rebuild_due: Some(
                    if now + left <= u64::MAX { (now + left) as u64 } else { u64::MAX },
                ),
                ..asked
            }
        }
    }
}

/// What the link answered while a connect was asked for.
pub struct Asked<H> {
    /// The number that was drawn.
    pub drawn: usize,
    /// The link once it was drawn.
    pub spread: H,
    /// Where the link is once it was asked for.
    pub answer: LongLinkStatus,
}

/// A connect is asked for: the link draws a number where the wait is spread, and is
/// asked for where nothing is left to wait.
pub open spec fn reached<H: MonitorHost>(
    monitor: MonitorView,
    now: u64,
    kind: ConnectType,
    before: H,
    a: Asked<H>,
    after: H,
) -> bool {
    &&& if monitor.draws(now, kind) {
        a.drawn < JITTER && H::draws(before, a.spread, JITTER, a.drawn)
    } else {
        a.spread == before
    }
    &&& if monitor.asks(now, kind, a.drawn) {
        H::connects(a.spread, after, a.answer)
    } else {
        after == a.spread
    }
}

impl<H: MonitorHost> LongLinkConnectMonitor<H> {
    /// A monitor nothing has been told to.
    pub fn new_at(host: H, now: u64, is_keep_alive: bool) -> (monitor: Self)
        ensures
            monitor@ == MonitorView::fresh(now, is_keep_alive),
            monitor.host == host,
            monitor@.wf(),
    {
        LongLinkConnectMonitor {
            host,
            status: LongLinkStatus::DisConnected,
            last_connect_time: now,
            last_connect_net_type: NO_NET,
            current_interval_index: 0,
            rebuild_longlink: false,
            is_keep_alive,
            rebuild_due: None,
            wake_due: None,
            is_svr_trig_off: false,
            connect_status: LongLinkStatus::ConnectIdle,
            dns_time: 0,
            is_active: false,
            is_foreground: false,
            last_foreground_change_time: 0,
            net_info: NO_NET,
            has_account: false,
            longlink_reset: false,
        }
    }

    /// Whether the server turned the trigger off.
    pub fn set_is_svr_trig_off(&mut self, is_svr_trig_off: bool)
        ensures
            final(self)@ == (MonitorView { is_svr_trig_off, ..old(self)@ }),
            final(self).host == old(self).host,
    {
        self.is_svr_trig_off = is_svr_trig_off;
    }

    /// Where the link is.
    pub fn set_connect_status(&mut self, connect_status: LongLinkStatus)
        ensures
            final(self)@ == (MonitorView { connect_status, ..old(self)@ }),
            final(self).host == old(self).host,
    {
        self.connect_status = connect_status;
    }

    /// When the link last asked dns.
    pub fn set_dns_time(&mut self, dns_time: u64)
        ensures
            final(self)@ == (MonitorView { dns_time, ..old(self)@ }),
            final(self).host == old(self).host,
    {
        self.dns_time = dns_time;
    }

    /// Whether the app is active.
    pub fn set_is_active(&mut self, is_active: bool)
        ensures
            final(self)@ == (MonitorView { is_active, ..old(self)@ }),
            final(self).host == old(self).host,
    {
        self.is_active = is_active;
    }

    /// Whether the app is in the foreground.
    pub fn set_is_foreground(&mut self, is_foreground: bool)
        ensures
            final(self)@ == (MonitorView { is_foreground, ..old(self)@ }),
            final(self).host == old(self).host,
    {
        self.is_foreground = is_foreground;
    }

    /// Since when the app has been where it is.
    pub fn set_last_foreground_change_time(&mut self, last_foreground_change_time: u64)
        ensures
            final(self)@ == (MonitorView { last_foreground_change_time, ..old(self)@ }),
            final(self).host == old(self).host,
    {
        self.last_foreground_change_time = last_foreground_change_time;
    }

    /// Which network it is; [`NO_NET`] is none.
    pub fn set_net_info(&mut self, net_info: i32)
        ensures
            final(self)@ == (MonitorView { net_info, ..old(self)@ }),
            final(self).host == old(self).host,
    {
        self.net_info = net_info;
    }

    /// Whether there is an account to connect for.
    pub fn set_has_account(&mut self, has_account: bool)
        ensures
            final(self)@ == (MonitorView { has_account, ..old(self)@ }),
            final(self).host == old(self).host,
    {
        self.has_account = has_account;
    }

    /// The host wants to be asked for a reset.
    pub fn set_longlink_reset(&mut self)
        ensures
            final(self)@ == (MonitorView { longlink_reset: true, ..old(self)@ }),
            final(self).host == old(self).host,
    {
        self.longlink_reset = true;
    }

    /// The host does not want to be asked for a reset.
    pub fn clear_longlink_reset(&mut self)
        ensures
            final(self)@ == (MonitorView { longlink_reset: false, ..old(self)@ }),
            final(self).host == old(self).host,
    {
        self.longlink_reset = false;
    }

    /// What the link last was.
    pub fn status(&self) -> (status: LongLinkStatus)
        ensures
            status == self@.status,
    {
        self.status
    }

    /// When the link last changed.
    pub fn last_connect_time(&self) -> (at: u64)
        ensures
            at == self@.last_connect_time,
    {
        self.last_connect_time
    }

    /// The network the link last changed on.
    pub fn last_connect_net_type(&self) -> (net: i32)
        ensures
            net == self@.last_connect_net_type,
    {
        self.last_connect_net_type
    }

    /// The rung of the ladder the monitor is on.
    pub fn current_interval_index(&self) -> (index: usize)
        ensures
            index == self@.current_interval_index,
    {
        self.current_interval_index
    }

    /// Whether the link is kept up without a task asking for it.
    pub fn is_keep_alive(&self) -> (keep: bool)
        ensures
            keep == self@.is_keep_alive,
    {
        self.is_keep_alive
    }

    /// When the rebuild alarm is due; `None` when it is not running.
    pub fn rebuild_due_time(&self) -> (due: Option<u64>)
        ensures
            due == self@.rebuild_due,
    {
        self.rebuild_due
    }

    /// When the wake alarm is due; `None` when it is not running.
    pub fn wake_due_time(&self) -> (due: Option<u64>)
        ensures
            due == self@.wake_due,
    {
        self.wake_due
    }

    /// `true` when the link is up when it is done. A server that turned the
    /// trigger off is never asked.
    pub fn make_sure_connected_at(&mut self, now: u64) -> (up: bool)
        requires
            old(self)@.wf(),
        ensures
            old(self)@.is_svr_trig_off ==> !up && *final(self) == *old(self),
            !old(self)@.is_svr_trig_off ==> exists|a: Asked<H>|
                {
                    &&& #[trigger] reached(
                        old(self)@,
                        now,
                        ConnectType::Task,
                        old(self).host,
                        a,
                        final(self).host,
                    )
                    &&& final(self)@ == old(self)@.interval_connected(
                        now,
                        ConnectType::Task,
                        a.drawn,
                        a.answer,
                    )
                },
            !old(self)@.is_svr_trig_off ==> up == (final(self)@.connect_status
                == LongLinkStatus::Connected),
            final(self)@.wf(),
    {
        if self.is_svr_trig_off {
            return false;
        }
        self.interval_connect(now, ConnectType::Task);
        self.connect_status == LongLinkStatus::Connected
    }

    /// The link is dropped first and then a new one is asked for. What is
    /// answered is that there is nothing left to wait for, not that the link
    /// is up: the same `true` comes back when the server turned the trigger
    /// off and nothing was asked for at all, and when the link is merely
    /// connecting.
    pub fn network_change_at(&mut self, now: u64) -> (asked: bool)
        requires
            old(self)@.wf(),
        ensures
            exists|state: LinkState, down: H, a: Asked<H>|
                {
                    let dropped = old(self)@.dropped(state);
                    &&& #[trigger] H::drops(old(self).host, down, state)
                    &&& #[trigger] reached(
                        old(self)@.dropped(state),
                        now,
                        ConnectType::NetworkChange,
                        down,
                        a,
                        final(self).host,
                    )
                    &&& asked == (dropped.wait(now, ConnectType::NetworkChange, a.drawn) == 0)
                    &&& final(self)@ == dropped.interval_connected(
                        now,
                        ConnectType::NetworkChange,
                        a.drawn,
                        a.answer,
                    )
                },
            final(self)@.wf(),
    {
        let state = self.host.disconnect();
        self.is_svr_trig_off = state.is_svr_trig_off;
        self.connect_status = state.connect_status;
        self.dns_time = state.dns_time;
        let ghost down = self.host;
        assert(H::drops(old(self).host, down, state));
        proof {
            assert(self@ == old(self)@.dropped(state));
        }
        self.interval_connect(now, ConnectType::NetworkChange) == 0
    }

    /// The app went to the foreground, or left it.
    pub fn on_foreground_changed_at(&mut self, now: u64, _is_foreground: bool)
        requires
            old(self)@.wf(),
        ensures
            exists|a: Asked<H>|
                {
                    &&& #[trigger] reached(
                        old(self)@,
                        now,
                        ConnectType::LongLink,
                        old(self).host,
                        a,
                        final(self).host,
                    )
                    &&& final(self)@ == old(self)@.auto_connected(now, a.drawn, a.answer)
                },
            final(self)@.wf(),
    {
        self.auto_interval_connect(now);
    }

    /// The app became active, or stopped being so.
    pub fn on_active_changed_at(&mut self, now: u64, _is_active: bool)
        requires
            old(self)@.wf(),
        ensures
            exists|a: Asked<H>|
                {
                    &&& #[trigger] reached(
                        old(self)@,
                        now,
                        ConnectType::LongLink,
                        old(self).host,
                        a,
                        final(self).host,
                    )
                    &&& final(self)@ == old(self)@.auto_connected(now, a.drawn, a.answer)
                },
            final(self)@.wf(),
    {
        self.auto_interval_connect(now);
    }

    /// Both alarms are cancelled, and a link that went down or failed to come
    /// up arms the wake one.
    pub fn on_longlink_status_changed_at(&mut self, now: u64, status: LongLinkStatus)
        ensures
            final(self)@ == old(self)@.status_noted(now, status),
            final(self).host == old(self).host,
    {
        self.rebuild_due = None;
        self.wake_due = None;
        if status == LongLinkStatus::ConnectFailed || status == LongLinkStatus::DisConnected {
            self.wake_due = Some(now.saturating_add(WAKE_ALARM_INTERVAL));
        }
        self.status = status;
        self.last_connect_time = now;
        self.last_connect_net_type = self.net_info;
    }

    /// One of the alarms went off; how long there is left to wait.
    pub fn on_alarm_at(&mut self, now: u64, rebuild_longlink: bool) -> (left: u64)
        requires
            old(self)@.wf(),
        ensures
            ({
                let rung = MonitorView { rebuild_longlink, ..old(self)@ };
                exists|a: Asked<H>|
                    {
                        &&& #[trigger] reached(
                            rung,
                            now,
                            ConnectType::LongLink,
                            old(self).host,
                            a,
                            final(self).host,
                        )
                        &&& left == rung.wait(now, ConnectType::LongLink, a.drawn)
                        &&& final(self)@ == rung.auto_connected(now, a.drawn, a.answer)
                    }
            }),
            final(self)@.wf(),
    {
        self.rebuild_longlink = rebuild_longlink;
        self.auto_interval_connect(now)
    }

    /// The host's heartbeat alarm was set; nothing comes of it.
    pub fn on_heartbeat_alarm_set(&mut self, _interval: u64)
        ensures
            final(self)@ == old(self)@,
            final(self).host == old(self).host,
    {
    }

    /// The host's heartbeat alarm went off; nothing comes of it.
    pub fn on_heartbeat_alarm_received(&mut self, _is_noop_timeout: bool)
        ensures
            final(self)@ == old(self)@,
            final(self).host == old(self).host,
    {
    }

    /// The link is reset where the host wants to be asked.
    pub fn reconnect(&mut self)
        ensures
            final(self)@ == old(self)@,
            if old(self)@.longlink_reset {
                H::resets(old(self).host, final(self).host)
            } else {
                final(self).host == old(self).host
            },
    {
        if self.longlink_reset {
            self.host.longlink_reset();
        }
    }

    /// How long there is left to wait, in milliseconds; `0` means the link was
    /// asked for now, or need not be.
    pub fn interval_connect(&mut self, now: u64, kind: ConnectType) -> (left: u64)
        requires
            old(self)@.wf(),
        ensures
            exists|a: Asked<H>|
                {
                    &&& #[trigger] reached(
                        old(self)@,
                        now,
                        kind,
                        old(self).host,
                        a,
                        final(self).host,
                    )
                    &&& left == old(self)@.wait(now, kind, a.drawn)
                    &&& final(self)@ == old(self)@.interval_connected(
                        now,
                        kind,
                        a.drawn,
                        a.answer,
                    )
                },
            final(self)@.wf(),
    {
        let ghost v0 = self@;
        let ghost h0 = self.host;
        let ghost none = Asked { drawn: 0, spread: h0, answer: LongLinkStatus::ConnectIdle };
        if self.is_svr_trig_off {
            assert(self@ == v0.interval_connected(now, kind, none.drawn, none.answer));
            assert(reached(v0, now, kind, h0, none, self.host));
            return 0;
        }
        if self.connect_status == LongLinkStatus::Connecting || self.connect_status
            == LongLinkStatus::Connected {
            assert(self@ == v0.interval_connected(now, kind, none.drawn, none.answer));
            assert(reached(v0, now, kind, h0, none, self.host));
            return 0;
        }
        let (seconds, Ghost(drawn)) = self.draw_interval(now, kind);
        let interval: u64 = seconds * 1000;
        let ghost spread = self.host;
        let ghost waits = Asked { drawn, spread, answer: LongLinkStatus::ConnectIdle };
        let posttime: u64 = now.saturating_sub(self.dns_time);
        let buffer: u64 = if self.is_active {
            0
        } else {
            INACTIVE_BUFFER
        };
        if self.is_active || kind == ConnectType::NetworkChange {
            self.current_interval_index = 0;
            if posttime.saturating_add(buffer) >= interval {
                let answer = self.connect();
                assert(self@ == v0.interval_connected(now, kind, drawn, answer@));
                assert(reached(v0, now, kind, h0, Asked { drawn, spread, answer: answer@ }, self.host));
                return 0;
            }
            assert(self@ == v0.interval_connected(now, kind, waits.drawn, waits.answer));
            assert(reached(v0, now, kind, h0, waits, self.host));
            return interval - posttime;
        }
        if self.rebuild_longlink {
            self.rebuild_longlink = false;
            let answer = self.connect();
            assert(self@ == v0.interval_connected(now, kind, drawn, answer@));
            assert(reached(v0, now, kind, h0, Asked { drawn, spread, answer: answer@ }, self.host));
            return 0;
        }
        if posttime < UP_OR_DOWN_THRESHOLD {
            if self.current_interval_index + 1 <= INTERNAL_MAX_INDEX {
                self.current_interval_index = self.current_interval_index + 1;
            } else {
                self.current_interval_index = INTERNAL_MAX_INDEX;
            }
        } else {
            self.current_interval_index = self.current_interval_index.saturating_sub(1);
        }
        assert(self.current_interval_index == v0.next_rung(now));
        let rung: u64 = RECONNECT_INTERVAL[self.current_interval_index];
        assert(rung <= 600);
        let left: u64 = (rung * 1000).saturating_sub(posttime);
        let interval_final: u64 = if left < UP_OR_DOWN_THRESHOLD {
            left
        } else {
            UP_OR_DOWN_THRESHOLD
        };
        if interval_final == 0 {
            let answer = self.connect();
            assert(self@ == v0.interval_connected(now, kind, drawn, answer@));
            assert(reached(v0, now, kind, h0, Asked { drawn, spread, answer: answer@ }, self.host));
            return 0;
        }
        assert(self@ == v0.interval_connected(now, kind, waits.drawn, waits.answer));
        assert(reached(v0, now, kind, h0, waits, self.host));
        interval_final
    }

    /// Both alarms are cancelled, and the rebuild one is armed with what is
    /// left to wait.
    fn auto_interval_connect(&mut self, now: u64) -> (left: u64)
        requires
            old(self)@.wf(),
        ensures
            exists|a: Asked<H>|
                {
                    &&& #[trigger] reached(
                        old(self)@,
                        now,
                        ConnectType::LongLink,
                        old(self).host,
                        a,
                        final(self).host,
                    )
                    &&& left == old(self)@.wait(now, ConnectType::LongLink, a.drawn)
                    &&& final(self)@ == old(self)@.auto_connected(now, a.drawn, a.answer)
                },
            final(self)@.wf(),
    {
        let ghost v0 = self@;
        self.rebuild_due = None;
        self.wake_due = None;
        assert(self@ == v0.silenced());
        let remain: u64 = self.interval_connect(now, ConnectType::LongLink);
        let ghost a = choose|a: Asked<H>|
            {
                &&& #[trigger] reached(
                    v0.silenced(),
                    now,
                    ConnectType::LongLink,
                    old(self).host,
                    a,
                    self.host,
                )
                &&& remain == v0.silenced().wait(now, ConnectType::LongLink, a.drawn)
                &&& self@ == v0.silenced().interval_connected(
                    now,
                    ConnectType::LongLink,
                    a.drawn,
                    a.answer,
                )
            };
        if remain != 0 {
            self.rebuild_due = Some(now.saturating_add(remain));
        }
        assert(reached(v0, now, ConnectType::LongLink, old(self).host, a, self.host));
        assert(self@ == v0.auto_connected(now, a.drawn, a.answer));
        remain
    }

    /// How long a connect of that kind waits, in **seconds**.
    pub fn interval(&mut self, now: u64, kind: ConnectType) -> (seconds: u64)
        ensures
            final(self)@ == old(self)@,
            exists|drawn: usize|
                seconds == #[trigger] old(self)@.interval(now, kind, drawn) && (if old(
                    self,
                )@.is_spread(now, kind) {
                    drawn < JITTER && H::draws(old(self).host, final(self).host, JITTER, drawn)
                } else {
                    final(self).host == old(self).host
                }),
    {
        let (seconds, Ghost(drawn)) = self.draw_interval(now, kind);
        assert(seconds == old(self)@.interval(now, kind, drawn));
        seconds
    }

    /// How long a connect of that kind waits, in seconds, and the number that was
    /// drawn for it.
    fn draw_interval(&mut self, now: u64, kind: ConnectType) -> (r: (u64, Ghost<usize>))
        ensures
            final(self)@ == old(self)@,
            r.0 == old(self)@.interval(now, kind, r.1@),
            r.0 <= NO_ACCOUNT_INFO_INACTIVE_INTERVAL,
            if old(self)@.is_spread(now, kind) {
                r.1@ < JITTER && H::draws(old(self).host, final(self).host, JITTER, r.1@)
            } else {
                final(self).host == old(self).host
            },
    {
        let state = self.cur_active_state(now);
        let base: u64 = INTERVALS[kind.row()][state.column()];
        assert(base <= 600);
        if kind != ConnectType::LongLink {
            return (base, Ghost(0));
        }
        if state == ActiveState::Inactive || state == ActiveState::ForegroundActive {
            if !self.is_active && !self.has_account {
                return (NO_ACCOUNT_INFO_INACTIVE_INTERVAL, Ghost(0));
            } else if self.net_info == NO_NET {
                return (base * NO_NET_SALT_RATE + NO_NET_SALT_RISE, Ghost(0));
            } else if !self.has_account {
                return (base * NO_ACCOUNT_INFO_SALT_RATE + NO_ACCOUNT_INFO_SALT_RISE, Ghost(0));
            } else {
                let drawn: usize = self.host.random(JITTER);
                return (base + drawn as u64, Ghost(drawn));
            }
        }
        (base, Ghost(0))
    }

    /// What the app is doing.
    pub fn cur_active_state(&self, now: u64) -> (state: ActiveState)
        ensures
            state == self@.active_state(now),
    {
        if !self.is_active {
            return ActiveState::Inactive;
        }
        if !self.is_foreground {
            return ActiveState::BackgroundActive;
        }
        let foreground: u64 = now.saturating_sub(self.last_foreground_change_time);
        if foreground >= 10 * 60 * 1000 {
            return ActiveState::ForegroundActive;
        }
        if foreground >= 60 * 1000 {
            return ActiveState::ForegroundTenMinute;
        }
        ActiveState::ForegroundOneMinute
    }

    /// The link is asked for.
    fn connect(&mut self) -> (answer: Ghost<LongLinkStatus>)
        ensures
            final(self)@ == old(self)@.connected(answer@),
            H::connects(old(self).host, final(self).host, answer@),
    {
        let answer = self.host.connect();
        self.connect_status = answer;
        Ghost(answer)
    }
}

/// A link that is up or coming up, and a server that turned the trigger off,
/// are never asked for: nothing changes, and there is nothing to wait for.
pub proof fn law_a_settled_link_is_not_asked_for(
    monitor: MonitorView,
    now: u64,
    kind: ConnectType,
    drawn: usize,
    answer: LongLinkStatus,
)
    requires
        monitor.settled(),
    ensures
        monitor.wait(now, kind, drawn) == 0,
        monitor.interval_connected(now, kind, drawn, answer) == monitor,
{
}

/// The background wait is never longer than ten minutes, and moves at most one
/// rung; a link that held for longer than that is asked for at once.
pub proof fn law_the_background_wait_is_bounded(monitor: MonitorView, now: u64)
    requires
        monitor.wf(),
    ensures
        0 <= monitor.ladder_wait(now) <= UP_OR_DOWN_THRESHOLD,
        monitor.current_interval_index - 1 <= monitor.next_rung(now)
            <= monitor.current_interval_index + 1,
        0 <= monitor.next_rung(now) <= INTERNAL_MAX_INDEX,
        since(now, monitor.dns_time) >= UP_OR_DOWN_THRESHOLD ==> monitor.ladder_wait(now) == 0,
{
}

/// A link that is down is asked for at once exactly where nothing is left to
/// wait; where something is, it is not asked for.
pub proof fn law_no_wait_is_now(
    monitor: MonitorView,
    now: u64,
    kind: ConnectType,
    drawn: usize,
    answer: LongLinkStatus,
)
    requires
        !monitor.settled(),
    ensures
        monitor.asks(now, kind, drawn) == (monitor.wait(now, kind, drawn) == 0),
        monitor.wait(now, kind, drawn) == 0 ==> monitor.interval_connected(
            now,
            kind,
            drawn,
            answer,
        ).connect_status == answer,
        monitor.wait(now, kind, drawn) != 0 ==> monitor.interval_connected(
            now,
            kind,
            drawn,
            answer,
        ).connect_status == monitor.connect_status,
        0 <= monitor.wait(now, kind, drawn),
{
}

/// The less the app is used, the longer the table makes a link wait, whatever
/// asks for it.
pub proof fn law_an_app_in_use_waits_less(kind: ConnectType, busy: ActiveState, idle: ActiveState)
    requires
        column(busy) <= column(idle),
    ensures
        INTERVALS@[row(kind)]@[column(busy)] <= INTERVALS@[row(kind)]@[column(idle)],
{
}

/// The ladder is walked a rung at a time: up while the link keeps coming back
/// quickly, down once it has held, and never off either end. The higher the
/// rung, the longer the wait.
pub proof fn law_the_ladder_is_walked_rung_by_rung(monitor: MonitorView, now: u64)
    requires
        monitor.wf(),
    ensures
        0 <= monitor.next_rung(now) <= INTERNAL_MAX_INDEX,
        since(now, monitor.dns_time) < UP_OR_DOWN_THRESHOLD && monitor.current_interval_index
            < INTERNAL_MAX_INDEX ==> monitor.next_rung(now) == monitor.current_interval_index + 1,
        since(now, monitor.dns_time) >= UP_OR_DOWN_THRESHOLD && monitor.current_interval_index
            > 0 ==> monitor.next_rung(now) == monitor.current_interval_index - 1,
        forall|low: int, high: int|
            0 <= low <= high <= INTERNAL_MAX_INDEX ==> (#[trigger] RECONNECT_INTERVAL@[low])
                <= (#[trigger] RECONNECT_INTERVAL@[high]),
{
}

/// What is drawn spreads the wait by less than [`JITTER`] seconds, and never makes it
/// shorter; a wait that is not spread is the same whatever was drawn.
pub proof fn law_the_jitter_is_bounded(
    monitor: MonitorView,
    now: u64,
    kind: ConnectType,
    drawn: usize,
)
    requires
        drawn < JITTER,
    ensures
        monitor.interval(now, kind, 0) <= monitor.interval(now, kind, drawn) < monitor.interval(
            now,
            kind,
            0,
        ) + JITTER,
        !monitor.is_spread(now, kind) ==> monitor.interval(now, kind, drawn) == monitor.interval(
            now,
            kind,
            0,
        ),
        monitor.wait(now, kind, 0) <= monitor.wait(now, kind, drawn),
{
}

/// A monitor stays on a rung of the ladder, whatever it is asked.
pub proof fn law_the_monitor_stays_on_the_ladder(
    monitor: MonitorView,
    now: u64,
    kind: ConnectType,
    drawn: usize,
    answer: LongLinkStatus,
)
    requires
        monitor.wf(),
    ensures
        monitor.interval_connected(now, kind, drawn, answer).wf(),
{
}

} // verus!
