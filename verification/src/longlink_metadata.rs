//! A long link, and the things that keep it up, in one value.
//!
//! This is the wiring: the monitor that decides when the link is made again and
//! the timer check that gets it off a backup ip ask the link things, and take
//! it down. A check that found a better pair takes the link down, but only when
//! the pair it is on is a backup one.
use vstd::prelude::*;
use crate::ip_port::IpSourceType;
use crate::long_link::{DisconnectInternalCode, LinkHost, LinkTold, LinkView, LongLink};
use crate::longlink_connect_monitor::{
    LinkState, LongLinkConnectMonitor, LongLinkStatus, MonitorHost, MonitorView,
};
use crate::net_source::LonglinkConfig;
use crate::netsource_timercheck::{NetSourceTimerCheck, TimerAnswers, TimerCheckHost, TimerView};
use crate::task::Task;

verus! {

/// The link a monitor watches: asking for it starts a run where none is in
/// flight, and a change of the network takes it down.
impl<H: LinkHost> MonitorHost for LongLink<H> {
    open spec fn connects(before: Self, after: Self, answer: LongLinkStatus) -> bool {
        after@ == before@.made_sure().0 && answer == after@.status
    }

    open spec fn drops(before: Self, after: Self, answer: LinkState) -> bool {
        &&& after@ == before@.disconnected(DisconnectInternalCode::NetworkChange)
        &&& answer == (LinkState {
            is_svr_trig_off: after@.server_triggered_off,
            connect_status: after@.status,
            dns_time: after@.profile.dns_time,
        })
    }

    open spec fn resets(before: Self, after: Self) -> bool {
        after == before
    }

    open spec fn draws(before: Self, after: Self, bound: usize, answer: usize) -> bool {
        after@ == before@.heard(LinkTold::Random { bound, answer })
    }

    fn random(&mut self, bound: usize) -> (answer: usize) {
        self.host.random(bound)
    }

    fn connect(&mut self) -> (answer: LongLinkStatus) {
        let _sure = self.make_sure_connected();
        self.connect_status()
    }

    fn disconnect(&mut self) -> (answer: LinkState) {
        LongLink::disconnect(self, DisconnectInternalCode::NetworkChange);
        LinkState {
            is_svr_trig_off: self.server_triggered_off,
            connect_status: self.status,
            dns_time: self.profile.dns_time,
        }
    }

    fn longlink_reset(&mut self) {
    }
}

/// One long link and the things that keep it up.
pub struct LongLinkMetaData<H, T> {
    /// The monitor, which holds the link.
    pub monitor: LongLinkConnectMonitor<LongLink<H>>,
    pub checker: NetSourceTimerCheck<T>,
    pub config: LonglinkConfig,
}

/// The contents of a [`LongLinkMetaData`].
pub struct MetaView {
    pub link: LinkView,
    pub monitor: MonitorView,
    pub checker: TimerView,
    pub config: LonglinkConfig,
}

impl<H: LinkHost, T: TimerCheckHost> View for LongLinkMetaData<H, T> {
    type V = MetaView;

    open spec fn view(&self) -> MetaView {
        MetaView {
            link: self.monitor.host@,
            monitor: self.monitor@,
            checker: self.checker@,
            config: self.config,
        }
    }
}

impl<H: LinkHost, T: TimerCheckHost> LongLinkMetaData<H, T> {
    /// The monitor and the check are sound.
    pub open spec fn wf(&self) -> bool {
        self.monitor@.wf() && self.checker.wf()
    }
}

impl MetaView {
    /// What the monitor knows of the link.
    pub open spec fn watched(self) -> MonitorView {
        MonitorView {
            is_svr_trig_off: self.link.server_triggered_off,
            connect_status: self.link.status,
            dns_time: self.link.profile.dns_time,
            ..self.monitor
        }
    }

    /// What the timer check knows of the link.
    pub open spec fn looked_at(self) -> TimerView {
        TimerView {
            ip_type: self.link.profile.ip_type,
            host: self.link.profile.host,
            ip: self.link.profile.ip,
            ..self.checker
        }
    }

    /// A check found a pair that answers: a link on a backup pair is taken down
    /// to be made on it again; one on a pair dns gave it is where the check
    /// wanted it anyway.
    pub open spec fn better_pair_found(link: LinkView) -> LinkView {
        if link.profile.ip_type == IpSourceType::Backup {
            link.disconnected(DisconnectInternalCode::TimeCheckSucc)
        } else {
            link
        }
    }

    /// The timer check is made on the link.
    pub open spec fn checked(self, now: u64, a: TimerAnswers) -> MetaView {
        MetaView {
            checker: self.looked_at().checked(now, a),
            link: if self.looked_at().outcome(now, a) == Some(true) {
                MetaView::better_pair_found(self.link)
            } else {
                self.link
            },
            ..self
        }
    }
}

/// A check found a pair that answers.
pub fn on_timer_check_suc<H: LinkHost>(link: &mut LongLink<H>)
    ensures
        final(link)@ == MetaView::better_pair_found(old(link)@),
{
    if link.profile.ip_type != IpSourceType::Backup {
        return;
    }
    LongLink::disconnect(link, DisconnectInternalCode::TimeCheckSucc);
}

impl<H: LinkHost, T: TimerCheckHost> LongLinkMetaData<H, T> {
    /// The link, and the things that keep it up, wired to it.
    pub fn new(config: LonglinkConfig, link: LongLink<H>, checks: T, now: u64) -> (meta: Self)
        ensures
            meta.wf(),
            meta@.link == link@,
            meta@.monitor == MonitorView::fresh(now, config.is_keep_alive),
            meta@.checker == TimerView::fresh(checks.heard()),
            meta@.config == config,
    {
        let monitor = LongLinkConnectMonitor::new_at(link, now, config.is_keep_alive);
        let checker = NetSourceTimerCheck::new_at(checks, now);
        LongLinkMetaData { monitor, checker, config }
    }

    /// The link.
    pub fn channel(&self) -> (link: &LongLink<H>)
        ensures
            link@ == self@.link,
    {
        &self.monitor.host
    }

    /// The link, to be changed.
    pub fn channel_mut(&mut self) -> (link: &mut LongLink<H>)
        requires
            old(self).wf(),
        ensures
            *link == old(self).monitor.host,
            final(self).wf(),
            final(self)@ == (MetaView { link: final(link)@, ..old(self)@ }),
    {
        &mut self.monitor.host
    }

    /// The monitor, which knows the link as it is now.
    pub fn monitor(&mut self) -> (monitor: &mut LongLinkConnectMonitor<LongLink<H>>)
        requires
            old(self).wf(),
        ensures
            monitor@ == old(self)@.watched(),
            monitor@.wf(),
            monitor.host == old(self).monitor.host,
            final(self)@ == (MetaView {
                monitor: final(monitor)@,
                link: final(monitor).host@,
                ..old(self)@
            }),
            final(monitor)@.wf() ==> final(self).wf(),
    {
        self.monitor.is_svr_trig_off = self.monitor.host.is_server_triggered_off();
        self.monitor.connect_status = self.monitor.host.connect_status();
        self.monitor.dns_time = self.monitor.host.profile().dns_time;
        &mut self.monitor
    }

    /// The timer check, which knows the link as it is now.
    pub fn checker(&mut self) -> (checker: &mut NetSourceTimerCheck<T>)
        requires
            old(self).wf(),
        ensures
            checker@ == old(self)@.looked_at(),
            checker.wf(),
            final(self)@ == (MetaView { checker: final(checker)@, ..old(self)@ }),
            final(checker).wf() ==> final(self).wf(),
    {
        self.checker.ip_type = self.monitor.host.profile().ip_type;
        self.checker.host = self.monitor.host.profile().host.clone();
        self.checker.ip = self.monitor.host.profile().ip.clone();
        &mut self.checker
    }

    /// The timer check is made; one that found a better pair takes a link on a
    /// backup pair down.
    pub fn check_at(&mut self, now: u64) -> (outcome: Option<bool>)
        requires
            old(self).wf(),
        ensures
            final(self).wf(),
            exists|a: TimerAnswers|
                outcome == old(self)@.looked_at().outcome(now, a) && final(self)@
                    == #[trigger] old(self)@.checked(now, a),
    {
        let ghost before = self@;
        let outcome = self.checker().check_at(now);
        let ghost a = choose|a: TimerAnswers|
            outcome == before.looked_at().outcome(now, a) && self@.checker
                == #[trigger] before.looked_at().checked(now, a);
        if let Some(true) = outcome {
            on_timer_check_suc(&mut self.monitor.host);
        }
        assert(self@ == before.checked(now, a));
        outcome
    }

    /// What the signalling keeper holds the mapping up with: an empty package,
    /// which goes out only when nothing else waits.
    pub fn send_signal(&mut self, cmdid: u32) -> (sent: bool)
        requires
            old(self).wf(),
        ensures
            final(self).wf(),
            sent == old(self)@.link.is_quiet(),
            sent ==> exists|task: Task| #[trigger]
                task.is_plain_of(Task::SIGNALLING_KEEPER_TASK_ID, cmdid) && final(self)@ == (
                MetaView {
                    link: old(self)@.link.pushed(Task { send_only: true, ..task }, seq![]),
                    ..old(self)@
                }),
            !sent ==> final(self)@ == old(self)@,
    {
        let nothing: Vec<u8> = Vec::new();
        assert(nothing@ =~= seq![]);
        self.monitor.host.send_when_no_data(
            cmdid,
            Task::SIGNALLING_KEEPER_TASK_ID,
            nothing.as_slice(),
        )
    }

    /// What the link was made from.
    pub fn config(&self) -> (config: &LonglinkConfig)
        ensures
            *config == self@.config,
    {
        &self.config
    }

    /// Whether the link is up.
    pub fn is_connected(&self) -> (connected: bool)
        ensures
            connected == (self@.link.status == LongLinkStatus::Connected),
    {
        self.monitor.host.connect_status() == LongLinkStatus::Connected
    }
}

/// Only a link on a backup pair is taken down by a check: any other is left as
/// it is, and a check of it is not even made.
pub proof fn law_only_a_backup_link_is_taken_down(meta: MetaView, now: u64, a: TimerAnswers)
    requires
        meta.link.profile.ip_type != IpSourceType::Backup,
    ensures
        meta.looked_at().outcome(now, a) is None,
        meta.checked(now, a).link == meta.link,
        meta.checked(now, a).checker.told == meta.checker.told,
{
}

} // verus!
