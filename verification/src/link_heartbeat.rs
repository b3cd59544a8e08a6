//! The heartbeat of a long link: the noop that goes out when its reading comes,
//! the identify check that goes out before the first one, and the answer that
//! ends either.
use vstd::prelude::*;
use crate::config::MIN_HEART_INTERVAL;
use crate::long_link::{
    AlarmStatus, LinkHost, LinkTold, LinkView, LongLink, NoopAlarm, SendView, NOOP_ACTIVE_TIMEOUT,
    NOOP_LATE_TOO_MUCH, NOOP_TIMEOUT,
};
use crate::longlink::{packed_bytes, NOOP_CMDID};
use crate::longlink_connect_monitor::LongLinkStatus;
use crate::longlink_identify_checker::{CheckerView, IdentifyBuffer};
use crate::queue_spec::since;
use crate::task::Task;
use crate::task_profile::{ConnectView, ErrCmdType, NoopProfile};

verus! {

/// What a heartbeat was answered, question by question.
pub struct BeatAnswers {
    /// What the app answered the identify check with.
    pub identify: IdentifyBuffer,
    /// The task the heartbeat went out as, before anything was set on it.
    pub task: Task,
    /// The interval the smart heartbeat is on.
    pub interval: u32,
}

impl LinkView {
    /// The identify check is put to the app, unless the connection is checked.
    #[verifier::opaque]
    pub open spec fn identify_asked(self, answer: IdentifyBuffer) -> LinkView {
        LinkView {
            identify: self.identify.answered(answer.mode, answer.hash@, answer.cmdid),
            told: match self.identify.question() {
                Some(asked) => self.told.push(
                    LinkTold::IdentifyAsked {
                        channel_id: self.identify.channel_id,
                        asked,
                        mode: answer.mode,
                        buffer: answer.buffer@,
                        hash: answer.hash@,
                        cmdid: answer.cmdid,
                    },
                ),
                None => self.told,
            },
            ..self
        }
    }

    /// Something goes out: the identify check where the app answered with one
    /// to send, and else the noop, which goes out only when nothing else waits.
    pub open spec fn beat_goes_out(self, check: bool) -> bool {
        if check {
            self.status == LongLinkStatus::Connected
        } else {
            self.is_quiet()
        }
    }

    /// The identify check goes out in place of the noop.
    pub open spec fn check_goes_out(self, a: BeatAnswers) -> bool {
        self.identify.goes_out(a.identify.mode)
    }

    /// The task a heartbeat goes out as is a plain one, with its own two
    /// identifiers.
    pub open spec fn beat_task_fits(check: bool, a: BeatAnswers) -> bool {
        if check {
            a.task.is_plain_of(Task::LONG_LINK_IDENTIFY_CHECKER_TASK_ID, a.identify.cmdid)
        } else {
            a.task.is_plain_of(Task::NOOP_TASK_ID, NOOP_CMDID)
        }
    }

    /// What a heartbeat waits in the queue as.
    pub open spec fn beat_data(self, check: bool, a: BeatAnswers) -> SendView {
        if check {
            SendView {
                task: a.task,
                buffer: packed_bytes(
                    self.client_version,
                    a.identify.cmdid,
                    Task::LONG_LINK_IDENTIFY_CHECKER_TASK_ID,
                    a.identify.buffer@,
                ),
                pos: 0,
            }
        } else {
            SendView {
                task: Task { send_only: true, ..a.task },
                buffer: packed_bytes(
                    self.client_version,
                    NOOP_CMDID,
                    Task::NOOP_TASK_ID,
                    Seq::empty(),
                ),
                pos: 0,
            }
        }
    }

    /// The heartbeat waits in the queue, and a check is waited for.
    #[verifier::opaque]
    pub open spec fn beat_sent(self, check: bool, a: BeatAnswers) -> LinkView {
        LinkView {
            queue: if self.beat_goes_out(check) {
                self.queue.push(self.beat_data(check, a))
            } else {
                self.queue
            },
            identify: CheckerView {
                taskid: if check {
                    Task::LONG_LINK_IDENTIFY_CHECKER_TASK_ID
                } else {
                    self.identify.taskid
                },
                ..self.identify
            },
            ..self
        }
    }

    /// How long the answer is waited for.
    pub open spec fn beat_wait(need_active_timeout: bool) -> u64 {
        if need_active_timeout {
            NOOP_ACTIVE_TIMEOUT
        } else {
            NOOP_TIMEOUT
        }
    }

    /// The timeout alarm waits for the answer.
    pub open spec fn timeout_started(self, now: u64, wait: u64) -> LinkView {
        LinkView { noop_timeout: self.noop_timeout.cancelled().set(now, wait), ..self }
    }

    /// The timeout alarm waits only for what went out.
    #[verifier::opaque]
    pub open spec fn timeout_kept(self, sent: bool) -> LinkView {
        LinkView {
            noop_timeout: if sent {
                self.noop_timeout
            } else {
                self.noop_timeout.cancelled()
            },
            ..self
        }
    }

    /// The noop itself, or the identify check the app answered with, and
    /// whether it went out.
    #[verifier::opaque]
    pub open spec fn noop_requested(
        self,
        now: u64,
        need_active_timeout: bool,
        a: BeatAnswers,
    ) -> (LinkView, bool) {
        let check = self.check_goes_out(a);
        let asked = self.timeout_started(
            now,
            LinkView::beat_wait(need_active_timeout),
        ).identify_asked(a.identify);
        let sent = asked.beat_goes_out(check);
        (asked.beat_sent(check, a).timeout_kept(sent), sent)
    }

    /// The interval alarm is looked at.
    #[verifier::opaque]
    pub open spec fn interval_looked_at(self, now: u64) -> LinkView {
        LinkView { noop_interval: self.noop_interval.looked_at(now), ..self }
    }

    /// How long the alarm that went off really took; one that did not go off
    /// took no time.
    pub open spec fn actual_interval(alarm: NoopAlarm, now: u64) -> u64 {
        if alarm.status == AlarmStatus::OnAlarm {
            since(now, alarm.started)
        } else {
            0
        }
    }

    /// The smart heartbeat judges whether the network delivered the last
    /// heartbeat when it was due.
    #[verifier::opaque]
    pub open spec fn doze_judged(self, now: u64, is_mobile: bool, is_active: bool) -> LinkView {
        LinkView {
            told: if self.heartbeat {
                self.told.push(LinkTold::HeartbeatJudgeDoze { now, is_mobile, is_active })
            } else {
                self.told
            },
            ..self
        }
    }

    /// A heartbeat is out: where there is a smart heartbeat it is written on
    /// the profile, with the interval the alarm was set to and the one it
    /// really was.
    #[verifier::opaque]
    pub open spec fn beat_begun(self, now: u64, internal: u64, actual: u64) -> LinkView {
        LinkView {
            nooping: true,
            profile: ConnectView {
                noop_profiles: if self.heartbeat {
                    self.profile.noop_profiles.push(
                        NoopProfile {
                            success: false,
                            noop_internal: internal,
                            noop_actual_internal: actual,
                            noop_cost: 0,
                            noop_starttime: now,
                        },
                    )
                } else {
                    self.profile.noop_profiles
                },
                ..self.profile
            },
            told: if self.heartbeat {
                self.told.push(LinkTold::HeartbeatStarted { now })
            } else {
                self.told
            },
            ..self
        }
    }

    /// How long until the next heartbeat is asked.
    #[verifier::opaque]
    pub open spec fn interval_asked(self, is_active: bool, answer: u32) -> LinkView {
        LinkView {
            told: if self.heartbeat {
                self.told.push(LinkTold::HeartbeatInterval { is_active, answer })
            } else {
                self.told
            },
            ..self
        }
    }

    /// How long until the next heartbeat: the smart heartbeat's answer, or the
    /// minimum where there is none.
    pub open spec fn interval_answered(self, answer: u32) -> u64 {
        if self.heartbeat {
            answer as u64
        } else {
            MIN_HEART_INTERVAL as u64
        }
    }

    /// The alarm of the next heartbeat is set to the interval that is in force
    /// now; an interval of nothing sets none.
    #[verifier::opaque]
    pub open spec fn interval_set(self, now: u64, is_active: bool, answer: u32) -> LinkView {
        let asked = self.interval_asked(is_active, answer);
        let interval = self.interval_answered(answer);
        LinkView {
            first_noop_sent: true,
            last_heartbeat: interval,
            noop_interval: if interval != 0 {
                asked.noop_interval.cancelled().set(now, interval)
            } else {
                asked.noop_interval.cancelled()
            },
            ..asked
        }
    }

    /// The step of a run whose interval alarm is not waiting, up to the noop:
    /// the first heartbeat of a run has no interval to judge the network by.
    #[verifier::opaque]
    pub open spec fn beat_due(self, now: u64, is_mobile: bool, is_active: bool) -> LinkView {
        let looked = self.interval_looked_at(now);
        if self.first_noop_sent && self.noop_interval.looked_at(now).status
            == AlarmStatus::OnAlarm {
            looked.doze_judged(now, is_mobile, is_active)
        } else {
            looked
        }
    }

    /// The heartbeat of a run: the noop goes out, the smart heartbeat is told,
    /// and the alarm is started again.
    #[verifier::opaque]
    pub open spec fn beat(
        self,
        now: u64,
        is_mobile: bool,
        is_active: bool,
        a: BeatAnswers,
    ) -> (LinkView, bool) {
        let alarm = self.noop_interval.looked_at(now);
        let actual = LinkView::actual_interval(alarm, now);
        let due = self.beat_due(now, is_mobile, is_active);
        let (asked, sent) = due.noop_requested(now, actual >= NOOP_LATE_TOO_MUCH, a);
        let begun = if sent {
            asked.beat_begun(now, alarm.after, actual)
        } else {
            asked
        };
        (begun.interval_set(now, is_active, a.interval), sent)
    }

    /// The heartbeat the app asks for: it is out before the noop is, and not
    /// when nothing went out.
    pub open spec fn triggered(self, now: u64, a: BeatAnswers) -> LinkView {
        let (asked, sent) = LinkView { nooping: true, ..self }.noop_requested(now, false, a);
        LinkView { nooping: sent, ..asked }
    }
}

impl<H: LinkHost> LongLink<H> {
    /// How long until the next heartbeat; an app in the foreground pins it to
    /// the minimum.
    fn ask_interval(&mut self, is_active: bool) -> (r: (u64, Ghost<u32>))
        ensures
            final(self)@ == old(self)@.interval_asked(is_active, r.1@),
            r.0 == old(self)@.interval_answered(r.1@),
    {
        proof {
            reveal(LinkView::interval_asked);
        }
        if self.encoder.noop_interval() > 0 {
            return (self.encoder.noop_interval() as u64, Ghost(0));
        }
        if !self.heartbeat {
            return (MIN_HEART_INTERVAL as u64, Ghost(0));
        }
        let interval: u32 = self.host.heartbeat_interval(is_active);
        (interval as u64, Ghost(interval))
    }

    /// How long until the next heartbeat: the minimum when there is no smart
    /// heartbeat, and the smart heartbeat's own answer otherwise.
    pub fn next_heartbeat_interval(&mut self, is_active: bool) -> (interval: u64)
        ensures
            exists|answer: u32|
                final(self)@ == #[trigger] old(self)@.interval_asked(is_active, answer) && interval
                    == old(self)@.interval_answered(answer),
    {
        let (interval, Ghost(answer)) = self.ask_interval(is_active);
        interval
    }

    /// The reading the next heartbeat is due at; `None` when none is waiting.
    pub fn noop_due(&self) -> (due: Option<u64>)
        ensures
            due == self@.noop_interval.due,
    {
        self.noop_interval.due()
    }

    /// The reading the heartbeat in flight has to answer by; `None` when none
    /// is in flight.
    pub fn noop_timeout_due(&self) -> (due: Option<u64>)
        ensures
            due == self@.noop_timeout.due,
    {
        self.noop_timeout.due()
    }

    /// Where the interval alarm is.
    pub fn noop_interval_status(&self) -> (status: AlarmStatus)
        ensures
            status == self@.noop_interval.status,
    {
        self.noop_interval.status()
    }

    /// Where the timeout alarm is.
    pub fn noop_timeout_status(&self) -> (status: AlarmStatus)
        ensures
            status == self@.noop_timeout.status,
    {
        self.noop_timeout.status()
    }

    /// Whether the heartbeat that is due has not been sent yet. An alarm that
    /// was never started is one: the first heartbeat of a run goes out at once.
    /// A cancelled one is not, which stops a link without an interval.
    pub fn is_heartbeat_due_at(&self, now: u64) -> (due: bool)
        ensures
            due == (match self@.noop_interval.status {
                AlarmStatus::Init | AlarmStatus::OnAlarm => true,
                AlarmStatus::Start => self@.noop_interval.due matches Some(at) && now >= at,
                AlarmStatus::Cancel => false,
            }),
    {
        match self.noop_interval.status() {
            AlarmStatus::Init | AlarmStatus::OnAlarm => true,
            AlarmStatus::Start => self.noop_interval.is_due_at(now),
            AlarmStatus::Cancel => false,
        }
    }

    /// Whether the network delivered the last heartbeat when it was due; where
    /// there is no smart heartbeat nothing is judged.
    pub fn judge_doze_style_at(&mut self, now: u64, is_mobile: bool, is_active: bool)
        ensures
            final(self)@ == old(self)@.doze_judged(now, is_mobile, is_active),
    {
        proof {
            reveal(LinkView::doze_judged);
        }
        if self.encoder.noop_interval() > 0 {
            return;
        }
        if self.heartbeat {
            self.host.heartbeat_judge_doze(now, is_mobile, is_active);
        }
    }

    /// The identify check is put to the app, unless the connection is checked.
    fn ask_identify(&mut self) -> (r: (Option<(Vec<u8>, u32)>, Ghost<IdentifyBuffer>))
        ensures
            final(self)@ == old(self)@.identify_asked(r.1@),
            match r.0 {
                Some(sent) => old(self)@.identify.goes_out(r.1@.mode) && sent.0 == r.1@.buffer
                    && sent.1 == r.1@.cmdid,
                None => !old(self)@.identify.goes_out(r.1@.mode),
            },
    {
        proof {
            reveal(LinkView::identify_asked);
        }
        match self.identify.question() {
            Some(asked) => {
                let answer = self.host.identify_buffer(self.identify.channel_id(), asked);
                let ghost said = answer;
                let out = self.identify.get_identify_buffer(answer);
                (out, Ghost(said))
            },
            None => {
                let none = IdentifyBuffer::next(Vec::new());
                (None, Ghost(none))
            },
        }
    }

    /// The noop goes out when nothing else waits.
    fn send_noop_when_no_data(&mut self) -> (r: (bool, Ghost<Task>))
        ensures
            r.0 == old(self)@.is_quiet(),
            r.1@.is_plain_of(Task::NOOP_TASK_ID, NOOP_CMDID),
            r.0 ==> final(self)@ == old(self)@.pushed(
                Task { send_only: true, ..r.1@ },
                Seq::empty(),
            ),
            !r.0 ==> final(self)@ == old(self)@,
    {
        let cmdid: u32 = self.encoder.noop_cmdid();
        let nothing: Vec<u8> = Vec::new();
        assert(nothing@ =~= Seq::<u8>::empty());
        let plain = Task::new(Task::NOOP_TASK_ID, cmdid);
        let ghost before = self@;
        let sent = self.send_when_no_data(cmdid, Task::NOOP_TASK_ID, nothing.as_slice());
        let ghost task = if sent {
            choose|task: Task| #[trigger]
                task.is_plain_of(Task::NOOP_TASK_ID, NOOP_CMDID) && self@ == before.pushed(
                    Task { send_only: true, ..task },
                    Seq::empty(),
                )
        } else {
            plain
        };
        (sent, Ghost(task))
    }

    /// The identify check goes out, and is waited for.
    fn send_identify(&mut self, buffer: Vec<u8>, cmdid: u32) -> (r: (bool, Ghost<Task>))
        ensures
            r.0 == (old(self)@.status == LongLinkStatus::Connected),
            r.1@.is_plain_of(Task::LONG_LINK_IDENTIFY_CHECKER_TASK_ID, cmdid),
            final(self)@ == (LinkView {
                queue: if r.0 {
                    old(self)@.pushed(r.1@, buffer@).queue
                } else {
                    old(self)@.queue
                },
                identify: CheckerView {
                    taskid: Task::LONG_LINK_IDENTIFY_CHECKER_TASK_ID,
                    ..old(self)@.identify
                },
                ..old(self)@
            }),
    {
        let task = Task::new(Task::LONG_LINK_IDENTIFY_CHECKER_TASK_ID, cmdid);
        let ghost plain = task;
        let sent = self.send(task, buffer.as_slice());
        self.identify.set_id(Task::LONG_LINK_IDENTIFY_CHECKER_TASK_ID);
        (sent, Ghost(plain))
    }

    /// What the app answered with goes out, or the noop does.
    fn send_beat(
        &mut self,
        out: Option<(Vec<u8>, u32)>,
        Ghost(identify): Ghost<IdentifyBuffer>,
    ) -> (r: (bool, Ghost<BeatAnswers>))
        requires
            out matches Some(sent) ==> sent.0 == identify.buffer && sent.1 == identify.cmdid,
        ensures
            r.1@.identify == identify,
            LinkView::beat_task_fits(out is Some, r.1@),
            r.0 == old(self)@.beat_goes_out(out is Some),
            final(self)@ == old(self)@.beat_sent(out is Some, r.1@),
    {
        proof {
            reveal(LinkView::beat_sent);
        }
        match out {
            Some((buffer, cmdid)) => {
                let (sent, Ghost(task)) = self.send_identify(buffer, cmdid);
                (sent, Ghost(BeatAnswers { identify, task, interval: 0 }))
            },
            None => {
                let (sent, Ghost(task)) = self.send_noop_when_no_data();
                (sent, Ghost(BeatAnswers { identify, task, interval: 0 }))
            },
        }
    }

    /// The timeout alarm waits only for what went out.
    fn keep_timeout(&mut self, sent: bool)
        ensures
            final(self)@ == old(self)@.timeout_kept(sent),
    {
        proof {
            reveal(LinkView::timeout_kept);
        }
        if !sent {
            self.noop_timeout.cancel();
        }
    }

    /// The noop itself, or the identify check the app answered with when there
    /// is one to send.
    fn request_noop(&mut self, now: u64, need_active_timeout: bool) -> (r: (
        bool,
        Ghost<BeatAnswers>,
    ))
        requires
            now + NOOP_TIMEOUT <= u64::MAX,
        ensures
            LinkView::beat_task_fits(old(self)@.check_goes_out(r.1@), r.1@),
            (final(self)@, r.0) == old(self)@.noop_requested(now, need_active_timeout, r.1@),
    {
        proof {
            reveal(LinkView::noop_requested);
        }
        let wait: u64 = if need_active_timeout {
            NOOP_ACTIVE_TIMEOUT
        } else {
            NOOP_TIMEOUT
        };
        self.noop_timeout.cancel();
        self.noop_timeout.start_at(now, wait);
        let (out, Ghost(identify)) = self.ask_identify();
        let (sent, Ghost(a)) = self.send_beat(out, Ghost(identify));
        self.keep_timeout(sent);
        (sent, Ghost(a))
    }

    /// The noop itself, or the identify check the app answered with when there
    /// is one to send: the timeout alarm is started either way, and cancelled
    /// again when nothing went out.
    pub fn noop_req_at(&mut self, now: u64, need_active_timeout: bool) -> (sent: bool)
        requires
            now + NOOP_TIMEOUT <= u64::MAX,
        ensures
            exists|a: BeatAnswers|
                (final(self)@, sent) == #[trigger] old(self)@.noop_requested(
                    now,
                    need_active_timeout,
                    a,
                ) && LinkView::beat_task_fits(old(self)@.check_goes_out(a), a),
    {
        let (sent, Ghost(a)) = self.request_noop(now, need_active_timeout);
        sent
    }

    /// The heartbeat the app asks for, which is a noop that is not the one the
    /// interval asked for. The heartbeat is out before the noop is, in case the
    /// network is faster than the call.
    pub fn trig_noop_at(&mut self, now: u64)
        requires
            now + NOOP_TIMEOUT <= u64::MAX,
        ensures
            exists|a: BeatAnswers|
                final(self)@ == #[trigger] old(self)@.triggered(now, a)
                    && LinkView::beat_task_fits(old(self)@.check_goes_out(a), a),
    {
        let ghost before = self@;
        self.nooping = true;
        let (sent, Ghost(a)) = self.request_noop(now, false);
        self.nooping = sent;
        assert(self@ == before.triggered(now, a));
    }

    /// The step up to the noop.
    fn come_due(&mut self, now: u64, is_mobile: bool, is_active: bool)
        ensures
            final(self)@ == old(self)@.beat_due(now, is_mobile, is_active),
    {
        proof {
            reveal(LinkView::beat_due);
            reveal(LinkView::interval_looked_at);
        }
        let first = !self.first_noop_sent;
        let _went_off = self.noop_interval.on_alarm_at(now);
        if !first && self.noop_interval.status() == AlarmStatus::OnAlarm {
            self.judge_doze_style_at(now, is_mobile, is_active);
        }
    }

    /// A heartbeat is out.
    fn begin_beat(&mut self, now: u64, internal: u64, actual: u64)
        ensures
            final(self)@ == old(self)@.beat_begun(now, internal, actual),
    {
        proof {
            reveal(LinkView::beat_begun);
        }
        self.nooping = true;
        if self.encoder.noop_interval() > 0 || !self.heartbeat {
            return;
        }
        self.profile.noop_profiles.push(
            NoopProfile {
                success: false,
                noop_internal: internal,
                noop_actual_internal: actual,
                noop_cost: 0,
                noop_starttime: now,
            },
        );
        self.host.heartbeat_started(now);
    }

    /// The alarm of the next heartbeat is set.
    fn set_interval(&mut self, now: u64, is_active: bool) -> (answer: Ghost<u32>)
        requires
            now + u32::MAX <= u64::MAX,
        ensures
            final(self)@ == old(self)@.interval_set(now, is_active, answer@),
    {
        proof {
            reveal(LinkView::interval_set);
        }
        let (interval, Ghost(answer)) = self.ask_interval(is_active);
        self.first_noop_sent = true;
        self.last_heartbeat = interval;
        self.noop_interval.cancel();
        if interval != 0 {
            self.noop_interval.start_at(now, interval);
        }
        Ghost(answer)
    }

    /// The step of a run whose interval alarm is not waiting: the noop goes
    /// out, the smart heartbeat is told, and the alarm is started again on the
    /// interval that is in force now.
    pub fn send_heartbeat_at(&mut self, now: u64, is_mobile: bool, is_active: bool) -> (sent: bool)
        requires
            now + u32::MAX <= u64::MAX,
        ensures
            exists|a: BeatAnswers|
                (final(self)@, sent) == #[trigger] old(self)@.beat(now, is_mobile, is_active, a)
                    && LinkView::beat_task_fits(old(self)@.check_goes_out(a), a),
    {
        let ghost before = self@;
        let alarm = self.look_at_interval(now);
        let actual: u64 = if alarm.status() == AlarmStatus::OnAlarm {
            alarm.elapse_at(now)
        } else {
            0
        };
        self.come_due(now, is_mobile, is_active);
        proof {
            lemma_due_keeps_check(before, now, is_mobile, is_active);
        }
        let (sent, Ghost(b)) = self.request_noop(now, actual >= NOOP_LATE_TOO_MUCH);
        if sent {
            self.begin_beat(now, alarm.after(), actual);
        }
        let Ghost(interval) = self.set_interval(now, is_active);
        let ghost a = BeatAnswers { interval, ..b };
        proof {
            reveal(LinkView::beat);
            lemma_requested(
                before.beat_due(now, is_mobile, is_active),
                now,
                actual >= NOOP_LATE_TOO_MUCH,
                a,
                b,
            );
        }
        assert((self@, sent) == before.beat(now, is_mobile, is_active, a));
        sent
    }

    /// The interval alarm as it is at the reading.
    fn look_at_interval(&self, now: u64) -> (alarm: NoopAlarm)
        ensures
            alarm == self@.noop_interval.looked_at(now),
    {
        let mut alarm = self.noop_interval;
        let _went_off = alarm.on_alarm_at(now);
        alarm
    }

    /// What the server answered the identify check with is put to the app.
    fn put_check(&mut self, body: &[u8]) -> (accepted: bool)
        ensures
            final(self)@ == old(self)@.check_put(body@, accepted),
    {
        proof {
            reveal(LinkView::check_put);
        }
        let accepted = self.host.identify_response(
            self.identify.channel_id(),
            body,
            self.identify.hash_code(),
        );
        self.identify.on_identify_resp(accepted)
    }

    /// The app judges the answer of the identify check.
    fn judge_check(&mut self, taskid: u32, body: &[u8]) -> (accepted: Ghost<bool>)
        ensures
            final(self)@ == old(self)@.check_judged(taskid, body@, accepted@),
    {
        proof {
            reveal(LinkView::check_judged);
        }
        if !self.identify.is_identify_resp(taskid) {
            return Ghost(false);
        }
        if !self.put_check(body) {
            return Ghost(false);
        }
        self.network_report(ErrCmdType::NoError, 0);
        Ghost(true)
    }

    /// The heartbeat that is out is answered.
    fn end_beat(&mut self, now: u64)
        ensures
            final(self)@ == old(self)@.beat_answered(now),
    {
        proof {
            reveal(LinkView::beat_answered);
        }
        self.nooping = false;
        self.noop_timeout.cancel();
        if self.encoder.noop_interval() > 0 || !self.heartbeat {
            return;
        }
        let count: usize = self.profile.noop_profiles.len();
        if count > 0 {
            let last = self.profile.noop_profiles[count - 1];
            self.profile.noop_profiles.set(
                count - 1,
                NoopProfile {
                    noop_cost: now.saturating_sub(last.noop_starttime),
                    success: true,
                    noop_internal: last.noop_internal,
                    noop_actual_internal: last.noop_actual_internal,
                    noop_starttime: last.noop_starttime,
                },
            );
        }
        let seconds: i64 = (now / 1000) as i64;
        self.host.heartbeat_result(true, false, seconds);
    }

    /// Whether what came back is the answer to a heartbeat: the identify
    /// check's, or the noop's. An answer to a heartbeat that is out ends it.
    pub fn noop_resp_at(&mut self, now: u64, cmdid: u32, taskid: u32, body: &[u8]) -> (is_noop: bool)
        ensures
            is_noop == old(self)@.is_beat_answer(cmdid, taskid),
            exists|accepted: bool|
                final(self)@ == #[trigger] old(self)@.beat_heard(
                    now,
                    cmdid,
                    taskid,
                    body@,
                    accepted,
                ),
    {
        let ghost before = self@;
        let is_noop = self.identify.is_identify_resp(taskid) || self.encoder.noop_isresp(
            Task::NOOP_TASK_ID,
            cmdid,
        );
        let was_out = self.nooping;
        let Ghost(accepted) = self.judge_check(taskid, body);
        if is_noop && was_out {
            self.end_beat(now);
        }
        proof {
            reveal(LinkView::beat_heard);
        }
        assert(self@ == before.beat_heard(now, cmdid, taskid, body@, accepted));
        is_noop
    }

    /// Whether one of the two noop alarms went off at `now`, and only then is
    /// the host told.
    pub fn on_noop_alarm_at(&mut self, now: u64, noop_timeout: bool) -> (went_off: bool)
        ensures
            (final(self)@, went_off) == old(self)@.alarm_looked_at(now, noop_timeout),
    {
        let went_off = if noop_timeout {
            self.noop_timeout.on_alarm_at(now)
        } else {
            self.noop_interval.on_alarm_at(now)
        };
        if went_off {
            self.host.noop_alarm_received(noop_timeout);
        }
        went_off
    }
}

impl LinkView {
    /// What the server answered the identify check with is put to the app.
    #[verifier::opaque]
    pub open spec fn check_put(self, response: Seq<u8>, accepted: bool) -> LinkView {
        LinkView { identify: self.identify.judged(accepted), ..self }.heard(
            LinkTold::IdentifyJudged {
                channel_id: self.identify.channel_id,
                response,
                hash: self.identify.hash_code,
                answer: accepted,
            },
        )
    }

    /// The app judges the answer of the identify check, and a connection it
    /// took is reported.
    #[verifier::opaque]
    pub open spec fn check_judged(
        self,
        taskid: u32,
        response: Seq<u8>,
        accepted: bool,
    ) -> LinkView {
        if !self.identify.is_resp(taskid) {
            self
        } else if !accepted {
            self.check_put(response, false)
        } else {
            self.check_put(response, true).reported(ErrCmdType::NoError, 0)
        }
    }

    /// The heartbeat that is out is answered: where there is a smart heartbeat
    /// the profile says how long it took.
    #[verifier::opaque]
    pub open spec fn beat_answered(self, now: u64) -> LinkView {
        let noops = self.profile.noop_profiles;
        LinkView {
            nooping: false,
            noop_timeout: self.noop_timeout.cancelled(),
            profile: ConnectView {
                noop_profiles: if self.heartbeat && noops.len() > 0 {
                    noops.update(
                        noops.len() - 1,
                        NoopProfile {
                            noop_cost: since(now, noops.last().noop_starttime),
                            success: true,
                            ..noops.last()
                        },
                    )
                } else {
                    noops
                },
                ..self.profile
            },
            told: if self.heartbeat {
                self.told.push(
                    LinkTold::HeartbeatResult {
                        success: true,
                        fail_of_timeout: false,
                        seconds: (now / 1000) as i64,
                    },
                )
            } else {
                self.told
            },
            ..self
        }
    }

    /// A package is the answer to a heartbeat: the identify check's, or the
    /// noop's.
    pub open spec fn is_beat_answer(self, cmdid: u32, taskid: u32) -> bool {
        self.identify.is_resp(taskid) || cmdid == NOOP_CMDID
    }

    /// A package came back.
    #[verifier::opaque]
    pub open spec fn beat_heard(
        self,
        now: u64,
        cmdid: u32,
        taskid: u32,
        body: Seq<u8>,
        accepted: bool,
    ) -> LinkView {
        let judged = self.check_judged(taskid, body, accepted);
        if self.is_beat_answer(cmdid, taskid) && self.nooping {
            judged.beat_answered(now)
        } else {
            judged
        }
    }

    /// One of the two noop alarms is looked at, and the host is told when it
    /// went off.
    pub open spec fn alarm_looked_at(self, now: u64, noop_timeout: bool) -> (LinkView, bool) {
        let went_off = if noop_timeout {
            self.noop_timeout.goes_off(now)
        } else {
            self.noop_interval.goes_off(now)
        };
        (
            LinkView {
                noop_timeout: if noop_timeout {
                    self.noop_timeout.looked_at(now)
                } else {
                    self.noop_timeout
                },
                noop_interval: if noop_timeout {
                    self.noop_interval
                } else {
                    self.noop_interval.looked_at(now)
                },
                told: if went_off {
                    self.told.push(LinkTold::NoopAlarmReceived { noop_timeout })
                } else {
                    self.told
                },
                ..self
            },
            went_off,
        )
    }
}

/// What went out does not depend on the interval that is asked for after it.
proof fn lemma_requested(
    v: LinkView,
    now: u64,
    need_active_timeout: bool,
    a: BeatAnswers,
    b: BeatAnswers,
)
    requires
        a.identify == b.identify,
        a.task == b.task,
    ensures
        v.noop_requested(now, need_active_timeout, a) == v.noop_requested(
            now,
            need_active_timeout,
            b,
        ),
{
    reveal(LinkView::noop_requested);
    reveal(LinkView::beat_sent);
}

/// The check is not touched by the alarm.
proof fn lemma_due_keeps_check(v: LinkView, now: u64, is_mobile: bool, is_active: bool)
    ensures
        v.beat_due(now, is_mobile, is_active).identify == v.identify,
{
    reveal(LinkView::beat_due);
    reveal(LinkView::interval_looked_at);
    reveal(LinkView::doze_judged);
}

/// A heartbeat never goes out on a link that is not up, and a noop never waits
/// behind anything: what went out is the only thing queued.
pub proof fn law_a_noop_waits_behind_nothing(
    link: LinkView,
    now: u64,
    need_active_timeout: bool,
    a: BeatAnswers,
)
    ensures
        ({
            let (after, sent) = link.noop_requested(now, need_active_timeout, a);
            &&& sent ==> link.status == LongLinkStatus::Connected
            &&& sent && !link.check_goes_out(a) ==> after.queue.len() == 1
            &&& !sent ==> after.queue == link.queue && after.noop_timeout.due is None
            &&& sent ==> after.noop_timeout.due == Some(
                (now + LinkView::beat_wait(need_active_timeout)) as u64,
            )
        }),
{
    reveal(LinkView::noop_requested);
    reveal(LinkView::identify_asked);
    reveal(LinkView::beat_sent);
    reveal(LinkView::timeout_kept);
}

/// A heartbeat that is out is answered once: the answer stops the timeout
/// alarm, and the same answer again ends nothing.
pub proof fn law_a_heartbeat_is_answered_once(
    link: LinkView,
    now: u64,
    later: u64,
    body: Seq<u8>,
    accepted: bool,
)
    requires
        link.nooping,
        !link.identify.is_resp(Task::NOOP_TASK_ID),
    ensures
        ({
            let once = link.beat_heard(now, NOOP_CMDID, Task::NOOP_TASK_ID, body, accepted);
            &&& !once.nooping
            &&& !once.noop_timeout.goes_off(later)
            &&& once.beat_heard(later, NOOP_CMDID, Task::NOOP_TASK_ID, body, accepted) == once
        }),
{
    reveal(LinkView::beat_heard);
    reveal(LinkView::check_judged);
    reveal(LinkView::beat_answered);
}

} // verus!
