//! What the connect monitor promises: when a link is asked for, and how long it waits
//! until then.
use vstd::prelude::*;
use crate::longlink_connect_monitor::{
    ActiveState, ConnectType, LongLinkStatus, MonitorView, RECONNECT_INTERVAL,
};

verus! {

/// How long ago a reading was, in milliseconds.
pub open spec fn gone_by(now: u64, then: u64) -> int {
    if now >= then {
        now - then
    } else {
        0
    }
}

/// What the app is doing is told by four things: whether it is active, whether it is in
/// the foreground, and whether it has been there for a minute and for ten.
pub proof fn law_what_the_app_is_doing(m: MonitorView, now: u64)
    ensures
        ({
            let state = m.active_state(now);
            let there = gone_by(now, m.last_foreground_change_time);
            let front = m.is_active && m.is_foreground;
            &&& state == ActiveState::Inactive <==> !m.is_active
            &&& state == ActiveState::BackgroundActive <==> m.is_active && !m.is_foreground
            &&& state == ActiveState::ForegroundOneMinute <==> front && there < 60_000
            &&& state == ActiveState::ForegroundTenMinute <==> front && 60_000 <= there < 600_000
            &&& state == ActiveState::ForegroundActive <==> front && there >= 600_000
        }),
{
}

/// How long a connect for a task waits, in seconds: the less the app is used the
/// longer. One for a network that changed does not wait.
pub proof fn law_how_long_a_task_waits_for_its_link(m: MonitorView, now: u64, drawn: usize)
    ensures
        ({
            let waits = m.interval(now, ConnectType::Task, drawn);
            match m.active_state(now) {
                ActiveState::ForegroundOneMinute => waits == 5,
                ActiveState::ForegroundTenMinute => waits == 10,
                ActiveState::ForegroundActive => waits == 20,
                ActiveState::BackgroundActive => waits == 30,
                ActiveState::Inactive => waits == 300,
            }
        }),
        m.interval(now, ConnectType::NetworkChange, drawn) == 0,
{
}

/// How long the alarm's own connect waits, in seconds. In the first ten minutes in the
/// foreground, and in the background while active, it is what the state says. After ten
/// minutes, and for an app that is not active, it is more where there is no network or
/// no account, a week where the app is not active and has no account, and spread by what
/// is drawn otherwise.
pub proof fn law_how_long_the_alarm_waits(m: MonitorView, now: u64, drawn: usize)
    ensures
        ({
            let waits = m.interval(now, ConnectType::LongLink, drawn);
            let no_net = m.net_info == -1;
            match m.active_state(now) {
                ActiveState::ForegroundOneMinute => waits == 15,
                ActiveState::ForegroundTenMinute => waits == 30,
                ActiveState::BackgroundActive => waits == 300,
                ActiveState::ForegroundActive => waits == (if no_net {
                    960
                } else if !m.has_account {
                    540
                } else {
                    120 + drawn
                }),
                ActiveState::Inactive => waits == (if !m.has_account {
                    604_800
                } else if no_net {
                    2_400
                } else {
                    600 + drawn
                }),
            }
        }),
{
}

/// A number is drawn exactly where it is used: for the alarm's own connect, of an app
/// that is not active or has been in the foreground for ten minutes, with a network and
/// an account, and only while the link is not there and not turned off.
pub proof fn law_when_a_number_is_drawn(m: MonitorView, now: u64, kind: ConnectType)
    ensures
        m.draws(now, kind) <==> {
            &&& kind == ConnectType::LongLink
            &&& !m.is_active || (m.is_foreground && gone_by(now, m.last_foreground_change_time)
                >= 600_000)
            &&& m.has_account
            &&& m.net_info != -1
            &&& !m.is_svr_trig_off
            &&& m.connect_status != LongLinkStatus::Connecting
            &&& m.connect_status != LongLinkStatus::Connected
        },
{
}

/// How much of its wait a connect has left, in milliseconds. A link that is up, coming
/// up or turned off by the server is waited for no more. An active app, and a network
/// that changed, go by what the state says since the link was last looked up; an app
/// that is not active has half a minute of grace. In the background a link that was
/// asked to be rebuilt is not waited for, and any other goes by its rung.
pub proof fn law_how_much_of_a_wait_is_left(
    m: MonitorView,
    now: u64,
    kind: ConnectType,
    drawn: usize,
)
    ensures
        ({
            let left = m.wait(now, kind, drawn);
            let whole = m.interval(now, kind, drawn) * 1000;
            let gone = gone_by(now, m.dns_time);
            let there = m.is_svr_trig_off || m.connect_status == LongLinkStatus::Connecting
                || m.connect_status == LongLinkStatus::Connected;
            let table = m.is_active || kind == ConnectType::NetworkChange;
            &&& there ==> left == 0
            &&& !there && table && m.is_active ==> left == (if gone >= whole {
                0
            } else {
                whole - gone
            })
            &&& !there && table && !m.is_active ==> left == (if gone + 30_000 >= whole {
                0
            } else {
                whole - gone
            })
            &&& !there && !table && m.rebuild_longlink ==> left == 0
            &&& !there && !table && !m.rebuild_longlink ==> 0 <= left <= 600_000
        }),
{
}

/// The seconds of a rung.
pub open spec fn rung_seconds(rung: int) -> int {
    if rung <= 0 {
        0
    } else if rung == 1 {
        60
    } else {
        120 * (rung - 1)
    }
}

/// In the background the next wait is one rung up where the link was looked up less than
/// ten minutes ago, and one down otherwise, between the first and the seventh; what is
/// left of it is what the rung says since then.
pub proof fn law_the_rung_of_a_background_wait(m: MonitorView, now: u64)
    requires
        m.current_interval_index <= 6,
    ensures
        ({
            let rung = m.next_rung(now);
            let gone = gone_by(now, m.dns_time);
            let left = m.ladder_wait(now);
            &&& 0 <= rung <= 6
            &&& gone < 600_000 && m.current_interval_index < 6 ==> rung == m.current_interval_index
                + 1
            &&& gone < 600_000 && m.current_interval_index == 6 ==> rung == 6
            &&& gone >= 600_000 && m.current_interval_index > 0 ==> rung
                == m.current_interval_index - 1
            &&& gone >= 600_000 && m.current_interval_index == 0 ==> rung == 0
            &&& RECONNECT_INTERVAL@[rung] == rung_seconds(rung)
            &&& gone >= rung_seconds(rung) * 1000 ==> left == 0
            &&& gone < rung_seconds(rung) * 1000 ==> left == rung_seconds(rung) * 1000 - gone
        }),
{
    let rung = m.next_rung(now);
    assert(rung == 0 || rung == 1 || rung == 2 || rung == 3 || rung == 4 || rung == 5 || rung == 6);
}

/// A connect asks for the link exactly where nothing of its wait is left and the link is
/// not there; then the link is what it answers. Going by what the app is doing starts
/// the background ladder over; a rebuild is asked for once; and any other background
/// wait moves along it.
pub proof fn law_what_asking_for_a_link_does(
    m: MonitorView,
    now: u64,
    kind: ConnectType,
    drawn: usize,
    answer: LongLinkStatus,
)
    requires
        m.current_interval_index <= 6,
    ensures
        ({
            let next = m.interval_connected(now, kind, drawn, answer);
            let there = m.is_svr_trig_off || m.connect_status == LongLinkStatus::Connecting
                || m.connect_status == LongLinkStatus::Connected;
            let asked = !there && m.wait(now, kind, drawn) == 0;
            let table = m.is_active || kind == ConnectType::NetworkChange;
            &&& m.asks(now, kind, drawn) == asked
            &&& there ==> next == m
            &&& next.connect_status == (if asked {
                answer
            } else {
                m.connect_status
            })
            &&& !there && table ==> next.current_interval_index == 0 && next.rebuild_longlink
                == m.rebuild_longlink
            &&& !there && !table && m.rebuild_longlink ==> !next.rebuild_longlink
                && next.current_interval_index == m.current_interval_index
            &&& !there && !table && !m.rebuild_longlink ==> !next.rebuild_longlink
                && next.current_interval_index == m.next_rung(now)
            &&& next == (MonitorView {
                connect_status: next.connect_status,
                current_interval_index: next.current_interval_index,
                rebuild_longlink: next.rebuild_longlink,
                ..m
            })
        }),
{
}

/// The alarm's own connect cancels both alarms, and is armed again with what is left to
/// wait, where anything is.
pub proof fn law_when_the_alarm_is_armed_again(
    m: MonitorView,
    now: u64,
    drawn: usize,
    answer: LongLinkStatus,
)
    ensures
        ({
            let next = m.auto_connected(now, drawn, answer);
            let left = m.wait(now, ConnectType::LongLink, drawn);
            &&& next.wake_due is None
            &&& left == 0 ==> next.rebuild_due is None
            &&& left != 0 && now + left <= u64::MAX ==> next.rebuild_due is Some
                && next.rebuild_due->0 == now + left
            &&& left != 0 && now + left > u64::MAX ==> next.rebuild_due == Some(u64::MAX)
            &&& next.connect_status == (if m.asks(now, ConnectType::LongLink, drawn) {
                answer
            } else {
                m.connect_status
            })
            &&& next.is_active == m.is_active
            &&& next.status == m.status
        }),
{
}

/// The less an app is used, the longer its links wait: an alarm waits longer than a
/// task, whatever the app is doing.
pub proof fn law_an_alarm_waits_longer_than_a_task(
    m: MonitorView,
    now: u64,
    drawn: usize,
    other: usize,
)
    ensures
        m.interval(now, ConnectType::Task, other) < m.interval(now, ConnectType::LongLink, drawn),
        m.interval(now, ConnectType::NetworkChange, other) < m.interval(
            now,
            ConnectType::Task,
            drawn,
        ),
{
    law_how_long_a_task_waits_for_its_link(m, now, drawn);
    law_how_long_a_task_waits_for_its_link(m, now, other);
    law_how_long_the_alarm_waits(m, now, drawn);
}

/// A link that changed where it is cancels both alarms; one that failed or went down is
/// looked at again half a second later, and one that did not is not.
pub proof fn law_what_a_status_arms(m: MonitorView, now: u64, status: LongLinkStatus)
    requires
        now + 500 <= u64::MAX,
    ensures
        ({
            let next = m.status_noted(now, status);
            let down = status == LongLinkStatus::ConnectFailed || status
                == LongLinkStatus::DisConnected;
            &&& next.rebuild_due is None
            &&& next.wake_due == (if down {
                Some((now + 500) as u64)
            } else {
                None::<u64>
            })
            &&& next.status == status
            &&& next.last_connect_time == now
            &&& next.last_connect_net_type == m.net_info
            &&& next.current_interval_index == m.current_interval_index
            &&& next.connect_status == m.connect_status
            &&& next.rebuild_longlink == m.rebuild_longlink
        }),
{
}

} // verus!
