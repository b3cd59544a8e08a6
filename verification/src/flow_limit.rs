//! The funnel that caps how many bytes `limit_flow` tasks may put on the air.
//!
//! A funnel of [`MAX_VOL`] bytes drains at [`ACTIVE_SPEED`] while the app is
//! foregrounded and at [`INACTIVE_SPEED`] in the background; a task whose body
//! does not fit is refused. The drain is computed on every call, from whole
//! seconds since the last one.
use vstd::prelude::*;
use crate::config::{ACTIVE_SPEED, INACTIVE_MIN_VOL, INACTIVE_SPEED, MAX_VOL};
use crate::task::Task;

verus! {

/// The funnel.
#[derive(Debug, Clone, Copy)]
pub struct FlowLimit {
    pub funnel_speed: u64,
    pub cur_funnel_vol: u64,
    pub time_lastflow_computer: u64,
}

/// How fast the funnel drains, in bytes a second.
pub open spec fn speed_of(is_active: bool) -> u64 {
    if is_active {
        ACTIVE_SPEED
    } else {
        INACTIVE_SPEED
    }
}

impl FlowLimit {
    /// The whole seconds since the funnel was drained last.
    pub open spec fn seconds(self, now: u64) -> int {
        if now >= self.time_lastflow_computer {
            (now - self.time_lastflow_computer) / 1000
        } else {
            0
        }
    }

    /// The funnel once it was drained; less than a second drains nothing and is
    /// not lost.
    pub open spec fn drained(self, now: u64) -> FlowLimit {
        let left = self.cur_funnel_vol - self.seconds(now) * self.funnel_speed;
        FlowLimit {
            funnel_speed: self.funnel_speed,
            cur_funnel_vol: if self.seconds(now) == 0 {
                self.cur_funnel_vol
            } else if left < 0 {
                0
            } else {
                left as u64
            },
            time_lastflow_computer: if self.seconds(now) == 0 {
                self.time_lastflow_computer
            } else {
                now
            },
        }
    }

    /// A body of that length fits into the funnel.
    pub open spec fn fits(self, len: u64) -> bool {
        self.cur_funnel_vol + len <= MAX_VOL
    }

    /// A body of that length was charged to the funnel.
    pub open spec fn charged(self, len: u64) -> FlowLimit {
        FlowLimit { cur_funnel_vol: (self.cur_funnel_vol + len) as u64, ..self }
    }

    /// The funnel after a check, and whether the task may go out.
    pub open spec fn checked(self, limited: bool, len: u64, now: u64) -> (FlowLimit, bool) {
        let drained = self.drained(now);
        if !limited {
            (self, true)
        } else if drained.fits(len) {
            (drained.charged(len), true)
        } else {
            (drained, false)
        }
    }

    /// The funnel after the app went to the foreground or left it.
    pub open spec fn activated(self, is_active: bool, now: u64) -> FlowLimit {
        let drained = self.drained(now);
        FlowLimit {
            funnel_speed: speed_of(is_active),
            cur_funnel_vol: if !is_active && drained.cur_funnel_vol > INACTIVE_MIN_VOL {
                INACTIVE_MIN_VOL
            } else {
                drained.cur_funnel_vol
            },
            time_lastflow_computer: drained.time_lastflow_computer,
        }
    }

    /// An empty funnel, clocked at `now`.
    pub fn new_at(is_active: bool, now: u64) -> (limit: Self)
        ensures
            limit == (FlowLimit {
                funnel_speed: speed_of(is_active),
                cur_funnel_vol: 0,
                time_lastflow_computer: now,
            }),
    {
        FlowLimit {
            funnel_speed: if is_active {
                ACTIVE_SPEED
            } else {
                INACTIVE_SPEED
            },
            cur_funnel_vol: 0,
            time_lastflow_computer: now,
        }
    }

    /// Whether a task with a body of that length may go out.
    pub fn check_at(&mut self, task: &Task, len: u64, now: u64) -> (allowed: bool)
        ensures
            (*final(self), allowed) == old(self).checked(task.limit_flow, len, now),
    {
        if !task.limit_flow {
            return true;
        }
        self.flash_cur_vol(now);
        if self.cur_funnel_vol > MAX_VOL || len > MAX_VOL - self.cur_funnel_vol {
            return false;
        }
        self.cur_funnel_vol = self.cur_funnel_vol + len;
        true
    }

    /// The app went to the foreground or left it; leaving it also caps the
    /// volume that is still charged to the funnel.
    pub fn set_active_at(&mut self, is_active: bool, now: u64)
        ensures
            *final(self) == old(self).activated(is_active, now),
    {
        self.flash_cur_vol(now);
        if !is_active && self.cur_funnel_vol > INACTIVE_MIN_VOL {
            self.cur_funnel_vol = INACTIVE_MIN_VOL;
        }
        self.funnel_speed = if is_active {
            ACTIVE_SPEED
        } else {
            INACTIVE_SPEED
        };
    }

    /// Bytes currently charged to the funnel.
    pub fn current_volume(&self) -> (volume: u64)
        ensures
            volume == self.cur_funnel_vol,
    {
        self.cur_funnel_vol
    }

    /// Bytes per second the funnel drains at right now.
    pub fn funnel_speed(&self) -> (speed: u64)
        ensures
            speed == self.funnel_speed,
    {
        self.funnel_speed
    }

    /// The funnel drains.
    fn flash_cur_vol(&mut self, now: u64)
        ensures
            *final(self) == old(self).drained(now),
    {
        let interval: u64 = now.saturating_sub(self.time_lastflow_computer) / 1000;
        if interval == 0 {
            return;
        }
        let speed: u64 = self.funnel_speed;
        proof {
            assert(0 <= interval * speed <= u64::MAX * u64::MAX) by (nonlinear_arith)
                requires
                    0 <= interval <= u64::MAX,
                    0 <= speed <= u64::MAX,
            ;
            assert(u64::MAX * u64::MAX <= u128::MAX) by (nonlinear_arith);
        }
        let drained: u128 = interval as u128 * speed as u128;
        self.cur_funnel_vol = if drained >= self.cur_funnel_vol as u128 {
            0
        } else {
            (self.cur_funnel_vol as u128 - drained) as u64
        };
        self.time_lastflow_computer = now;
    }
}

/// The funnel never holds more than its volume: a check that passes charges
/// what fits, and one that does not charges nothing.
pub proof fn law_the_funnel_never_overflows(limit: FlowLimit, limited: bool, len: u64, now: u64)
    requires
        limit.cur_funnel_vol <= MAX_VOL,
    ensures
        limit.checked(limited, len, now).0.cur_funnel_vol <= MAX_VOL,
        limit.drained(now).cur_funnel_vol <= limit.cur_funnel_vol,
        !limit.checked(limited, len, now).1 ==> limit.checked(limited, len, now).0
            == limit.drained(now),
        forall|active: bool|
            (#[trigger] limit.activated(active, now)).cur_funnel_vol <= limit.cur_funnel_vol,
{
    assert(0 <= limit.seconds(now) * limit.funnel_speed) by (nonlinear_arith)
        requires
            limit.seconds(now) >= 0,
            limit.funnel_speed >= 0,
    ;
}

/// A body that fits the volume goes out once the funnel had the time to drain.
pub proof fn law_a_refused_body_goes_out_later(limit: FlowLimit, len: u64, now: u64)
    requires
        len <= MAX_VOL,
        now >= limit.time_lastflow_computer,
        limit.seconds(now) * limit.funnel_speed >= limit.cur_funnel_vol,
    ensures
        limit.checked(true, len, now).1,
{
}

/// A task without a limit is never refused and charges nothing.
pub proof fn law_a_task_without_a_limit_is_free(limit: FlowLimit, len: u64, now: u64)
    ensures
        limit.checked(false, len, now) == (limit, true),
{
}

} // verus!
