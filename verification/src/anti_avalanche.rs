//! The two gates a task has to pass before it goes on the air: the frequency
//! limit always, the flow limit on mobile only.
use vstd::prelude::*;
use crate::flow_limit::{speed_of, FlowLimit};
use crate::frequency_limit::{adler, FrequencyLimit, FrequencyView};
use crate::task::Task;

verus! {

/// Which gate refused a task.
#[derive(Debug, Clone, Copy, PartialEq, Eq, Structural)]
pub enum LimitKind {
    /// The same body was sent too often.
    Frequency,
    /// The byte budget is used up.
    Flow,
}

/// The two gates.
#[derive(Debug, Clone)]
pub struct AntiAvalanche {
    pub frequency_limit: FrequencyLimit,
    pub flow_limit: FlowLimit,
}

/// The contents of an [`AntiAvalanche`].
pub struct AvalancheView {
    pub frequency: FrequencyView,
    pub flow: FlowLimit,
}

impl View for AntiAvalanche {
    type V = AvalancheView;

    open spec fn view(&self) -> AvalancheView {
        AvalancheView { frequency: self.frequency_limit@, flow: self.flow_limit }
    }
}

/// What the gates look at of a task.
pub struct Asked {
    pub limit_frequency: bool,
    pub limit_flow: bool,
    pub body: Seq<u8>,
    pub is_mobile: bool,
    pub now: u64,
}

impl AvalancheView {
    /// The frequency gate lets the task through.
    pub open spec fn passes_frequency(self, asked: Asked) -> bool {
        !asked.limit_frequency || self.frequency.verdict(adler(asked.body), asked.now).0
    }

    /// The flow gate lets the task through.
    pub open spec fn passes_flow(self, asked: Asked) -> bool {
        !asked.is_mobile || self.flow.checked(
            asked.limit_flow,
            asked.body.len() as u64,
            asked.now,
        ).1
    }

    /// What a check answers.
    pub open spec fn answer(self, asked: Asked) -> Result<(), LimitKind> {
        if !self.passes_frequency(asked) {
            Err(LimitKind::Frequency)
        } else if !self.passes_flow(asked) {
            Err(LimitKind::Flow)
        } else {
            Ok(())
        }
    }

    /// The gates after a check: the flow gate is only asked about a task the
    /// frequency gate let through on a mobile network.
    pub open spec fn checked(self, asked: Asked) -> AvalancheView {
        AvalancheView {
            frequency: if asked.limit_frequency {
                self.frequency.sent(adler(asked.body), asked.now)
            } else {
                self.frequency
            },
            flow: if self.passes_frequency(asked) && asked.is_mobile {
                self.flow.checked(asked.limit_flow, asked.body.len() as u64, asked.now).0
            } else {
                self.flow
            },
        }
    }
}

/// What the gates look at of a task.
pub open spec fn asked_of(task: Task, body: Seq<u8>, is_mobile: bool, now: u64) -> Asked {
    Asked {
        limit_frequency: task.limit_frequency,
        limit_flow: task.limit_flow,
        body,
        is_mobile,
        now,
    }
}

impl AntiAvalanche {
    /// Both gates, clocked at `now`.
    pub fn new_at(is_active: bool, now: u64) -> (gates: Self)
        ensures
            gates@.frequency.wf(),
            gates@.frequency.records.len() == 0,
            gates@.frequency.last_clear == now,
            gates@.flow == (FlowLimit {
                funnel_speed: speed_of(is_active),
                cur_funnel_vol: 0,
                time_lastflow_computer: now,
            }),
    {
        AntiAvalanche {
            frequency_limit: FrequencyLimit::new_at(now),
            flow_limit: FlowLimit::new_at(is_active, now),
        }
    }

    /// Whether a task may go out with that body, and which gate refused it. The
    /// flow limit only applies to a mobile network.
    pub fn check_at(
        &mut self,
        task: &Task,
        body: &[u8],
        network_is_mobile: bool,
        now: u64,
    ) -> (answer: Result<(), LimitKind>)
        ensures
            old(self)@.frequency.wf() ==> final(self)@.frequency.wf(),
            answer == old(self)@.answer(asked_of(*task, body@, network_is_mobile, now)),
            final(self)@ == old(self)@.checked(asked_of(*task, body@, network_is_mobile, now)),
    {
        let (allowed, _span) = self.frequency_limit.check_at(task, body, now);
        if !allowed {
            return Err(LimitKind::Frequency);
        }
        if network_is_mobile && !self.flow_limit.check_at(task, body.len() as u64, now) {
            return Err(LimitKind::Flow);
        }
        Ok(())
    }

    /// The app went to the foreground or left it.
    pub fn set_active_at(&mut self, is_active: bool, now: u64)
        ensures
            final(self)@ == (AvalancheView {
                flow: old(self)@.flow.activated(is_active, now),
                ..old(self)@
            }),
    {
        self.flow_limit.set_active_at(is_active, now);
    }

    /// The frequency gate, for callers that report its span.
    pub fn frequency_limit(&mut self) -> (limit: &mut FrequencyLimit)
        ensures
            *limit == old(self).frequency_limit,
            *final(self) == (AntiAvalanche {
                frequency_limit: *final(limit),
                flow_limit: old(self).flow_limit,
            }),
    {
        &mut self.frequency_limit
    }

    /// The flow gate.
    pub fn flow_limit(&mut self) -> (limit: &mut FlowLimit)
        ensures
            *limit == old(self).flow_limit,
            *final(self) == (AntiAvalanche {
                frequency_limit: old(self).frequency_limit,
                flow_limit: *final(limit),
            }),
    {
        &mut self.flow_limit
    }
}

/// The flow limit is only there on a mobile network: anywhere else no task is
/// refused for its bytes and none is charged.
pub proof fn law_the_flow_limit_is_mobile_only(gates: AvalancheView, asked: Asked)
    requires
        !asked.is_mobile,
    ensures
        gates.answer(asked) != Err::<(), LimitKind>(LimitKind::Flow),
        gates.checked(asked).flow == gates.flow,
{
}

/// A task with neither limit passes both gates and leaves them as they are.
pub proof fn law_a_task_without_limits_passes(gates: AvalancheView, asked: Asked)
    requires
        !asked.limit_frequency,
        !asked.limit_flow,
    ensures
        gates.answer(asked) == Ok::<(), LimitKind>(()),
        gates.checked(asked) == gates,
{
}

} // verus!
