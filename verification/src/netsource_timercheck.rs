//! The check that gets the long link off a backup ip.
//!
//! While the app is active a check is due every [`TIME_CHECK_PERIOD`]. Each one
//! asks three questions before it does anything: is the long link on a backup
//! ip, is no check already running, and did fewer than so many of them happen
//! in the last [`INTERVAL_TIME`]? Then it resolves the host the link is on,
//! picks one ip and one port at random, and asks whether that pair can be
//! reached. A pair that can is one whose ban is lifted, and the app is told,
//! which is what makes the long link drop and connect again on a better ip.
use vstd::prelude::*;
use crate::history::lemma_words;
use crate::ip_port::IpSourceType;
use crate::net_check_logic::{gets_through, touched, FrequencyLimit};
use crate::task::{holds_text, texts};

verus! {

/// How often a check is due, in milliseconds.
pub const TIME_CHECK_PERIOD: u64 = 150 * 1000;

/// How long the host gives the test of a pair, in milliseconds.
pub const TIMEOUT: u64 = 10 * 1000;

/// The count the frequency limit is built with: one more than this many tests
/// get through per [`INTERVAL_TIME`].
pub const MAX_SPEED_TEST_COUNT: usize = 30;

/// The window of the frequency limit, in milliseconds.
pub const INTERVAL_TIME: u64 = 60 * 60 * 1000;

/// The host of the check: the dns, the net source and the test itself.
///
/// A host may answer what it likes; each call is one more thing that it heard.
pub trait TimerCheckHost: Sized {
    /// Everything the host was told and asked so far, in order. Each host says
    /// what that is of it.
    open spec fn heard(&self) -> Seq<TimerTold> {
        Seq::empty()
    }

    /// The dns that is tried first.
    fn new_dns(&mut self, host: &str) -> (answer: Vec<String>)
        ensures
            final(self).heard() == old(self).heard().push(
                TimerTold::NewDns { host: host@, answer: answer@ },
            ),
    ;

    /// The dns that is asked when the first one answered nothing.
    fn dns(&mut self, host: &str) -> (answer: Vec<String>)
        ensures
            final(self).heard() == old(self).heard().push(
                TimerTold::Dns { host: host@, answer: answer@ },
            ),
    ;

    /// The ports of the long link.
    fn longlink_ports(&mut self) -> (answer: Vec<u16>)
        ensures
            final(self).heard() == old(self).heard().push(TimerTold::Ports { answer: answer@ }),
    ;

    /// A number below `bound`; one that is not is taken as what it leaves over
    /// it.
    fn random(&mut self, bound: usize) -> (answer: usize)
        ensures
            final(self).heard() == old(self).heard().push(
                TimerTold::Random { bound: bound as int, answer },
            ),
    ;

    /// Whether a pair can be reached.
    fn speed_test(&mut self, ip: &str, port: u16) -> (answer: bool)
        ensures
            final(self).heard() == old(self).heard().push(
                TimerTold::SpeedTest { ip: ip@, port, answer },
            ),
    ;

    /// The ban on an ip is lifted.
    fn remove_long_ban_ip(&mut self, ip: &str)
        ensures
            final(self).heard() == old(self).heard().push(TimerTold::BanRemoved { ip: ip@ }),
    ;

    /// A pair could be reached.
    fn on_time_check_suc(&mut self)
        ensures
            final(self).heard() == old(self).heard().push(TimerTold::Suc),
    ;
}

/// One thing the check told its host, or one thing it asked and the answer.
#[allow(inconsistent_fields)]
pub enum TimerTold {
    NewDns { host: Seq<char>, answer: Seq<String> },
    Dns { host: Seq<char>, answer: Seq<String> },
    Ports { answer: Seq<u16> },
    Random { bound: int, answer: usize },
    SpeedTest { ip: Seq<char>, port: u16, answer: bool },
    BanRemoved { ip: Seq<char> },
    Suc,
}

/// What a check was answered, question by question.
pub struct TimerAnswers {
    pub first: Seq<String>,
    pub second: Seq<String>,
    pub ports: Seq<u16>,
    pub ip_pick: usize,
    pub port_pick: usize,
    pub reached: bool,
}

/// The check that gets the long link off a backup ip.
pub struct NetSourceTimerCheck<H> {
    /// The dns, the net source and the test itself.
    pub checks: H,
    /// When the check is due next; `None` for one that is not running.
    pub period_due: Option<u64>,
    /// A test is in flight.
    pub testing: bool,
    pub frequency_limit: FrequencyLimit,
    /// Where the pair of the link came from.
    pub ip_type: IpSourceType,
    /// The host the link is on.
    pub host: String,
    /// The ip the link is on.
    pub ip: String,
}

/// The contents of a [`NetSourceTimerCheck`].
pub struct TimerView {
    pub period_due: Option<u64>,
    pub testing: bool,
    /// When tests got through.
    pub touches: Seq<u64>,
    pub ip_type: IpSourceType,
    pub host: Seq<char>,
    pub ip: Seq<char>,
    pub told: Seq<TimerTold>,
}

impl<H: TimerCheckHost> View for NetSourceTimerCheck<H> {
    type V = TimerView;

    open spec fn view(&self) -> TimerView {
        TimerView {
            period_due: self.period_due,
            testing: self.testing,
            touches: self.frequency_limit.touch_times@,
            ip_type: self.ip_type,
            host: self.host@,
            ip: self.ip@,
            told: self.checks.heard(),
        }
    }
}

impl TimerAnswers {
    /// The ips of the host.
    pub open spec fn ips(self) -> Seq<String> {
        if self.first.len() > 0 {
            self.first
        } else {
            self.second
        }
    }

    /// The ip that is tested.
    pub open spec fn ip(self) -> Seq<char> {
        self.ips()[self.ip_pick as int % self.ips().len() as int]@
    }

    /// The port that is tested.
    pub open spec fn port(self) -> u16 {
        self.ports[self.port_pick as int % self.ports.len() as int]
    }
}

impl TimerView {
    /// A check that is not running.
    pub open spec fn fresh(told: Seq<TimerTold>) -> TimerView {
        TimerView {
            period_due: None,
            testing: false,
            touches: seq![],
            ip_type: IpSourceType::Null,
            host: seq![],
            ip: seq![],
            told,
        }
    }

    /// The reading a check is due at after `now`.
    pub open spec fn next_due(now: u64) -> u64 {
        if now + TIME_CHECK_PERIOD > u64::MAX {
            u64::MAX
        } else {
            (now + TIME_CHECK_PERIOD) as u64
        }
    }

    /// The check is due a period from now, unless it is due already.
    pub open spec fn started(self, now: u64) -> TimerView {
        TimerView {
            period_due: match self.period_due {
                Some(due) => Some(due),
                None => Some(TimerView::next_due(now)),
            },
            ..self
        }
    }

    /// The check is not due any more; one whose test is not in flight is not
    /// stopped.
    pub open spec fn stopped(self) -> TimerView {
        if self.period_due is None || !self.testing {
            self
        } else {
            TimerView { testing: false, period_due: None, ..self }
        }
    }

    /// The ip the link is on already is one of those of the host.
    pub open spec fn knows_ip(self, a: TimerAnswers) -> bool {
        texts(a.ips()).contains(self.ip)
    }

    /// There is a pair to test: the ip the link is on already is not worth
    /// testing.
    pub open spec fn has_pair(self, a: TimerAnswers) -> bool {
        a.ips().len() > 0 && !self.knows_ip(a) && a.ports.len() > 0
    }

    /// The dns is asked about the host of the link.
    pub open spec fn dns_words(self, a: TimerAnswers) -> Seq<TimerTold> {
        let asked = seq![TimerTold::NewDns { host: self.host, answer: a.first }];
        if a.first.len() > 0 {
            asked
        } else {
            asked.push(TimerTold::Dns { host: self.host, answer: a.second })
        }
    }

    /// What a test asks and says.
    #[verifier::opaque]
    pub open spec fn try_words(self, a: TimerAnswers) -> Seq<TimerTold> {
        let named = self.dns_words(a);
        let ported = named.push(TimerTold::Ports { answer: a.ports });
        let tested = ported.push(
            TimerTold::Random { bound: a.ips().len() as int, answer: a.ip_pick },
        ).push(TimerTold::Random { bound: a.ports.len() as int, answer: a.port_pick }).push(
            TimerTold::SpeedTest { ip: a.ip(), port: a.port(), answer: a.reached },
        );
        if a.ips().len() == 0 || self.knows_ip(a) {
            named
        } else if a.ports.len() == 0 {
            ported
        } else if a.reached {
            tested.push(TimerTold::BanRemoved { ip: a.ip() })
        } else {
            tested
        }
    }

    /// The test found a pair that can be reached.
    pub open spec fn tries(self, a: TimerAnswers) -> bool {
        self.has_pair(a) && a.reached
    }

    /// A check that is due is made.
    pub open spec fn is_made(self, now: u64) -> bool {
        &&& self.period_due is Some
        &&& self.ip_type == IpSourceType::Backup
        &&& !self.testing
        &&& gets_through(self.touches, MAX_SPEED_TEST_COUNT as int, INTERVAL_TIME, now)
    }

    /// A check was due: it is due again from now, whatever it answered.
    pub open spec fn checked(self, now: u64, a: TimerAnswers) -> TimerView {
        let words = self.try_words(a);
        TimerView {
            period_due: if self.period_due is Some {
                Some(TimerView::next_due(now))
            } else {
                None
            },
            touches: if self.period_due is Some && self.ip_type == IpSourceType::Backup
                && !self.testing {
                touched(self.touches, MAX_SPEED_TEST_COUNT as int, INTERVAL_TIME, now)
            } else {
                self.touches
            },
            told: if !self.is_made(now) {
                self.told
            } else if self.tries(a) {
                (self.told + words).push(TimerTold::Suc)
            } else {
                self.told + words
            },
            ..self
        }
    }

    /// What a check answers.
    pub open spec fn outcome(self, now: u64, a: TimerAnswers) -> Option<bool> {
        if self.is_made(now) {
            Some(self.tries(a))
        } else {
            None
        }
    }
}

impl<H> NetSourceTimerCheck<H> {
    /// The frequency limit is the one of the check.
    pub open spec fn wf(&self) -> bool {
        &&& self.frequency_limit.count == MAX_SPEED_TEST_COUNT
        &&& self.frequency_limit.time_span == INTERVAL_TIME
    }
}

impl<H: TimerCheckHost> NetSourceTimerCheck<H> {
    /// A check that is not running.
    pub fn new_at(checks: H, _now: u64) -> (check: Self)
        ensures
            check.wf(),
            check@ == TimerView::fresh(checks.heard()),
    {
        let check = NetSourceTimerCheck {
            checks,
            period_due: None,
            testing: false,
            frequency_limit: FrequencyLimit::new(MAX_SPEED_TEST_COUNT, INTERVAL_TIME),
            ip_type: IpSourceType::Null,
            host: String::new(),
            ip: String::new(),
        };
        assert(check@.host =~= seq![]);
        assert(check@.ip =~= seq![]);
        check
    }

    /// Where the pair of the link came from.
    pub fn set_ip_type(&mut self, ip_type: IpSourceType)
        requires
            old(self).wf(),
        ensures
            final(self).wf(),
            final(self)@ == (TimerView { ip_type, ..old(self)@ }),
    {
        self.ip_type = ip_type;
    }

    /// The host the link is on.
    pub fn set_host(&mut self, host: String)
        requires
            old(self).wf(),
        ensures
            final(self).wf(),
            final(self)@ == (TimerView { host: host@, ..old(self)@ }),
    {
        self.host = host;
    }

    /// The ip the link is on.
    pub fn set_ip(&mut self, ip: String)
        requires
            old(self).wf(),
        ensures
            final(self).wf(),
            final(self)@ == (TimerView { ip: ip@, ..old(self)@ }),
    {
        self.ip = ip;
    }

    /// When the check is due next; `None` for one that is not running.
    pub fn period_due(&self) -> (due: Option<u64>)
        ensures
            due == self@.period_due,
    {
        self.period_due
    }

    /// Whether a test is in flight.
    pub fn is_testing(&self) -> (testing: bool)
        ensures
            testing == self@.testing,
    {
        self.testing
    }

    /// The check is started, once: a second call while it is due does nothing.
    pub fn start_check_at(&mut self, now: u64)
        requires
            old(self).wf(),
        ensures
            final(self).wf(),
            final(self)@ == old(self)@.started(now),
    {
        if self.period_due.is_some() {
            return;
        }
        self.period_due = Some(now.saturating_add(TIME_CHECK_PERIOD));
    }

    /// The check is stopped, where a test is in flight.
    pub fn stop_check(&mut self)
        requires
            old(self).wf(),
        ensures
            final(self).wf(),
            final(self)@ == old(self)@.stopped(),
    {
        if self.period_due.is_none() || !self.testing {
            return;
        }
        self.testing = false;
        self.period_due = None;
    }

    /// The test in flight gives up; the check stays due.
    pub fn cancel_connect(&mut self)
        requires
            old(self).wf(),
        ensures
            final(self).wf(),
            final(self)@ == (TimerView { testing: false, ..old(self)@ }),
    {
        self.testing = false;
    }

    /// The app coming to the foreground starts the check and leaving it stops
    /// one.
    pub fn on_active_changed_at(&mut self, now: u64, is_active: bool)
        requires
            old(self).wf(),
        ensures
            final(self).wf(),
            final(self)@ == if is_active {
                old(self)@.started(now)
            } else {
                old(self)@.stopped()
            },
    {
        if is_active {
            self.start_check_at(now);
        } else {
            self.stop_check();
        }
    }

    /// The ips of the host of the link.
    fn resolve(&mut self) -> (r: (Vec<String>, Ghost<TimerAnswers>))
        ensures
            r.0@ == r.1@.ips(),
            r.1@.ports.len() == 0,
            !r.1@.reached,
            final(self)@ == (TimerView {
                told: old(self)@.told + old(self)@.dns_words(r.1@),
                ..old(self)@
            }),
            final(self).frequency_limit == old(self).frequency_limit,
    {
        proof {
            lemma_words(self.checks.heard());
        }
        let first = self.checks.new_dns(self.host.as_str());
        let ghost a = TimerAnswers {
            first: first@,
            second: seq![],
            ports: seq![],
            ip_pick: 0,
            port_pick: 0,
            reached: false,
        };
        if first.len() > 0 {
            return (first, Ghost(a));
        }
        let second = self.checks.dns(self.host.as_str());
        let ghost b = TimerAnswers { second: second@, ..a };
        (second, Ghost(b))
    }

    /// The host of the link is resolved, an ip and a port are picked, and the
    /// pair is tested.
    fn test_pair(&mut self) -> (r: (bool, Ghost<TimerAnswers>))
        ensures
            r.0 == old(self)@.tries(r.1@),
            final(self)@ == (TimerView {
                told: old(self)@.told + old(self)@.try_words(r.1@),
                ..old(self)@
            }),
            final(self).frequency_limit == old(self).frequency_limit,
    {
        let ghost before = self@;
        let (ips, Ghost(a)) = self.resolve();
        proof {
            reveal(TimerView::try_words);
            lemma_words(before.told);
        }
        if ips.len() == 0 {
            return (false, Ghost(a));
        }
        if holds_text(&ips, self.ip.as_str()) {
            return (false, Ghost(a));
        }
        let ports = self.checks.longlink_ports();
        let ghost b = TimerAnswers { ports: ports@, ..a };
        assert(b.ips() == a.ips() && before.dns_words(b) == before.dns_words(a));
        if ports.len() == 0 {
            return (false, Ghost(b));
        }
        let ip_pick: usize = self.checks.random(ips.len());
        let port_pick: usize = self.checks.random(ports.len());
        let ip = &ips[ip_pick % ips.len()];
        let port: u16 = ports[port_pick % ports.len()];
        let reached = self.checks.speed_test(ip.as_str(), port);
        let ghost c = TimerAnswers { ip_pick, port_pick, reached, ..b };
        proof {
            assert(c.ips() == a.ips() && before.dns_words(c) == before.dns_words(a));
        }
        if !reached {
            return (false, Ghost(c));
        }
        self.checks.remove_long_ban_ip(ip.as_str());
        (true, Ghost(c))
    }

    /// The host of the link is resolved, an ip and a port are picked, and the
    /// pair is tested; a pair that can be reached is not banned any more.
    pub fn try_connect_at(&mut self, _now: u64) -> (reached: bool)
        requires
            old(self).wf(),
        ensures
            final(self).wf(),
            exists|a: TimerAnswers|
                reached == #[trigger] old(self)@.tries(a) && final(self)@ == (TimerView {
                    told: old(self)@.told + old(self)@.try_words(a),
                    ..old(self)@
                }),
    {
        let (reached, Ghost(a)) = self.test_pair();
        reached
    }

    /// `None` is a check that was not made: the link is not on a backup ip, a
    /// test is already running, the frequency limit refused, or the check was
    /// never started. `Some` is what the test answered, and the app is told of
    /// a `true`.
    pub fn check_at(&mut self, now: u64) -> (outcome: Option<bool>)
        requires
            old(self).wf(),
        ensures
            final(self).wf(),
            exists|a: TimerAnswers|
                outcome == old(self)@.outcome(now, a) && final(self)@ == #[trigger] old(
                    self,
                )@.checked(now, a),
    {
        let ghost before = self@;
        let ghost none = TimerAnswers {
            first: seq![],
            second: seq![],
            ports: seq![],
            ip_pick: 0,
            port_pick: 0,
            reached: false,
        };
        if self.period_due.is_none() {
            assert(self@ == before.checked(now, none));
            return None;
        }
        self.period_due = Some(now.saturating_add(TIME_CHECK_PERIOD));
        if self.ip_type != IpSourceType::Backup {
            assert(self@ == before.checked(now, none));
            return None;
        }
        if self.testing {
            assert(self@ == before.checked(now, none));
            return None;
        }
        if !self.frequency_limit.check_at(now) {
            assert(self@ == before.checked(now, none));
            return None;
        }
        self.testing = true;
        let ghost mid = self@;
        let (reached, Ghost(a)) = self.test_pair();
        proof {
            lemma_same_try(before, mid, a);
        }
        self.testing = false;
        if reached {
            self.checks.on_time_check_suc();
        }
        assert(self@ == before.checked(now, a));
        Some(reached)
    }
}

/// A test depends on nothing but the link it is about.
proof fn lemma_same_try(before: TimerView, later: TimerView, a: TimerAnswers)
    requires
        before.host == later.host,
        before.ip == later.ip,
    ensures
        before.try_words(a) == later.try_words(a),
        before.tries(a) == later.tries(a),
{
    reveal(TimerView::try_words);
}

/// A pair whose ip the link is on already is never tested, and a ban is lifted
/// only for a pair that could be reached.
pub proof fn law_only_a_better_ip_is_tested(check: TimerView, a: TimerAnswers)
    ensures
        check.knows_ip(a) ==> check.try_words(a) == check.dns_words(a) && !check.tries(a),
        check.tries(a) <==> check.try_words(a).last() == (TimerTold::BanRemoved { ip: a.ip() }),
        check.tries(a) ==> a.ip() != check.ip,
{
    reveal(TimerView::try_words);
    if check.tries(a) {
        let k = a.ip_pick as int % a.ips().len() as int;
        assert(texts(a.ips())[k] == a.ip());
    }
}

/// A link that is not on a backup ip is never tested, nor is one whose test is
/// still in flight: nothing is asked, and the limit is not spent.
pub proof fn law_only_a_backup_ip_is_left(check: TimerView, now: u64, a: TimerAnswers)
    requires
        check.ip_type != IpSourceType::Backup || check.testing,
    ensures
        check.outcome(now, a) is None,
        check.checked(now, a).told == check.told,
        check.checked(now, a).touches == check.touches,
{
}

/// A check that is running is due again a period after it was made, whatever it
/// came to; one that is not running stays so.
pub proof fn law_a_check_comes_round(check: TimerView, now: u64, a: TimerAnswers)
    ensures
        check.period_due is Some ==> check.checked(now, a).period_due == Some(
            TimerView::next_due(now),
        ),
        check.period_due is None ==> check.checked(now, a) == check,
{
}

/// The app is told exactly of a pair that could be reached, and its ban was
/// lifted right before.
pub proof fn law_the_app_hears_of_a_pair_that_answers(
    check: TimerView,
    now: u64,
    a: TimerAnswers,
)
    ensures
        check.outcome(now, a) == Some(true) ==> {
            let told = check.checked(now, a).told;
            &&& told.len() >= 2
            &&& told.last() is Suc
            &&& told[told.len() - 2] == (TimerTold::BanRemoved { ip: a.ip() })
        },
        check.outcome(now, a) == Some(false) ==> check.checked(now, a).told == check.told
            + check.try_words(a),
{
    reveal(TimerView::try_words);
}

} // verus!
