//! When a run of failed tasks is a network worth diagnosing.
//!
//! Every task that finishes pushes one bit into a window of the last thirty-two
//! of its link ([`NetCheckLogic::update_long_link_info_at`] and
//! [`NetCheckLogic::update_short_link_info_at`], `1` for a success). A link is
//! broken when fewer than [`CHECK_IF_BELOW_COUNT`] of its eight most recent
//! tasks succeeded, and the diagnosis is started when a link is broken now but
//! was fine in the eight before that, with two limits on top: the checks it
//! starts are at least [`MIN_CHECK_TIME_SPAN`] apart and that span grows by
//! [`CHECK_TIME_SPAN_INCREMENT_STEP`] every time, and a [`FrequencyLimit`] caps
//! how many of them get through per [`LIMIT_TIME_SPAN`].
use vstd::prelude::*;
use crate::queue_spec::since;

verus! {

/// What a check always asks for: the basics and both links.
pub const NET_CHECK_MODE: i32 = 7;

/// The window of the frequency limit, in milliseconds.
pub const LIMIT_TIME_SPAN: u64 = 60 * 60 * 1000;

/// The count the frequency limit is built with. It lets one more through than
/// its count, so this is two checks per [`LIMIT_TIME_SPAN`].
pub const LIMIT_COUNT: usize = 1;

/// How long apart two checks are, to start with.
pub const MIN_CHECK_TIME_SPAN: u64 = 5 * 60 * 1000;

/// How much longer the wait gets every time.
pub const CHECK_TIME_SPAN_INCREMENT_STEP: u64 = 10 * 60 * 1000;

/// The window is the last thirty-two tasks.
pub const VALID_BITS_FILTER: u32 = 0xFFFF_FFFF;

/// Where the eight most recent tasks start, and how many of them there are.
pub const MOST_RECENT_TASK_START_N: [u32; 2] = [24, 8];

/// The eight before those.
pub const SECOND_RECENT_TASK_START_N: [u32; 2] = [16, 8];

/// Fewer successes than this and the link is broken.
pub const CHECK_IF_BELOW_COUNT: u32 = 3;

/// More than this and the link is fine.
pub const CHECK_IF_ABOVE_COUNT: u32 = 5;

/// A bit of a window is set.
pub open spec fn has_bit(records: u32, at: int) -> bool {
    (records >> (at as u32)) & 1 == 1
}

/// How many of the `n` tasks from the bit `low` up succeeded.
pub open spec fn successes(records: u32, low: int, n: int) -> int
    decreases n,
{
    if n <= 0 {
        0
    } else {
        successes(records, low, n - 1) + (if has_bit(records, low + n - 1) {
            1int
        } else {
            0int
        })
    }
}

/// A window once one more task went in.
pub open spec fn moved_in(is_true: bool, records: u32, valid_bits: u32) -> u32 {
    let moved = (records << 1u32) & valid_bits;
    if is_true {
        moved | 1u32
    } else {
        moved & !1u32
    }
}

/// The task goes in at the low end and the oldest of the window falls off.
pub fn set_bit(is_true: bool, records: u32, valid_bits: u32) -> (out: u32)
    ensures
        out == moved_in(is_true, records, valid_bits),
{
    let moved: u32 = (records << 1) & valid_bits;
    if is_true {
        moved | 1
    } else {
        moved & !1
    }
}

/// The newest task is in the low bit of the window, and every other one is a
/// bit further up than it was.
pub proof fn law_the_newest_goes_in_the_low_bit(is_true: bool, records: u32)
    ensures
        has_bit(moved_in(is_true, records, VALID_BITS_FILTER), 0) == is_true,
        forall|i: int|
            0 < i < 32 ==> #[trigger] has_bit(moved_in(is_true, records, VALID_BITS_FILTER), i)
                == has_bit(records, i - 1),
{
    let out = moved_in(is_true, records, VALID_BITS_FILTER);
    assert(((((records << 1u32) & 0xFFFF_FFFFu32) | 1u32) >> 0u32) & 1u32 == 1u32) by (bit_vector);
    assert(((((records << 1u32) & 0xFFFF_FFFFu32) & !1u32) >> 0u32) & 1u32 == 0u32) by (bit_vector);
    assert forall|i: int| 0 < i < 32 implies #[trigger] has_bit(out, i) == has_bit(
        records,
        i - 1,
    ) by {
        let k = i as u32;
        let below = (i - 1) as u32;
        assert(((((records << 1u32) & 0xFFFF_FFFFu32) | 1u32) >> k) & 1u32 == (records >> below)
            & 1u32) by (bit_vector)
            requires
                0 < k < 32,
                below == k - 1,
        ;
        assert(((((records << 1u32) & 0xFFFF_FFFFu32) & !1u32) >> k) & 1u32 == (records >> below)
            & 1u32) by (bit_vector)
            requires
                0 < k < 32,
                below == k - 1,
        ;
    }
}

/// Where a part of the window starts: a position that is not in it is the
/// first.
pub open spec fn part_start(start_pos: u32) -> int {
    if 1 <= start_pos <= 32 {
        start_pos as int
    } else {
        1
    }
}

/// How long a part of the window is: it ends with the window.
pub open spec fn part_len(start_pos: u32, n: u32) -> int {
    if part_start(start_pos) + n > 32 {
        32 - part_start(start_pos)
    } else {
        n as int
    }
}

/// `n` bits out of `records`, starting at `start_pos` from the top; a part that
/// is not in the window is empty.
pub fn extract_n_bits(records: u32, start_pos: u32, n: u32) -> (out: u32)
    ensures
        forall|i: int|
            0 <= i < 32 ==> #[trigger] has_bit(out, i) == (i < part_len(start_pos, n) && has_bit(
                records,
                33 - part_start(start_pos) - part_len(start_pos, n) + i,
            )),
{
    let start: u32 = if start_pos < 1 || start_pos > 32 {
        1
    } else {
        start_pos
    };
    let len: u32 = if n > 32 - start {
        32 - start
    } else {
        n
    };
    if len == 0 {
        assert forall|i: int| 0 <= i < 32 implies !#[trigger] has_bit(0u32, i) by {
            let k = i as u32;
            assert((0u32 >> k) & 1u32 == 0u32) by (bit_vector);
        }
        return 0;
    }
    let up: u32 = start - 1;
    let down: u32 = 32 - len;
    let out: u32 = (records << up) >> down;
    proof {
        assert forall|i: int| 0 <= i < 32 implies #[trigger] has_bit(out, i) == (i < len && has_bit(
            records,
            33 - start - len + i,
        )) by {
            let k = i as u32;
            if i < len {
                let from = (33 - start - len + i) as u32;
                assert((((records << up) >> down) >> k) & 1u32 == (records >> from) & 1u32)
                    by (bit_vector)
                    requires
                        down < 32,
                        up < 32,
                        k < 32,
                        from == down + k - up,
                        up <= down + k,
                        down + k < 32,
                ;
            } else {
                assert((((records << up) >> down) >> k) & 1u32 == 0u32) by (bit_vector)
                    requires
                        down < 32,
                        k < 32,
                        down + k >= 32,
                ;
            }
        }
    }
    out
}

/// How many bits of a number are set.
fn count_ones(value: u32) -> (count: u32)
    ensures
        count == successes(value, 0, 32),
{
    let mut count: u32 = 0;
    let mut i: u32 = 0;
    while i < 32
        invariant
            i <= 32,
            count <= i,
            count == successes(value, 0, i as int),
        decreases 32 - i,
    {
        if (value >> i) & 1 == 1 {
            count += 1;
        }
        i += 1;
    }
    count
}

/// A part of a window holds what the window holds there.
proof fn lemma_part(records: u32, part: u32, low: int, len: int, n: int)
    requires
        0 <= n <= 32,
        0 <= len <= 32,
        forall|i: int|
            0 <= i < 32 ==> #[trigger] has_bit(part, i) == (i < len && has_bit(records, low + i)),
    ensures
        successes(part, 0, n) == successes(records, low, if n < len {
            n
        } else {
            len
        }),
    decreases n,
{
    if n > 0 {
        lemma_part(records, part, low, len, n - 1);
        assert(has_bit(part, n - 1) == (n - 1 < len && has_bit(records, low + (n - 1))));
    }
}

/// How many of the eight most recent tasks succeeded; the one that has just
/// gone in is not among them yet.
pub open spec fn recent_successes(records: u32) -> int {
    successes(records, 1, 8)
}

/// The same, of the eight before those.
pub open spec fn earlier_successes(records: u32) -> int {
    successes(records, 9, 8)
}

/// How many tasks of a part of the window succeeded.
fn count_part(records: u32, part: [u32; 2]) -> (count: u32)
    requires
        part@[1] <= u32::MAX - 32,
    ensures
        count == successes(
            records,
            33 - part_start(part@[0]) - part_len(part@[0], part@[1]),
            part_len(part@[0], part@[1]),
        ),
{
    let status: u32 = extract_n_bits(records, part[0], part[1]);
    proof {
        lemma_part(
            records,
            status,
            33 - part_start(part@[0]) - part_len(part@[0], part@[1]),
            part_len(part@[0], part@[1]),
            32,
        );
    }
    count_ones(status)
}

/// A cap on how often something gets through: one more than its count, and
/// after that the oldest one has to be further back than the span.
#[derive(Debug, Clone, PartialEq, Eq)]
pub struct FrequencyLimit {
    pub count: usize,
    pub time_span: u64,
    /// The readings that got through, the oldest first.
    pub touch_times: Vec<u64>,
}

/// A reading gets through.
pub open spec fn gets_through(touches: Seq<u64>, count: int, span: u64, now: u64) -> bool {
    touches.len() <= count || since(now, touches[0]) > span
}

/// The readings that got through, after one more was tried.
pub open spec fn touched(touches: Seq<u64>, count: int, span: u64, now: u64) -> Seq<u64> {
    if touches.len() <= count {
        touches.push(now)
    } else if gets_through(touches, count, span, now) {
        touches.drop_first().push(now)
    } else {
        touches
    }
}

impl FrequencyLimit {
    /// A limit that nothing was tried against.
    pub fn new(count: usize, time_span: u64) -> (limit: Self)
        ensures
            limit.count == count,
            limit.time_span == time_span,
            limit.touch_times@ == Seq::<u64>::empty(),
    {
        FrequencyLimit { count, time_span, touch_times: Vec::new() }
    }

    /// Whether a reading gets through.
    pub fn check_at(&mut self, now: u64) -> (passed: bool)
        ensures
            passed == gets_through(
                old(self).touch_times@,
                old(self).count as int,
                old(self).time_span,
                now,
            ),
            final(self).touch_times@ == touched(
                old(self).touch_times@,
                old(self).count as int,
                old(self).time_span,
                now,
            ),
            final(self).count == old(self).count,
            final(self).time_span == old(self).time_span,
    {
        if self.touch_times.len() <= self.count {
            self.touch_times.push(now);
            return true;
        }
        if now.saturating_sub(self.touch_times[0]) <= self.time_span {
            return false;
        }
        let _oldest = self.touch_times.remove(0);
        assert(self.touch_times@ =~= old(self).touch_times@.drop_first());
        self.touch_times.push(now);
        true
    }
}

/// One pair a check runs against.
#[derive(Debug, Clone, PartialEq, Eq)]
pub struct CheckIPPort {
    pub ip: String,
    pub port: u16,
}

/// A host, and the pairs a check of it runs against.
#[derive(Debug, Clone, PartialEq, Eq)]
pub struct CheckHost {
    pub host: String,
    pub pairs: Vec<CheckIPPort>,
}

/// The hosts a check runs against, by name.
pub open spec fn by_name(list: Seq<CheckHost>) -> Map<Seq<char>, Seq<CheckIPPort>>
    decreases list.len(),
{
    if list.len() == 0 {
        Map::empty()
    } else {
        by_name(list.drop_last()).insert(list.last().host@, list.last().pairs@)
    }
}

/// The host of the check: what the two links are reachable at, the dns, and
/// what runs the check.
///
/// A host may answer what it likes; each call is one more thing that it heard.
pub trait NetCheckHost: Sized {
    /// Everything the host was told and asked so far, in order. Each host says
    /// what that is of it.
    open spec fn heard(&self) -> Seq<CheckTold> {
        Seq::empty()
    }

    /// The hosts of the long link.
    fn long_link_hosts(&mut self) -> (answer: Vec<String>)
        ensures
            final(self).heard() == old(self).heard().push(CheckTold::LongHosts { answer: answer@ }),
    ;

    /// The ports of the long link.
    fn long_link_ports(&mut self) -> (answer: Vec<u16>)
        ensures
            final(self).heard() == old(self).heard().push(CheckTold::LongPorts { answer: answer@ }),
    ;

    /// The port of the short link.
    fn short_link_port(&mut self) -> (answer: u16)
        ensures
            final(self).heard() == old(self).heard().push(CheckTold::ShortPort { answer }),
    ;

    /// The hosts of the short link, from the app.
    fn request_short_link_hosts(&mut self) -> (answer: Vec<String>)
        ensures
            final(self).heard() == old(self).heard().push(
                CheckTold::ShortHosts { answer: answer@ },
            ),
    ;

    /// The dns that is tried first.
    fn new_dns(&mut self, host: &str) -> (answer: Vec<String>)
        ensures
            final(self).heard() == old(self).heard().push(
                CheckTold::NewDns { host: host@, answer: answer@ },
            ),
    ;

    /// The dns that is asked when the first one answered nothing.
    fn dns(&mut self, host: &str) -> (answer: Vec<String>)
        ensures
            final(self).heard() == old(self).heard().push(
                CheckTold::Dns { host: host@, answer: answer@ },
            ),
    ;

    /// The check is run.
    fn start_active_check(
        &mut self,
        longlink: &Vec<CheckHost>,
        shortlink: &Vec<CheckHost>,
        mode: i32,
    )
        ensures
            final(self).heard() == old(self).heard().push(
                CheckTold::Started { longlink: by_name(longlink@), shortlink: by_name(shortlink@), mode },
            ),
    ;

    /// The check that runs is given up.
    fn cancel_active_check(&mut self)
        ensures
            final(self).heard() == old(self).heard().push(CheckTold::Cancelled),
    ;
}

/// One thing the check told its host, or one thing it asked and the answer.
#[allow(inconsistent_fields)]
pub enum CheckTold {
    LongHosts { answer: Seq<String> },
    LongPorts { answer: Seq<u16> },
    ShortHosts { answer: Seq<String> },
    ShortPort { answer: u16 },
    NewDns { host: Seq<char>, answer: Seq<String> },
    Dns { host: Seq<char>, answer: Seq<String> },
    Started {
        longlink: Map<Seq<char>, Seq<CheckIPPort>>,
        shortlink: Map<Seq<char>, Seq<CheckIPPort>>,
        mode: i32,
    },
    Cancelled,
}

/// What the dns answered about one host: the second one is asked only when the
/// first answered nothing.
pub struct Lookup {
    pub first: Seq<String>,
    pub second: Seq<String>,
}

impl Lookup {
    /// The ips of the host.
    pub open spec fn ips(self) -> Seq<String> {
        if self.first.len() > 0 {
            self.first
        } else {
            self.second
        }
    }

    /// What was asked about the host.
    pub open spec fn asked(self, host: Seq<char>) -> Seq<CheckTold> {
        if self.first.len() > 0 {
            seq![CheckTold::NewDns { host, answer: self.first }]
        } else {
            seq![
                CheckTold::NewDns { host, answer: self.first },
                CheckTold::Dns { host, answer: self.second },
            ]
        }
    }
}

/// What was asked about the first `n` hosts.
pub open spec fn lookups_asked(hosts: Seq<String>, lookups: Seq<Lookup>, n: int) -> Seq<CheckTold>
    decreases n,
{
    if n <= 0 {
        seq![]
    } else {
        lookups_asked(hosts, lookups, n - 1) + lookups[n - 1].asked(hosts[n - 1]@)
    }
}

/// Every ip on one port.
pub open spec fn on_port(ips: Seq<String>, port: u16) -> Seq<CheckIPPort> {
    ips.map_values(|ip: String| CheckIPPort { ip, port })
}

/// The ips on the ports: every ip on the first port, then every ip on the next.
pub open spec fn pairs_of(ips: Seq<String>, ports: Seq<u16>) -> Seq<CheckIPPort>
    decreases ports.len(),
{
    if ports.len() == 0 {
        seq![]
    } else {
        pairs_of(ips, ports.drop_last()) + on_port(ips, ports.last())
    }
}

/// The ips on the ports.
fn make_pairs(ips: &Vec<String>, ports: &Vec<u16>) -> (pairs: Vec<CheckIPPort>)
    ensures
        pairs@ == pairs_of(ips@, ports@),
{
    let mut pairs: Vec<CheckIPPort> = Vec::new();
    let mut p: usize = 0;
    while p < ports.len()
        invariant
            p <= ports@.len(),
            pairs@ == pairs_of(ips@, ports@.take(p as int)),
        decreases ports@.len() - p,
    {
        let ghost before = pairs@;
        let mut i: usize = 0;
        while i < ips.len()
            invariant
                i <= ips@.len(),
                p < ports@.len(),
                pairs@ =~= before + on_port(ips@, ports@[p as int]).take(i as int),
            decreases ips@.len() - i,
        {
            pairs.push(CheckIPPort { ip: ips[i].clone(), port: ports[p] });
            i += 1;
        }
        assert(on_port(ips@, ports@[p as int]).take(i as int) =~= on_port(ips@, ports@[p as int]));
        assert(ports@.take(p + 1).drop_last() =~= ports@.take(p as int));
        p += 1;
    }
    assert(ports@.take(p as int) =~= ports@);
    pairs
}

/// What a check of the first `n` hosts runs against: a host without an ip is
/// left out.
pub open spec fn checked_hosts(
    hosts: Seq<String>,
    lookups: Seq<Lookup>,
    ports: Seq<u16>,
    n: int,
) -> Map<Seq<char>, Seq<CheckIPPort>>
    decreases n,
{
    if n <= 0 {
        Map::empty()
    } else {
        let before = checked_hosts(hosts, lookups, ports, n - 1);
        if lookups[n - 1].ips().len() == 0 {
            before
        } else {
            before.insert(hosts[n - 1]@, pairs_of(lookups[n - 1].ips(), ports))
        }
    }
}

/// The window of one link and the reading of its last failure.
#[derive(Debug, Clone, Copy, PartialEq, Eq, Structural)]
pub struct NetTaskStatusItem {
    pub records: u32,
    pub last_failedtime: u64,
}

impl Default for NetTaskStatusItem {
    /// A link that has not been used yet is one that never failed.
    fn default() -> (item: Self)
        ensures
            item.records == VALID_BITS_FILTER,
            item.last_failedtime == 0,
    {
        NetTaskStatusItem { records: VALID_BITS_FILTER, last_failedtime: 0 }
    }
}

impl NetTaskStatusItem {
    /// The link is broken.
    pub open spec fn is_bad(self) -> bool {
        recent_successes(self.records) < CHECK_IF_BELOW_COUNT
    }

    /// The link is fine.
    pub open spec fn is_good(self) -> bool {
        recent_successes(self.records) > CHECK_IF_ABOVE_COUNT
    }

    /// The link is broken now and was fine before.
    pub open spec fn broke(self) -> bool {
        self.is_bad() && earlier_successes(self.records) > CHECK_IF_ABOVE_COUNT
    }

    /// A task finished on the link.
    pub open spec fn noted(self, now: u64, task_succ: bool) -> NetTaskStatusItem {
        NetTaskStatusItem {
            records: moved_in(task_succ, self.records, VALID_BITS_FILTER),
            last_failedtime: if task_succ {
                self.last_failedtime
            } else {
                now
            },
        }
    }

    /// A task finished on the link.
    fn note(&mut self, now: u64, task_succ: bool)
        ensures
            *final(self) == old(self).noted(now, task_succ),
    {
        if !task_succ {
            self.last_failedtime = now;
        }
        self.records = set_bit(task_succ, self.records, VALID_BITS_FILTER);
    }

    /// Whether the link broke, and whether it is fine.
    fn judge(&self) -> (r: (bool, bool))
        ensures
            r.0 == self.broke(),
            r.1 == self.is_good(),
    {
        let recent: u32 = count_part(self.records, MOST_RECENT_TASK_START_N);
        let good = recent > CHECK_IF_ABOVE_COUNT;
        if recent >= CHECK_IF_BELOW_COUNT {
            return (false, good);
        }
        let earlier: u32 = count_part(self.records, SECOND_RECENT_TASK_START_N);
        (earlier > CHECK_IF_ABOVE_COUNT, good)
    }
}

/// What a check was answered, question by question.
pub struct CheckAnswers {
    pub long_hosts: Seq<String>,
    pub long_ports: Seq<u16>,
    pub long_lookups: Seq<Lookup>,
    pub short_hosts: Seq<String>,
    pub short_port: u16,
    pub short_lookups: Seq<Lookup>,
}

/// One of the hosts has an ip.
pub open spec fn some_ips(lookups: Seq<Lookup>) -> bool {
    exists|i: int| 0 <= i < lookups.len() && (#[trigger] lookups[i]).ips().len() > 0
}

impl CheckAnswers {
    /// Every host that is looked up has an answer.
    pub open spec fn fits(self) -> bool {
        &&& self.long_lookups.len() == self.long_hosts.len()
        &&& self.short_lookups.len() == self.short_hosts.len()
    }

    /// What the long link is checked at.
    pub open spec fn longlink(self) -> Map<Seq<char>, Seq<CheckIPPort>> {
        checked_hosts(
            self.long_hosts,
            self.long_lookups,
            self.long_ports,
            self.long_hosts.len() as int,
        )
    }

    /// What the short link is checked at.
    pub open spec fn shortlink(self) -> Map<Seq<char>, Seq<CheckIPPort>> {
        checked_hosts(
            self.short_hosts,
            self.short_lookups,
            seq![self.short_port],
            self.short_hosts.len() as int,
        )
    }

    /// What is asked to look the hosts of both links up.
    #[verifier::opaque]
    pub open spec fn lookup_words(self) -> Seq<CheckTold> {
        lookups_asked(self.long_hosts, self.long_lookups, self.long_hosts.len() as int) + seq![
            CheckTold::ShortHosts { answer: self.short_hosts },
            CheckTold::ShortPort { answer: self.short_port },
        ] + lookups_asked(self.short_hosts, self.short_lookups, self.short_hosts.len() as int)
    }

    /// What a check asks and says: a long link without hosts or ports is not
    /// checked, and neither are links without an ip.
    pub open spec fn words(self) -> Seq<CheckTold> {
        let hosts = seq![CheckTold::LongHosts { answer: self.long_hosts }];
        let ports = hosts.push(CheckTold::LongPorts { answer: self.long_ports });
        if self.long_hosts.len() == 0 {
            hosts
        } else if self.long_ports.len() == 0 {
            ports
        } else if !some_ips(self.long_lookups) && !some_ips(self.short_lookups) {
            ports + self.lookup_words()
        } else {
            (ports + self.lookup_words()).push(
                CheckTold::Started {
                    longlink: self.longlink(),
                    shortlink: self.shortlink(),
                    mode: NET_CHECK_MODE,
                },
            )
        }
    }
}

/// When a run of failed tasks is a network worth diagnosing.
pub struct NetCheckLogic<H> {
    /// What the links are reachable at, the dns, and what runs a check.
    pub host: H,
    pub longlink_taskstatus_item: NetTaskStatusItem,
    pub shortlink_taskstatus_item: NetTaskStatusItem,
    /// How many times the wait between two checks has grown.
    pub increment_steps: u32,
    pub frequency_limit: FrequencyLimit,
}

/// The contents of a [`NetCheckLogic`].
pub struct CheckView {
    pub longlink: NetTaskStatusItem,
    pub shortlink: NetTaskStatusItem,
    pub increment_steps: u32,
    /// When checks got through.
    pub touches: Seq<u64>,
    pub told: Seq<CheckTold>,
}

impl<H: NetCheckHost> View for NetCheckLogic<H> {
    type V = CheckView;

    open spec fn view(&self) -> CheckView {
        CheckView {
            longlink: self.longlink_taskstatus_item,
            shortlink: self.shortlink_taskstatus_item,
            increment_steps: self.increment_steps,
            touches: self.frequency_limit.touch_times@,
            told: self.host.heard(),
        }
    }
}

impl CheckView {
    /// No task has finished yet.
    pub open spec fn fresh(told: Seq<CheckTold>) -> CheckView {
        let unused = NetTaskStatusItem { records: VALID_BITS_FILTER, last_failedtime: 0 };
        CheckView {
            longlink: unused,
            shortlink: unused,
            increment_steps: 0,
            touches: seq![],
            told,
        }
    }

    /// A link broke, and the clock is as old as the wait is long.
    pub open spec fn is_ripe(self, now: u64) -> bool {
        &&& self.longlink.broke() || self.shortlink.broke()
        &&& now >= MIN_CHECK_TIME_SPAN + self.increment_steps * CHECK_TIME_SPAN_INCREMENT_STEP
    }

    /// A check starts.
    pub open spec fn starts(self, now: u64) -> bool {
        self.is_ripe(now) && gets_through(self.touches, LIMIT_COUNT as int, LIMIT_TIME_SPAN, now)
    }

    /// The wait grows with a check that is ripe, and starts over once both
    /// links are fine.
    pub open spec fn judged(self, now: u64) -> CheckView {
        CheckView {
            increment_steps: if self.shortlink.is_good() && self.longlink.is_good() {
                0
            } else if self.is_ripe(now) && self.increment_steps < u32::MAX {
                (self.increment_steps + 1) as u32
            } else {
                self.increment_steps
            },
            touches: if self.is_ripe(now) {
                touched(self.touches, LIMIT_COUNT as int, LIMIT_TIME_SPAN, now)
            } else {
                self.touches
            },
            ..self
        }
    }

    /// What a finished task comes to: the check is judged, and run where it
    /// starts.
    pub open spec fn decided(self, now: u64, a: CheckAnswers) -> CheckView {
        let judged = self.judged(now);
        CheckView {
            told: if self.starts(now) {
                judged.told + a.words()
            } else {
                judged.told
            },
            ..judged
        }
    }

    /// A task finished on the long link.
    pub open spec fn long_updated(self, now: u64, task_succ: bool, a: CheckAnswers) -> CheckView {
        CheckView { longlink: self.longlink.noted(now, task_succ), ..self }.decided(now, a)
    }

    /// A task finished on the short link.
    pub open spec fn short_updated(self, now: u64, task_succ: bool, a: CheckAnswers) -> CheckView {
        CheckView { shortlink: self.shortlink.noted(now, task_succ), ..self }.decided(now, a)
    }
}

impl<H> NetCheckLogic<H> {
    /// The frequency limit is the one a check has.
    pub open spec fn wf(&self) -> bool {
        &&& self.frequency_limit.count == LIMIT_COUNT
        &&& self.frequency_limit.time_span == LIMIT_TIME_SPAN
    }
}

impl<H: NetCheckHost> NetCheckLogic<H> {
    /// No task has finished yet.
    pub fn new_at(host: H, _now: u64) -> (logic: Self)
        ensures
            logic.wf(),
            logic@ == CheckView::fresh(host.heard()),
    {
        NetCheckLogic {
            host,
            longlink_taskstatus_item: NetTaskStatusItem {
                records: VALID_BITS_FILTER,
                last_failedtime: 0,
            },
            shortlink_taskstatus_item: NetTaskStatusItem {
                records: VALID_BITS_FILTER,
                last_failedtime: 0,
            },
            increment_steps: 0,
            frequency_limit: FrequencyLimit::new(LIMIT_COUNT, LIMIT_TIME_SPAN),
        }
    }

    /// The window of the long link, `1` for a success and the newest in the low
    /// bit.
    pub fn longlink_records(&self) -> (records: u32)
        ensures
            records == self@.longlink.records,
    {
        self.longlink_taskstatus_item.records
    }

    /// The same for the short link.
    pub fn shortlink_records(&self) -> (records: u32)
        ensures
            records == self@.shortlink.records,
    {
        self.shortlink_taskstatus_item.records
    }

    /// When a task last failed on the long link.
    pub fn longlink_last_failed_time(&self) -> (at: u64)
        ensures
            at == self@.longlink.last_failedtime,
    {
        self.longlink_taskstatus_item.last_failedtime
    }

    /// When a task last failed on the short link.
    pub fn shortlink_last_failed_time(&self) -> (at: u64)
        ensures
            at == self@.shortlink.last_failedtime,
    {
        self.shortlink_taskstatus_item.last_failedtime
    }

    /// How many times the wait between two checks has grown.
    pub fn increment_steps(&self) -> (steps: u32)
        ensures
            steps == self@.increment_steps,
    {
        self.increment_steps
    }

    /// The check that runs is given up.
    pub fn cancel_active_check(&mut self)
        requires
            old(self).wf(),
        ensures
            final(self).wf(),
            final(self)@ == (CheckView {
                told: old(self)@.told.push(CheckTold::Cancelled),
                ..old(self)@
            }),
    {
        self.host.cancel_active_check();
    }

    /// Whether a check starts now.
    fn should_net_check_at(&mut self, now: u64) -> (starts: bool)
        requires
            old(self).wf(),
        ensures
            final(self).wf(),
            starts == old(self)@.starts(now),
            final(self)@ == old(self)@.judged(now),
    {
        let (short_broke, short_good) = self.shortlink_taskstatus_item.judge();
        let (long_broke, long_good) = self.longlink_taskstatus_item.judge();
        let steps: u32 = self.increment_steps;
        assert(steps * CHECK_TIME_SPAN_INCREMENT_STEP <= u32::MAX * CHECK_TIME_SPAN_INCREMENT_STEP)
            by (nonlinear_arith)
            requires
                steps <= u32::MAX,
        ;
        let span: u64 = MIN_CHECK_TIME_SPAN + steps as u64 * CHECK_TIME_SPAN_INCREMENT_STEP;
        let ripe = (long_broke || short_broke) && now >= span;
        if ripe {
            self.increment_steps = self.increment_steps.saturating_add(1);
        }
        if short_good && long_good {
            self.increment_steps = 0;
        }
        if !ripe {
            return false;
        }
        self.frequency_limit.check_at(now)
    }

    /// The ips of a host.
    fn resolve(&mut self, host: &str) -> (r: (Vec<String>, Ghost<Lookup>))
        ensures
            r.0@ == r.1@.ips(),
            final(self)@ == (CheckView {
                told: old(self)@.told + r.1@.asked(host@),
                ..old(self)@
            }),
            final(self).frequency_limit == old(self).frequency_limit,
    {
        let first = self.host.new_dns(host);
        if first.len() > 0 {
            assert(self.host.heard() =~= old(self).host.heard() + seq![
                CheckTold::NewDns { host: host@, answer: first@ },
            ]);
            let ghost lookup = Lookup { first: first@, second: seq![] };
            return (first, Ghost(lookup));
        }
        let second = self.host.dns(host);
        let ghost lookup = Lookup { first: first@, second: second@ };
        assert(self.host.heard() =~= old(self).host.heard() + lookup.asked(host@));
        (second, Ghost(lookup))
    }

    /// What a check of the hosts runs against.
    fn look_up(&mut self, hosts: &Vec<String>, ports: &Vec<u16>) -> (r: (
        Vec<CheckHost>,
        Ghost<Seq<Lookup>>,
    ))
        ensures
            r.1@.len() == hosts@.len(),
            by_name(r.0@) == checked_hosts(hosts@, r.1@, ports@, hosts@.len() as int),
            r.0@.len() > 0 <==> some_ips(r.1@),
            final(self)@ == (CheckView {
                told: old(self)@.told + lookups_asked(hosts@, r.1@, hosts@.len() as int),
                ..old(self)@
            }),
            final(self).frequency_limit == old(self).frequency_limit,
    {
        let mut list: Vec<CheckHost> = Vec::new();
        let ghost mut lookups: Seq<Lookup> = seq![];
        let mut i: usize = 0;
        assert(self.host.heard() + lookups_asked(hosts@, lookups, 0) =~= self.host.heard());
        while i < hosts.len()
            invariant
                i <= hosts@.len(),
                lookups.len() == i,
                by_name(list@) == checked_hosts(hosts@, lookups, ports@, i as int),
                list@.len() > 0 <==> some_ips(lookups),
                self@ == (CheckView {
                    told: old(self)@.told + lookups_asked(hosts@, lookups, i as int),
                    ..old(self)@
                }),
                self.frequency_limit == old(self).frequency_limit,
            decreases hosts@.len() - i,
        {
            let ghost before = lookups;
            let (ips, Ghost(lookup)) = self.resolve(hosts[i].as_str());
            proof {
                lookups = lookups.push(lookup);
                lemma_lookups(hosts@, before, lookups, ports@, i as int);
                assert(lookups[i as int] == lookup);
                assert((old(self)@.told + lookups_asked(hosts@, before, i as int)) + lookup.asked(
                    hosts@[i as int]@,
                ) =~= old(self)@.told + lookups_asked(hosts@, lookups, i + 1));
                if some_ips(before) {
                    let k = choose|k: int|
                        0 <= k < before.len() && (#[trigger] before[k]).ips().len() > 0;
                    assert(lookups[k].ips().len() > 0);
                }
                if some_ips(lookups) && lookup.ips().len() == 0 {
                    let k = choose|k: int|
                        0 <= k < lookups.len() && (#[trigger] lookups[k]).ips().len() > 0;
                    assert(before[k].ips().len() > 0);
                }
            }
            if ips.len() > 0 {
                let ghost list_before = list@;
                let pairs = make_pairs(&ips, ports);
                list.push(CheckHost { host: hosts[i].clone(), pairs });
                assert(list@.drop_last() =~= list_before);
            }
            i += 1;
        }
        (list, Ghost(lookups))
    }

    /// The hosts of the two links are looked up and the check is run.
    fn start_net_check(&mut self) -> (answers: Ghost<CheckAnswers>)
        requires
            old(self).wf(),
        ensures
            final(self).wf(),
            answers@.fits(),
            final(self)@ == (CheckView {
                told: old(self)@.told + answers@.words(),
                ..old(self)@
            }),
    {
        let long_hosts = self.host.long_link_hosts();
        let ghost unasked = Seq::new(
            long_hosts@.len(),
            |i: int| Lookup { first: seq![], second: seq![] },
        );
        let ghost a = CheckAnswers {
            long_hosts: long_hosts@,
            long_ports: seq![],
            long_lookups: unasked,
            short_hosts: seq![],
            short_port: 0,
            short_lookups: seq![],
        };
        if long_hosts.len() == 0 {
            assert(self.host.heard() =~= old(self).host.heard() + a.words());
            return Ghost(a);
        }
        let long_ports = self.host.long_link_ports();
        let ghost b = CheckAnswers { long_ports: long_ports@, ..a };
        if long_ports.len() == 0 {
            assert(self.host.heard() =~= old(self).host.heard() + b.words());
            return Ghost(b);
        }
        let ghost asked = self.host.heard();
        let (longlink, Ghost(long_lookups)) = self.look_up(&long_hosts, &long_ports);
        let short_hosts = self.host.request_short_link_hosts();
        let short_port: u16 = self.host.short_link_port();
        let mut ports: Vec<u16> = Vec::new();
        ports.push(short_port);
        assert(ports@ =~= seq![short_port]);
        let (shortlink, Ghost(short_lookups)) = self.look_up(&short_hosts, &ports);
        let ghost c = CheckAnswers {
            long_lookups,
            short_hosts: short_hosts@,
            short_port,
            short_lookups,
            ..b
        };
        proof {
            reveal(CheckAnswers::lookup_words);
            assert(self.host.heard() =~= asked + c.lookup_words());
            assert(asked =~= old(self).host.heard() + seq![
                CheckTold::LongHosts { answer: long_hosts@ },
            ].push(CheckTold::LongPorts { answer: long_ports@ }));
        }
        if longlink.len() == 0 && shortlink.len() == 0 {
            assert(self.host.heard() =~= old(self).host.heard() + c.words());
            return Ghost(c);
        }
        self.host.start_active_check(&longlink, &shortlink, NET_CHECK_MODE);
        proof {
            assert(self.host.heard() =~= old(self).host.heard() + c.words());
        }
        Ghost(c)
    }

    /// A task finished on the long link: the check starts where the link broke.
    pub fn update_long_link_info_at(
        &mut self,
        now: u64,
        _continues_fail_count: u32,
        task_succ: bool,
    )
        requires
            old(self).wf(),
        ensures
            final(self).wf(),
            exists|a: CheckAnswers|
                final(self)@ == #[trigger] old(self)@.long_updated(now, task_succ, a) && a.fits(),
    {
        let ghost before = self@;
        self.longlink_taskstatus_item.note(now, task_succ);
        let Ghost(a) = self.decide(now);
        assert(self@ == before.long_updated(now, task_succ, a));
    }

    /// A task finished on the short link: the check starts where the link
    /// broke.
    pub fn update_short_link_info_at(
        &mut self,
        now: u64,
        _continues_fail_count: u32,
        task_succ: bool,
    )
        requires
            old(self).wf(),
        ensures
            final(self).wf(),
            exists|a: CheckAnswers|
                final(self)@ == #[trigger] old(self)@.short_updated(now, task_succ, a) && a.fits(),
    {
        let ghost before = self@;
        self.shortlink_taskstatus_item.note(now, task_succ);
        let Ghost(a) = self.decide(now);
        assert(self@ == before.short_updated(now, task_succ, a));
    }

    /// The check is judged, and run where it starts.
    fn decide(&mut self, now: u64) -> (answers: Ghost<CheckAnswers>)
        requires
            old(self).wf(),
        ensures
            final(self).wf(),
            answers@.fits(),
            final(self)@ == old(self)@.decided(now, answers@),
    {
        if self.should_net_check_at(now) {
            return self.start_net_check();
        }
        Ghost(
            CheckAnswers {
                long_hosts: seq![],
                long_ports: seq![],
                long_lookups: seq![],
                short_hosts: seq![],
                short_port: 0,
                short_lookups: seq![],
            },
        )
    }
}

/// The first hosts are looked up the same whatever the last one is answered.
proof fn lemma_lookups(
    hosts: Seq<String>,
    some: Seq<Lookup>,
    more: Seq<Lookup>,
    ports: Seq<u16>,
    n: int,
)
    requires
        n <= some.len() <= more.len(),
        forall|i: int| 0 <= i < n ==> some[i] == more[i],
    ensures
        lookups_asked(hosts, some, n) == lookups_asked(hosts, more, n),
        checked_hosts(hosts, some, ports, n) == checked_hosts(hosts, more, ports, n),
    decreases n,
{
    if n > 0 {
        lemma_lookups(hosts, some, more, ports, n - 1);
    }
}

/// A link that was fine and broke starts no check before its wait is over, and
/// every check that is ripe makes the wait longer; both links being fine again
/// is what starts the wait over.
pub proof fn law_the_wait_grows(check: CheckView, now: u64)
    requires
        check.increment_steps < u32::MAX,
    ensures
        check.is_ripe(now) ==> check.judged(now).increment_steps == check.increment_steps + 1,
        check.is_ripe(now) ==> !check.judged(now).is_ripe(now) || now >= MIN_CHECK_TIME_SPAN + (
        check.increment_steps + 1) * CHECK_TIME_SPAN_INCREMENT_STEP,
        check.longlink.is_good() && check.shortlink.is_good() ==> check.judged(
            now,
        ).increment_steps == 0 && !check.starts(now),
{
}

/// No more than one check over the count gets through in a span: once that many
/// did, the next one waits for the oldest to be further back than the span.
pub proof fn law_the_frequency_is_capped(touches: Seq<u64>, count: int, span: u64, now: u64)
    requires
        count >= 0,
        touches.len() <= count + 1,
    ensures
        touched(touches, count, span, now).len() <= count + 1,
        touches.len() == count + 1 && since(now, touches[0]) <= span ==> !gets_through(
            touches,
            count,
            span,
            now,
        ),
        gets_through(touches, count, span, now) ==> touched(touches, count, span, now).last()
            == now,
{
}

} // verus!
