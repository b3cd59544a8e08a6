//! What the checks of a network promise: when one is made, what it is made against, and
//! what comes of it.
use vstd::prelude::*;
use crate::ip_port::{ip_source_name, IpPortView, IpSourceType};
use crate::long_link::{DisconnectInternalCode, LinkView};
use crate::longlink_metadata::MetaView;
use crate::net_check_logic::{
    checked_hosts, gets_through, has_bit, lookups_asked, on_port, pairs_of, some_ips, successes,
    touched, CheckAnswers, CheckIPPort, CheckTold, CheckView, Lookup, NetTaskStatusItem,
};
use crate::net_source::{
    decimal, dumped, dumped_item, SourceTold, SourceView, TimeoutSource, TimeoutView,
};
use crate::netsource_timercheck::{TimerAnswers, TimerTold, TimerView};
use crate::task::texts;

verus! {

// ---- when a network is diagnosed -------------------------------------------------------

/// One for a task that succeeded.
pub open spec fn one_if(succeeded: bool) -> int {
    if succeeded {
        1
    } else {
        0
    }
}

/// How a link is judged: by the eight tasks before the newest, and by the eight before
/// those. It broke where fewer than three of the eight succeeded and more than five of
/// the earlier ones had; it is fine where more than five of the eight did.
pub proof fn law_how_a_link_is_judged(item: NetTaskStatusItem)
    ensures
        ({
            let r = item.records;
            let recent = one_if(has_bit(r, 1)) + one_if(has_bit(r, 2)) + one_if(has_bit(r, 3))
                + one_if(has_bit(r, 4)) + one_if(has_bit(r, 5)) + one_if(has_bit(r, 6)) + one_if(
                has_bit(r, 7),
            ) + one_if(has_bit(r, 8));
            let earlier = one_if(has_bit(r, 9)) + one_if(has_bit(r, 10)) + one_if(has_bit(r, 11))
                + one_if(has_bit(r, 12)) + one_if(has_bit(r, 13)) + one_if(has_bit(r, 14)) + one_if(
                has_bit(r, 15),
            ) + one_if(has_bit(r, 16));
            &&& item.broke() <==> recent < 3 && earlier > 5
            &&& item.is_bad() <==> recent < 3
            &&& item.is_good() <==> recent > 5
        }),
{
    reveal_with_fuel(successes, 9);
}

/// A task that failed is remembered with its reading; one that succeeded changes only
/// the window.
pub proof fn law_what_a_finished_task_leaves(item: NetTaskStatusItem, now: u64)
    ensures
        item.noted(now, true).last_failedtime == item.last_failedtime,
        item.noted(now, false).last_failedtime == now,
        has_bit(item.noted(now, true).records, 0),
        !has_bit(item.noted(now, false).records, 0),
        forall|i: int, succeeded: bool|
            0 < i < 32 ==> #[trigger] has_bit(item.noted(now, succeeded).records, i) == has_bit(
                item.records,
                i - 1,
            ),
{
    crate::net_check_logic::law_the_newest_goes_in_the_low_bit(true, item.records);
    crate::net_check_logic::law_the_newest_goes_in_the_low_bit(false, item.records);
    assert forall|i: int, succeeded: bool| 0 < i < 32 implies #[trigger] has_bit(
        item.noted(now, succeeded).records,
        i,
    ) == has_bit(item.records, i - 1) by {
        crate::net_check_logic::law_the_newest_goes_in_the_low_bit(succeeded, item.records);
    }
}

/// A network is diagnosed exactly where one of the links broke, the clock is past five
/// minutes and ten more for every check there was, and no two checks got through within
/// the last hour. The wait grows with each that would be made, and starts over once both
/// links are fine.
pub proof fn law_when_a_network_is_diagnosed(check: CheckView, now: u64, a: CheckAnswers)
    ensures
        ({
            let after = check.decided(now, a);
            let broke = check.longlink.broke() || check.shortlink.broke();
            let ripe = broke && now >= 300_000 + check.increment_steps * 600_000;
            let free = check.touches.len() <= 1 || (now >= check.touches[0] && now
                - check.touches[0] > 3_600_000);
            let fine = check.longlink.is_good() && check.shortlink.is_good();
            &&& check.starts(now) <==> ripe && free
            &&& after.told == (if ripe && free {
                check.told + a.words()
            } else {
                check.told
            })
            &&& after.longlink == check.longlink
            &&& after.shortlink == check.shortlink
            &&& fine ==> after.increment_steps == 0
            &&& !fine && ripe && check.increment_steps < u32::MAX ==> after.increment_steps
                == check.increment_steps + 1
            &&& !fine && !ripe ==> after.increment_steps == check.increment_steps
            &&& !(ripe && free) ==> after.touches == check.touches
            &&& ripe && free ==> after.touches.len() > 0 && after.touches.last() == now
        }),
{
}

/// A task of one link says nothing of the other.
pub proof fn law_a_task_counts_on_its_own_link(
    check: CheckView,
    now: u64,
    succeeded: bool,
    a: CheckAnswers,
)
    ensures
        check.long_updated(now, succeeded, a).longlink == check.longlink.noted(now, succeeded),
        check.long_updated(now, succeeded, a).shortlink == check.shortlink,
        check.short_updated(now, succeeded, a).shortlink == check.shortlink.noted(now, succeeded),
        check.short_updated(now, succeeded, a).longlink == check.longlink,
{
}

/// No more readings get through within a span than one over the count: one gets through
/// where there are no more than the count, or where the oldest is further back than the
/// span, and then the oldest makes room for it.
pub proof fn law_what_a_limit_lets_through(touches: Seq<u64>, count: int, span: u64, now: u64)
    requires
        0 <= count,
    ensures
        ({
            let passes = touches.len() <= count || (now >= touches[0] && now - touches[0] > span);
            let after = touched(touches, count, span, now);
            &&& gets_through(touches, count, span, now) == passes
            &&& !passes ==> after == touches
            &&& passes ==> after.last() == now
            &&& touches.len() <= count ==> after.drop_last() == touches
            &&& passes && touches.len() > count ==> after.drop_last() == touches.skip(1)
        }),
{
    let after = touched(touches, count, span, now);
    if touches.len() <= count {
        assert(after.drop_last() =~= touches);
    } else if gets_through(touches, count, span, now) {
        assert(after.drop_last() =~= touches.skip(1));
    }
}

/// The pairs of a host are each of its ips on each of the ports, and nothing else.
pub proof fn law_what_a_host_is_checked_at(ips: Seq<String>, ports: Seq<u16>)
    ensures
        ({
            let pairs = pairs_of(ips, ports);
            &&& pairs.len() == ips.len() * ports.len()
            &&& forall|k: int|
                0 <= k < pairs.len() ==> ips.contains((#[trigger] pairs[k]).ip) && ports.contains(
                    pairs[k].port,
                )
            &&& forall|i: int, p: int|
                0 <= i < ips.len() && 0 <= p < ports.len() ==> pairs.contains(
                    (CheckIPPort { ip: #[trigger] ips[i], port: #[trigger] ports[p] }),
                )
        }),
    decreases ports.len(),
{
    let pairs = pairs_of(ips, ports);
    if ports.len() > 0 {
        let fewer = ports.drop_last();
        law_what_a_host_is_checked_at(ips, fewer);
        let before = pairs_of(ips, fewer);
        let last = on_port(ips, ports.last());
        assert(ips.len() * ports.len() == ips.len() * (ports.len() - 1) + ips.len())
            by (nonlinear_arith)
            requires
                ports.len() > 0,
        ;
        assert forall|k: int| 0 <= k < pairs.len() implies ips.contains((#[trigger] pairs[k]).ip)
            && ports.contains(pairs[k].port) by {
            if k < before.len() {
                assert(pairs[k] == before[k]);
                let p = choose|p: int| 0 <= p < fewer.len() && fewer[p] == before[k].port;
                assert(ports[p] == pairs[k].port);
            } else {
                assert(pairs[k] == last[k - before.len()]);
                assert(ips[k - before.len()] == pairs[k].ip);
                assert(ports[ports.len() - 1] == pairs[k].port);
            }
        }
        assert forall|i: int, p: int|
            0 <= i < ips.len() && 0 <= p < ports.len() implies pairs.contains(
            (CheckIPPort { ip: #[trigger] ips[i], port: #[trigger] ports[p] }),
        ) by {
            let pair = CheckIPPort { ip: ips[i], port: ports[p] };
            if p < fewer.len() {
                assert(fewer[p] == ports[p]);
                assert(before.contains((CheckIPPort { ip: ips[i], port: fewer[p] })));
                let k = choose|k: int| 0 <= k < before.len() && before[k] == pair;
                assert(pairs[k] == pair);
            } else {
                assert(last[i] == pair);
                assert(pairs[before.len() + i] == pair);
            }
        }
    } else {
        assert(ips.len() * ports.len() == 0) by (nonlinear_arith)
            requires
                ports.len() == 0,
        ;
    }
}

/// The ips of a host are what the app's own dns answers, and what the fallback does
/// where that answers nothing; the fallback is asked only then.
pub proof fn law_where_the_ips_of_a_host_come_from(lookup: Lookup, host: Seq<char>)
    ensures
        lookup.first.len() > 0 ==> lookup.ips() == lookup.first && lookup.asked(host) == seq![
            CheckTold::NewDns { host, answer: lookup.first },
        ],
        lookup.first.len() == 0 ==> lookup.ips() == lookup.second && lookup.asked(host) == seq![
            CheckTold::NewDns { host, answer: lookup.first },
            CheckTold::Dns { host, answer: lookup.second },
        ],
{
}

/// A host is checked exactly where it has an ip, on those ips and the ports.
pub proof fn law_which_hosts_are_checked(
    hosts: Seq<String>,
    lookups: Seq<Lookup>,
    ports: Seq<u16>,
    n: int,
    host: Seq<char>,
)
    requires
        0 <= n <= hosts.len(),
        lookups.len() == hosts.len(),
    ensures
        ({
            let checked = checked_hosts(hosts, lookups, ports, n);
            &&& checked.contains_key(host) <==> is_reachable(hosts, lookups, n, host)
            &&& checked.contains_key(host) ==> exists|i: int|
                0 <= i < n && (#[trigger] hosts[i])@ == host && lookups[i].ips().len() > 0
                    && checked[host] == pairs_of(lookups[i].ips(), ports)
        }),
    decreases n,
{
    if n > 0 {
        law_which_hosts_are_checked(hosts, lookups, ports, n - 1, host);
        let before = checked_hosts(hosts, lookups, ports, n - 1);
        let checked = checked_hosts(hosts, lookups, ports, n);
        if is_reachable(hosts, lookups, n - 1, host) {
            let i = choose|i: int|
                0 <= i < n - 1 && (#[trigger] hosts[i])@ == host && lookups[i].ips().len() > 0;
            assert(hosts[i]@ == host);
            assert(is_reachable(hosts, lookups, n, host));
        }
        assert(hosts[n - 1]@ == hosts[n - 1]@);
    }
}

/// One of the first hosts has that name, and an ip.
pub open spec fn is_reachable(
    hosts: Seq<String>,
    lookups: Seq<Lookup>,
    n: int,
    host: Seq<char>,
) -> bool {
    exists|i: int|
        0 <= i < n && (#[trigger] hosts[i])@ == host && lookups[i].ips().len() > 0
}

/// A check is run where the long link has a host and a port, and some host of either
/// link has an ip: of everything, and of both links, the short one on its own port.
pub proof fn law_what_a_check_runs_against(a: CheckAnswers)
    ensures
        ({
            let said = a.words();
            let there = a.long_hosts.len() > 0 && a.long_ports.len() > 0;
            let some = some_ips(a.long_lookups) || some_ips(a.short_lookups);
            let start = CheckTold::Started {
                longlink: checked_hosts(
                    a.long_hosts,
                    a.long_lookups,
                    a.long_ports,
                    a.long_hosts.len() as int,
                ),
                shortlink: checked_hosts(
                    a.short_hosts,
                    a.short_lookups,
                    seq![a.short_port],
                    a.short_hosts.len() as int,
                ),
                mode: 7,
            };
            &&& said.len() > 0
            &&& said[0] == (CheckTold::LongHosts { answer: a.long_hosts })
            &&& a.long_hosts.len() > 0 ==> said[1] == (CheckTold::LongPorts {
                answer: a.long_ports,
            })
            &&& there && some ==> said.last() == start
            &&& said.last() is Started ==> there && some
            &&& !there ==> said.len() <= 2
        }),
{
    let said = a.words();
    if a.long_hosts.len() > 0 && a.long_ports.len() > 0 && !(some_ips(a.long_lookups) || some_ips(
        a.short_lookups,
    )) {
        reveal(CheckAnswers::lookup_words);
        let n = a.long_hosts.len() as int;
        let m = a.short_hosts.len() as int;
        let tail = lookups_asked(a.short_hosts, a.short_lookups, m);
        lemma_no_start(a.short_hosts, a.short_lookups, m);
        if tail.len() > 0 {
            assert(said.last() == tail.last());
            assert(!(tail[tail.len() - 1] is Started));
        }
    }
}

/// Looking hosts up starts nothing.
proof fn lemma_no_start(hosts: Seq<String>, lookups: Seq<Lookup>, n: int)
    ensures
        forall|i: int|
            0 <= i < lookups_asked(hosts, lookups, n).len() ==> !((#[trigger] lookups_asked(
                hosts,
                lookups,
                n,
            )[i]) is Started),
    decreases n,
{
    if n > 0 {
        lemma_no_start(hosts, lookups, n - 1);
    }
}

// ---- the timer check -------------------------------------------------------------------

/// A check is due two and a half minutes after it is started, and after every look; one
/// that is due already is not put off by a start.
pub proof fn law_when_a_timer_check_is_due(check: TimerView, now: u64, a: TimerAnswers)
    requires
        now + 150_000 <= u64::MAX,
    ensures
        check.period_due is None ==> check.started(now).period_due == Some((now + 150_000) as u64),
        check.period_due is Some ==> check.started(now) == check,
        check.period_due is Some ==> check.checked(now, a).period_due == Some(
            (now + 150_000) as u64,
        ),
        check.period_due is None ==> check.checked(now, a).period_due is None,
        check.testing ==> check.stopped().period_due is None,
        !check.testing ==> check.stopped() == check,
{
}

/// A check is made exactly where it is running, the link is on a backup ip, no test is
/// in flight, and no more than thirty were made within the last hour.
pub proof fn law_when_a_timer_check_is_made(check: TimerView, now: u64, a: TimerAnswers)
    ensures
        ({
            let free = check.touches.len() <= 30 || (now >= check.touches[0] && now
                - check.touches[0] > 3_600_000);
            let made = check.period_due is Some && check.ip_type == IpSourceType::Backup
                && !check.testing && free;
            let after = check.checked(now, a);
            &&& check.outcome(now, a) is Some <==> made
            &&& !made ==> after.told == check.told
            &&& !made ==> after.touches == check.touches
            &&& made ==> after.touches.len() > 0 && after.touches.last() == now
            &&& after.testing == check.testing
            &&& after.ip_type == check.ip_type
        }),
{
}

/// What a check tests: one of the ips dns knows of the host of the link, on one of the
/// ports of the long link, and only where the link is on none of those ips. It found a
/// better pair exactly where that one answered.
pub proof fn law_what_a_timer_check_tests(check: TimerView, a: TimerAnswers)
    ensures
        ({
            let ips = a.ips();
            let said = check.try_words(a);
            let known = exists|i: int| 0 <= i < ips.len() && (#[trigger] ips[i])@ == check.ip;
            let tests = ips.len() > 0 && !known && a.ports.len() > 0;
            &&& check.tries(a) <==> tests && a.reached
            &&& tests ==> a.ports.contains(a.port()) && exists|i: int|
                0 <= i < ips.len() && (#[trigger] ips[i])@ == a.ip()
            &&& tests ==> said.contains(
                TimerTold::SpeedTest { ip: a.ip(), port: a.port(), answer: a.reached },
            )
            &&& !tests ==> forall|i: int|
                0 <= i < said.len() ==> !((#[trigger] said[i]) is SpeedTest)
            &&& said.contains(TimerTold::BanRemoved { ip: a.ip() }) <==> tests && a.reached
            &&& said[0] == (TimerTold::NewDns { host: check.host, answer: a.first })
            &&& a.first.len() == 0 ==> said[1] == (TimerTold::Dns {
                host: check.host,
                answer: a.second,
            })
        }),
        a.first.len() > 0 ==> a.ips() == a.first,
        a.first.len() == 0 ==> a.ips() == a.second,
{
    reveal(TimerView::try_words);
    let ips = a.ips();
    let said = check.try_words(a);
    let known = exists|i: int| 0 <= i < ips.len() && (#[trigger] ips[i])@ == check.ip;
    assert(check.knows_ip(a) == known) by {
        if known {
            let i = choose|i: int| 0 <= i < ips.len() && (#[trigger] ips[i])@ == check.ip;
            assert(texts(ips)[i] == check.ip);
        }
        if check.knows_ip(a) {
            let i = choose|i: int| 0 <= i < texts(ips).len() && texts(ips)[i] == check.ip;
            assert(ips[i]@ == check.ip);
        }
    }
    let n: int = if a.first.len() > 0 {
        1
    } else {
        2
    };
    if ips.len() > 0 && !known && a.ports.len() > 0 {
        let i = a.ip_pick as int % ips.len() as int;
        assert(ips[i]@ == a.ip());
        let p = a.port_pick as int % a.ports.len() as int;
        assert(a.ports[p] == a.port());
        assert(said[n + 3] == TimerTold::SpeedTest {
            ip: a.ip(),
            port: a.port(),
            answer: a.reached,
        });
        if a.reached {
            assert(said[n + 4] == TimerTold::BanRemoved { ip: a.ip() });
        } else {
            assert(said.len() == n + 4);
            assert(said[n] is Ports && said[n + 1] is Random && said[n + 2] is Random);
            assert forall|i: int| 0 <= i < said.len() implies !(
            (#[trigger] said[i]) is BanRemoved) by {
                if i < n {
                    assert(said[i] == check.dns_words(a)[i]);
                }
            }
        }
    } else {
        assert forall|i: int| 0 <= i < said.len() implies !((#[trigger] said[i]) is BanRemoved)
            && !(said[i] is SpeedTest) by {
            if i < n {
                assert(said[i] == check.dns_words(a)[i]);
            }
        }
    }
    assert(check.dns_words(a)[0] == said[0]);
    if a.first.len() == 0 {
        assert(check.dns_words(a)[1] == said[1]);
    }
}

/// A better pair takes a link down that is on a backup ip, and only that; a check that
/// found none leaves it alone.
pub proof fn law_what_a_better_pair_does(meta: MetaView, now: u64, a: TimerAnswers)
    ensures
        ({
            let after = meta.checked(now, a);
            let found = meta.looked_at().outcome(now, a) == Some(true);
            let spare = meta.link.profile.ip_type == IpSourceType::Backup;
            &&& after.link.disconnect_code == (if found && spare && meta.link.running {
                DisconnectInternalCode::TimeCheckSucc
            } else {
                meta.link.disconnect_code
            })
            &&& after.link == (LinkView {
                disconnect_code: after.link.disconnect_code,
                ..meta.link
            })
            &&& after.monitor == meta.monitor
            &&& after.config == meta.config
            &&& after.checker.ip == meta.link.profile.ip
            &&& after.checker.host == meta.link.profile.host
            &&& after.checker.ip_type == meta.link.profile.ip_type
        }),
{
}

// ---- the settings of a source ------------------------------------------------------------

/// Quic may be used where it is not forbidden, and is on, or is off and its time to come
/// back has come or was never set. Asking about it turns it on again then, and changes
/// nothing else.
pub proof fn law_when_quic_is_used(t: TimeoutView, now: u64)
    ensures
        ({
            let back = t.quic_reopen_due is None || now >= t.quic_reopen_due->0;
            &&& t.quic_usable(now) <==> !t.quic_forbidden && (t.quic_enabled || back)
            &&& t.asked_quic(now).quic_enabled <==> t.quic_enabled || (!t.quic_forbidden && back)
            &&& t.asked_quic(now) == (TimeoutView {
                quic_enabled: t.asked_quic(now).quic_enabled,
                ..t
            })
        }),
        !TimeoutView::fresh().quic_usable(now),
        TimeoutView::fresh().rw_default == (5_000u32, TimeoutSource::ClientDefault),
        TimeoutView::fresh().connect_default == (250u32, TimeoutSource::ClientDefault),
{
}

/// When quic comes back: so many seconds later, at once for none, and never past the
/// last reading there is.
pub proof fn law_when_quic_comes_back(now: u64, seconds: i64)
    ensures
        seconds <= 0 ==> TimeoutView::reopen_at(now, seconds) == now,
        seconds > 0 && now + seconds * 1_000 <= u64::MAX ==> TimeoutView::reopen_at(now, seconds)
            == now + seconds * 1_000,
        seconds > 0 && now + seconds * 1_000 > u64::MAX ==> TimeoutView::reopen_at(now, seconds)
            == u64::MAX,
{
}

/// The timeout of a cgi is its own where it has one, and the default otherwise; which of
/// the two comes with it.
pub proof fn law_the_timeout_of_a_cgi(
    by_cgi: Map<Seq<char>, u32>,
    default: (u32, TimeoutSource),
    cgi: Seq<char>,
    other: Seq<char>,
    value: u32,
)
    ensures
        TimeoutView::timeout_of(by_cgi.insert(cgi, value), default, cgi) == (
            value,
            TimeoutSource::CgiSpecial,
        ),
        other != cgi ==> TimeoutView::timeout_of(by_cgi.insert(cgi, value), default, other)
            == TimeoutView::timeout_of(by_cgi, default, other),
        !by_cgi.contains_key(cgi) ==> TimeoutView::timeout_of(by_cgi, default, cgi) == default,
{
}

/// How a pair did is written down exactly where there is an ip and a network.
pub proof fn law_when_a_report_is_written_down(
    source: SourceView,
    now: u64,
    now_secs: u64,
    is_success: bool,
    ip: Seq<char>,
    port: u16,
)
    ensures
        ({
            let after = source.reported(now, now_secs, is_success, ip, port);
            let kept = ip.len() > 0 && source.net_info != -1;
            &&& kept ==> after.told == source.told.push(
                SourceTold::Update { now, now_secs, ip, port, is_success },
            )
            &&& !kept ==> after == source
            &&& after == (SourceView { told: after.told, ..source })
        }),
{
}

/// The number that a row of digits stands for.
pub open spec fn number_of(text: Seq<char>) -> int
    decreases text.len(),
{
    if text.len() == 0 {
        0
    } else {
        number_of(text.drop_last()) * 10 + (text.last() as int - '0' as int)
    }
}

/// A number that is written down reads back as itself, in digits alone and without a
/// leading zero.
pub proof fn law_a_number_reads_back(value: nat)
    ensures
        number_of(decimal(value)) == value,
        decimal(value).len() > 0,
        forall|i: int|
            0 <= i < decimal(value).len() ==> '0' <= #[trigger] decimal(value)[i] <= '9',
        value > 0 ==> decimal(value)[0] != '0',
    decreases value,
{
    let text = decimal(value);
    if value < 10 {
        reveal_with_fuel(number_of, 2);
        assert(text.drop_last().len() == 0);
    } else {
        law_a_number_reads_back(value / 10);
        let before = decimal(value / 10);
        assert(text.drop_last() =~= before);
        assert(text.last() as int == '0' as int + value % 10);
        assert forall|i: int| 0 <= i < text.len() implies '0' <= #[trigger] text[i] <= '9' by {
            if i < before.len() {
                assert(text[i] == before[i]);
            }
        }
    }
}

// ---- a dump ------------------------------------------------------------------------------------

/// A pair is dumped as its ip, its port, its host and where it came from, with colons
/// between them; pairs are dumped one after the other, with bars between them.
pub proof fn law_how_pairs_are_dumped(items: Seq<IpPortView>, item: IpPortView)
    ensures
        dumped_item(item) == item.ip + ":"@ + decimal(item.port as nat) + ":"@ + item.host + ":"@
            + ip_source_name(item.source_type),
        dumped(seq![]) == Seq::<char>::empty(),
        dumped(seq![item]) == dumped_item(item),
        items.len() > 0 ==> dumped(items.push(item)) == dumped(items) + "|"@ + dumped_item(item),
{
    assert(items.push(item).drop_last() =~= items);
}

/// No two places a pair may come from are dumped alike.
pub proof fn law_every_source_has_a_name_of_its_own(left: IpSourceType, right: IpSourceType)
    ensures
        ip_source_name(left) == ip_source_name(right) ==> left == right,
{
    reveal_strlit("NullIP");
    reveal_strlit("DebugIP");
    reveal_strlit("DNSIP");
    reveal_strlit("NewDNSIP");
    reveal_strlit("ProxyIP");
    reveal_strlit("BackupIP");
    let a = ip_source_name(left);
    let b = ip_source_name(right);
    if a == b && left != right {
        assert(a.len() == b.len());
        assert(a[0] == b[0]);
    }
}

} // verus!
