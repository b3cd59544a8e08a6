//! What a source promises for the pairs it gives: where their ips and ports come from,
//! and how many of them there are.
use vstd::prelude::*;
use crate::ip_port::{all_on_ports, on_ports, tcp_pair, IpPortView, IpSourceType};
use crate::net_source::{SourceTold, SourceView};
use crate::source_items::{
    first_known, kept_ips, pick_count, required_pairs, share_of, shuffled, Listing, Made,
    Make, MakeAnswers, Pass, Wanted,
};

verus! {

/// The port is one a link of that kind goes to: the short-link port the app set for a
/// short link; for a long link one of its ports, and in the backup pass one of those of
/// low priority where there are any.
pub open spec fn is_port_of(
    source: SourceView,
    is_longlink: bool,
    is_backup: bool,
    port: u16,
) -> bool {
    &&& !is_longlink ==> port == source.shortlink_port
    &&& is_longlink && (!is_backup || source.low_ports.len() == 0)
        ==> source.longlink_ports.contains(port)
    &&& is_longlink && is_backup && source.low_ports.len() > 0 ==> source.low_ports.contains(port)
}

/// The pairs of a list of ips are each ip on each port and nothing else, all over TCP
/// and all of that host.
pub proof fn law_every_ip_is_on_every_port(
    ips: Seq<Seq<char>>,
    ports: Seq<u16>,
    source_type: IpSourceType,
    host: Seq<char>,
)
    ensures
        ({
            let pairs = all_on_ports(ips, ports, source_type, host);
            &&& pairs.len() == ips.len() * ports.len()
            &&& forall|i: int|
                0 <= i < pairs.len() ==> ips.contains((#[trigger] pairs[i]).ip) && ports.contains(
                    pairs[i].port,
                ) && pairs[i].source_type == source_type && pairs[i].host == host
                    && pairs[i].transport_protocol == 1 && pairs[i].from_source == 0
            &&& forall|i: int, p: int|
                0 <= i < ips.len() && 0 <= p < ports.len() ==> pairs.contains(
                    #[trigger] tcp_pair(ips[i], ports[p], source_type, host),
                )
        }),
    decreases ips.len(),
{
    let pairs = all_on_ports(ips, ports, source_type, host);
    if ips.len() > 0 {
        let fewer = ips.drop_last();
        law_every_ip_is_on_every_port(fewer, ports, source_type, host);
        let before = all_on_ports(fewer, ports, source_type, host);
        let last = on_ports(ips.last(), ports, source_type, host);
        assert(pairs == before + last);
        assert(ips.len() * ports.len() == (ips.len() - 1) * ports.len() + ports.len())
            by (nonlinear_arith)
            requires
                ips.len() > 0,
        ;
        assert forall|i: int| 0 <= i < pairs.len() implies ips.contains((#[trigger] pairs[i]).ip)
            && ports.contains(pairs[i].port) && pairs[i].source_type == source_type
            && pairs[i].host == host && pairs[i].transport_protocol == 1 && pairs[i].from_source
            == 0 by {
            if i < before.len() {
                assert(pairs[i] == before[i]);
                let j = choose|j: int| 0 <= j < fewer.len() && fewer[j] == before[i].ip;
                assert(ips[j] == before[i].ip);
            } else {
                assert(pairs[i] == last[i - before.len()]);
                assert(ports[i - before.len()] == pairs[i].port);
                assert(ips[ips.len() - 1] == pairs[i].ip);
            }
        }
        assert forall|i: int, p: int|
            0 <= i < ips.len() && 0 <= p < ports.len() implies pairs.contains(
            #[trigger] tcp_pair(ips[i], ports[p], source_type, host),
        ) by {
            let pair = tcp_pair(ips[i], ports[p], source_type, host);
            if i < ips.len() - 1 {
                assert(fewer[i] == ips[i]);
                assert(before.contains(tcp_pair(fewer[i], ports[p], source_type, host)));
                let j = choose|j: int| 0 <= j < before.len() && before[j] == pair;
                assert(pairs[j] == pair);
            } else {
                assert(last[p] == pair);
                assert(pairs[before.len() + p] == pair);
            }
        }
    } else {
        assert(pairs.len() == 0);
        assert(ips.len() * ports.len() == 0) by (nonlinear_arith)
            requires
                ips.len() == 0,
        ;
    }
}

// ---- the first pass -------------------------------------------------------------

/// A pair put to the history is of the host, on a port of the link, and from the app's
/// own dns where that answered anything, and from the fallback otherwise.
pub open spec fn is_put_to_history(
    source: SourceView,
    host: Seq<char>,
    is_longlink: bool,
    a: MakeAnswers,
    pair: IpPortView,
) -> bool {
    &&& is_port_of(source, is_longlink, false, pair.port)
    &&& pair.host == host
    &&& pair.transport_protocol == 1
    &&& a.first.len() > 0 ==> a.first.contains(pair.ip) && pair.source_type == IpSourceType::NewDns
    &&& a.first.len() == 0 ==> a.second.contains(pair.ip) && pair.source_type == IpSourceType::Dns
}

/// The first pass asks the app's own dns for a host, and the fallback where that knows
/// nothing. What either answers is put to the history, every ip on every port of the
/// link, and the list gets what the history leaves of it, of as many as it has room for;
/// a host neither knows adds nothing.
pub proof fn law_what_the_first_pass_puts_to_the_history(
    source: SourceView,
    now: u64,
    so_far: Seq<IpPortView>,
    host: Seq<char>,
    extra: Seq<(String, String)>,
    make: Make,
    a: MakeAnswers,
)
    requires
        !make.is_backup,
    ensures
        ({
            let made = source.makes(now, so_far, host, extra, make, a);
            let said = made.look.told.skip(source.told.len() as int);
            let known = a.first.len() > 0 || a.second.len() > 0;
            let own = SourceTold::NewDns {
                host,
                is_longlink: make.is_longlink,
                extra,
                answer: a.first,
            };
            let fallback = SourceTold::Dns { host, answer: a.second };
            let sort = said.last();
            &&& made.look.told == source.told + said
            &&& made.look.backup == source.backup
            &&& said.len() == 1 + (if a.first.len() > 0 {
                0int
            } else {
                1int
            }) + (if known {
                1int
            } else {
                0int
            })
            &&& said[0] == own
            &&& a.first.len() == 0 ==> said[1] == fallback
            &&& made.pairs == (if known {
                Some(a.sorted)
            } else {
                None
            })
            &&& known ==> {
                &&& sort is Sort
                &&& sort->Sort_now == now
                &&& sort->Sort_answer == a.sorted
                &&& make.count >= so_far.len() && make.count - so_far.len() <= i32::MAX
                    ==> sort->Sort_need == make.count - so_far.len()
                &&& make.count < so_far.len() ==> sort->Sort_need < 0
                &&& forall|i: int|
                    0 <= i < sort->Sort_items.len() ==> is_put_to_history(
                        source,
                        host,
                        make.is_longlink,
                        a,
                        #[trigger] sort->Sort_items[i],
                    )
                &&& sort->Sort_items.len() == (if a.first.len() > 0 {
                    a.first.len()
                } else {
                    a.second.len()
                }) * (if make.is_longlink {
                    source.longlink_ports.len()
                } else {
                    1
                })
            }
        }),
{
    reveal(SourceView::makes);
    let made = source.makes(now, so_far, host, extra, make, a);
    let n = source.told.len() as int;
    let said = made.look.told.skip(n);
    assert(made.look.told =~= source.told + said);
    assert(said[0] == made.look.told[n]);
    if a.first.len() == 0 {
        assert(said[1] == made.look.told[n + 1]);
    }
    if a.first.len() > 0 || a.second.len() > 0 {
        assert(said.last() == made.look.told.last());
        law_every_ip_is_on_every_port(
            SourceView::front_ips(a),
            source.ports_of(make),
            SourceView::front_source(a),
            host,
        );
    }
}

// ---- the backup pass ------------------------------------------------------------

/// Which ips the backup pass keeps. None is added, and one the list does not have yet
/// is never left out. One the list has is left out as long as there are more pairs than
/// are asked for, so that either none of them stays, or no more pairs stay than that;
/// and never so many are left out that fewer than that, by the pairs of one ip or more,
/// would stay.
pub proof fn law_which_backup_ips_are_kept(
    ips: Seq<Seq<char>>,
    known: Seq<Seq<char>>,
    room: int,
    required: int,
    step: int,
)
    requires
        step > 0,
    ensures
        ({
            let (kept, left) = kept_ips(ips, known, room, required, step);
            &&& kept.len() <= ips.len()
            &&& left == room - step * (ips.len() - kept.len())
            &&& forall|i: int| 0 <= i < kept.len() ==> ips.contains(#[trigger] kept[i])
            &&& forall|i: int|
                0 <= i < ips.len() && !known.contains(#[trigger] ips[i]) ==> kept.contains(ips[i])
            &&& left > required ==> forall|i: int|
                0 <= i < kept.len() ==> !known.contains(#[trigger] kept[i])
            &&& kept.len() < ips.len() ==> left > required - step
            &&& room <= required ==> kept == ips
        }),
    decreases ips.len(),
{
    if ips.len() > 0 {
        let fewer = ips.drop_last();
        let last = ips.last();
        law_which_backup_ips_are_kept(fewer, known, room, required, step);
        let (before, had) = kept_ips(fewer, known, room, required, step);
        let (kept, left) = kept_ips(ips, known, room, required, step);
        let dropped = had > required && known.contains(last);
        assert(step * (ips.len() - before.len()) == step * (fewer.len() - before.len()) + step)
            by (nonlinear_arith)
            requires
                ips.len() == fewer.len() + 1,
        ;
        assert(had <= room) by (nonlinear_arith)
            requires
                had == room - step * (fewer.len() - before.len()),
                before.len() <= fewer.len(),
                step > 0,
        ;
        assert forall|i: int| 0 <= i < kept.len() implies ips.contains(#[trigger] kept[i]) by {
            if i < before.len() {
                assert(kept[i] == before[i]);
                let j = choose|j: int| 0 <= j < fewer.len() && fewer[j] == before[i];
                assert(ips[j] == kept[i]);
            } else {
                assert(ips[ips.len() - 1] == kept[i]);
            }
        }
        assert forall|i: int|
            0 <= i < ips.len() && !known.contains(#[trigger] ips[i]) implies kept.contains(
            ips[i],
        ) by {
            if i < fewer.len() {
                assert(fewer[i] == ips[i]);
                let j = choose|j: int| 0 <= j < before.len() && before[j] == fewer[i];
                assert(kept[j] == ips[i]);
            } else {
                assert(kept[kept.len() - 1] == ips[i]);
            }
        }
        if left > required {
            assert forall|i: int| 0 <= i < kept.len() implies !known.contains(
                #[trigger] kept[i],
            ) by {
                if i < before.len() {
                    assert(kept[i] == before[i]);
                }
            }
        }
        if room <= required {
            assert(before == fewer);
            assert(kept =~= ips);
        }
    } else {
        let (kept, left) = kept_ips(ips, known, room, required, step);
        assert(kept =~= ips);
        assert(step * 0 == 0) by (nonlinear_arith);
    }
}

/// A pair the backup pass adds is of the host, on a port of the link, and one of the
/// backup ips the app set where it set any, and of the fallback otherwise.
pub open spec fn is_backup_pair(
    source: SourceView,
    host: Seq<char>,
    is_longlink: bool,
    a: MakeAnswers,
    pair: IpPortView,
) -> bool {
    &&& is_port_of(source, is_longlink, true, pair.port)
    &&& pair.host == host
    &&& pair.transport_protocol == 1
    &&& pair.source_type == IpSourceType::Backup
    &&& (if source.backup_of(host).len() > 0 {
        source.backup_of(host)
    } else {
        a.second
    }).contains(pair.ip)
}

/// A shuffled list holds what it held.
proof fn lemma_shuffled_all(items: Seq<IpPortView>, picks: Seq<usize>, n: int, j: int)
    requires
        0 <= n <= pick_count(items.len() as int),
        0 <= j < items.len(),
    ensures
        shuffled(items, picks, n).len() == items.len(),
        items.contains(shuffled(items, picks, n)[j]),
    decreases n,
{
    if n > 0 {
        let index = items.len() - n;
        let picked = picks[n - 1] as int % (index + 1);
        lemma_shuffled_all(items, picks, n - 1, j);
        lemma_shuffled_all(items, picks, n - 1, index);
        lemma_shuffled_all(items, picks, n - 1, picked);
    } else {
        assert(items[j] == items[j]);
    }
}

/// The backup pass takes the backup ips the app set for a host, and asks the fallback
/// only where there are none, whose answer it keeps. It adds as many pairs as there is
/// room for, or all there are, or too few for one ip more by what the list has already,
/// each an ip of those on a port of the link.
pub proof fn law_what_the_backup_pass_adds(
    source: SourceView,
    now: u64,
    so_far: Seq<IpPortView>,
    host: Seq<char>,
    extra: Seq<(String, String)>,
    make: Make,
    a: MakeAnswers,
)
    requires
        make.is_backup,
    ensures
        ({
            let made = source.makes(now, so_far, host, extra, make, a);
            let said = made.look.told.skip(source.told.len() as int);
            let set = source.backup_of(host).len() > 0;
            let ips = if set {
                source.backup_of(host)
            } else {
                a.second
            };
            let ports = if !make.is_longlink {
                1
            } else if source.low_ports.len() > 0 {
                source.low_ports.len()
            } else {
                source.longlink_ports.len()
            };
            let room = if make.count >= so_far.len() {
                make.count - so_far.len()
            } else {
                0
            };
            &&& made.look.told == source.told + said
            &&& !set ==> said.len() > 0 && said[0] == (SourceTold::Dns { host, answer: a.second })
            &&& forall|i: int|
                (if set {
                    0int
                } else {
                    1int
                }) <= i < said.len() ==> (#[trigger] said[i]) is Random
            &&& made.look.backup == (if !set && a.second.len() > 0 {
                source.backup.insert(host, a.second)
            } else {
                source.backup
            })
            &&& made.pairs is Some <==> set || a.second.len() > 0
            &&& made.pairs matches Some(pairs) ==> {
                &&& forall|i: int|
                    0 <= i < pairs.len() ==> is_backup_pair(
                        source,
                        host,
                        make.is_longlink,
                        a,
                        #[trigger] pairs[i],
                    )
                &&& pairs.len() <= room
                &&& pairs.len() == room || pairs.len() == ips.len() * ports || (ports <= room
                    && pairs.len() + ports > room)
            }
        }),
{
    reveal(SourceView::makes);
    let made = source.makes(now, so_far, host, extra, make, a);
    let n = source.told.len() as int;
    let said = made.look.told.skip(n);
    assert(made.look.told =~= source.told + said);
    if source.backup_of(host).len() == 0 {
        assert(said[0] == made.look.told[n]);
    }
    assert forall|i: int| 0 <= i < said.len() implies #[trigger] said[i] == made.look.told[n
        + i] by {}
    let ips = source.spare_ips(host, a);
    if ips.len() > 0 {
        let ports = source.ports_of(make);
        let all = source.spare_pairs(so_far, host, make, a);
        let count = pick_count(all.len() as int);
        let required = required_pairs(make.count as int, so_far.len() as int, ports.len() as int);
        let (kept, left) = kept_ips(
            ips,
            crate::source_items::ips_of(so_far),
            (ips.len() * ports.len()) as int,
            required,
            ports.len() as int,
        );
        let used = if ports.len() == 0 {
            ips
        } else {
            kept
        };
        if ports.len() > 0 {
            law_which_backup_ips_are_kept(
                ips,
                crate::source_items::ips_of(so_far),
                (ips.len() * ports.len()) as int,
                required,
                ports.len() as int,
            );
        }
        assert forall|i: int| 0 <= i < used.len() implies ips.contains(#[trigger] used[i]) by {}
        law_every_ip_is_on_every_port(used, ports, IpSourceType::Backup, host);
        assert(all == all_on_ports(used, ports, IpSourceType::Backup, host));
        let pairs = made.pairs->0;
        let p = ports.len();
        if p > 0 {
            assert(p * (ips.len() - kept.len()) == ips.len() * p - kept.len() * p)
                by (nonlinear_arith);
            assert(left == kept.len() * p);
            if kept.len() == ips.len() {
                assert(kept.len() * p == ips.len() * p);
            }
        }
        if all.len() > 0 {
            lemma_shuffled_all(all, a.picks, count, 0);
        } else {
            assert(shuffled(all, a.picks, 0) == all);
        }
        assert forall|i: int| 0 <= i < pairs.len() implies is_backup_pair(
            source,
            host,
            make.is_longlink,
            a,
            #[trigger] pairs[i],
        ) by {
            lemma_shuffled_all(all, a.picks, count, i);
            let j = choose|j: int| 0 <= j < all.len() && all[j] == pairs[i];
            assert(used.contains(all[j].ip));
            let m = choose|m: int| 0 <= m < used.len() && used[m] == all[j].ip;
            assert(ips.contains(used[m]));
        }
    }
}

// ---- the whole list ---------------------------------------------------------------

/// The history answers with pairs it was given, and no others.
pub open spec fn history_only_chooses(words: Seq<SourceTold>) -> bool {
    forall|i: int, j: int|
        0 <= i < words.len() && words[i] is Sort && 0 <= j < words[i]->Sort_answer.len()
            ==> words[i]->Sort_items.contains(#[trigger] words[i]->Sort_answer[j])
}

/// A pair that is put to the history, of one of the hosts.
pub open spec fn is_front_pair(source: SourceView, wanted: Wanted, pair: IpPortView) -> bool {
    &&& is_port_of(source, wanted.is_longlink, false, pair.port)
    &&& wanted.hosts.contains(pair.host)
    &&& pair.source_type == IpSourceType::NewDns || pair.source_type == IpSourceType::Dns
}

/// A pair of the backup pass, of one of the hosts.
pub open spec fn is_spare_pair(source: SourceView, wanted: Wanted, pair: IpPortView) -> bool {
    &&& is_port_of(source, wanted.is_longlink, true, pair.port)
    &&& wanted.hosts.contains(pair.host)
    &&& pair.source_type == IpSourceType::Backup
}

/// What was put to the history is what a first pass puts to it.
pub open spec fn puts_front_pairs(
    source: SourceView,
    wanted: Wanted,
    words: Seq<SourceTold>,
) -> bool {
    forall|i: int, j: int|
        0 <= i < words.len() && words[i] is Sort && 0 <= j < words[i]->Sort_items.len()
            ==> is_front_pair(source, wanted, #[trigger] words[i]->Sort_items[j])
}

/// The pair is one the history answered.
pub open spec fn is_answered(words: Seq<SourceTold>, pair: IpPortView) -> bool {
    exists|i: int|
        0 <= i < words.len() && (#[trigger] words[i]) is Sort && words[i]->Sort_answer.contains(
            pair,
        )
}

/// What holds of a list while it is made.
spec fn is_sound(source: SourceView, wanted: Wanted, list: Listing) -> bool {
    let said = list.look.told.skip(source.told.len() as int);
    &&& list.look.told == source.told + said
    &&& puts_front_pairs(source, wanted, said)
    &&& forall|i: int|
        0 <= i < list.items.len() ==> is_spare_pair(source, wanted, #[trigger] list.items[i])
            || is_answered(said, list.items[i])
}

proof fn lemma_sound_step(
    source: SourceView,
    wanted: Wanted,
    list: Listing,
    pass: Pass,
    count: int,
    k: int,
    a: MakeAnswers,
)
    requires
        is_sound(source, wanted, list),
        0 <= k < wanted.hosts.len(),
    ensures
        ({
            let make = Make {
                count: count as usize,
                is_backup: pass.is_backup(),
                is_longlink: wanted.is_longlink,
            };
            let made = source.settled(list.look).makes(
                wanted.now,
                list.items,
                wanted.hosts[k],
                wanted.extra,
                make,
                a,
            );
            is_sound(source, wanted, list.with(pass, count, made))
        }),
{
    let host = wanted.hosts[k];
    let make = Make {
        count: count as usize,
        is_backup: pass.is_backup(),
        is_longlink: wanted.is_longlink,
    };
    let at = source.settled(list.look);
    let made = at.makes(wanted.now, list.items, host, wanted.extra, make, a);
    let next = list.with(pass, count, made);
    let n = source.told.len() as int;
    let before = list.look.told.skip(n);
    let more = made.look.told.skip(list.look.told.len() as int);
    let said = next.look.told.skip(n);
    if make.is_backup {
        law_what_the_backup_pass_adds(
            at,
            wanted.now,
            list.items,
            host,
            wanted.extra,
            make,
            a,
        );
    } else {
        law_what_the_first_pass_puts_to_the_history(
            at,
            wanted.now,
            list.items,
            host,
            wanted.extra,
            make,
            a,
        );
    }
    assert(made.look.told == list.look.told + more);
    assert(next.look.told =~= source.told + said);
    assert(said =~= before + more);
    assert forall|i: int, j: int|
        0 <= i < said.len() && said[i] is Sort && 0 <= j
            < said[i]->Sort_items.len() implies is_front_pair(
        source,
        wanted,
        #[trigger] said[i]->Sort_items[j],
    ) by {
        if i < before.len() {
            assert(said[i] == before[i]);
            assert(is_front_pair(source, wanted, before[i]->Sort_items[j]));
        } else {
            let word = more[i - before.len()];
            assert(said[i] == word);
            if !make.is_backup {
                assert(word == more.last());
                assert(is_put_to_history(
                    at,
                    host,
                    wanted.is_longlink,
                    a,
                    more.last()->Sort_items[j],
                ));
                assert(wanted.hosts.contains(host));
            }
        }
    }
    assert forall|i: int| 0 <= i < next.items.len() implies is_spare_pair(
        source,
        wanted,
        #[trigger] next.items[i],
    ) || is_answered(said, next.items[i]) by {
        let pair = next.items[i];
        if i < list.items.len() {
            assert(list.items[i] == pair);
            if !is_spare_pair(source, wanted, pair) {
                let w = choose|w: int|
                    0 <= w < before.len() && (#[trigger] before[w]) is Sort
                        && before[w]->Sort_answer.contains(pair);
                assert(said[w] == before[w]);
            }
        } else {
            let pairs = made.pairs->0;
            let j = i - list.items.len();
            assert(pairs[j] == pair);
            if make.is_backup {
                assert(is_backup_pair(at, host, wanted.is_longlink, a, pairs[j]));
                assert(wanted.hosts.contains(host));
            } else {
                assert(said[said.len() - 1] == more.last());
                assert(a.sorted[j] == pair);
            }
        }
    }
}

proof fn lemma_sound_walk(
    source: SourceView,
    wanted: Wanted,
    start: Listing,
    pass: Pass,
    answers: Seq<MakeAnswers>,
    k: int,
)
    requires
        is_sound(source, wanted, start),
        0 <= k <= wanted.hosts.len(),
    ensures
        is_sound(source, wanted, source.walked(wanted, start, pass, answers, k)),
    decreases k,
{
    if k > 0 {
        lemma_sound_walk(source, wanted, start, pass, answers, k - 1);
        let list = source.walked(wanted, start, pass, answers, k - 1);
        match list.asks(pass, wanted.hosts.len() as int, k - 1) {
            None => {},
            Some(count) => {
                lemma_sound_step(source, wanted, list, pass, count, k - 1, answers[k - 1]);
            },
        }
    }
}

proof fn lemma_sound_list(
    source: SourceView,
    wanted: Wanted,
    front: Seq<MakeAnswers>,
    spare: Seq<MakeAnswers>,
)
    ensures
        ({
            let given = source.looked_up(wanted, front, spare);
            let said = given.look.told.skip(source.told.len() as int);
            &&& given.look.told == source.told + said
            &&& puts_front_pairs(source, wanted, said)
            &&& forall|i: int|
                0 <= i < given.items.len() ==> is_spare_pair(
                    source,
                    wanted,
                    #[trigger] given.items[i],
                ) || is_answered(said, given.items[i])
        }),
{
    let n = wanted.hosts.len() as int;
    let start = source.unmade();
    assert(start.look.told =~= source.told + start.look.told.skip(source.told.len() as int));
    if n > 0 {
        let first = if source.is_active {
            Pass::Front
        } else {
            Pass::Shared
        };
        let second = if source.is_active {
            Pass::Spare
        } else {
            Pass::Rest
        };
        lemma_sound_walk(source, wanted, start, first, front, n);
        let mid = source.walked(wanted, start, first, front, n);
        lemma_sound_walk(source, wanted, mid, second, spare, n);
    }
}

/// Where every pair of a list comes from. Each was answered by the history, or is one
/// of the backup pass; and where the history only chooses among the pairs it is given,
/// each is of one of the hosts and on a port of the link: on the short-link port the
/// app set for a short link, and for a long link on one of its ports or of those of low
/// priority.
pub proof fn law_every_pair_of_a_list_is_on_a_port_of_the_link(
    source: SourceView,
    wanted: Wanted,
    front: Seq<MakeAnswers>,
    spare: Seq<MakeAnswers>,
)
    ensures
        ({
            let given = source.looked_up(wanted, front, spare);
            let said = given.look.told.skip(source.told.len() as int);
            &&& given.look.told == source.told + said
            &&& puts_front_pairs(source, wanted, said)
            &&& forall|i: int|
                0 <= i < given.items.len() ==> is_spare_pair(
                    source,
                    wanted,
                    #[trigger] given.items[i],
                ) || is_answered(said, given.items[i])
            &&& history_only_chooses(said) ==> forall|i: int|
                0 <= i < given.items.len() ==> {
                    let pair = #[trigger] given.items[i];
                    &&& wanted.hosts.contains(pair.host)
                    &&& pair.source_type != IpSourceType::Debug
                    &&& !wanted.is_longlink ==> pair.port == source.shortlink_port
                    &&& wanted.is_longlink ==> source.longlink_ports.contains(pair.port)
                        || source.low_ports.contains(pair.port)
                }
        }),
{
    lemma_sound_list(source, wanted, front, spare);
    let given = source.looked_up(wanted, front, spare);
    let said = given.look.told.skip(source.told.len() as int);
    if history_only_chooses(said) {
        assert forall|i: int| 0 <= i < given.items.len() implies ({
            let pair = #[trigger] given.items[i];
            &&& wanted.hosts.contains(pair.host)
            &&& pair.source_type != IpSourceType::Debug
            &&& !wanted.is_longlink ==> pair.port == source.shortlink_port
            &&& wanted.is_longlink ==> source.longlink_ports.contains(pair.port)
                || source.low_ports.contains(pair.port)
        }) by {
            let pair = given.items[i];
            if !is_spare_pair(source, wanted, pair) {
                let w = choose|w: int|
                    0 <= w < said.len() && (#[trigger] said[w]) is Sort
                        && said[w]->Sort_answer.contains(pair);
                let j = choose|j: int|
                    0 <= j < said[w]->Sort_answer.len() && said[w]->Sort_answer[j] == pair;
                assert(said[w]->Sort_items.contains(said[w]->Sort_answer[j]));
                let m = choose|m: int|
                    0 <= m < said[w]->Sort_items.len() && said[w]->Sort_items[m] == pair;
                assert(is_front_pair(source, wanted, said[w]->Sort_items[m]));
            }
        }
    }
}

/// The pairs of a short link that has no debug setting are on the short-link port.
pub proof fn law_a_short_link_goes_to_the_short_link_port(
    source: SourceView,
    now: u64,
    host_list: Seq<Seq<char>>,
    cgi: Seq<char>,
    extra: Seq<(String, String)>,
    front: Seq<MakeAnswers>,
    spare: Seq<MakeAnswers>,
)
    ensures
        ({
            let given = source.shortlink_items(now, host_list, cgi, extra, front, spare);
            let said = given.look.told.skip(source.told.len() as int);
            history_only_chooses(said) ==> forall|i: int|
                0 <= i < given.items.len() ==> (#[trigger] given.items[i]).port
                    == source.shortlink_port || (given.items[i].source_type == IpSourceType::Debug
                    && source.cgi_debug.contains_key(cgi) && given.items[i].port
                    == source.cgi_debug[cgi].1)
        }),
{
    law_every_pair_of_a_list_is_on_a_port_of_the_link(
        source,
        Wanted { now, hosts: host_list, is_longlink: false, extra },
        front,
        spare,
    );
}

/// The pairs of a long link are on its ports, or on those of low priority.
pub proof fn law_a_long_link_goes_to_the_long_link_ports(
    source: SourceView,
    now: u64,
    link_type: i32,
    host_list: Seq<Seq<char>>,
    extra: Seq<(String, String)>,
    front: Seq<MakeAnswers>,
    spare: Seq<MakeAnswers>,
)
    ensures
        ({
            let given = source.longlink_items(now, link_type, host_list, extra, front, spare);
            let said = given.look.told.skip(source.told.len() as int);
            history_only_chooses(said) ==> forall|i: int|
                0 <= i < given.items.len() ==> source.longlink_ports.contains(
                    (#[trigger] given.items[i]).port,
                ) || (source.low_ports.contains(given.items[i].port) && given.items[i].source_type
                    != IpSourceType::Debug)
        }),
{
    let given = source.longlink_items(now, link_type, host_list, extra, front, spare);
    if source.longlink_debug(link_type, host_list) is Some {
        assert forall|i: int| 0 <= i < given.items.len() implies source.longlink_ports.contains(
            (#[trigger] given.items[i]).port,
        ) by {
            assert(source.longlink_ports[i] == given.items[i].port);
        }
    } else {
        law_every_pair_of_a_list_is_on_a_port_of_the_link(
            source,
            Wanted { now, hosts: source.hosts_for(host_list), is_longlink: true, extra },
            front,
            spare,
        );
    }
}

// ---- debug settings ------------------------------------------------------------------

/// The first host with an entry is the one found: it has one, none before it has, and
/// nothing is found only where none has.
pub proof fn law_the_first_host_with_an_entry_is_found<V>(
    hosts: Seq<Seq<char>>,
    map: Map<Seq<char>, V>,
)
    ensures
        match first_known(hosts, map) {
            Some(at) => 0 <= at < hosts.len() && map.contains_key(hosts[at]) && forall|j: int|
                0 <= j < at ==> !map.contains_key(#[trigger] hosts[j]),
            None => forall|j: int| 0 <= j < hosts.len() ==> !map.contains_key(#[trigger] hosts[j]),
        },
    decreases hosts.len(),
{
    if hosts.len() > 0 {
        let fewer = hosts.drop_last();
        law_the_first_host_with_an_entry_is_found(fewer, map);
        assert forall|j: int| 0 <= j < fewer.len() implies #[trigger] hosts[j] == fewer[j] by {}
    }
}

/// A short link with a debug setting is given one pair, and no dns is asked. The pair
/// of the cgi comes first; then the debug ip of the first host that has one, for that
/// host; then the one of every short link, for the first host; the last two on the
/// short-link port.
pub proof fn law_the_debug_pair_of_a_short_link(
    source: SourceView,
    now: u64,
    host_list: Seq<Seq<char>>,
    cgi: Seq<char>,
    extra: Seq<(String, String)>,
    front: Seq<MakeAnswers>,
    spare: Seq<MakeAnswers>,
)
    ensures
        ({
            let given = source.shortlink_items(now, host_list, cgi, extra, front, spare);
            let of_cgi = source.cgi_debug.contains_key(cgi);
            let of_host = exists|i: int|
                0 <= i < host_list.len() && source.host_debugip.contains_key(
                    #[trigger] host_list[i],
                );
            let of_all = source.shortlink_debugip.len() > 0;
            let pair = given.items[0];
            &&& of_cgi || of_host || of_all ==> given.items.len() == 1 && given.look.told
                == source.told && given.look.backup == source.backup && pair.source_type
                == IpSourceType::Debug && pair.transport_protocol == 1
            &&& of_cgi ==> pair.ip == source.cgi_debug[cgi].0 && pair.port
                == source.cgi_debug[cgi].1
            &&& !of_cgi && of_host ==> pair.port == source.shortlink_port && exists|i: int|
                0 <= i < host_list.len() && pair.host == #[trigger] host_list[i]
                    && source.host_debugip.contains_key(host_list[i]) && pair.ip
                    == source.host_debugip[host_list[i]] && forall|j: int|
                    0 <= j < i ==> !source.host_debugip.contains_key(#[trigger] host_list[j])
            &&& !of_cgi && !of_host && of_all ==> pair.ip == source.shortlink_debugip && pair.port
                == source.shortlink_port
            &&& (of_cgi || (!of_host && of_all)) && host_list.len() > 0 ==> pair.host
                == host_list[0]
            &&& !of_cgi && !of_host && !of_all && host_list.len() == 0 ==> given.items.len() == 0
        }),
{
    law_the_first_host_with_an_entry_is_found(host_list, source.host_debugip);
    let given = source.shortlink_items(now, host_list, cgi, extra, front, spare);
    if !source.cgi_debug.contains_key(cgi) {
        match first_known(host_list, source.host_debugip) {
            Some(at) => {
                assert(given.items[0].host == host_list[at]);
            },
            None => {},
        }
    }
}

/// A long link with a debug setting is given that ip on each of its ports, in their
/// order, and no dns is asked. The debug ip of the first of the app's hosts that has
/// one comes first, for that host; then the one of the kind of link it is.
pub proof fn law_the_debug_pairs_of_a_long_link(
    source: SourceView,
    now: u64,
    link_type: i32,
    host_list: Seq<Seq<char>>,
    extra: Seq<(String, String)>,
    front: Seq<MakeAnswers>,
    spare: Seq<MakeAnswers>,
)
    ensures
        ({
            let given = source.longlink_items(now, link_type, host_list, extra, front, spare);
            let hosts = source.longlink_hosts;
            let of_host = exists|i: int|
                0 <= i < hosts.len() && source.host_debugip.contains_key(#[trigger] hosts[i]);
            let of_long = link_type == 2 && source.longlink_debugip.len() > 0;
            let of_minor = link_type == 4 && source.minorlong_debugip.len() > 0;
            &&& of_host || of_long || of_minor ==> {
                &&& given.look.told == source.told
                &&& given.look.backup == source.backup
                &&& given.items.len() == source.longlink_ports.len()
                &&& forall|p: int|
                    0 <= p < given.items.len() ==> (#[trigger] given.items[p]).port
                        == source.longlink_ports[p] && given.items[p].source_type
                        == IpSourceType::Debug
            }
            &&& of_host ==> exists|i: int|
                {
                    &&& 0 <= i < hosts.len()
                    &&& source.host_debugip.contains_key(#[trigger] hosts[i])
                    &&& forall|j: int|
                        0 <= j < i ==> !source.host_debugip.contains_key(#[trigger] hosts[j])
                    &&& forall|p: int|
                        0 <= p < given.items.len() ==> (#[trigger] given.items[p]).ip
                            == source.host_debugip[hosts[i]] && given.items[p].host == hosts[i]
                }
            &&& !of_host && of_long ==> forall|p: int|
                0 <= p < given.items.len() ==> (#[trigger] given.items[p]).ip
                    == source.longlink_debugip && (hosts.len() > 0 ==> given.items[p].host
                    == hosts[0])
            &&& !of_host && of_minor ==> forall|p: int|
                0 <= p < given.items.len() ==> (#[trigger] given.items[p]).ip
                    == source.minorlong_debugip && (host_list.len() > 0 ==> given.items[p].host
                    == host_list[0])
            &&& !of_host && !of_long && !of_minor && host_list.len() == 0 && hosts.len() == 0
                ==> given.items.len() == 0
        }),
{
    law_the_first_host_with_an_entry_is_found(source.longlink_hosts, source.host_debugip);
    let given = source.longlink_items(now, link_type, host_list, extra, front, spare);
    match first_known(source.longlink_hosts, source.host_debugip) {
        Some(at) => {
            let i = at;
            assert(source.host_debugip.contains_key(source.longlink_hosts[i]));
        },
        None => {},
    }
}

/// The fair share of each of `n` hosts in the background: together they are four pairs,
/// no host has over one more than another, and the first hosts have the more.
pub proof fn law_a_share_is_fair(n: int, i: int, j: int)
    requires
        0 <= i <= j < n,
    ensures
        share_of(n, j) <= share_of(n, i) <= share_of(n, j) + 1,
        n >= 4 ==> share_of(n, i) == (if i < 4 {
            1int
        } else {
            0int
        }),
        n == 1 ==> share_of(n, i) == 4,
        n == 2 ==> share_of(n, i) == 2,
        n == 3 ==> share_of(n, i) == (if i == 0 {
            2int
        } else {
            1int
        }),
{
    if n > 4 {
        assert(4int / n == 0 && 4int % n == 4) by (nonlinear_arith)
            requires
                n >= 5,
        ;
    } else {
        assert(n == 1 || n == 2 || n == 3 || n == 4);
    }
}

/// A debug pair that is set for a cgi is the one pair a short link of that cgi is given,
/// on port 80 where no port was set; taking it away undoes that, and no other cgi is
/// touched.
pub proof fn law_a_debug_pair_of_a_cgi_is_what_it_gets(
    source: SourceView,
    cgi: Seq<char>,
    other: Seq<char>,
    ip: Seq<char>,
    port: u16,
    now: u64,
    hosts: Seq<Seq<char>>,
    extra: Seq<(String, String)>,
    front: Seq<MakeAnswers>,
    spare: Seq<MakeAnswers>,
)
    requires
        cgi.len() > 0,
        ip.len() > 0,
        other != cgi,
    ensures
        ({
            let set = source.cgi_debug_ip_set(cgi, ip, port);
            let given = set.shortlink_items(now, hosts, cgi, extra, front, spare);
            &&& given.items.len() == 1
            &&& given.items[0].ip == ip
            &&& given.items[0].port == (if port == 0 {
                80u16
            } else {
                port
            })
            &&& given.look.told == source.told
            &&& set.cgi_debug.contains_key(other) == source.cgi_debug.contains_key(other)
            &&& set.cgi_debug.contains_key(other) ==> set.cgi_debug[other]
                == source.cgi_debug[other]
            &&& !set.cgi_debug_ip_set(cgi, seq![], port).cgi_debug.contains_key(cgi)
            &&& source.cgi_debug_ip_set(seq![], ip, port) == source
        }),
{
}

/// A debug ip that is set for a host is where its links go: a short link whose cgi has no
/// debug pair, and a long link of one of the app's hosts, where no host before it has
/// one. Taking it away undoes that.
pub proof fn law_a_debug_ip_of_a_host_is_where_its_links_go(
    source: SourceView,
    host: Seq<char>,
    ip: Seq<char>,
    now: u64,
    link_type: i32,
    cgi: Seq<char>,
    rest: Seq<Seq<char>>,
    extra: Seq<(String, String)>,
    front: Seq<MakeAnswers>,
    spare: Seq<MakeAnswers>,
)
    requires
        ip.len() > 0,
        !source.cgi_debug.contains_key(cgi),
    ensures
        ({
            let set = source.debug_ip_set(host, ip);
            let hosts = seq![host] + rest;
            let short = set.shortlink_items(now, hosts, cgi, extra, front, spare);
            &&& short.items.len() == 1
            &&& short.items[0].ip == ip
            &&& short.items[0].host == host
            &&& short.items[0].port == source.shortlink_port
            &&& source.longlink_hosts.len() > 0 && source.longlink_hosts[0] == host ==> forall|
                p: int,
            |
                0 <= p < source.longlink_ports.len() ==> (#[trigger] set.longlink_items(
                    now,
                    link_type,
                    rest,
                    extra,
                    front,
                    spare,
                ).items[p]).ip == ip
            &&& !set.debug_ip_set(host, seq![]).host_debugip.contains_key(host)
        }),
{
    let set = source.debug_ip_set(host, ip);
    let hosts = seq![host] + rest;
    assert(hosts[0] == host);
    law_the_debug_pair_of_a_short_link(set, now, hosts, cgi, extra, front, spare);
    law_the_first_host_with_an_entry_is_found(hosts, set.host_debugip);
    law_the_debug_pairs_of_a_long_link(set, now, link_type, rest, extra, front, spare);
    law_the_first_host_with_an_entry_is_found(set.longlink_hosts, set.host_debugip);
    assert(first_known(hosts, set.host_debugip) == Some(0int)) by {
        let at = first_known(hosts, set.host_debugip)->0;
        if at > 0 {
            assert(!set.host_debugip.contains_key(hosts[0]));
        }
    }
    if source.longlink_hosts.len() > 0 && source.longlink_hosts[0] == host {
        assert(set.host_debugip.contains_key(set.longlink_hosts[0]));
        assert(first_known(set.longlink_hosts, set.host_debugip) == Some(0int)) by {
            let at = first_known(set.longlink_hosts, set.host_debugip)->0;
            if at > 0 {
                assert(!set.host_debugip.contains_key(set.longlink_hosts[0]));
            }
        }
    }
}

/// The hosts that are set for the long link are those its links are made on where they
/// name none; a list without one leaves those there were. The ports are what was set.
pub proof fn law_the_long_link_is_what_was_set(
    source: SourceView,
    hosts: Seq<Seq<char>>,
    ports: Seq<u16>,
    debugip: Seq<char>,
)
    ensures
        ({
            let set = source.longlink_set(hosts, ports, debugip);
            &&& hosts.len() > 0 ==> set.hosts_for(seq![]) == hosts
            &&& hosts.len() == 0 ==> set.hosts_for(seq![]) == source.hosts_for(seq![])
            &&& set.longlink_ports == ports
            &&& set.longlink_debugip == debugip
            &&& set.shortlink_port == source.shortlink_port
            &&& set.low_ports == source.low_ports
            &&& forall|own: Seq<Seq<char>>|
                own.len() > 0 ==> #[trigger] set.hosts_for(own) == own
        }),
{
}

// ---- how many pairs ---------------------------------------------------------------------------

/// How many pairs a list may hold once a host is done. In the foreground it is what it
/// was, which starts at five, and six once exactly one host answered and filled five. In
/// the background the first pass gives each host its share until four are given out, and
/// the backup pass fills up to five unless that many were given out.
pub proof fn law_how_many_pairs_a_list_may_hold(list: Listing, n: int, i: int)
    ensures
        ({
            let one = list.answered == 1 && list.items.len() == 5;
            &&& one ==> list.asks(Pass::Front, n, i) == Some(6int) && list.asks(Pass::Spare, n, i)
                == Some(6int)
            &&& !one ==> list.asks(Pass::Front, n, i) == Some(list.count) && list.asks(
                Pass::Spare,
                n,
                i,
            ) == Some(list.count)
            &&& list.count >= 4 ==> list.asks(Pass::Shared, n, i) is None
            &&& list.count < 4 ==> list.asks(Pass::Shared, n, i) == Some(
                list.count + share_of(n, i),
            )
            &&& list.count >= 5 ==> list.asks(Pass::Rest, n, i) is None
            &&& list.count < 5 ==> list.asks(Pass::Rest, n, i) == Some(5int)
        }),
{
}

/// A list starts with nothing in it, and may hold five pairs where the app is in the
/// foreground; in the background what it may hold is given out host by host.
pub proof fn law_how_a_list_starts(source: SourceView)
    ensures
        source.unmade().items.len() == 0,
        source.unmade().answered == 0,
        source.is_active ==> source.unmade().count == 5,
        !source.is_active ==> source.unmade().count == 0,
        source.unmade().look.told == source.told,
        source.unmade().look.backup == source.backup,
{
}

/// What a host adds stands behind what there is, in its order, and counts as an answer
/// once anything is in the list; a host nobody knows adds nothing and counts for nothing.
pub proof fn law_what_a_host_adds(list: Listing, pass: Pass, count: int, made: Made)
    ensures
        ({
            let next = list.with(pass, count, made);
            &&& made.pairs is None ==> next.items == list.items && next.answered == list.answered
            &&& made.pairs matches Some(pairs) ==> next.items == list.items + pairs
                && next.answered == list.answered + (if list.items.len() + pairs.len() > 0 {
                1nat
            } else {
                0nat
            })
            &&& next.count == (if pass == Pass::Rest {
                list.count
            } else {
                count
            })
            &&& next.look == made.look
        }),
{
}

/// The app's own dns was asked about the host.
pub open spec fn is_asked(words: Seq<SourceTold>, host: Seq<char>, is_longlink: bool) -> bool {
    exists|i: int|
        0 <= i < words.len() && (#[trigger] words[i]) is NewDns && words[i]->NewDns_host == host
            && words[i]->NewDns_is_longlink == is_longlink
}

/// What was asked stays asked.
proof fn lemma_asked_grows(
    few: Seq<SourceTold>,
    many: Seq<SourceTold>,
    host: Seq<char>,
    is_longlink: bool,
)
    requires
        few.is_prefix_of(many),
        is_asked(few, host, is_longlink),
    ensures
        is_asked(many, host, is_longlink),
{
    let i = choose|i: int|
        0 <= i < few.len() && (#[trigger] few[i]) is NewDns && few[i]->NewDns_host == host
            && few[i]->NewDns_is_longlink == is_longlink;
    assert(many[i] == few[i]);
}

/// A walk takes nothing back of what was said.
proof fn lemma_walk_grows(
    source: SourceView,
    wanted: Wanted,
    start: Listing,
    pass: Pass,
    answers: Seq<MakeAnswers>,
    k: int,
)
    requires
        0 <= k <= wanted.hosts.len(),
    ensures
        start.look.told.is_prefix_of(source.walked(wanted, start, pass, answers, k).look.told),
    decreases k,
{
    if k > 0 {
        lemma_walk_grows(source, wanted, start, pass, answers, k - 1);
        lemma_step_grows(source, wanted, start, pass, answers, k);
    }
}

/// Neither does one step of it; and a step of a first pass asks about its host.
proof fn lemma_step_grows(
    source: SourceView,
    wanted: Wanted,
    start: Listing,
    pass: Pass,
    answers: Seq<MakeAnswers>,
    k: int,
)
    requires
        0 < k <= wanted.hosts.len(),
    ensures
        source.walked(wanted, start, pass, answers, k - 1).look.told.is_prefix_of(
            source.walked(wanted, start, pass, answers, k).look.told,
        ),
        !pass.is_backup() && source.walked(wanted, start, pass, answers, k - 1).asks(
            pass,
            wanted.hosts.len() as int,
            k - 1,
        ) is Some ==> is_asked(
            source.walked(wanted, start, pass, answers, k).look.told,
            wanted.hosts[k - 1],
            wanted.is_longlink,
        ),
{
    let list = source.walked(wanted, start, pass, answers, k - 1);
    match list.asks(pass, wanted.hosts.len() as int, k - 1) {
        None => {},
        Some(count) => {
            let make = Make {
                count: count as usize,
                is_backup: pass.is_backup(),
                is_longlink: wanted.is_longlink,
            };
            let at = source.settled(list.look);
            let host = wanted.hosts[k - 1];
            let a = answers[k - 1];
            let made = at.makes(wanted.now, list.items, host, wanted.extra, make, a);
            let n = list.look.told.len() as int;
            if make.is_backup {
                law_what_the_backup_pass_adds(
                    at,
                    wanted.now,
                    list.items,
                    host,
                    wanted.extra,
                    make,
                    a,
                );
            } else {
                law_what_the_first_pass_puts_to_the_history(
                    at,
                    wanted.now,
                    list.items,
                    host,
                    wanted.extra,
                    make,
                    a,
                );
                assert(made.look.told[n] == made.look.told.skip(n)[0]);
            }
        },
    }
}

/// In the foreground every host of a list is asked for, of the app's own dns, as one of
/// the kind of link it is for.
pub proof fn law_every_host_of_a_list_is_asked_for(
    source: SourceView,
    wanted: Wanted,
    front: Seq<MakeAnswers>,
    spare: Seq<MakeAnswers>,
    i: int,
)
    requires
        source.is_active,
        0 <= i < wanted.hosts.len(),
    ensures
        is_asked(
            source.looked_up(wanted, front, spare).look.told,
            wanted.hosts[i],
            wanted.is_longlink,
        ),
{
    let n = wanted.hosts.len() as int;
    let start = source.unmade();
    lemma_front_asks(source, wanted, start, front, n, i);
    let mid = source.walked(wanted, start, Pass::Front, front, n);
    lemma_walk_grows(source, wanted, mid, Pass::Spare, spare, n);
    let end = source.walked(wanted, mid, Pass::Spare, spare, n);
    lemma_asked_grows(mid.look.told, end.look.told, wanted.hosts[i], wanted.is_longlink);
}

proof fn lemma_front_asks(
    source: SourceView,
    wanted: Wanted,
    start: Listing,
    front: Seq<MakeAnswers>,
    k: int,
    i: int,
)
    requires
        0 <= i < k <= wanted.hosts.len(),
    ensures
        is_asked(
            source.walked(wanted, start, Pass::Front, front, k).look.told,
            wanted.hosts[i],
            wanted.is_longlink,
        ),
    decreases k,
{
    lemma_step_grows(source, wanted, start, Pass::Front, front, k);
    if i < k - 1 {
        lemma_front_asks(source, wanted, start, front, k - 1, i);
        lemma_asked_grows(
            source.walked(wanted, start, Pass::Front, front, k - 1).look.told,
            source.walked(wanted, start, Pass::Front, front, k).look.told,
            wanted.hosts[i],
            wanted.is_longlink,
        );
    }
}

} // verus!
