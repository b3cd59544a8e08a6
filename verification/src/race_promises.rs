//! What the tests of a pair promise: when a pair wins, when it fails, and what a proxy is
//! asked.
use vstd::prelude::*;
use crate::ip_port::IpPortItem;
use crate::longlink::{packed_bytes, unpacked_bytes};
use crate::longlink_speed_test::{
    Fastest, IoAnswer, IoTold, ItemView, Need, RaceTold, RaceView, RoundAnswer, SocketEvent,
    SocketView, SpeedTestState, Stop, Watch,
};
use crate::proxy_test::{
    makes_available, read_through, request_text, verdict_of, ProxyTold, ReadAnswer, Reading,
    TestAnswers, TestAsked, Verdict,
};
use crate::task_profile::{ProxyType, ProxyView};

verus! {

// ---- one pair of a race ------------------------------------------------------------------

/// A pair is done once it was answered or failed, and nothing that happens on its socket
/// then changes it. Before that an exception fails it, a socket that takes a write is
/// written to, and one that has something is read; the connect took until the first
/// write it took.
pub proof fn law_what_a_socket_does_to_a_pair(item: ItemView, event: SocketEvent, now: u64)
    ensures
        ({
            let (next, need) = item.applied(event, now);
            let done = item.state == SpeedTestState::Suc || item.state == SpeedTestState::Fail;
            &&& done || event == SocketEvent::Nothing ==> next == item && need == Need::Nothing
            &&& !done && event == SocketEvent::Exception ==> next.state == SpeedTestState::Fail
                && need == Need::Nothing
            &&& !done && event == SocketEvent::Writable ==> need == Need::Write
                && next.connected is Some && (item.connected is Some ==> next.connected
                == item.connected) && (item.connected is None ==> next.connected == Some(now))
            &&& !done && event == SocketEvent::Readable ==> need == Need::Read && next.connected
                == item.connected
            &&& next.pair == item.pair
            &&& next.request == item.request
            &&& next.sent == item.sent
            &&& next.response == item.response
        }),
{
}

/// The noop goes out bit by bit: what is left of it is what was not written, and once
/// none is left the answer is read. A write of nothing fails the pair.
pub proof fn law_what_a_write_leaves(item: ItemView, count: int)
    requires
        item.wf(),
    ensures
        ({
            let (next, need) = item.written(count);
            let left = item.request.len() - item.sent;
            &&& count <= 0 ==> next.state == SpeedTestState::Fail && need == Need::Nothing
                && next.sent == item.sent
            &&& 0 < count < left ==> need == Need::Write && next.state == SpeedTestState::Req
                && next.pending() == item.pending().skip(count)
            &&& count > 0 && count >= left ==> need == Need::Read && next.state
                == SpeedTestState::Resp && next.pending().len() == 0
            &&& next.wf()
            &&& next.pair == item.pair
            &&& next.response == item.response
        }),
{
    let (next, need) = item.written(count);
    if 0 < count < item.request.len() - item.sent {
        assert(next.pending() =~= item.pending().skip(count));
    }
}

/// A pair is answered exactly where the whole of what came in starts with the noop's
/// answer. What is not whole yet is read on; a message of the server is thrown away and
/// the noop goes out again from its start; and nothing at all, a package of another kind
/// and what is no package fail the pair.
pub proof fn law_when_a_pair_is_answered(item: ItemView, bytes: Seq<u8>)
    ensures
        ({
            let (next, need) = item.received(bytes);
            let all = item.response + bytes;
            let read = unpacked_bytes(item.client_version, all);
            let is_noop = read is Package && read->cmdid == 6;
            let is_message = read is Package && read->cmdid == 72;
            &&& next.state == SpeedTestState::Suc <==> bytes.len() > 0 && is_noop
            &&& next.state == SpeedTestState::OutOfBand <==> bytes.len() > 0 && is_message
            &&& next.state == SpeedTestState::Resp <==> bytes.len() > 0 && read is Continue
            &&& next.state == SpeedTestState::Fail <==> bytes.len() == 0 || read is False || (read
                is Package && !is_noop && !is_message)
            &&& next.state == SpeedTestState::OutOfBand ==> need == Need::Write && next.sent == 0
                && next.response.len() == 0
            &&& next.state == SpeedTestState::Resp ==> need == Need::Read && next.response == all
            &&& next.state == SpeedTestState::Suc || next.state == SpeedTestState::Fail ==> need
                == Need::Nothing
            &&& next.pair == item.pair
            &&& next.request == item.request
            &&& next.connected == item.connected
        }),
{
}

/// What a fresh pair sends is the noop of its version, and nothing of it is out; how
/// long its connect took is not known until its socket takes a write.
pub proof fn law_how_a_pair_starts(now: u64, at: u64, version: u32, pair: IpPortItem)
    ensures
        ({
            let item = ItemView::fresh(now, version, pair);
            &&& item.pair == pair
            &&& item.state == SpeedTestState::Connecting
            &&& item.request == packed_bytes(version, 6, 0xffff_ffff, seq![])
            &&& item.pending() == item.request
            &&& item.connect_took() == 0
            &&& at >= now ==> item.applied(SocketEvent::Writable, at).0.connect_took() == at - now
        }),
{
    let item = ItemView::fresh(now, version, pair);
    assert(item.pending() =~= item.request);
}

/// A select watches for a write until the noop is out, for a read until it is answered,
/// and for nothing of a pair that is done.
pub proof fn law_what_a_pair_is_watched_for(item: ItemView)
    ensures
        item.watched() == Watch::Nothing <==> item.state == SpeedTestState::Suc || item.state
            == SpeedTestState::Fail,
        item.watched() == Watch::Read <==> item.state == SpeedTestState::Resp,
        item.watched() == Watch::ReadWrite <==> item.state == SpeedTestState::Connecting
            || item.state == SpeedTestState::Req || item.state == SpeedTestState::OutOfBand,
{
}

/// A step does on the socket what the event asks for, once: it writes what is left of the
/// noop, or reads; a pair without a socket fails what it wants.
pub proof fn law_what_a_step_does(item: ItemView, event: SocketEvent, now: u64, io: IoAnswer)
    ensures
        ({
            let done = item.state == SpeedTestState::Suc || item.state == SpeedTestState::Fail;
            let words = item.step_words(event, now, io);
            let writes = !done && event == SocketEvent::Writable;
            let reads = !done && event == SocketEvent::Readable;
            let lone = item.stepped(event, now, false, io).0;
            &&& writes ==> words == seq![
                IoTold::Sent { bytes: item.pending(), answer: io.written },
            ]
            &&& reads ==> words == seq![IoTold::Received { answer: io.bytes }]
            &&& !writes && !reads ==> words.len() == 0
            &&& writes || reads ==> lone.state == SpeedTestState::Fail
            &&& writes ==> item.stepped(event, now, true, io) == item.applied(
                event,
                now,
            ).0.written(io.written as int)
            &&& reads ==> item.stepped(event, now, true, io) == item.applied(
                event,
                now,
            ).0.received(io.bytes)
        }),
{
    let (next, need) = item.applied(event, now);
    assert(next.pending() =~= item.pending());
}

// ---- the race -------------------------------------------------------------------------------

/// A race is decided once a pair was answered, or every pair failed.
pub proof fn law_when_a_race_is_decided(race: RaceView, i: int)
    requires
        0 <= i < race.items.len(),
    ensures
        race.items[i].state == SpeedTestState::Suc ==> race.decided(),
        race.decided() && race.items[i].state != SpeedTestState::Fail ==> exists|j: int|
            0 <= j < race.items.len() && (#[trigger] race.items[j]).state == SpeedTestState::Suc,
{
}

/// The first pair that was answered wins: none before it was.
pub proof fn law_the_first_answered_wins(race: RaceView, from: int)
    requires
        0 <= from <= race.items.len(),
    ensures
        ({
            let won = race.first_answered(from);
            &&& from <= won <= race.items.len()
            &&& won < race.items.len() ==> race.items[won].state == SpeedTestState::Suc
            &&& forall|i: int|
                from <= i < won ==> (#[trigger] race.items[i]).state != SpeedTestState::Suc
        }),
    decreases race.items.len() - from,
{
    if from < race.items.len() && race.items[from].state != SpeedTestState::Suc {
        law_the_first_answered_wins(race, from + 1);
    }
}

/// A round steps every pair with its own event, and no other; a pair without an event is
/// left alone.
pub proof fn law_a_round_steps_every_pair(
    race: RaceView,
    events: Seq<SocketEvent>,
    now: u64,
    io: Seq<IoAnswer>,
    i: int,
)
    requires
        0 <= i < race.items.len(),
    ensures
        ({
            let next = race.rounded(events, now, io);
            &&& next.items.len() == race.items.len()
            &&& next.sockets.len() == race.sockets.len()
            &&& i < events.len() ==> next.items[i] == race.items[i].stepped(
                events[i],
                now,
                i < race.sockets.len(),
                io[i],
            ).0
            &&& i >= events.len() ==> next.items[i] == race.items[i]
            &&& i < events.len() && i < race.sockets.len() ==> next.sockets[i].heard
                == race.sockets[i].heard + race.items[i].step_words(events[i], now, io[i])
            &&& i < race.sockets.len() ==> next.sockets[i].id == race.sockets[i].id
            &&& next.told == race.told
            &&& next.retries == race.retries
        }),
{
}

// ---- the test of a proxy ---------------------------------------------------------------------

/// When a proxy is tested at all: where it is a valid one and there is a host, or an ip,
/// to reach through it.
pub proof fn law_when_a_proxy_is_tested(asked: TestAsked, a: TestAnswers)
    ensures
        ({
            let question = asked.proxy.valid && (asked.host.len() > 0 || asked.hardcode_ips.len()
                > 0);
            let (said, verdict) = asked.run(a);
            &&& !question ==> said.len() == 0 && verdict == Verdict::Failed
            &&& asked.reaches(a) is Some ==> question && asked.reaches(a) == a.socket
            &&& asked.reaches(a) is None ==> verdict == Verdict::Failed
            &&& asked.is_question() == question
        }),
{
}

/// Where a test connects to. An http proxy is connected to itself, on its own port, and
/// dns is not asked for the host; anything else to the ips of the host on port 80, or to
/// those it was given where dns knows none, mapped onto the local network only where no
/// proxy is in between.
pub proof fn law_where_a_proxy_test_connects_to(asked: TestAsked, a: TestAnswers, i: int)
    requires
        0 <= i < asked.addresses(a).len(),
    ensures
        ({
            let to = asked.addresses(a)[i];
            let http = asked.proxy.kind == ProxyType::Http;
            let none = asked.proxy.kind == ProxyType::Absent;
            &&& http ==> asked.addresses(a).len() == 1 && to.port == asked.proxy.port && to.mapped
            &&& http && asked.proxy.ip.len() > 0 ==> to.ip == asked.proxy.ip
            &&& http && asked.proxy.ip.len() == 0 ==> to.ip == a.proxy_dns[0]
            &&& !http ==> to.port == 80 && to.mapped == none
            &&& !http && a.host_dns.len() > 0 ==> asked.addresses(a).len() == a.host_dns.len()
                && to.ip == a.host_dns[i]
            &&& !http && a.host_dns.len() == 0 ==> asked.addresses(a).len()
                == asked.hardcode_ips.len() && to.ip == asked.hardcode_ips[i]
        }),
{
}

/// A test that has nowhere to go fails without a connect: where dns cannot name a proxy
/// that has no ip, and where a host that is not reached through http has no ip. Any other
/// connects, with ten seconds for an ipv4 and two and a half for an ipv6.
pub proof fn law_when_a_proxy_test_connects(asked: TestAsked, a: TestAnswers)
    ensures
        ({
            let said = asked.connect_words(a);
            let lost = asked.proxy.kind != ProxyType::Absent && asked.proxy.ip.len() == 0
                && a.proxy_dns.len() == 0;
            let none = asked.proxy.kind != ProxyType::Http && a.host_dns.len() == 0
                && asked.hardcode_ips.len() == 0;
            let through = if asked.proxy.kind == ProxyType::Absent {
                ProxyView::none()
            } else if asked.proxy.ip.len() > 0 {
                asked.proxy
            } else {
                ProxyView { ip: a.proxy_dns[0], ..asked.proxy }
            };
            &&& lost || none ==> forall|i: int|
                0 <= i < said.len() ==> (#[trigger] said[i]) is Dns
            &&& !lost && !none ==> said.len() >= 2 && said.last() == (ProxyTold::Connect {
                addresses: asked.addresses(a),
                proxy: through,
                answer: a.socket,
            }) && said[said.len() - 2] == (ProxyTold::Timeout { v4: 10_000, v6: 2_500 })
            &&& lost || none ==> asked.run(a).1 == Verdict::Failed
        }),
{
}

/// A proxy answered with a status exactly where the request went out, nobody broke the
/// test off, and a read brought one; and the socket is closed last, whatever came of it.
pub proof fn law_what_a_proxy_answers(asked: TestAsked, a: TestAnswers, socket: i64)
    ensures
        ({
            let (said, verdict) = asked.asked_on(a, socket);
            let status = read_through(socket, a.reads).status;
            let read = a.sent is Ok && !a.broken;
            &&& said.last() == (ProxyTold::Close { socket })
            &&& read && status is Some ==> verdict == Verdict::Status(status->0)
            &&& !read || status is None ==> verdict == Verdict::Failed
            &&& said.len() >= 2
            &&& said[0] == (ProxyTold::Authorization { proxy: asked.proxy, answer: a.account })
            &&& said[1] == (ProxyTold::Send {
                socket,
                request: request_text(asked.proxy.kind, asked.host, a.account),
                answer: a.sent,
            })
        }),
{
}

/// A read goes on after one that timed out, and after one that brought bytes the answer
/// is not whole with; it ends with one that failed otherwise, brought nothing, or that
/// the app broke off, which is not even looked at. A status that was read stays until
/// another is.
pub proof fn law_when_a_read_goes_on(reading: Reading, socket: i64, a: ReadAnswer)
    ensures
        ({
            let next = reading.with(socket, a);
            let bytes = a.read matches Some(Ok(bytes)) && bytes.len() > 0 && !a.broken;
            let late = a.read == Some(Err::<Seq<u8>, i32>(110)) && !a.broken;
            &&& !next.over <==> late || (bytes && !a.heard.over)
            &&& next.status == (if bytes && a.heard.status is Some {
                a.heard.status
            } else {
                reading.status
            })
            &&& next.words.len() > reading.words.len()
            &&& next.words[reading.words.len() as int] == (ProxyTold::Recv {
                socket,
                answer: a.read,
            })
        }),
{
}

/// What a status comes to.
pub proof fn law_no_status_is_a_failure(status: Option<i32>)
    ensures
        verdict_of(status) == Verdict::Failed <==> status is None,
        status is Some ==> verdict_of(status) == Verdict::Status(status->0),
{
}

// ---- the end of a race -------------------------------------------------------------------------

/// A race ends with the round that decides it, with a select that failed, and with the
/// fourth that was interrupted; three of those are sat through and change no pair.
pub proof fn law_when_a_race_ends(race: RaceView, r: RoundAnswer, fixed: Option<u64>)
    requires
        0 <= race.retries <= 3,
    ensures
        ({
            let next = race.round_run(r, fixed);
            &&& r.select is Ok ==> race.ends(r, fixed) == next.decided() && next.items
                == race.rounded(r.select->Ok_0, r.now, r.io).items && next.retries == race.retries
            &&& r.select == Err::<Seq<SocketEvent>, Stop>(Stop::Interrupted) ==> race.ends(
                r,
                fixed,
            ) == (race.retries == 3) && next.items == race.items && next.retries == (
            if race.retries < 3 {
                race.retries + 1
            } else {
                3
            })
            &&& r.select is Err && r.select != Err::<Seq<SocketEvent>, Stop>(Stop::Interrupted)
                ==> race.ends(r, fixed) && next.items == race.items
            &&& next.told[race.told.len() as int] == (RaceTold::Selected {
                items: race.items,
                answer: r.select,
            })
            &&& next.told.len() == race.told.len() + (if r.select is Ok && fixed is None {
                2int
            } else {
                1int
            })
        }),
{
}

/// What a race comes to: the first pair that was answered, with how long its connect
/// took and its socket left open; and where none was, nothing, with every socket closed.
pub proof fn law_what_a_race_comes_to(race: RaceView, fastest: Option<Fastest>)
    requires
        race.is_fastest(fastest),
    ensures
        fastest is Some <==> exists|i: int|
            0 <= i < race.items.len() && (#[trigger] race.items[i]).state == SpeedTestState::Suc,
        fastest matches Some(won) ==> {
            &&& won.socket < race.items.len()
            &&& race.items[won.socket as int].state == SpeedTestState::Suc
            &&& won.pair == race.items[won.socket as int].pair
            &&& race.items[won.socket as int].connected is None ==> won.connect_ms == 0
            &&& forall|i: int|
                0 <= i < won.socket ==> (#[trigger] race.items[i]).state != SpeedTestState::Suc
            &&& won.socket < race.sockets.len() ==> race.closed().sockets == seq![
                race.sockets[won.socket as int],
            ]
        },
        fastest is None ==> race.closed().sockets.len() == 0,
        race.closed().items == race.items,
{
    law_the_first_answered_wins(race, 0);
    if fastest is Some {
        let at = race.first_answered(0);
        assert(race.items[at].state == SpeedTestState::Suc);
    }
}

/// A proxy is one to go through exactly where it answered with success, with a redirect,
/// or that it was asked in plain what it only answers over tls.
pub proof fn law_which_proxy_is_available(status: i32)
    ensures
        makes_available(Verdict::Status(status)) <==> status == 200 || status == 497 || (301
            <= status <= 399),
        !makes_available(Verdict::Failed),
{
}

/// The request of a test: an http proxy is asked for the whole url, and anything else for
/// the root alone; the host is named in its field, and the account where there is one.
pub proof fn law_what_a_proxy_is_asked(
    kind: ProxyType,
    host: Seq<char>,
    account: Seq<char>,
)
    ensures
        ({
            let fields = " HTTP/1.1\r\n"@
                + "Accept: */*\r\nUser-Agent: MicroMessenger Client\r\nCache-Control: no-cache\r\nConnection: close\r\nHost: "@
                + host + "\r\n"@;
            let start = if kind == ProxyType::Http {
                "GET "@ + "http://"@ + host + "/"@
            } else {
                "GET "@ + "/"@
            };
            &&& request_text(kind, host, None) == start + fields + "\r\n"@
            &&& request_text(kind, host, Some(account)) == start + fields
                + "Proxy-Authorization: "@ + account + "\r\n"@ + "\r\n"@
        }),
{
    let agent =
        "Accept: */*\r\nUser-Agent: MicroMessenger Client\r\nCache-Control: no-cache\r\nConnection: close\r\nHost: "@;
    let line = " HTTP/1.1\r\n"@;
    let fields = line + agent + host + "\r\n"@;
    let start = if kind == ProxyType::Http {
        "GET "@ + "http://"@ + host + "/"@
    } else {
        "GET "@ + "/"@
    };
    assert(start + line + agent + host + "\r\n"@ =~= start + fields);
}

/// The sockets of a race are opened pair by pair, in their order, each to its own pair,
/// up to the first the host makes none for.
pub proof fn law_how_the_sockets_are_opened(race: RaceView, all: Seq<SocketView>, i: int)
    requires
        race.sockets.len() <= i < all.len(),
        all.len() <= race.items.len(),
    ensures
        ({
            let open = race.opened(all);
            let n = race.told.len() - race.sockets.len();
            &&& open.sockets == all
            &&& open.items == race.items
            &&& open.told[n + i] == (RaceTold::Opened {
                ip: race.items[i].pair.ip@,
                port: race.items[i].pair.port,
                answer: Some(all[i]),
            })
            &&& open.told.len() == n + all.len() + (if all.len() < race.items.len() {
                1int
            } else {
                0int
            })
            &&& all.len() < race.items.len() ==> open.told.last() == (RaceTold::Opened {
                ip: race.items[all.len() as int].pair.ip@,
                port: race.items[all.len() as int].pair.port,
                answer: None,
            })
        }),
{
    lemma_open_words(race, all, race.sockets.len() as int, all.len() as int, i);
}

proof fn lemma_open_words(race: RaceView, all: Seq<SocketView>, from: int, to: int, i: int)
    requires
        0 <= from <= i < to <= all.len(),
        all.len() <= race.items.len(),
    ensures
        race.open_words(all, from, to).len() == to - from,
        race.open_words(all, from, to)[i - from] == (RaceTold::Opened {
            ip: race.items[i].pair.ip@,
            port: race.items[i].pair.port,
            answer: Some(all[i]),
        }),
    decreases to - from,
{
    if i < to - 1 {
        lemma_open_words(race, all, from, to - 1, i);
    } else if from < to - 1 {
        lemma_open_words(race, all, from, to - 1, from);
    } else {
        assert(race.open_words(all, from, to - 1) == Seq::<RaceTold>::empty());
    }
}

/// No round but the last of a race ends it.
pub proof fn law_a_race_goes_on_until_it_ends(
    race: RaceView,
    rounds: Seq<RoundAnswer>,
    fixed: Option<u64>,
    i: int,
)
    requires
        race.is_race(rounds, fixed),
        0 <= i < rounds.len() - 1,
        rounds[i].select is Ok,
    ensures
        !race.run(rounds.take(i), fixed).round_run(rounds[i], fixed).decided(),
        fixed is Some ==> rounds[i].now == fixed->0,
{
    assert(!race.run(rounds.take(i), fixed).ends(rounds[i], fixed));
    assert(fixed matches Some(now) ==> rounds[i].now == now);
}

} // verus!
