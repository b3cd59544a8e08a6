//! What a long link promises: when it is made, what goes out on it, who hears of it, and
//! how it is kept alive.
use vstd::prelude::*;
use crate::link_heartbeat::BeatAnswers;
use crate::long_link::{
    carried, disconnect_code_of, first_unsent, queue_written, Address, AlarmStatus, Candidate,
    ConnectFail, DisconnectInternalCode, LinkAnswers, LinkTold, LinkView, MakeSure, NoopAlarm,
    ProxyFound, SendView, SocketFd,
};
use crate::longlink::{packed_bytes, unpacked_bytes};
use crate::longlink_connect_monitor::LongLinkStatus;
use crate::longlink_identify_checker::{CheckerView, IdentifyMode};
use crate::ip_port::IpSourceType;
use crate::task::Task;
use crate::task_profile::{ConnectView, ErrCmdType, ProxyType};

verus! {

/// What was said to the host from one state of a link to a later one.
pub open spec fn said_since(before: LinkView, after: LinkView) -> Seq<LinkTold> {
    after.told.skip(before.told.len() as int)
}

// ---- when a link is made -----------------------------------------------------------

/// What a task that wants a link gets: the link where it is up; nothing where it was
/// released; the run that is under way where there is one; and a run of its own
/// otherwise, which starts with nothing of the one before it but why that ended.
pub proof fn law_what_a_task_that_wants_a_link_gets(link: LinkView)
    ensures
        ({
            let (after, sure) = link.made_sure();
            let up = link.status == LongLinkStatus::Connected;
            let gone = link.disconnect_code == DisconnectInternalCode::ObjectDestruct;
            let fresh = !up && !gone && !link.running;
            &&& sure == MakeSure::Connected <==> up
            &&& sure == MakeSure::Released <==> !up && gone
            &&& sure == (MakeSure::Run { new_one: false }) <==> !up && !gone && link.running
            &&& sure == (MakeSure::Run { new_one: true }) <==> fresh
            &&& !after.server_triggered_off
            &&& after.told == link.told
            &&& !fresh ==> after == (LinkView { server_triggered_off: false, ..link })
            &&& fresh ==> {
                &&& after.running
                &&& after.status == LongLinkStatus::ConnectIdle
                &&& after.disconnect_code == DisconnectInternalCode::NotAsked
                &&& after.queue.len() == 0
                &&& after.profile == (ConnectView {
                    link_type: link.config.link_type,
                    conn_reason: link.profile.disconn_errcode,
                    ..ConnectView::blank()
                })
                &&& after.noop_interval.due is None
                &&& after.noop_timeout.due is None
                &&& !after.first_noop_sent
                &&& !after.identify.has_checked
                &&& after.identify.taskid == 0
                &&& after.config == link.config
                &&& after.client_version == link.client_version
                &&& after.heartbeat == link.heartbeat
            }
        }),
{
}

/// Why a link goes away is noted for the run that is under way, the last reason that is
/// given; a link with none is left alone.
pub proof fn law_why_a_link_goes_away(
    link: LinkView,
    scene: DisconnectInternalCode,
    later: DisconnectInternalCode,
)
    ensures
        link.running ==> link.disconnected(scene).disconnect_code == scene,
        link.running ==> link.disconnected(scene).disconnected(later) == link.disconnected(later),
        !link.running ==> link.disconnected(scene) == link,
        link.disconnected(scene).queue == link.queue,
        link.disconnected(scene).status == link.status,
        link.disconnected(scene).told == link.told,
{
}

/// No two reasons are reported alike, and only the one that nothing was asked for is not
/// reported as a number above ten thousand.
pub proof fn law_every_reason_has_a_number_of_its_own(
    left: DisconnectInternalCode,
    right: DisconnectInternalCode,
)
    ensures
        disconnect_code_of(left) == disconnect_code_of(right) ==> left == right,
        left == DisconnectInternalCode::NotAsked ==> disconnect_code_of(left) == 0,
        left != DisconnectInternalCode::NotAsked ==> 10_000 <= disconnect_code_of(left) <= 10_021,
        disconnect_code_of(DisconnectInternalCode::Reset) == 10_000,
        disconnect_code_of(DisconnectInternalCode::NoopTimeout) == 10_003,
        disconnect_code_of(DisconnectInternalCode::DecodeErr) == 10_007,
        disconnect_code_of(DisconnectInternalCode::TaskTimeout) == 10_008,
        disconnect_code_of(DisconnectInternalCode::NetworkChange) == 10_009,
        disconnect_code_of(DisconnectInternalCode::TimeCheckSucc) == 10_019,
        disconnect_code_of(DisconnectInternalCode::ObjectDestruct) == 10_020,
{
}

// ---- what goes out -----------------------------------------------------------------

/// What is stopped is the first thing of the task that has not started to go out; every
/// other thing stays where it is in the order, and where there is no such thing nothing
/// changes.
pub proof fn law_what_is_stopped(link: LinkView, taskid: u32)
    ensures
        ({
            let at = first_unsent(link.queue, taskid);
            let after = link.stopped(taskid);
            &&& 0 <= at <= link.queue.len()
            &&& forall|i: int|
                0 <= i < at ==> (#[trigger] link.queue[i]).task.taskid != taskid
                    || link.queue[i].pos != 0
            &&& at < link.queue.len() ==> link.queue[at].task.taskid == taskid
                && link.queue[at].pos == 0 && after.queue == link.queue.remove(at)
            &&& at == link.queue.len() ==> after == link
            &&& after == (LinkView { queue: after.queue, ..link })
        }),
{
    lemma_first_unsent(link.queue, taskid);
}

proof fn lemma_first_unsent(queue: Seq<SendView>, taskid: u32)
    ensures
        ({
            let at = first_unsent(queue, taskid);
            &&& 0 <= at <= queue.len()
            &&& at < queue.len() ==> queue[at].task.taskid == taskid && queue[at].pos == 0
            &&& forall|i: int|
                0 <= i < at ==> (#[trigger] queue[i]).task.taskid != taskid || queue[i].pos != 0
        }),
    decreases queue.len(),
{
    if queue.len() > 0 && !(queue[0].task.taskid == taskid && queue[0].pos == 0) {
        let rest = queue.drop_first();
        lemma_first_unsent(rest, taskid);
        assert forall|i: int| 0 <= i < first_unsent(queue, taskid) implies (
        #[trigger] queue[i]).task.taskid != taskid || queue[i].pos != 0 by {
            if i > 0 {
                assert(rest[i - 1] == queue[i]);
            }
        }
    }
}

/// What is written moves the head of the queue on by that many bytes, and takes it away
/// once all of it is out; what waits behind it is not touched.
pub proof fn law_what_is_written_is_done_with(queue: Seq<SendView>, len: usize)
    requires
        queue.len() > 0,
        queue[0].pos + len <= usize::MAX,
    ensures
        ({
            let after = queue_written(queue, len);
            let whole = queue[0].pos + len >= queue[0].buffer.len();
            &&& whole ==> after == queue.skip(1)
            &&& !whole ==> after.len() == queue.len() && after[0].pos == queue[0].pos + len
                && after[0].task == queue[0].task && after[0].buffer == queue[0].buffer && forall|
                i: int,
            |
                1 <= i < queue.len() ==> #[trigger] after[i] == queue[i]
        }),
{
    assert(queue.drop_first() =~= queue.skip(1));
}

/// A package is a header of twenty bytes and the body: the length of the header, the
/// version, the cmdid, the task and the length of the body, each in four bytes, the
/// highest first.
pub proof fn law_what_a_package_looks_like(version: u32, cmdid: u32, seq: u32, body: Seq<u8>)
    requires
        body.len() <= u32::MAX,
    ensures
        ({
            let bytes = packed_bytes(version, cmdid, seq, body);
            &&& bytes.len() == 20 + body.len()
            &&& number_at(bytes, 0) == 20
            &&& number_at(bytes, 4) == version
            &&& number_at(bytes, 8) == cmdid
            &&& number_at(bytes, 12) == seq
            &&& number_at(bytes, 16) == body.len()
            &&& bytes.skip(20) == body
        }),
{
    crate::longlink::lemma_be_roundtrip(20);
    crate::longlink::lemma_be_roundtrip(version);
    crate::longlink::lemma_be_roundtrip(cmdid);
    crate::longlink::lemma_be_roundtrip(seq);
    crate::longlink::lemma_be_roundtrip(body.len() as u32);
    let bytes = packed_bytes(version, cmdid, seq, body);
    assert(bytes.skip(20) =~= body);
}

/// The number that four bytes stand for, the highest first.
pub open spec fn number_at(bytes: Seq<u8>, at: int) -> int {
    bytes[at] * 16_777_216 + bytes[at + 1] * 65_536 + bytes[at + 2] * 256 + bytes[at + 3]
}

// ---- who hears of a link -------------------------------------------------------------

/// Who hears of a status that is new. The app always does, last of all. A link that came
/// up is reported as a good pair, and the smart heartbeat, where there is one, hears of
/// the network it came up on; of a link that failed or went down only the heartbeat
/// does, and of the rest nobody else. A status that is not new is not said.
pub proof fn law_who_hears_of_a_link(
    link: LinkView,
    status: LongLinkStatus,
    label: Seq<char>,
    net_type: i32,
)
    ensures
        ({
            let after = link.status_set(status, label, net_type);
            let said = said_since(link, after);
            let new = status != link.status;
            let up = status == LongLinkStatus::Connected;
            let down = status == LongLinkStatus::ConnectFailed || status
                == LongLinkStatus::DisConnected;
            &&& after == (LinkView { status, told: after.told, ..link })
            &&& !new ==> after == link
            &&& new ==> said.len() > 0 && said.last() == (LinkTold::Connection {
                status,
                name: link.config.name@,
            })
            &&& said.contains(
                LinkTold::NetworkReport {
                    err_type: ErrCmdType::NoError,
                    err_code: 0,
                    ip: link.profile.ip,
                    port: link.profile.port,
                },
            ) == (new && up)
            &&& said.contains(LinkTold::HeartbeatEstablished { net_detail: label, net_type }) == (new
                && up && link.heartbeat)
            &&& said.contains(LinkTold::HeartbeatDisconnected) == (new && down && link.heartbeat)
            &&& said.no_duplicates()
        }),
{
    reveal(LinkView::status_set);
    reveal(LinkView::heartbeat_words);
    let after = link.status_set(status, label, net_type);
    let said = said_since(link, after);
    if status != link.status {
        let words = link.status_words(status, label, net_type);
        assert(said =~= words);
        let report = LinkTold::NetworkReport {
            err_type: ErrCmdType::NoError,
            err_code: 0,
            ip: link.profile.ip,
            port: link.profile.port,
        };
        if status == LongLinkStatus::Connected {
            if link.heartbeat {
                assert(words[2] == LinkTold::HeartbeatEstablished { net_detail: label, net_type });
                assert(words[3] == report);
            } else {
                assert(words[2] == report);
            }
        } else if link.heartbeat && (status == LongLinkStatus::ConnectFailed || status
            == LongLinkStatus::DisConnected) {
            assert(words[0] == LinkTold::HeartbeatDisconnected);
        }
    } else {
        assert(said.len() == 0);
    }
}

/// An error of the link is told with the connect it was made on, and reported with its
/// pair only where that is asked for.
pub proof fn law_who_hears_of_an_error(
    link: LinkView,
    err_type: ErrCmdType,
    err_code: i32,
    report: bool,
)
    ensures
        ({
            let after = link.errored(err_type, err_code, report);
            let said = said_since(link, after);
            &&& after == (LinkView { told: after.told, ..link })
            &&& said.len() == (if report {
                2int
            } else {
                1int
            })
            &&& said[0] == (LinkTold::ResponseError {
                name: link.config.name@,
                err_type,
                err_code,
                profile: link.profile,
            })
            &&& report ==> said[1] == (LinkTold::NetworkReport {
                err_type,
                err_code,
                ip: link.profile.ip,
                port: link.profile.port,
            })
        }),
{
    reveal(LinkView::errored);
    let after = link.errored(err_type, err_code, report);
    let n = link.told.len() as int;
    let said = said_since(link, after);
    assert(said[0] == after.told[n]);
    if report {
        assert(said[1] == after.told[n + 1]);
    }
}

/// A socket reached the server exactly where a package came back for the noop; anything
/// else is reported as an error of the socket, with what went wrong.
pub proof fn law_when_a_socket_reached_the_server(
    link: LinkView,
    socket: SocketFd,
    wrote: Result<usize, i32>,
    read: Result<Seq<u8>, i32>,
)
    ensures
        ({
            let (after, reached) = link.verified(socket, wrote, read);
            let said = said_since(link, after);
            let is_package = read is Ok && unpacked_bytes(link.client_version, read->Ok_0)
                is Package;
            let code = if wrote is Err {
                wrote->Err_0
            } else if read is Err {
                read->Err_0
            } else {
                74
            };
            &&& reached <==> wrote is Ok && is_package
            &&& !reached ==> said.last() == (LinkTold::NetworkReport {
                err_type: ErrCmdType::Socket,
                err_code: code,
                ip: link.profile.ip,
                port: link.profile.port,
            })
            &&& reached ==> forall|i: int|
                0 <= i < said.len() ==> !((#[trigger] said[i]) is NetworkReport)
            &&& said.len() > 0
            &&& said[0] is Write
            &&& said[0]->Write_socket == socket
            &&& said[0]->Write_buffer == packed_bytes(
                link.client_version,
                6,
                0xffff_ffff,
                seq![],
            )
        }),
{
    let (after, reached) = link.verified(socket, wrote, read);
    let n = link.told.len() as int;
    let said = said_since(link, after);
    assert(said[0] == after.told[n]);
    assert(said.last() == after.told.last());
    if said.len() > 1 {
        assert(said[1] == after.told[n + 1]);
    }
}

// ---- the way a connect takes -----------------------------------------------------------

/// A connect goes through a proxy exactly where there is a valid one that a long link can
/// go through, not http, and no debug ip says where the link goes.
pub proof fn law_when_a_connect_takes_a_proxy(link_type: i32, a: LinkAnswers)
    ensures
        LinkView::uses_proxy(link_type, a) <==> {
            &&& a.proxy.valid
            &&& a.proxy.kind != ProxyType::Absent
            &&& a.proxy.kind != ProxyType::Http
            &&& a.debug_ip.len() == 0
            &&& link_type == 4 ==> a.minor_debug_ip.len() == 0
        },
{
}

/// Where the proxy of a connect is: nowhere where none is used or the pair is a debug
/// one; not to be named where it has a host and no ip, and dns knows none; and at its
/// address otherwise.
pub proof fn law_where_a_proxy_is(link: LinkView, use_proxy: bool, a: LinkAnswers)
    ensures
        ({
            let found = link.proxy_found(use_proxy, a);
            let direct = !use_proxy || link.profile.ip_type == IpSourceType::Debug;
            let unnamed = a.proxy.ip.len() == 0 && a.proxy.host.len() > 0 && a.dns.len() == 0;
            &&& found is Direct <==> direct
            &&& found is Unnamed <==> !direct && unnamed
            &&& !direct && !unnamed ==> found == ProxyFound::At(a.proxy_address)
        }),
{
}

/// A v4 proxy is given no v6 address where there is another choice; every other address
/// stays, in its order.
pub proof fn law_what_a_v4_proxy_is_given(candidates: Seq<Candidate>, proxy: Address, i: int)
    requires
        0 <= i < candidates.len(),
    ensures
        ({
            let given = carried(candidates, proxy);
            &&& !proxy.is_v4 || candidates.len() <= 1 ==> given == candidates
            &&& proxy.is_v4 && candidates.len() > 1 && !candidates[i].address.is_v6
                ==> given.contains(candidates[i])
            &&& proxy.is_v4 && candidates.len() > 1 ==> forall|j: int|
                0 <= j < given.len() ==> !(#[trigger] given[j]).address.is_v6
        }),
{
    if proxy.is_v4 && !candidates[i].address.is_v6 {
        candidates.lemma_filter_contains(|c: Candidate| !c.address.is_v6, i);
    }
}

// ---- the heartbeat -----------------------------------------------------------------------

/// An alarm goes off once, at its reading or after it, and not where it was cancelled or
/// never set; setting it again forgets what it was set to.
pub proof fn law_when_an_alarm_goes_off(alarm: NoopAlarm, set: u64, wait: u64, now: u64)
    requires
        set + wait <= u64::MAX,
    ensures
        alarm.set(set, wait).goes_off(now) <==> now >= set + wait,
        alarm.set(set, wait).due == Some((set + wait) as u64),
        alarm.set(set, wait).started == set,
        alarm.set(set, wait).after == wait,
        !alarm.cancelled().goes_off(now),
        alarm.cancelled().due is None,
        alarm.cancelled().started == alarm.started,
        !NoopAlarm::fresh().goes_off(now),
        alarm.goes_off(now) ==> alarm.looked_at(now).status == AlarmStatus::OnAlarm
            && alarm.looked_at(now).due is None && !alarm.looked_at(now).goes_off(now),
        !alarm.goes_off(now) ==> alarm.looked_at(now) == alarm,
{
}

/// The app is asked about the identify check once for every connect, until it is
/// checked: a minor long link is asked about with its mark. The check goes out where the
/// app says it is to go out now; where it says never, it is not asked again.
pub proof fn law_when_the_app_is_asked_who_it_is(
    check: CheckerView,
    mode: IdentifyMode,
    hash: Seq<u8>,
    cmdid: u32,
)
    ensures
        check.question() is None <==> check.has_checked,
        !check.has_checked ==> check.question() == Some(
            if check.is_minor_long {
                0xff00_0000u32
            } else {
                0u32
            },
        ),
        check.goes_out(mode) <==> !check.has_checked && mode == IdentifyMode::CheckNow,
        check.answered(mode, hash, cmdid).has_checked <==> check.has_checked || mode
            == IdentifyMode::CheckNever,
        !check.has_checked ==> check.answered(mode, hash, cmdid).hash_code == hash,
        !check.has_checked && mode == IdentifyMode::CheckNow ==> check.answered(
            mode,
            hash,
            cmdid,
        ).cmd_id == cmdid,
        !check.has_checked && mode != IdentifyMode::CheckNow ==> check.answered(
            mode,
            hash,
            cmdid,
        ).cmd_id == check.cmd_id,
        check.has_checked ==> check.answered(mode, hash, cmdid) == check,
        check.judged(true).has_checked,
        check.judged(false).has_checked == check.has_checked,
        check.judged(true).taskid == 0 && check.judged(false).taskid == 0,
        !check.restarted().has_checked,
        check.restarted().channel_id == check.channel_id,
        check.restarted().is_minor_long == check.is_minor_long,
        forall|taskid: u32| #[trigger]
            check.is_resp(taskid) <==> check.taskid == taskid && taskid != 0,
        forall|taskid: u32| !(#[trigger] check.restarted().is_resp(taskid)),
{
}

/// What goes out as a heartbeat. On a link that is up, the identify check where the app
/// answers with one that is to go out now, whatever else waits; the noop otherwise, where
/// nothing waits. It is waited for five seconds where the link was late, and eight
/// otherwise; where nothing goes out nothing is waited for.
pub proof fn law_what_goes_out_as_a_heartbeat(
    link: LinkView,
    now: u64,
    late: bool,
    a: BeatAnswers,
)
    requires
        now + 8_000 <= u64::MAX,
    ensures
        ({
            let (after, sent) = link.noop_requested(now, late, a);
            let check = !link.identify.has_checked && a.identify.mode == IdentifyMode::CheckNow;
            let up = link.status == LongLinkStatus::Connected;
            let beat = after.queue.last();
            &&& sent <==> up && (check || link.queue.len() == 0)
            &&& !sent ==> after.queue == link.queue
            &&& sent ==> after.queue == link.queue.push(beat) && beat.pos == 0
            &&& sent && check ==> beat.task == a.task && beat.buffer == packed_bytes(
                link.client_version,
                a.identify.cmdid,
                0xffff_fffe,
                a.identify.buffer@,
            )
            &&& sent && !check ==> beat.task == (Task { send_only: true, ..a.task })
                && beat.buffer == packed_bytes(link.client_version, 6, 0xffff_ffff, seq![])
            &&& sent ==> forall|later: u64| #[trigger]
                after.noop_timeout.goes_off(later) <==> later >= now + (if late {
                    5_000int
                } else {
                    8_000int
                })
            &&& !sent ==> forall|later: u64| !(#[trigger] after.noop_timeout.goes_off(later))
            &&& check ==> after.identify.taskid == 0xffff_fffe
            &&& !check ==> after.identify.taskid == link.identify.taskid
            &&& said_since(link, after).len() == (if link.identify.has_checked {
                0int
            } else {
                1int
            })
            &&& after.status == link.status
            &&& after.nooping == link.nooping
            &&& after.noop_interval == link.noop_interval
        }),
{
    reveal(LinkView::noop_requested);
    reveal(LinkView::identify_asked);
    reveal(LinkView::beat_sent);
    reveal(LinkView::timeout_kept);
}

/// The heartbeat of a run. A link that is waited on for over a quarter of an hour is one
/// that is late. A heartbeat that went out is one that is out, and where there is a smart
/// heartbeat it hears of it and it is written down. The next is due after what the smart
/// heartbeat says, and three and a half minutes where there is none; none is where it
/// says none at all.
#[verifier::spinoff_prover]
#[verifier::rlimit(60)]
pub proof fn law_what_the_heartbeat_of_a_run_does(
    link: LinkView,
    now: u64,
    is_mobile: bool,
    is_active: bool,
    a: BeatAnswers,
)
    ensures
        ({
            let (after, sent) = link.beat(now, is_mobile, is_active, a);
            let off = link.noop_interval.goes_off(now) || link.noop_interval.status
                == AlarmStatus::OnAlarm;
            let took = if off && now >= link.noop_interval.started {
                now - link.noop_interval.started
            } else {
                0
            };
            let due = link.beat_due(now, is_mobile, is_active);
            let interval = if link.heartbeat {
                a.interval as int
            } else {
                210_000
            };
            let noops = after.profile.noop_profiles;
            let said = said_since(link, after);
            &&& sent == due.noop_requested(now, took >= 900_000, a).1
            &&& after.queue == due.noop_requested(now, took >= 900_000, a).0.queue
            &&& after.noop_timeout == due.noop_requested(now, took >= 900_000, a).0.noop_timeout
            &&& after.nooping == (link.nooping || sent)
            &&& sent && link.heartbeat ==> noops.len() == link.profile.noop_profiles.len() + 1
                && !noops.last().success && noops.last().noop_starttime == now
                && noops.last().noop_actual_internal == took && noops.last().noop_internal
                == link.noop_interval.after
            &&& !sent || !link.heartbeat ==> noops == link.profile.noop_profiles
            &&& after.first_noop_sent
            &&& after.last_heartbeat == interval
            &&& interval == 0 ==> after.noop_interval.due is None
            &&& interval != 0 ==> after.noop_interval.started == now && after.noop_interval.after
                == interval && after.noop_interval.due == Some((now + interval) as u64)
            &&& due.told.len() == link.told.len() + (if off && link.first_noop_sent
                && link.heartbeat {
                1int
            } else {
                0int
            })
            &&& off && link.first_noop_sent && link.heartbeat ==> due.told.last() == (
            LinkTold::HeartbeatJudgeDoze { now, is_mobile, is_active })
        }),
{
    reveal(LinkView::beat);
    reveal(LinkView::beat_due);
    reveal(LinkView::interval_looked_at);
    reveal(LinkView::doze_judged);
    reveal(LinkView::beat_begun);
    reveal(LinkView::interval_set);
    reveal(LinkView::interval_asked);
    reveal(LinkView::noop_requested);
    reveal(LinkView::identify_asked);
    reveal(LinkView::beat_sent);
    reveal(LinkView::timeout_kept);
}

/// What comes back for a heartbeat: the noop, by its cmdid, or the answer to the check
/// that is out, by its task. It ends the heartbeat that is out: its timeout is waited for
/// no more, and the smart heartbeat, where there is one, hears of it. A package that is
/// neither changes nothing.
#[verifier::spinoff_prover]
#[verifier::rlimit(60)]
pub proof fn law_what_comes_back_for_a_heartbeat(
    link: LinkView,
    now: u64,
    cmdid: u32,
    taskid: u32,
    body: Seq<u8>,
    accepted: bool,
)
    ensures
        ({
            let after = link.beat_heard(now, cmdid, taskid, body, accepted);
            let said = said_since(link, after);
            let checked = taskid != 0 && link.identify.taskid == taskid;
            let ends = link.nooping && (checked || cmdid == 6);
            let noops = link.profile.noop_profiles;
            let ended = LinkTold::HeartbeatResult {
                success: true,
                fail_of_timeout: false,
                seconds: (now / 1000) as i64,
            };
            &&& !checked && !ends ==> after == link
            &&& after.nooping == (link.nooping && !ends)
            &&& ends ==> after.noop_timeout.due is None && forall|later: u64|
                !(#[trigger] after.noop_timeout.goes_off(later))
            &&& !ends ==> after.noop_timeout == link.noop_timeout
            &&& said.contains(ended) == (ends && link.heartbeat)
            &&& ends && link.heartbeat && noops.len() > 0
                ==> after.profile.noop_profiles.last().success
                && after.profile.noop_profiles.last().noop_cost == (if now
                >= noops.last().noop_starttime {
                now - noops.last().noop_starttime
            } else {
                0
            })
            &&& after.identify.has_checked == (link.identify.has_checked || (checked && accepted))
            &&& checked ==> after.identify.taskid == 0
            &&& said.contains(
                LinkTold::NetworkReport {
                    err_type: ErrCmdType::NoError,
                    err_code: 0,
                    ip: link.profile.ip,
                    port: link.profile.port,
                },
            ) == (checked && accepted)
            &&& after.queue == link.queue
            &&& after.status == link.status
        }),
{
    reveal(LinkView::beat_heard);
    reveal(LinkView::check_judged);
    reveal(LinkView::check_put);
    reveal(LinkView::beat_answered);
    let after = link.beat_heard(now, cmdid, taskid, body, accepted);
    let n = link.told.len() as int;
    let said = said_since(link, after);
    assert forall|i: int| 0 <= i < said.len() implies #[trigger] said[i] == after.told[n + i] by {}
    if said.len() > 0 {
        assert(said[0] == after.told[n]);
        assert(said.last() == after.told.last());
    }
    if said.len() > 1 {
        assert(said[1] == after.told[n + 1]);
    }
}

// ---- what a connect comes to -------------------------------------------------------------

/// What a connect comes to, and who hears of it last. Without a pair, and where dns cannot
/// name the proxy, it is an error of dns, told and reported. Where no socket came back it
/// is an error of the socket, told unless the app took the link down itself, and not
/// reported. Where one did, the link is up.
#[verifier::spinoff_prover]
#[verifier::rlimit(60)]
pub proof fn law_what_a_connect_comes_to(link: LinkView, now: u64, a: LinkAnswers)
    ensures
        ({
            let (after, r) = link.connect(now, a);
            let n = after.told.len();
            let unnamed = LinkView::uses_proxy(link.config.link_type, a) && a.items.len() > 0
                && a.items[0].source_type != IpSourceType::Debug && a.proxy.ip.len() == 0
                && a.proxy.host.len() > 0 && a.dns.len() == 0;
            let nowhere = a.items.len() == 0 || unnamed;
            let failed = !nowhere && a.socket.0 < 0;
            let asked = link.disconnect_code != DisconnectInternalCode::NotAsked;
            &&& a.items.len() == 0 <==> r == Err::<SocketFd, ConnectFail>(ConnectFail::NoAddress)
            &&& unnamed <==> r == Err::<SocketFd, ConnectFail>(ConnectFail::NoProxyIp)
            &&& failed ==> r == Err::<SocketFd, ConnectFail>(
                ConnectFail::Connect { error_code: a.connected.error_code },
            )
            &&& !nowhere && !failed <==> r is Ok
            &&& r is Ok ==> r == Ok::<SocketFd, ConnectFail>(a.socket)
            &&& nowhere ==> n >= 2 && after.told[n - 1] is NetworkReport
                && after.told[n - 1]->NetworkReport_err_type == ErrCmdType::Dns
                && after.told[n - 1]->NetworkReport_err_code == -10606 && after.told[n - 2]
                is ResponseError && after.told[n - 2]->ResponseError_err_type == ErrCmdType::Dns
            &&& failed && !asked ==> n >= 1 && after.told[n - 1] is ResponseError
                && after.told[n - 1]->ResponseError_err_type == ErrCmdType::Socket
                && after.told[n - 1]->ResponseError_err_code == -10087
            &&& failed && asked ==> n >= 1 && after.told[n - 1] == (LinkTold::Connection {
                status: LongLinkStatus::ConnectFailed,
                name: link.config.name@,
            })
            &&& r is Ok ==> n >= 1 && after.told[n - 1] == (LinkTold::Connection {
                status: LongLinkStatus::Connected,
                name: link.config.name@,
            })
            &&& after.disconnect_code == link.disconnect_code
            &&& after.queue == link.queue
        }),
{
    reveal(LinkView::connect);
    reveal(LinkView::connect_ended);
    let use_proxy = LinkView::uses_proxy(link.config.link_type, a);
    lemma_gathered(link, now, a);
    let asked = link.gathered(now, a);
    if a.items.len() == 0 {
        lemma_fails(asked, ErrCmdType::Dns, (-10606) as i32, true);
    } else {
        lemma_readied(asked, now, use_proxy, a);
        let named = asked.prepared(now, a).proxy_asked(use_proxy, a);
        let all = crate::long_link::candidates_of(a.items, a.addresses);
        let found = asked.prepared(now, a).proxy_found(use_proxy, a);
        let proxy = LinkView::connect_proxy(a, found);
        match found {
            ProxyFound::Unnamed => {
                lemma_fails(named, ErrCmdType::Dns, (-10606) as i32, true);
            },
            ProxyFound::Direct => {
                lemma_opens(named, now, all, proxy, a);
            },
            ProxyFound::At(address) => {
                lemma_opens(named, now, carried(all, address), proxy, a);
            },
        }
    }
}

/// What a connect does not touch of a link until it ends.
spec fn is_on_its_way(link: LinkView, after: LinkView) -> bool {
    &&& after.status == LongLinkStatus::Connecting
    &&& after.config == link.config
    &&& after.disconnect_code == link.disconnect_code
    &&& after.queue == link.queue
}

proof fn lemma_gathered(link: LinkView, now: u64, a: LinkAnswers)
    ensures
        is_on_its_way(link, link.gathered(now, a)),
{
    reveal(LinkView::gathered);
    reveal(LinkView::connect_begun);
    reveal(LinkView::connect_asked);
    reveal(LinkView::status_set);
    let use_proxy = LinkView::uses_proxy(link.config.link_type, a);
    let stack = if use_proxy {
        None
    } else {
        Some(a.stack)
    };
    lemma_addressed(
        link.connect_begun(now, a.label).connect_asked(a),
        a.items,
        stack,
        a.addresses,
        a.items.len() as int,
    );
}

proof fn lemma_readied(link: LinkView, now: u64, use_proxy: bool, a: LinkAnswers)
    requires
        link.status == LongLinkStatus::Connecting,
    ensures
        is_on_its_way(link, link.prepared(now, a)),
        link.prepared(now, a).profile.ip_type == a.items[0].source_type,
        is_on_its_way(link, link.prepared(now, a).proxy_asked(use_proxy, a)),
{
    reveal(LinkView::prepared);
    reveal(LinkView::proxy_asked);
    reveal(LinkView::proxied);
}

proof fn lemma_fails(link: LinkView, err_type: ErrCmdType, err_code: i32, report: bool)
    requires
        link.status == LongLinkStatus::Connecting,
    ensures
        ({
            let after = link.connect_failed(err_type, err_code, report);
            let n = after.told.len();
            &&& n >= 2
            &&& report ==> after.told[n - 1] is NetworkReport
                && after.told[n - 1]->NetworkReport_err_type == err_type
                && after.told[n - 1]->NetworkReport_err_code == err_code && after.told[n - 2]
                is ResponseError && after.told[n - 2]->ResponseError_err_type == err_type
            &&& !report ==> after.told[n - 1] is ResponseError
                && after.told[n - 1]->ResponseError_err_type == err_type
                && after.told[n - 1]->ResponseError_err_code == err_code
            &&& after.disconnect_code == link.disconnect_code
            &&& after.queue == link.queue
        }),
{
    reveal(LinkView::connect_failed);
    reveal(LinkView::status_set);
    reveal(LinkView::errored);
    let words = link.status_words(LongLinkStatus::ConnectFailed, Seq::empty(), 0);
    assert(words.len() > 0);
}

proof fn lemma_opens(
    link: LinkView,
    now: u64,
    candidates: Seq<Candidate>,
    proxy: crate::task_profile::ProxyView,
    a: LinkAnswers,
)
    requires
        link.status == LongLinkStatus::Connecting,
    ensures
        ({
            let (after, r) = link.connect_ended(now, candidates, proxy, a);
            let n = after.told.len();
            let asked = link.disconnect_code != DisconnectInternalCode::NotAsked;
            &&& a.socket.0 >= 0 ==> r == Ok::<SocketFd, ConnectFail>(a.socket) && n >= 1
                && after.told[n - 1] == (LinkTold::Connection {
                status: LongLinkStatus::Connected,
                name: link.config.name@,
            })
            &&& a.socket.0 < 0 ==> r == Err::<SocketFd, ConnectFail>(
                ConnectFail::Connect { error_code: a.connected.error_code },
            )
            &&& a.socket.0 < 0 && !asked ==> n >= 1 && after.told[n - 1] is ResponseError
                && after.told[n - 1]->ResponseError_err_type == ErrCmdType::Socket
                && after.told[n - 1]->ResponseError_err_code == -10087
            &&& a.socket.0 < 0 && asked ==> n >= 1 && after.told[n - 1] == (LinkTold::Connection {
                status: LongLinkStatus::ConnectFailed,
                name: link.config.name@,
            })
            &&& after.disconnect_code == link.disconnect_code
            &&& after.queue == link.queue
        }),
{
    reveal(LinkView::connect_ended);
    reveal(LinkView::opened);
    reveal(LinkView::status_set);
    let open = link.opened(now, candidates, proxy, a);
    assert(is_on_its_way(link, open));
    if a.socket.0 >= 0 {
        reveal(LinkView::came_up);
        lemma_won(open, candidates, a);
        let up = open.won(candidates, a);
        law_who_hears_of_a_link(up, LongLinkStatus::Connected, a.up_label, a.up_type);
        let after = up.status_set(LongLinkStatus::Connected, a.up_label, a.up_type);
        assert(said_since(up, after).last() == after.told.last());
    } else if link.disconnect_code == DisconnectInternalCode::NotAsked {
        lemma_fails(open, ErrCmdType::Socket, (-10087) as i32, false);
    } else {
        law_who_hears_of_a_link(open, LongLinkStatus::ConnectFailed, Seq::empty(), 0);
        let after = open.status_set(LongLinkStatus::ConnectFailed, Seq::empty(), 0);
        assert(said_since(open, after).last() == after.told.last());
    }
}

proof fn lemma_won(link: LinkView, candidates: Seq<Candidate>, a: LinkAnswers)
    requires
        link.status == LongLinkStatus::Connecting,
    ensures
        is_on_its_way(link, link.won(candidates, a)),
{
    reveal(LinkView::won);
    reveal(LinkView::pair_won);
    reveal(LinkView::ports_tried);
    reveal(LinkView::local_asked);
}

/// Turning the candidates into addresses only asks.
proof fn lemma_addressed(
    link: LinkView,
    items: Seq<crate::ip_port::IpPortItem>,
    stack: Option<crate::long_link::LocalIpStack>,
    addresses: Seq<Address>,
    n: int,
)
    ensures
        ({
            let after = link.addressed(items, stack, addresses, n);
            after == (LinkView { told: after.told, ..link })
        }),
    decreases n,
{
    if n > 0 {
        lemma_addressed(link, items, stack, addresses, n - 1);
    }
}

/// The pair that won is the one the link is on, by where it stands among the candidates.
pub proof fn law_the_pair_that_won_is_the_links(
    link: LinkView,
    candidates: Seq<Candidate>,
    index: i32,
)
    requires
        0 <= index < candidates.len(),
    ensures
        ({
            let after = link.pair_won(candidates, index);
            let pair = candidates[index as int].item;
            &&& after.profile.ip == pair.ip@
            &&& after.profile.port == pair.port
            &&& after.profile.host == pair.host@
            &&& after.profile.ip_type == pair.source_type
            &&& after.profile.ip_index == index
            &&& after.told == link.told
        }),
{
    reveal(LinkView::pair_won);
}

// ---- what comes in -----------------------------------------------------------------------------

/// What bytes that came in are: not enough yet where the header is not whole, or the
/// package is not; not ours where the version is another or the package is over a
/// megabyte; and a package otherwise, whose body is what stands behind the header.
pub proof fn law_what_bytes_are(version: u32, bytes: Seq<u8>)
    ensures
        ({
            let read = unpacked_bytes(version, bytes);
            let whole = bytes.len() >= 20;
            let body = number_at(bytes, 16);
            let len = number_at(bytes, 0) + body;
            let ours = number_at(bytes, 4) == version && len <= 1_048_576;
            &&& read is False <==> whole && !ours
            &&& read is Continue <==> !whole || (ours && len > bytes.len())
            &&& read is Package <==> whole && ours && len <= bytes.len()
            &&& read is Package ==> read->cmdid == number_at(bytes, 8) && read->seq == number_at(
                bytes,
                12,
            ) && read->package_len == len && read->body == bytes.subrange(len - body, len)
        }),
{
}

/// A heartbeat the app asks for is out exactly where it went out, and is one that is not
/// late.
pub proof fn law_what_a_heartbeat_the_app_asks_for_does(link: LinkView, now: u64, a: BeatAnswers)
    requires
        now + 8_000 <= u64::MAX,
    ensures
        ({
            let after = link.triggered(now, a);
            let check = !link.identify.has_checked && a.identify.mode == IdentifyMode::CheckNow;
            let goes = link.status == LongLinkStatus::Connected && (check || link.queue.len() == 0);
            &&& after.nooping == goes
            &&& goes ==> after.queue.len() == link.queue.len() + 1 && forall|later: u64| #[trigger]
                after.noop_timeout.goes_off(later) <==> later >= now + 8_000
            &&& !goes ==> after.queue == link.queue && after.noop_timeout.due is None
            &&& after.noop_interval == link.noop_interval
        }),
{
    let out = LinkView { nooping: true, ..link };
    law_what_goes_out_as_a_heartbeat(out, now, false, a);
    reveal(LinkView::noop_requested);
    reveal(LinkView::timeout_kept);
}

/// The host hears of an alarm exactly where it went off, and which it was; the other is
/// not touched.
pub proof fn law_who_hears_of_an_alarm(link: LinkView, now: u64, noop_timeout: bool)
    ensures
        ({
            let (after, went_off) = link.alarm_looked_at(now, noop_timeout);
            let alarm = if noop_timeout {
                link.noop_timeout
            } else {
                link.noop_interval
            };
            &&& went_off == alarm.goes_off(now)
            &&& went_off ==> after.told == link.told.push(
                LinkTold::NoopAlarmReceived { noop_timeout },
            )
            &&& !went_off ==> after.told == link.told
            &&& noop_timeout ==> after.noop_interval == link.noop_interval && after.noop_timeout
                == link.noop_timeout.looked_at(now)
            &&& !noop_timeout ==> after.noop_timeout == link.noop_timeout && after.noop_interval
                == link.noop_interval.looked_at(now)
        }),
{
}

/// The connect of a link is told of once it is over, and not before.
pub proof fn law_when_a_connect_is_told_of(link: LinkView)
    ensures
        link.profile.disconn_time != 0 ==> link.profile_told().told == link.told.push(
            LinkTold::LinkStatus { profile: link.profile },
        ),
        link.profile.disconn_time == 0 ==> link.profile_told() == link,
        link.profile_told().profile == link.profile,
{
}

/// A socket that was opened is written down: when, with what, and how long it took. Of
/// the pairs before the one that won, those on the well-known ports are noted as tried.
pub proof fn law_what_is_written_down_of_a_socket(
    link: LinkView,
    now: u64,
    candidates: Seq<Candidate>,
    proxy: crate::task_profile::ProxyView,
    a: LinkAnswers,
    n: int,
)
    ensures
        ({
            let open = link.opened(now, candidates, proxy, a);
            let m = link.told.len() as int;
            &&& open.profile.conn_time == now
            &&& open.profile.conn_errcode == a.connected.error_code
            &&& open.profile.conn_rtt == a.connected.rtt
            &&& open.told.len() == m + 2
            &&& open.told[m] is Connect
            &&& open.told[m]->Connect_proxy == proxy
            &&& open.told[m]->Connect_addresses.len() == candidates.len()
            &&& forall|i: int|
                0 <= i < candidates.len() ==> #[trigger] open.told[m]->Connect_addresses[i]
                    == candidates[i].address
        }),
        link.ports_tried(candidates, n).profile.tried_443port == 1 <==> link.profile.tried_443port
            == 1 || exists|i: int|
            0 <= i < n && i < candidates.len() && (#[trigger] candidates[i]).address.port == 443,
        link.ports_tried(candidates, n).profile.tried_80port == 1 <==> link.profile.tried_80port
            == 1 || exists|i: int|
            0 <= i < n && i < candidates.len() && (#[trigger] candidates[i]).address.port == 80,
{
    reveal(LinkView::opened);
    reveal(LinkView::ports_tried);
}

/// The debug ips are asked about only where they decide: where a proxy could be used, and
/// the one of a minor long link only where the other is not set.
pub proof fn law_when_the_debug_ips_are_asked_about(link_type: i32, a: LinkAnswers)
    ensures
        ({
            let asked = LinkView::debug_questions(link_type, a);
            let usable = a.proxy.valid && a.proxy.kind != ProxyType::Absent && a.proxy.kind
                != ProxyType::Http;
            let minor = usable && a.debug_ip.len() == 0 && link_type == 4;
            &&& !usable ==> asked.len() == 0
            &&& usable ==> asked.len() > 0 && asked[0] == (LinkTold::DebugIp {
                answer: a.debug_ip,
            })
            &&& minor ==> asked.len() == 2 && asked[1] == (LinkTold::MinorDebugIp {
                answer: a.minor_debug_ip,
            })
            &&& usable && !minor ==> asked.len() == 1
        }),
{
    reveal(LinkView::debug_questions);
}

/// The near end of a socket, and whether the network is one that only carries ipv6, are
/// written down as they were answered.
pub proof fn law_what_is_written_down_of_the_network(
    link: LinkView,
    socket: SocketFd,
    local: Option<Address>,
    stack: crate::long_link::LocalIpStack,
)
    ensures
        local matches Some(address) ==> link.local_asked(socket, local).profile.local_ip
            == address.ip@ && link.local_asked(socket, local).profile.local_port == address.port,
        local is None ==> link.local_asked(socket, local).profile == link.profile,
        link.stack_asked(stack).profile.nat64 <==> stack == crate::long_link::LocalIpStack::IPv6,
{
    reveal(LinkView::local_asked);
}

} // verus!
