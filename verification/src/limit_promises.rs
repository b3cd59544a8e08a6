//! What the gates of a request promise: what is refused, for how long, and what a
//! request that passes is charged.
use vstd::prelude::*;
use vstd::arithmetic::div_mod::lemma_add_mod_noop;
use crate::anti_avalanche::{Asked, AvalancheView, LimitKind};
use crate::flow_limit::{speed_of, FlowLimit};
use crate::frequency_limit::{
    adler, adler_high, adler_low, ago, located, oldest, swept, AvalancheRecord, FrequencyView,
};

verus! {

// ---- the funnel -----------------------------------------------------------------------

/// The funnel loses its speed once for every whole second since it was drained last, and
/// is never below empty. Less than a second changes nothing at all.
pub proof fn law_what_the_funnel_loses(limit: FlowLimit, now: u64, seconds: int)
    requires
        now >= limit.time_lastflow_computer,
        seconds * 1000 <= now - limit.time_lastflow_computer < (seconds + 1) * 1000,
    ensures
        ({
            let drained = limit.drained(now);
            &&& drained.funnel_speed == limit.funnel_speed
            &&& seconds == 0 ==> drained == limit
            &&& seconds > 0 ==> drained.time_lastflow_computer == now
            &&& limit.cur_funnel_vol >= seconds * limit.funnel_speed ==> drained.cur_funnel_vol
                == limit.cur_funnel_vol - seconds * limit.funnel_speed
            &&& limit.cur_funnel_vol < seconds * limit.funnel_speed ==> drained.cur_funnel_vol == 0
        }),
{
    assert(limit.seconds(now) == seconds);
    assert(0 <= seconds * limit.funnel_speed) by (nonlinear_arith)
        requires
            seconds >= 0,
            limit.funnel_speed >= 0,
    ;
    if seconds == 0 {
        assert(seconds * limit.funnel_speed == 0) by (nonlinear_arith)
            requires
                seconds == 0,
        ;
    }
}

/// A clock that went back drains nothing.
pub proof fn law_a_clock_that_went_back_drains_nothing(limit: FlowLimit, now: u64)
    requires
        now < limit.time_lastflow_computer,
    ensures
        limit.drained(now) == limit,
{
}

/// A limited body goes out exactly where it fits with what is in the funnel into eighty
/// megabytes, and is charged whole; one that does not fit is not charged at all.
pub proof fn law_when_a_limited_body_goes_out(limit: FlowLimit, len: u64, now: u64)
    ensures
        ({
            let held = limit.drained(now).cur_funnel_vol;
            let (after, passed) = limit.checked(true, len, now);
            &&& passed <==> held + len <= 83_886_080
            &&& passed ==> after.cur_funnel_vol == held + len
            &&& !passed ==> after.cur_funnel_vol == held
            &&& after.funnel_speed == limit.funnel_speed
            &&& after.time_lastflow_computer == limit.drained(now).time_lastflow_computer
        }),
{
    assert(crate::config::MAX_VOL == 83_886_080);
}

/// A smaller body goes out wherever a bigger one does, and a body that goes out with
/// more in the funnel goes out with less.
pub proof fn law_less_goes_out_where_more_does(
    limit: FlowLimit,
    emptier: FlowLimit,
    len: u64,
    shorter: u64,
    now: u64,
)
    requires
        limit.checked(true, len, now).1,
        shorter <= len,
        emptier.cur_funnel_vol <= limit.cur_funnel_vol,
        emptier.funnel_speed == limit.funnel_speed,
        emptier.time_lastflow_computer == limit.time_lastflow_computer,
    ensures
        emptier.checked(true, shorter, now).1,
{
    assert(emptier.seconds(now) == limit.seconds(now));
    assert(emptier.seconds(now) * emptier.funnel_speed == limit.seconds(now) * limit.funnel_speed);
}

/// The funnel drains four times as fast while the app is in use. An app that leaves the
/// foreground keeps at most sixty megabytes of it, one that comes back keeps it all.
pub proof fn law_what_going_to_the_background_does(limit: FlowLimit, now: u64)
    ensures
        ({
            let held = limit.drained(now).cur_funnel_vol;
            let front = limit.activated(true, now);
            let back = limit.activated(false, now);
            &&& front.funnel_speed == 23_301
            &&& back.funnel_speed == 5_825
            &&& front.cur_funnel_vol == held
            &&& back.cur_funnel_vol <= 62_914_560
            &&& back.cur_funnel_vol == held || (held > 62_914_560 && back.cur_funnel_vol
                == 62_914_560)
            &&& front.time_lastflow_computer == limit.drained(now).time_lastflow_computer
            &&& back.time_lastflow_computer == limit.drained(now).time_lastflow_computer
        }),
        speed_of(true) == 23_301,
        speed_of(false) == 5_825,
{
    assert(crate::config::ACTIVE_SPEED == 23_301);
    assert(crate::config::INACTIVE_SPEED == 5_825);
    assert(crate::config::INACTIVE_MIN_VOL == 62_914_560);
}

// ---- how often a body goes out ----------------------------------------------------------

/// The sum of the bytes.
pub open spec fn byte_sum(bytes: Seq<u8>) -> int
    decreases bytes.len(),
{
    if bytes.len() == 0 {
        0
    } else {
        byte_sum(bytes.drop_last()) + bytes.last()
    }
}

/// The sum of one and the bytes up to each.
pub open spec fn running_sum(bytes: Seq<u8>) -> int
    decreases bytes.len(),
{
    if bytes.len() == 0 {
        0
    } else {
        running_sum(bytes.drop_last()) + 1 + byte_sum(bytes)
    }
}

/// The hash of a body is the sum of one and its bytes in its low half, and the sum of
/// those sums in its high half, each over 65521.
pub proof fn law_what_a_hash_is(bytes: Seq<u8>)
    ensures
        adler_low(bytes) == (1 + byte_sum(bytes)) % 65521,
        adler_high(bytes) == running_sum(bytes) % 65521,
        adler(bytes) % 65536 == (1 + byte_sum(bytes)) % 65521,
        adler(bytes) / 65536 == running_sum(bytes) % 65521,
    decreases bytes.len(),
{
    if bytes.len() > 0 {
        let fewer = bytes.drop_last();
        law_what_a_hash_is(fewer);
        lemma_add_mod_noop(1 + byte_sum(fewer), bytes.last() as int, 65521);
        lemma_add_mod_noop(adler_low(fewer), bytes.last() as int, 65521);
        assert(adler_low(fewer) % 65521 == adler_low(fewer));
        lemma_add_mod_noop(running_sum(fewer), 1 + byte_sum(bytes), 65521);
        lemma_add_mod_noop(adler_high(fewer), adler_low(bytes), 65521);
        assert(adler_high(fewer) % 65521 == adler_high(fewer));
        assert(adler_low(bytes) % 65521 == adler_low(bytes));
    }
    let high = adler_high(bytes);
    let low = adler_low(bytes);
    assert(0 <= low < 65521);
    assert(0 <= high < 65521);
    assert(adler(bytes) == high * 65536 + low);
}

/// A record is found exactly where there is one of that hash, and is of that hash.
pub proof fn law_a_record_is_found_by_its_hash(records: Seq<AvalancheRecord>, hash: u32)
    ensures
        match located(records, hash) {
            Some(at) => 0 <= at < records.len() && records[at].hash == hash && forall|j: int|
                at < j < records.len() ==> (#[trigger] records[j]).hash != hash,
            None => forall|j: int|
                0 <= j < records.len() ==> (#[trigger] records[j]).hash != hash,
        },
    decreases records.len(),
{
    if records.len() > 0 {
        let fewer = records.drop_last();
        law_a_record_is_found_by_its_hash(fewer, hash);
        assert forall|j: int| 0 <= j < fewer.len() implies #[trigger] records[j] == fewer[j] by {}
    }
}

/// A record that is hot: touched within ten minutes, and of a body that went out at
/// least seventy-five times.
pub open spec fn stays_hot(now: u64) -> spec_fn(AvalancheRecord) -> bool {
    |record: AvalancheRecord|
        (now <= record.last_update || now - record.last_update <= 600_000) && record.count >= 75
}

/// A sweep keeps what is hot and nothing else, in its order, with no more than
/// ninety-nine of its sends.
pub proof fn law_what_a_sweep_keeps(records: Seq<AvalancheRecord>, now: u64)
    ensures
        ({
            let kept = records.filter(stays_hot(now));
            let after = swept(records, now);
            &&& after.len() == kept.len()
            &&& forall|i: int|
                0 <= i < kept.len() ==> (#[trigger] after[i]).hash == kept[i].hash
                    && after[i].last_update == kept[i].last_update && after[i].count == (
                if kept[i].count > 99 {
                    99u32
                } else {
                    kept[i].count
                })
        }),
    decreases records.len(),
{
    reveal(Seq::filter);
    if records.len() > 0 {
        let fewer = records.drop_last();
        law_what_a_sweep_keeps(fewer, now);
        let hot = stays_hot(now);
        assert(hot(records.last()) == records.last().is_hot(now));
        let kept = records.filter(hot);
        let before = fewer.filter(hot);
        let after = swept(records, now);
        assert forall|i: int| 0 <= i < kept.len() implies (#[trigger] after[i]).hash
            == kept[i].hash && after[i].last_update == kept[i].last_update && after[i].count == (
        if kept[i].count > 99 {
            99u32
        } else {
            kept[i].count
        }) by {
            if i < before.len() {
                assert(after[i] == swept(fewer, now)[i]);
                assert(kept[i] == before[i]);
            }
        }
    }
}

/// A table is swept once an hour has passed since the last sweep, and not before.
pub proof fn law_when_a_table_is_swept(view: FrequencyView, now: u64)
    ensures
        ({
            let hour = now >= view.last_clear && now - view.last_clear >= 3_600_000;
            let found = view.current(now);
            &&& hour ==> found.last_clear == now && found.records == swept(view.records, now)
            &&& !hour ==> found == view
        }),
{
}

/// A body is refused exactly where its record says that it went out a hundred and five
/// times; how long ago it went out last comes with it. A body without a record passes.
pub proof fn law_when_a_body_is_refused(view: FrequencyView, hash: u32, now: u64)
    ensures
        ({
            let found = view.current(now).records;
            let (passes, span) = view.verdict(hash, now);
            match located(found, hash) {
                Some(at) => {
                    &&& passes <==> found[at].count < 105
                    &&& span == (if now >= found[at].last_update {
                        now - found[at].last_update
                    } else {
                        0
                    })
                },
                None => passes && span == 0,
            }
        }),
{
}

/// A body that is sent is counted once more, passed or refused: its record has one send
/// more and is of now, and every other record is what the check found. One without a
/// record gets one, of a single send; where thirty are there, the one that was touched
/// longest ago makes room for it.
pub proof fn law_what_a_send_writes_down(view: FrequencyView, hash: u32, now: u64)
    requires
        view.wf(),
    ensures
        ({
            let found = view.current(now).records;
            let after = view.sent(hash, now).records;
            match located(found, hash) {
                Some(at) => {
                    &&& after.len() == found.len()
                    &&& after[at].hash == hash
                    &&& after[at].last_update == now
                    &&& after[at].count == found[at].count + 1 || (found[at].count == u32::MAX
                        && after[at].count == u32::MAX)
                    &&& forall|i: int|
                        0 <= i < found.len() && i != at ==> #[trigger] after[i] == found[i]
                },
                None => {
                    &&& after.last() == (AvalancheRecord { hash, count: 1, last_update: now })
                    &&& found.len() != 30 ==> after.drop_last() == found
                    &&& found.len() == 30 ==> exists|gone: int|
                        {
                            &&& 0 <= gone < found.len()
                            &&& after.drop_last() == #[trigger] found.remove(gone)
                            &&& forall|i: int|
                                0 <= i < found.len() ==> found[gone].last_update <= (
                                #[trigger] found[i]).last_update
                            &&& forall|i: int|
                                0 <= i < gone ==> found[gone].last_update < (
                                #[trigger] found[i]).last_update
                        }
                },
            }
        }),
{
    let found = view.current(now).records;
    let after = view.sent(hash, now).records;
    law_a_record_is_found_by_its_hash(found, hash);
    if located(found, hash) is None {
        if found.len() == 30 {
            lemma_oldest(found);
            assert(after.drop_last() =~= found.remove(oldest(found)));
        } else {
            assert(after.drop_last() =~= found);
        }
    }
}

proof fn lemma_oldest(records: Seq<AvalancheRecord>)
    requires
        records.len() > 0,
    ensures
        0 <= oldest(records) < records.len(),
        forall|i: int|
            0 <= i < records.len() ==> records[oldest(records)].last_update <= (
            #[trigger] records[i]).last_update,
        forall|i: int|
            0 <= i < oldest(records) ==> records[oldest(records)].last_update < (
            #[trigger] records[i]).last_update,
    decreases records.len(),
{
    if records.len() > 1 {
        let fewer = records.drop_last();
        lemma_oldest(fewer);
        assert forall|i: int| 0 <= i < fewer.len() implies #[trigger] records[i] == fewer[i] by {}
    }
}

// ---- both gates ---------------------------------------------------------------------------

/// A task is refused for how often its body went out exactly where it is limited by that
/// and the body is over the count, and for its bytes exactly where it is not refused for
/// that, is on a mobile network, is limited by them and does not fit.
pub proof fn law_what_a_task_is_refused_for(gates: AvalancheView, asked: Asked)
    ensures
        ({
            let often = asked.limit_frequency && !gates.frequency.verdict(
                adler(asked.body),
                asked.now,
            ).0;
            let much = asked.is_mobile && asked.limit_flow && gates.flow.drained(
                asked.now,
            ).cur_funnel_vol + (asked.body.len() as u64) > 83_886_080;
            let answer = gates.answer(asked);
            &&& answer == Err::<(), LimitKind>(LimitKind::Frequency) <==> often
            &&& answer == Err::<(), LimitKind>(LimitKind::Flow) <==> !often && much
            &&& answer is Ok <==> !often && !much
        }),
{
    assert(crate::config::MAX_VOL == 83_886_080);
}

/// What a check leaves: a task limited by how often its body goes out is counted, also
/// where it is refused; the funnel is touched only for a task that got that far, on a
/// mobile network, and is limited by its bytes.
pub proof fn law_what_a_check_leaves(gates: AvalancheView, asked: Asked)
    ensures
        ({
            let after = gates.checked(asked);
            let often = asked.limit_frequency && !gates.frequency.verdict(
                adler(asked.body),
                asked.now,
            ).0;
            &&& asked.limit_frequency ==> after.frequency == gates.frequency.sent(
                adler(asked.body),
                asked.now,
            )
            &&& !asked.limit_frequency ==> after.frequency == gates.frequency
            &&& often || !asked.is_mobile || !asked.limit_flow ==> after.flow == gates.flow
            &&& !often && asked.is_mobile && asked.limit_flow ==> after.flow == gates.flow.checked(
                true,
                asked.body.len() as u64,
                asked.now,
            ).0
        }),
{
}

} // verus!
