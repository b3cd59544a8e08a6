//! "The same body must not go out more than [`RECORD_INTERCEPT_COUNT`] times."
//!
//! The body is hashed (adler32) and it is counted how often each hash was sent.
//! The same body more than [`RECORD_INTERCEPT_COUNT`] times is treated as an
//! avalanche and refused; the table keeps at most [`MAX_RECORD_COUNT`] entries
//! and is swept once an hour, where entries that are still hot are kept (with a
//! reduced count) and cold ones are dropped.
use vstd::prelude::*;
use crate::task::Task;

verus! {

/// At most this many records are tracked.
pub const MAX_RECORD_COUNT: usize = 30;

/// Above this many sends of one body the task is refused.
pub const RECORD_INTERCEPT_COUNT: u32 = 105;

/// A hot record is kept with its count lowered to this.
pub const NOT_CLEAR_INTERCEPT_COUNT_RETRY: u32 = 99;

/// Records at or above this count are "hot".
pub const NOT_CLEAR_INTERCEPT_COUNT: u32 = 75;

/// "Hot" means: touched within the last ten minutes.
pub const NOT_CLEAR_INTERCEPT_INTERVAL: u64 = 10 * 60 * 1000;

/// How often the table is swept.
pub const RUN_CLEAR_RECORDS_INTERVAL: u64 = 60 * 60 * 1000;

/// The modulus of adler32.
pub const ADLER_BASE: u32 = 65521;

/// The sum of the bytes, plus one, over the modulus.
pub open spec fn adler_low(bytes: Seq<u8>) -> int
    decreases bytes.len(),
{
    if bytes.len() == 0 {
        1
    } else {
        (adler_low(bytes.drop_last()) + bytes.last()) % (ADLER_BASE as int)
    }
}

/// The sum of those sums over the modulus.
pub open spec fn adler_high(bytes: Seq<u8>) -> int
    decreases bytes.len(),
{
    if bytes.len() == 0 {
        0
    } else {
        (adler_high(bytes.drop_last()) + adler_low(bytes)) % (ADLER_BASE as int)
    }
}

/// The adler32 of a body: the second sum above the first.
pub open spec fn adler(bytes: Seq<u8>) -> u32 {
    (adler_high(bytes) * 65536 + adler_low(bytes)) as u32
}

/// The adler32 of a body.
pub fn adler32(bytes: &[u8]) -> (hash: u32)
    ensures
        hash == adler(bytes@),
{
    let mut low: u32 = 1;
    let mut high: u32 = 0;
    let mut i: usize = 0;
    while i < bytes.len()
        invariant
            i <= bytes@.len(),
            low < ADLER_BASE,
            high < ADLER_BASE,
            low == adler_low(bytes@.take(i as int)),
            high == adler_high(bytes@.take(i as int)),
        decreases bytes@.len() - i,
    {
        proof {
            assert(bytes@.take(i + 1).drop_last() =~= bytes@.take(i as int));
            assert(bytes@.take(i + 1).last() == bytes@[i as int]);
        }
        low = (low + bytes[i] as u32) % ADLER_BASE;
        high = (high + low) % ADLER_BASE;
        i += 1;
    }
    assert(bytes@.take(i as int) =~= bytes@);
    high * 65536 + low
}

/// How often one body was sent.
#[derive(Debug, Clone, Copy, PartialEq, Eq, Structural)]
pub struct AvalancheRecord {
    /// adler32 of the body.
    pub hash: u32,
    /// How often this body was sent.
    pub count: u32,
    /// When it was sent last.
    pub last_update: u64,
}

/// How long ago something was.
pub open spec fn ago(now: u64, then: u64) -> u64 {
    if now >= then {
        (now - then) as u64
    } else {
        0
    }
}

impl AvalancheRecord {
    /// The record is kept by a sweep.
    pub open spec fn is_hot(self, now: u64) -> bool {
        ago(now, self.last_update) <= NOT_CLEAR_INTERCEPT_INTERVAL && self.count
            >= NOT_CLEAR_INTERCEPT_COUNT
    }

    /// The record with its count lowered.
    pub open spec fn cooled(self) -> AvalancheRecord {
        AvalancheRecord {
            count: if self.count > NOT_CLEAR_INTERCEPT_COUNT_RETRY {
                NOT_CLEAR_INTERCEPT_COUNT_RETRY
            } else {
                self.count
            },
            ..self
        }
    }

    /// The record once the body was sent again; a count that is full stays.
    pub open spec fn touched(self, now: u64) -> AvalancheRecord {
        AvalancheRecord {
            count: if self.count == u32::MAX {
                u32::MAX
            } else {
                (self.count + 1) as u32
            },
            last_update: now,
            ..self
        }
    }
}

/// What a sweep keeps of the records.
pub open spec fn swept(records: Seq<AvalancheRecord>, now: u64) -> Seq<AvalancheRecord>
    decreases records.len(),
{
    if records.len() == 0 {
        seq![]
    } else if records.last().is_hot(now) {
        swept(records.drop_last(), now).push(records.last().cooled())
    } else {
        swept(records.drop_last(), now)
    }
}

/// Where the last record of a hash stands.
pub open spec fn located(records: Seq<AvalancheRecord>, hash: u32) -> Option<int>
    decreases records.len(),
{
    if records.len() == 0 {
        None
    } else if records.last().hash == hash {
        Some(records.len() - 1)
    } else {
        located(records.drop_last(), hash)
    }
}

/// Where the record stands that was touched longest ago; of two the first.
pub open spec fn oldest(records: Seq<AvalancheRecord>) -> int
    decreases records.len(),
{
    if records.len() <= 1 {
        0
    } else {
        let before = oldest(records.drop_last());
        if records.last().last_update < records[before].last_update {
            records.len() - 1
        } else {
            before
        }
    }
}

/// The records with a new one; a full table loses the one that was touched
/// longest ago.
pub open spec fn inserted(records: Seq<AvalancheRecord>, hash: u32, now: u64) -> Seq<
    AvalancheRecord,
> {
    let room = if records.len() == MAX_RECORD_COUNT {
        records.remove(oldest(records))
    } else {
        records
    };
    room.push(AvalancheRecord { hash, count: 1, last_update: now })
}

/// The records of the bodies that were sent.
#[derive(Debug, Clone)]
pub struct FrequencyLimit {
    pub records: Vec<AvalancheRecord>,
    pub last_clear: u64,
}

/// The contents of a [`FrequencyLimit`].
pub struct FrequencyView {
    pub records: Seq<AvalancheRecord>,
    pub last_clear: u64,
}

impl View for FrequencyLimit {
    type V = FrequencyView;

    open spec fn view(&self) -> FrequencyView {
        FrequencyView { records: self.records@, last_clear: self.last_clear }
    }
}

impl FrequencyView {
    /// The table is no longer than it may be, no hash is in it twice, and every
    /// record is of a body that went out at least once.
    pub open spec fn wf(self) -> bool {
        &&& self.records.len() <= MAX_RECORD_COUNT
        &&& forall|i: int| 0 <= i < self.records.len() ==> (#[trigger] self.records[i]).count >= 1
        &&& forall|i: int, j: int|
            0 <= i < j < self.records.len() ==> (#[trigger] self.records[i]).hash != (
            #[trigger] self.records[j]).hash
    }

    /// The table is due to be swept.
    pub open spec fn is_due(self, now: u64) -> bool {
        ago(now, self.last_clear) >= RUN_CLEAR_RECORDS_INTERVAL
    }

    /// The table as a check finds it: swept when an hour is over.
    pub open spec fn current(self, now: u64) -> FrequencyView {
        FrequencyView {
            records: if self.is_due(now) {
                swept(self.records, now)
            } else {
                self.records
            },
            last_clear: if self.is_due(now) {
                now
            } else {
                self.last_clear
            },
        }
    }

    /// The table after a body was sent.
    pub open spec fn sent(self, hash: u32, now: u64) -> FrequencyView {
        let found = self.current(now);
        FrequencyView {
            records: match located(found.records, hash) {
                Some(at) => found.records.update(at, found.records[at].touched(now)),
                None => inserted(found.records, hash, now),
            },
            ..found
        }
    }

    /// The body may go out, and how long ago the same one was sent last.
    pub open spec fn verdict(self, hash: u32, now: u64) -> (bool, u64) {
        let found = self.current(now);
        match located(found.records, hash) {
            Some(at) => (
                found.records[at].touched(now).count <= RECORD_INTERCEPT_COUNT,
                ago(now, found.records[at].last_update),
            ),
            None => (true, 0),
        }
    }
}

/// What a sweep keeps comes from the records, in their order.
proof fn lemma_swept(records: Seq<AvalancheRecord>, now: u64)
    requires
        forall|i: int, j: int|
            0 <= i < j < records.len() ==> (#[trigger] records[i]).hash != (
            #[trigger] records[j]).hash,
    ensures
        swept(records, now).len() <= records.len(),
        forall|i: int|
            0 <= i < swept(records, now).len() ==> (#[trigger] swept(records, now)[i]).count >= 1,
        forall|i: int|
            0 <= i < swept(records, now).len() ==> exists|j: int|
                0 <= j < records.len() && (#[trigger] swept(records, now)[i]).hash == (
                #[trigger] records[j]).hash,
        forall|i: int, j: int|
            0 <= i < j < swept(records, now).len() ==> (#[trigger] swept(records, now)[i]).hash
                != (#[trigger] swept(records, now)[j]).hash,
    decreases records.len(),
{
    if records.len() > 0 {
        let before = records.drop_last();
        lemma_swept(before, now);
        let kept = swept(before, now);
        assert forall|i: int| 0 <= i < kept.len() implies kept[i].hash != records.last().hash
            && exists|j: int|
            0 <= j < records.len() && kept[i].hash == (#[trigger] records[j]).hash by {
            let j = choose|j: int|
                0 <= j < before.len() && kept[i].hash == (#[trigger] before[j]).hash;
            assert(records[j] == before[j]);
            assert(records[records.len() - 1] == records.last());
        }
        if records.last().is_hot(now) {
            let all = swept(records, now);
            assert(all[all.len() - 1].hash == records[records.len() - 1].hash);
            assert forall|i: int| 0 <= i < all.len() implies exists|j: int|
                0 <= j < records.len() && (#[trigger] all[i]).hash == (
                #[trigger] records[j]).hash by {
                if i < kept.len() {
                    assert(all[i] == kept[i]);
                }
            }
        }
    }
}

/// What is located stands in the table and has the hash; otherwise nothing in
/// the table has it.
proof fn lemma_located(records: Seq<AvalancheRecord>, hash: u32)
    ensures
        match located(records, hash) {
            Some(at) => 0 <= at < records.len() && records[at].hash == hash,
            None => forall|i: int|
                0 <= i < records.len() ==> (#[trigger] records[i]).hash != hash,
        },
    decreases records.len(),
{
    if records.len() > 0 && records.last().hash != hash {
        lemma_located(records.drop_last(), hash);
        assert forall|i: int|
            0 <= i < records.len() && located(records, hash) is None implies (
        #[trigger] records[i]).hash != hash by {
            if i < records.len() - 1 {
                assert(records.drop_last()[i] == records[i]);
            }
        }
    }
}

/// The oldest record stands in the table, none was touched before it, and it is the
/// first of those.
proof fn lemma_oldest(records: Seq<AvalancheRecord>)
    requires
        records.len() > 0,
    ensures
        0 <= oldest(records) < records.len(),
        forall|i: int|
            0 <= i < records.len() ==> records[oldest(records)].last_update <= (
            #[trigger] records[i]).last_update,
        forall|i: int|
            0 <= i < oldest(records) ==> records[oldest(records)].last_update < (
            #[trigger] records[i]).last_update,
    decreases records.len(),
{
    if records.len() > 1 {
        let before = records.drop_last();
        lemma_oldest(before);
        assert forall|i: int| 0 <= i < records.len() - 1 implies before[i]
            == #[trigger] records[i] by {}
    }
}

impl FrequencyLimit {
    /// An empty table, with the sweep clocked at `now`.
    pub fn new_at(now: u64) -> (limit: Self)
        ensures
            limit@.records.len() == 0,
            limit@.last_clear == now,
            limit@.wf(),
    {
        FrequencyLimit { records: Vec::new(), last_clear: now }
    }

    /// Whether a task may go out with that body, and how long ago the same body
    /// was sent last, which the caller reports.
    pub fn check_at(&mut self, task: &Task, body: &[u8], now: u64) -> (verdict: (bool, u64))
        ensures
            old(self)@.wf() ==> final(self)@.wf(),
            final(self)@ == if task.limit_frequency {
                old(self)@.sent(adler(body@), now)
            } else {
                old(self)@
            },
            verdict == if task.limit_frequency {
                old(self)@.verdict(adler(body@), now)
            } else {
                (true, 0)
            },
    {
        if !task.limit_frequency {
            return (true, 0);
        }
        if now.saturating_sub(self.last_clear) >= RUN_CLEAR_RECORDS_INTERVAL {
            self.last_clear = now;
            self.clear_records(now);
        }
        let hash: u32 = adler32(body);
        proof {
            lemma_located(self.records@, hash);
        }
        match self.locate(hash) {
            Some(index) => {
                let span: u64 = now.saturating_sub(self.records[index].last_update);
                self.update(index, now);
                (self.records[index].count <= RECORD_INTERCEPT_COUNT, span)
            },
            None => {
                self.insert(hash, now);
                (true, 0)
            },
        }
    }

    /// When the table was swept last.
    pub fn last_clear(&self) -> (now: u64)
        ensures
            now == self@.last_clear,
    {
        self.last_clear
    }

    /// The table is swept.
    fn clear_records(&mut self, now: u64)
        ensures
            final(self)@ == (FrequencyView {
                records: swept(old(self)@.records, now),
                ..old(self)@
            }),
            old(self)@.wf() ==> final(self)@.wf(),
    {
        let ghost all = self.records@;
        let mut kept: Vec<AvalancheRecord> = Vec::new();
        let mut i: usize = 0;
        assert(all.take(0) =~= seq![]);
        while i < self.records.len()
            invariant
                all == self.records@,
                self@ == old(self)@,
                i <= all.len(),
                kept@ == swept(all.take(i as int), now),
            decreases all.len() - i,
        {
            let record = self.records[i];
            proof {
                assert(all.take(i + 1).drop_last() =~= all.take(i as int));
                assert(all.take(i + 1).last() == all[i as int]);
            }
            let interval: u64 = now.saturating_sub(record.last_update);
            if interval <= NOT_CLEAR_INTERCEPT_INTERVAL && NOT_CLEAR_INTERCEPT_COUNT
                <= record.count {
                let count: u32 = if record.count > NOT_CLEAR_INTERCEPT_COUNT_RETRY {
                    NOT_CLEAR_INTERCEPT_COUNT_RETRY
                } else {
                    record.count
                };
                kept.push(
                    AvalancheRecord { hash: record.hash, count, last_update: record.last_update },
                );
            }
            i += 1;
        }
        proof {
            assert(all.take(i as int) =~= all);
            if self@.wf() {
                lemma_swept(all, now);
            }
        }
        self.records = kept;
    }

    /// Where the last record of a hash stands.
    fn locate(&self, hash: u32) -> (at: Option<usize>)
        ensures
            match (at, located(self@.records, hash)) {
                (Some(at), Some(index)) => at == index,
                (None, None) => true,
                _ => false,
            },
    {
        let ghost all = self.records@;
        let mut i: usize = self.records.len();
        assert(all.take(i as int) =~= all);
        while i > 0
            invariant
                all == self.records@,
                i <= all.len(),
                located(all.take(i as int), hash) == located(all, hash),
            decreases i,
        {
            proof {
                assert(all.take(i as int).drop_last() =~= all.take(i - 1));
            }
            i -= 1;
            if self.records[i].hash == hash {
                return Some(i);
            }
        }
        None
    }

    /// Where the record stands that was touched longest ago.
    fn oldest(&self) -> (at: usize)
        requires
            self@.records.len() > 0,
        ensures
            at == oldest(self@.records),
            at < self@.records.len(),
    {
        let ghost all = self.records@;
        let mut at: usize = 0;
        let mut i: usize = 1;
        while i < self.records.len()
            invariant
                all == self.records@,
                1 <= i <= all.len(),
                at < i,
                at == oldest(all.take(i as int)),
            decreases all.len() - i,
        {
            proof {
                assert(all.take(i + 1).drop_last() =~= all.take(i as int));
                assert(all.take(i + 1)[at as int] == all[at as int]);
            }
            if self.records[i].last_update < self.records[at].last_update {
                at = i;
            }
            i += 1;
        }
        assert(all.take(i as int) =~= all);
        at
    }

    /// One more body in the table.
    fn insert(&mut self, hash: u32, now: u64)
        ensures
            final(self)@ == (FrequencyView {
                records: inserted(old(self)@.records, hash, now),
                ..old(self)@
            }),
            old(self)@.wf() && located(old(self)@.records, hash) is None ==> final(self)@.wf(),
    {
        proof {
            lemma_located(self.records@, hash);
        }
        if self.records.len() == MAX_RECORD_COUNT {
            let at = self.oldest();
            self.records.remove(at);
        }
        self.records.push(AvalancheRecord { hash, count: 1, last_update: now });
    }

    /// A body that is in the table already.
    fn update(&mut self, index: usize, now: u64)
        requires
            index < old(self)@.records.len(),
        ensures
            final(self)@ == (FrequencyView {
                records: old(self)@.records.update(
                    index as int,
                    old(self)@.records[index as int].touched(now),
                ),
                ..old(self)@
            }),
            old(self)@.wf() ==> final(self)@.wf(),
    {
        let record = self.records[index];
        let count: u32 = if record.count == u32::MAX {
            u32::MAX
        } else {
            record.count + 1
        };
        self.records.set(index, AvalancheRecord { hash: record.hash, count, last_update: now });
    }

    /// The records currently tracked.
    pub fn records(&self) -> (records: &[AvalancheRecord])
        ensures
            records@ == self@.records,
    {
        self.records.as_slice()
    }
}

/// However many bodies are sent, the table stays no longer than it may be, with no
/// hash in it twice and no record of a body that never went out.
pub proof fn law_the_table_stays_well_formed(view: FrequencyView, hash: u32, now: u64)
    requires
        view.wf(),
    ensures
        view.sent(hash, now).wf(),
{
    lemma_swept(view.records, now);
    let found = view.current(now).records;
    lemma_located(found, hash);
    if located(found, hash) is None && found.len() > 0 {
        lemma_oldest(found);
    }
}

/// A body that is new in the table is its last record, and has gone out once; the
/// others stay as they are, but for the first of those touched longest ago, which
/// leaves a table that was full.
pub proof fn law_a_full_table_loses_its_oldest_record(
    records: Seq<AvalancheRecord>,
    hash: u32,
    now: u64,
)
    requires
        records.len() <= MAX_RECORD_COUNT,
    ensures
        inserted(records, hash, now).len() <= MAX_RECORD_COUNT,
        inserted(records, hash, now).last() == (AvalancheRecord {
            hash,
            count: 1,
            last_update: now,
        }),
        records.len() < MAX_RECORD_COUNT ==> inserted(records, hash, now).drop_last() == records,
        records.len() == MAX_RECORD_COUNT ==> {
            let at = oldest(records);
            &&& 0 <= at < records.len()
            &&& forall|i: int|
                0 <= i < records.len() ==> records[at].last_update <= (
                #[trigger] records[i]).last_update
            &&& forall|i: int|
                0 <= i < at ==> records[at].last_update < (#[trigger] records[i]).last_update
            &&& inserted(records, hash, now).drop_last() == records.remove(at)
        },
{
    if records.len() == MAX_RECORD_COUNT {
        lemma_oldest(records);
    }
}

/// The table after the same body was sent so many times.
pub open spec fn sent_times(
    view: FrequencyView,
    hash: u32,
    nows: Seq<u64>,
    k: int,
) -> FrequencyView
    decreases k,
{
    if k <= 0 {
        view
    } else {
        sent_times(view, hash, nows, k - 1).sent(hash, nows[k - 1])
    }
}

/// As long as the table is not swept, the same body goes out
/// [`RECORD_INTERCEPT_COUNT`] times and not once more.
pub proof fn law_a_body_goes_out_only_so_often(
    view: FrequencyView,
    hash: u32,
    nows: Seq<u64>,
    k: int,
)
    requires
        view.wf(),
        located(view.records, hash) is None,
        0 <= k < nows.len() < u32::MAX,
        forall|i: int| 0 <= i < nows.len() ==> !(#[trigger] ago(nows[i], view.last_clear)
            >= RUN_CLEAR_RECORDS_INTERVAL),
    ensures
        sent_times(view, hash, nows, k).verdict(hash, nows[k]).0 <==> k < RECORD_INTERCEPT_COUNT,
        sent_times(view, hash, nows, k).last_clear == view.last_clear,
        k > 0 ==> {
            let after = sent_times(view, hash, nows, k).records;
            located(after, hash) matches Some(at) && after[at].count == k
        },
    decreases k,
{
    if k > 0 {
        law_a_body_goes_out_only_so_often(view, hash, nows, k - 1);
        let before = sent_times(view, hash, nows, k - 1);
        let after = before.sent(hash, nows[k - 1]);
        assert(!(ago(nows[k - 1], view.last_clear) >= RUN_CLEAR_RECORDS_INTERVAL));
        assert(!before.is_due(nows[k - 1]));
        if k == 1 {
            assert(after.records.last().hash == hash);
        } else {
            let at = located(before.records, hash)->0;
            lemma_located(before.records, hash);
            lemma_update_located(before.records, hash, before.records[at].touched(nows[k - 1]));
        }
    }
    assert(!(ago(nows[k], view.last_clear) >= RUN_CLEAR_RECORDS_INTERVAL));
    assert(!sent_times(view, hash, nows, k).is_due(nows[k]));
}

/// A record that is touched stays where it is.
proof fn lemma_update_located(
    records: Seq<AvalancheRecord>,
    hash: u32,
    record: AvalancheRecord,
)
    requires
        located(records, hash) is Some,
        record.hash == hash,
    ensures
        located(records.update(located(records, hash)->0, record), hash) == located(records, hash),
    decreases records.len(),
{
    let at = located(records, hash)->0;
    lemma_located(records, hash);
    if records.last().hash != hash {
        let next = records.update(at, record);
        assert(at < records.len() - 1) by {
            lemma_located(records.drop_last(), hash);
        }
        assert(next.drop_last() =~= records.drop_last().update(at, record));
        lemma_update_located(records.drop_last(), hash, record);
    }
}

/// What a sweep keeps may go out again: its count is below the limit, and not
/// far below it.
pub proof fn law_a_sweep_cools_what_it_keeps(records: Seq<AvalancheRecord>, now: u64)
    ensures
        forall|i: int|
            0 <= i < swept(records, now).len() ==> NOT_CLEAR_INTERCEPT_COUNT <= (
            #[trigger] swept(records, now)[i]).count <= NOT_CLEAR_INTERCEPT_COUNT_RETRY,
    decreases records.len(),
{
    if records.len() > 0 {
        law_a_sweep_cools_what_it_keeps(records.drop_last(), now);
        let before = swept(records.drop_last(), now);
        let all = swept(records, now);
        assert forall|i: int| 0 <= i < all.len() implies NOT_CLEAR_INTERCEPT_COUNT <= (
        #[trigger] all[i]).count <= NOT_CLEAR_INTERCEPT_COUNT_RETRY by {
            if i < before.len() {
                assert(all[i] == before[i]);
            }
        }
    }
}

} // verus!
