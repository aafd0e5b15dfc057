//! Buckets of rows by the UTC day of detection, newest day first.
use crate::calendar::{day_of, Date};
use crate::ranking::{is_ranking_of, lemma_ranking_unique, rank};
use crate::record::{Record, Row};
use vstd::prelude::*;

verus! {

/// The rows detected on one day: the day, the known records in rank order,
/// and the number of rows whose account is unknown.
#[derive(Debug, Clone)]
pub struct DateBucket {
    pub date: Date,
    pub records: Vec<Record>,
    pub unknown_count: usize,
}

impl DateBucket {
    /// The number of the bucket's day.
    pub open spec fn day(&self) -> int {
        self.date.day()
    }

    /// The number of rows detected on the day, known or not.
    pub open spec fn total(&self) -> nat {
        self.records@.len() + self.unknown_count as nat
    }
}

/// The number of the day on which a row was detected.
pub open spec fn row_day(row: Row) -> int {
    day_of(row.detected())
}

/// The known records among `rows` that were detected on `day`, in the order
/// of the rows.
pub open spec fn known_on(rows: Seq<Row>, day: int) -> Seq<Record>
    decreases rows.len(),
{
    if rows.len() == 0 {
        Seq::empty()
    } else {
        let rest = known_on(rows.drop_last(), day);
        match rows.last() {
            Row::Known(record) => if row_day(rows.last()) == day {
                rest.push(record)
            } else {
                rest
            },
            Row::Unknown(_) => rest,
        }
    }
}

/// The number of rows of unknown accounts among `rows` that were detected on
/// `day`.
pub open spec fn unknown_on(rows: Seq<Row>, day: int) -> nat
    decreases rows.len(),
{
    if rows.len() == 0 {
        0
    } else {
        let rest = unknown_on(rows.drop_last(), day);
        match rows.last() {
            Row::Known(_) => rest,
            Row::Unknown(_) => if row_day(rows.last()) == day {
                rest + 1
            } else {
                rest
            },
        }
    }
}

/// The instant of the first of `rows` that was detected on `day`.
pub open spec fn first_on(rows: Seq<Row>, day: int) -> Option<int>
    decreases rows.len(),
{
    if rows.len() == 0 {
        None
    } else {
        match first_on(rows.drop_last(), day) {
            Some(secs) => Some(secs),
            None => if row_day(rows.last()) == day {
                Some(rows.last().detected())
            } else {
                None
            },
        }
    }
}

/// Whether the buckets run from the newest day to the oldest, no day twice.
pub open spec fn newest_first(buckets: Seq<DateBucket>) -> bool {
    forall|i: int, j: int|
        0 <= i < j < buckets.len() ==> (#[trigger] buckets[i]).day() > (#[trigger] buckets[j]).day()
}

/// Whether one of the buckets is that of `day`.
#[verifier::opaque]
pub open spec fn has_day(buckets: Seq<DateBucket>, day: int) -> bool {
    exists|i: int| 0 <= i < buckets.len() && (#[trigger] buckets[i]).day() == day
}

/// Whether every row's day has a bucket.
pub open spec fn covers(buckets: Seq<DateBucket>, rows: Seq<Row>) -> bool {
    forall|k: int| 0 <= k < rows.len() ==> has_day(buckets, row_day(#[trigger] rows[k]))
}

/// A bucket of the day, where there is one.
pub proof fn lemma_bucket_of_day(buckets: Seq<DateBucket>, day: int) -> (i: int)
    requires
        has_day(buckets, day),
    ensures
        0 <= i < buckets.len(),
        buckets[i].day() == day,
{
    reveal(has_day);
    choose|i: int| 0 <= i < buckets.len() && (#[trigger] buckets[i]).day() == day
}

/// The day of a bucket is one of the days of the buckets.
pub proof fn lemma_day_of_bucket(buckets: Seq<DateBucket>, i: int)
    requires
        0 <= i < buckets.len(),
    ensures
        has_day(buckets, buckets[i].day()),
{
    reveal(has_day);
}

/// Whether `bucket` is the bucket of its day for `rows`: the day is known
/// through the first row detected on it, the records are the known records
/// of that day in rank order, and the count is that of its unknown rows.
pub open spec fn is_bucket_of(bucket: DateBucket, rows: Seq<Row>) -> bool {
    &&& first_on(rows, bucket.day()) == Some(bucket.date.witness())
    &&& is_ranking_of(bucket.records@, known_on(rows, bucket.day()))
    &&& bucket.unknown_count == unknown_on(rows, bucket.day())
}

/// Whether `buckets` is the grouping of `rows`: one bucket for each day on
/// which a row was detected, newest day first.
pub open spec fn is_grouping_of(buckets: Seq<DateBucket>, rows: Seq<Row>) -> bool {
    &&& newest_first(buckets)
    &&& covers(buckets, rows)
    &&& forall|i: int| 0 <= i < buckets.len() ==> is_bucket_of(#[trigger] buckets[i], rows)
}

/// The number of rows among `rows` that were detected on `day`, of known
/// accounts or not.
pub open spec fn count_on(rows: Seq<Row>, day: int) -> nat
    decreases rows.len(),
{
    if rows.len() == 0 {
        0
    } else if row_day(rows.last()) == day {
        count_on(rows.drop_last(), day) + 1
    } else {
        count_on(rows.drop_last(), day)
    }
}

/// The rows of a day are its known records and its unknown accounts.
pub proof fn lemma_count_on(rows: Seq<Row>, day: int)
    ensures
        count_on(rows, day) == known_on(rows, day).len() + unknown_on(rows, day),
        count_on(rows, day) <= rows.len(),
    decreases rows.len(),
{
    if rows.len() > 0 {
        lemma_count_on(rows.drop_last(), day);
    }
}

/// The total of a bucket of a grouping is the number of rows detected on
/// its day: rows of unknown accounts count, though they are no records.
pub proof fn lemma_total_counts_rows(buckets: Seq<DateBucket>, rows: Seq<Row>, b: int)
    requires
        is_grouping_of(buckets, rows),
        0 <= b < buckets.len(),
    ensures
        buckets[b].total() == count_on(rows, buckets[b].day()),
        buckets[b].total() > 0,
{
    let day = buckets[b].day();
    lemma_count_on(rows, day);
    let k = lemma_day_has_row(rows, day);
    lemma_count_positive(rows, day, k);
}

/// A day with a row counts at least one.
proof fn lemma_count_positive(rows: Seq<Row>, day: int, k: int)
    requires
        0 <= k < rows.len(),
        row_day(rows[k]) == day,
    ensures
        count_on(rows, day) > 0,
    decreases rows.len(),
{
    if k < rows.len() - 1 {
        lemma_count_positive(rows.drop_last(), day, k);
    }
}

/// A day that is known through a first row has a row.
pub proof fn lemma_day_has_row(rows: Seq<Row>, day: int) -> (k: int)
    requires
        first_on(rows, day) is Some,
    ensures
        0 <= k < rows.len(),
        row_day(rows[k]) == day,
{
    if forall|k: int| 0 <= k < rows.len() ==> row_day(#[trigger] rows[k]) != day {
        lemma_no_row(rows, day);
    }
    choose|k: int| 0 <= k < rows.len() && row_day(#[trigger] rows[k]) == day
}

/// Two runs of buckets from the newest day to the oldest that hold the same
/// days hold them at the same places.
proof fn lemma_same_days(a: Seq<DateBucket>, b: Seq<DateBucket>)
    requires
        newest_first(a),
        newest_first(b),
        forall|i: int| 0 <= i < a.len() ==> has_day(b, (#[trigger] a[i]).day()),
        forall|j: int| 0 <= j < b.len() ==> has_day(a, (#[trigger] b[j]).day()),
    ensures
        a.len() == b.len(),
        forall|i: int| 0 <= i < a.len() ==> (#[trigger] a[i]).day() == b[i].day(),
    decreases a.len(),
{
    if a.len() == 0 {
        if b.len() > 0 {
            lemma_bucket_of_day(a, b[0].day());
        }
    } else {
        lemma_bucket_of_day(b, a[0].day());
        lemma_bucket_of_day(a, b[0].day());
        let ta = a.drop_first();
        let tb = b.drop_first();
        assert forall|i: int| 0 <= i < ta.len() implies has_day(tb, (#[trigger] ta[i]).day()) by {
            let j = lemma_bucket_of_day(b, a[i + 1].day());
            lemma_day_of_bucket(tb, j - 1);
        }
        assert forall|j: int| 0 <= j < tb.len() implies has_day(ta, (#[trigger] tb[j]).day()) by {
            let i = lemma_bucket_of_day(a, b[j + 1].day());
            lemma_day_of_bucket(ta, i - 1);
        }
        lemma_same_days(ta, tb);
        assert forall|i: int| 0 <= i < a.len() implies (#[trigger] a[i]).day() == b[i].day() by {
            if i > 0 {
                assert(ta[i - 1] == a[i]);
            }
        }
    }
}

/// Rows have one grouping and no other: two groupings of the same rows
/// agree, bucket by bucket, in the day and the instant through which it is
/// known, in the records and their order, and in the count of unknown
/// accounts.
pub proof fn lemma_grouping_unique(a: Seq<DateBucket>, b: Seq<DateBucket>, rows: Seq<Row>)
    requires
        is_grouping_of(a, rows),
        is_grouping_of(b, rows),
    ensures
        a.len() == b.len(),
        forall|i: int|
            0 <= i < a.len() ==> {
                &&& (#[trigger] a[i]).date.witness() == b[i].date.witness()
                &&& a[i].records@ == b[i].records@
                &&& a[i].unknown_count == b[i].unknown_count
            },
{
    assert forall|i: int| 0 <= i < a.len() implies has_day(b, (#[trigger] a[i]).day()) by {
        lemma_day_has_row(rows, a[i].day());
    }
    assert forall|j: int| 0 <= j < b.len() implies has_day(a, (#[trigger] b[j]).day()) by {
        lemma_day_has_row(rows, b[j].day());
    }
    lemma_same_days(a, b);
    assert forall|i: int| 0 <= i < a.len() implies {
        &&& (#[trigger] a[i]).date.witness() == b[i].date.witness()
        &&& a[i].records@ == b[i].records@
        &&& a[i].unknown_count == b[i].unknown_count
    } by {
        lemma_ranking_unique(a[i].records@, b[i].records@, known_on(rows, a[i].day()));
    }
}

/// The buckets that a report shows: the first `limit`, or all where there
/// are fewer.
pub open spec fn retained(buckets: Seq<DateBucket>, limit: nat) -> Seq<DateBucket> {
    if limit < buckets.len() {
        buckets.take(limit as int)
    } else {
        buckets
    }
}

/// Of the buckets of a grouping a report shows at most `limit`, in order
/// from the newest day to the oldest, and no bucket that it leaves out is as
/// new as one that it shows.
pub proof fn lemma_retained_newest(buckets: Seq<DateBucket>, rows: Seq<Row>, limit: nat)
    requires
        is_grouping_of(buckets, rows),
    ensures
        retained(buckets, limit).len() <= limit,
        newest_first(retained(buckets, limit)),
        forall|i: int, j: int|
            0 <= i < retained(buckets, limit).len() <= j < buckets.len() ==> (
            #[trigger] retained(buckets, limit)[i]).day() > (#[trigger] buckets[j]).day(),
{
}

/// The number of buckets that a report shows.
pub fn retained_len(buckets: &Vec<DateBucket>, limit: usize) -> (count: usize)
    ensures
        count == retained(buckets@, limit as nat).len(),
        count <= buckets@.len(),
        retained(buckets@, limit as nat) == buckets@.take(count as int),
{
    if limit < buckets.len() {
        limit
    } else {
        buckets.len()
    }
}

/// A bucket while rows are still arriving: as `is_bucket_of`, but with the
/// records in order of arrival.
spec fn gathers(bucket: DateBucket, rows: Seq<Row>) -> bool {
    &&& first_on(rows, bucket.day()) == Some(bucket.date.witness())
    &&& bucket.records@ == known_on(rows, bucket.day())
    &&& bucket.unknown_count == unknown_on(rows, bucket.day())
}

/// The buckets while rows are still arriving.
spec fn is_gathering_of(buckets: Seq<DateBucket>, rows: Seq<Row>) -> bool {
    &&& newest_first(buckets)
    &&& covers(buckets, rows)
    &&& forall|i: int| 0 <= i < buckets.len() ==> gathers(#[trigger] buckets[i], rows)
}

/// What one more row adds to each day.
proof fn lemma_one_more(rows: Seq<Row>, row: Row, day: int)
    ensures
        known_on(rows.push(row), day) == match row {
            Row::Known(record) => if row_day(row) == day {
                known_on(rows, day).push(record)
            } else {
                known_on(rows, day)
            },
            Row::Unknown(_) => known_on(rows, day),
        },
        unknown_on(rows.push(row), day) == match row {
            Row::Known(_) => unknown_on(rows, day),
            Row::Unknown(_) => if row_day(row) == day {
                unknown_on(rows, day) + 1
            } else {
                unknown_on(rows, day)
            },
        },
        first_on(rows.push(row), day) == match first_on(rows, day) {
            Some(secs) => Some(secs),
            None => if row_day(row) == day {
                Some(row.detected())
            } else {
                None
            },
        },
{
    assert(rows.push(row).drop_last() =~= rows);
}

/// A day on which no row was detected has nothing to show.
proof fn lemma_no_row(rows: Seq<Row>, day: int)
    requires
        forall|k: int| 0 <= k < rows.len() ==> row_day(#[trigger] rows[k]) != day,
    ensures
        known_on(rows, day) == Seq::<Record>::empty(),
        unknown_on(rows, day) == 0,
        first_on(rows, day) is None,
    decreases rows.len(),
{
    if rows.len() > 0 {
        lemma_no_row(rows.drop_last(), day);
    }
}

/// The rows of one day, known and unknown, never outnumber all rows.
pub proof fn lemma_day_total(rows: Seq<Row>, day: int)
    ensures
        known_on(rows, day).len() + unknown_on(rows, day) <= rows.len(),
    decreases rows.len(),
{
    if rows.len() > 0 {
        lemma_day_total(rows.drop_last(), day);
    }
}

/// Where the bucket of `day` stands or would stand: before it every day is
/// newer, from it on none is.
fn slot(buckets: &Vec<DateBucket>, day: i64) -> (at: usize)
    requires
        newest_first(buckets@),
    ensures
        at <= buckets@.len(),
        forall|i: int| 0 <= i < at ==> (#[trigger] buckets@[i]).day() > day,
        forall|i: int| at <= i < buckets@.len() ==> (#[trigger] buckets@[i]).day() <= day,
{
    let mut low: usize = 0;
    let mut high: usize = buckets.len();
    while low < high
        invariant
            low <= high <= buckets@.len(),
            newest_first(buckets@),
            forall|i: int| 0 <= i < low ==> (#[trigger] buckets@[i]).day() > day,
            forall|i: int| high <= i < buckets@.len() ==> (#[trigger] buckets@[i]).day() <= day,
        decreases high - low,
    {
        let middle = low + (high - low) / 2;
        if buckets[middle].date.number() > day {
            low = middle + 1;
        } else {
            high = middle;
        }
    }
    low
}

/// Adds a row to the bucket of its day.
fn gather(bucket: &mut DateBucket, row: Row, Ghost(rows): Ghost<Seq<Row>>)
    requires
        gathers(*old(bucket), rows),
        row_day(row) == old(bucket).day(),
        rows.len() < usize::MAX,
    ensures
        gathers(*final(bucket), rows.push(row)),
        final(bucket).date == old(bucket).date,
{
    proof {
        lemma_one_more(rows, row, bucket.day());
        lemma_day_total(rows, bucket.day());
    }
    match row {
        Row::Known(record) => {
            bucket.records.push(record);
        },
        Row::Unknown(_) => {
            bucket.unknown_count = bucket.unknown_count + 1;
        },
    }
}

/// The bucket of a day whose first row is `row`.
fn first_of_day(row: Row, Ghost(rows): Ghost<Seq<Row>>) -> (bucket: DateBucket)
    requires
        forall|k: int| 0 <= k < rows.len() ==> row_day(#[trigger] rows[k]) != row_day(row),
    ensures
        gathers(bucket, rows.push(row)),
        bucket.day() == row_day(row),
{
    proof {
        lemma_no_row(rows, row_day(row));
        lemma_one_more(rows, row, row_day(row));
    }
    let date = row.detected_at().date();
    match row {
        Row::Known(record) => {
            let mut records: Vec<Record> = Vec::new();
            records.push(record);
            DateBucket { date, records, unknown_count: 0 }
        },
        Row::Unknown(_) => DateBucket { date, records: Vec::new(), unknown_count: 1 },
    }
}

/// Puts every row into the bucket of its day, in order of arrival.
fn gather_by_date(rows: Vec<Row>) -> (gathered: Vec<DateBucket>)
    ensures
        is_gathering_of(gathered@, rows@),
{
    let ghost all = rows@;
    let count = rows.len();
    let mut gathered: Vec<DateBucket> = Vec::new();
    for row in it: rows
        invariant
            it.seq() == all,
            all.len() == count,
            is_gathering_of(gathered@, all.take(it.index())),
    {
        let ghost seen = all.take(it.index());
        let ghost next = all.take(it.index() + 1);
        let ghost before = gathered@;
        assert(next =~= seen.push(row));
        let day = row.detected_at().day();
        let at = slot(&gathered, day);
        if at < gathered.len() && gathered[at].date.number() == day {
            gather(&mut gathered[at], row, Ghost(seen));
            proof {
                let after = gathered@;
                assert forall|k: int| 0 <= k < next.len() implies has_day(
                    after,
                    row_day(#[trigger] next[k]),
                ) by {
                    if k < seen.len() {
                        let i = lemma_bucket_of_day(before, row_day(seen[k]));
                        lemma_day_of_bucket(after, i);
                    } else {
                        lemma_day_of_bucket(after, at as int);
                    }
                }
                assert forall|i: int| 0 <= i < after.len() implies gathers(
                    #[trigger] after[i],
                    next,
                ) by {
                    if i != at {
                        lemma_one_more(seen, row, before[i].day());
                    }
                }
            }
        } else {
            proof {
                assert forall|k: int| 0 <= k < seen.len() implies row_day(#[trigger] seen[k])
                    != row_day(row) by {
                    lemma_bucket_of_day(before, row_day(seen[k]));
                }
            }
            let bucket = first_of_day(row, Ghost(seen));
            gathered.insert(at, bucket);
            proof {
                let after = gathered@;
                assert forall|k: int| 0 <= k < next.len() implies has_day(
                    after,
                    row_day(#[trigger] next[k]),
                ) by {
                    if k < seen.len() {
                        let i = lemma_bucket_of_day(before, row_day(seen[k]));
                        if i < at {
                            lemma_day_of_bucket(after, i);
                        } else {
                            lemma_day_of_bucket(after, i + 1);
                        }
                    } else {
                        lemma_day_of_bucket(after, at as int);
                    }
                }
                assert forall|i: int| 0 <= i < after.len() implies gathers(
                    #[trigger] after[i],
                    next,
                ) by {
                    if i != at {
                        let old_i = if i < at {
                            i
                        } else {
                            i - 1
                        };
                        lemma_one_more(seen, row, before[old_i].day());
                    }
                }
            }
        }
    }
    assert(all.take(all.len() as int) =~= all);
    gathered
}

/// Groups rows by the UTC day on which they were detected. The buckets run
/// from the newest day to the oldest; each holds the known records of its
/// day in rank order and counts the rows of unknown accounts.
pub fn group_by_date(rows: Vec<Row>) -> (buckets: Vec<DateBucket>)
    ensures
        is_grouping_of(buckets@, rows@),
{
    let ghost all = rows@;
    let gathered = gather_by_date(rows);
    let ghost arrived = gathered@;
    let mut buckets: Vec<DateBucket> = Vec::new();
    for bucket in it: gathered
        invariant
            it.seq() == arrived,
            buckets@.len() == it.index(),
            forall|i: int|
                0 <= i < buckets@.len() ==> {
                    &&& (#[trigger] buckets@[i]).date == arrived[i].date
                    &&& buckets@[i].unknown_count == arrived[i].unknown_count
                    &&& is_ranking_of(buckets@[i].records@, arrived[i].records@)
                },
    {
        let DateBucket { date, records, unknown_count } = bucket;
        let records = rank(records);
        buckets.push(DateBucket { date, records, unknown_count });
    }
    proof {
        let done = buckets@;
        assert forall|k: int| 0 <= k < all.len() implies has_day(
            done,
            row_day(#[trigger] all[k]),
        ) by {
            let i = lemma_bucket_of_day(arrived, row_day(all[k]));
            lemma_day_of_bucket(done, i);
        }
    }
    buckets
}

} // verus!
