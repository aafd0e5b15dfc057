//! The follower cutoff: which records of a day a report shows.
use crate::ranking::{ranked, ranks_before};
use crate::record::Record;
use vstd::prelude::*;

verus! {

/// Whether a record has at least `cutoff` followers.
pub open spec fn meets(record: Record, cutoff: nat) -> bool {
    record.followers() >= cutoff
}

/// The number of records before the first that falls below the cutoff.
pub open spec fn shown_count(records: Seq<Record>, cutoff: nat) -> nat
    decreases records.len(),
{
    if records.len() == 0 || !meets(records[0], cutoff) {
        0
    } else {
        1 + shown_count(records.drop_first(), cutoff)
    }
}

/// The records that a table shows: those before the first that falls below
/// the cutoff.
pub open spec fn shown(records: Seq<Record>, cutoff: nat) -> Seq<Record> {
    records.take(shown_count(records, cutoff) as int)
}

/// The records that meet the cutoff, in order.
pub open spec fn meeting(records: Seq<Record>, cutoff: nat) -> Seq<Record>
    decreases records.len(),
{
    if records.len() == 0 {
        Seq::empty()
    } else {
        let rest = meeting(records.drop_last(), cutoff);
        if meets(records.last(), cutoff) {
            rest.push(records.last())
        } else {
            rest
        }
    }
}

/// The first `count` records are the shown ones where each of them meets
/// the cutoff and the next one, if any, does not.
pub proof fn lemma_shown_count_is(records: Seq<Record>, cutoff: nat, count: int)
    requires
        0 <= count <= records.len(),
        forall|k: int| 0 <= k < count ==> meets(#[trigger] records[k], cutoff),
        count < records.len() ==> !meets(records[count], cutoff),
    ensures
        shown_count(records, cutoff) == count,
    decreases records.len(),
{
    if count > 0 {
        lemma_shown_count_is(records.drop_first(), cutoff, count - 1);
    }
}

/// Every shown record meets the cutoff, and the one after them does not.
pub proof fn lemma_shown_meets(records: Seq<Record>, cutoff: nat)
    ensures
        shown_count(records, cutoff) <= records.len(),
        forall|k: int|
            0 <= k < shown_count(records, cutoff) ==> meets(#[trigger] records[k], cutoff),
        shown_count(records, cutoff) < records.len() ==> !meets(
            records[shown_count(records, cutoff) as int],
            cutoff,
        ),
    decreases records.len(),
{
    if records.len() > 0 && meets(records[0], cutoff) {
        let rest = records.drop_first();
        lemma_shown_meets(rest, cutoff);
        assert forall|k: int| 0 <= k < shown_count(records, cutoff) implies meets(
            #[trigger] records[k],
            cutoff,
        ) by {
            if k > 0 {
                assert(records[k] == rest[k - 1]);
            }
        }
    }
}

/// Of records that all meet the cutoff, all are kept.
proof fn lemma_meeting_all(records: Seq<Record>, cutoff: nat)
    requires
        forall|k: int| 0 <= k < records.len() ==> meets(#[trigger] records[k], cutoff),
    ensures
        meeting(records, cutoff) == records,
    decreases records.len(),
{
    if records.len() > 0 {
        lemma_meeting_all(records.drop_last(), cutoff);
    }
}

/// Records that all fall below the cutoff add nothing to those kept.
proof fn lemma_meeting_none(head: Seq<Record>, tail: Seq<Record>, cutoff: nat)
    requires
        forall|k: int| 0 <= k < tail.len() ==> !meets(#[trigger] tail[k], cutoff),
    ensures
        meeting(head + tail, cutoff) == meeting(head, cutoff),
    decreases tail.len(),
{
    if tail.len() > 0 {
        lemma_meeting_none(head, tail.drop_last(), cutoff);
        assert((head + tail).drop_last() =~= head + tail.drop_last());
    }
}

/// On records in rank order, cutting at the first record below the cutoff
/// and keeping the records that meet the cutoff are the same thing: the
/// shown records are exactly those with at least `cutoff` followers, and
/// they stand at the front.
pub proof fn lemma_cut_is_filter(records: Seq<Record>, cutoff: nat)
    requires
        ranked(records),
    ensures
        shown(records, cutoff) == meeting(records, cutoff),
        shown(records, cutoff) == records.take(shown(records, cutoff).len() as int),
        forall|k: int|
            0 <= k < records.len() ==> (meets(#[trigger] records[k], cutoff) <==> k < shown(
                records,
                cutoff,
            ).len()),
{
    lemma_shown_meets(records, cutoff);
    let count = shown_count(records, cutoff) as int;
    let head = records.take(count);
    let tail = records.skip(count);
    assert(records =~= head + tail);
    lemma_meeting_none(head, tail, cutoff);
    lemma_meeting_all(head, cutoff);
}

/// The number of records that a table shows.
pub fn shown_len(records: &Vec<Record>, cutoff: usize) -> (count: usize)
    ensures
        count == shown_count(records@, cutoff as nat),
        count <= records@.len(),
{
    let mut count: usize = 0;
    while count < records.len() && records[count].followers_count() >= cutoff
        invariant
            count <= records@.len(),
            forall|k: int| 0 <= k < count ==> meets(#[trigger] records@[k], cutoff as nat),
        decreases records@.len() - count,
    {
        count = count + 1;
    }
    proof {
        lemma_shown_count_is(records@, cutoff as nat, count as int);
    }
    count
}

/// The number of records that meet the cutoff.
pub fn meeting_len(records: &Vec<Record>, cutoff: usize) -> (count: usize)
    ensures
        count == meeting(records@, cutoff as nat).len(),
        count <= records@.len(),
{
    let mut count: usize = 0;
    let mut i: usize = 0;
    while i < records.len()
        invariant
            i <= records@.len(),
            count <= i,
            count == meeting(records@.take(i as int), cutoff as nat).len(),
        decreases records@.len() - i,
    {
        assert(records@.take(i + 1).drop_last() =~= records@.take(i as int));
        if records[i].followers_count() >= cutoff {
            count = count + 1;
        }
        i = i + 1;
    }
    assert(records@.take(records@.len() as int) =~= records@);
    count
}

} // verus!
