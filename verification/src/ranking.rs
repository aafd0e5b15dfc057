//! The order of records within a day: most followers first, lower user id
//! first among equals.
use crate::record::Record;
use vstd::prelude::*;

verus! {

/// Whether a record with the rank of `a` may stand before one with the rank
/// of `b`: it has more followers, or as many and no higher a user id.
pub open spec fn ranks_before(a: Record, b: Record) -> bool {
    a.followers() > b.followers() || (a.followers() == b.followers() && a.account() <= b.account())
}

/// Whether `s` is in rank order.
pub open spec fn ranked(s: Seq<Record>) -> bool {
    forall|i: int, j: int| 0 <= i < j < s.len() ==> ranks_before(#[trigger] s[i], #[trigger] s[j])
}

/// Whether a record has the given follower count and user id.
pub open spec fn has_rank(record: Record, followers: nat, account: nat) -> bool {
    record.followers() == followers && record.account() == account
}

/// The records of `s` with the given follower count and user id, in the
/// order in which they stand in `s`.
pub open spec fn with_rank(s: Seq<Record>, followers: nat, account: nat) -> Seq<Record>
    decreases s.len(),
{
    if s.len() == 0 {
        Seq::empty()
    } else {
        let rest = with_rank(s.drop_last(), followers, account);
        if has_rank(s.last(), followers, account) {
            rest.push(s.last())
        } else {
            rest
        }
    }
}

/// Whether `out` is `s` put in rank order: it is in rank order and, for
/// every rank, holds the same records as `s` in the same order. Records that
/// tie in both follower count and user id thus keep their places relative to
/// each other, and nothing is lost or added.
pub open spec fn is_ranking_of(out: Seq<Record>, s: Seq<Record>) -> bool {
    &&& out.len() == s.len()
    &&& ranked(out)
    &&& forall|followers: nat, account: nat| #[trigger]
        with_rank(out, followers, account) == with_rank(s, followers, account)
}

/// The records of a given rank in two sequences joined are those of the
/// first followed by those of the second.
pub proof fn lemma_with_rank_concat(a: Seq<Record>, b: Seq<Record>, followers: nat, account: nat)
    ensures
        with_rank(a + b, followers, account) == with_rank(a, followers, account) + with_rank(
            b,
            followers,
            account,
        ),
    decreases b.len(),
{
    if b.len() == 0 {
        assert(with_rank(a, followers, account) + Seq::<Record>::empty() =~= with_rank(
            a,
            followers,
            account,
        ));
    } else {
        lemma_with_rank_concat(a, b.drop_last(), followers, account);
        assert((a + b).drop_last() =~= a + b.drop_last());
    }
}

/// A sequence without a record of a given rank has none to show for it.
pub proof fn lemma_with_rank_absent(s: Seq<Record>, followers: nat, account: nat)
    requires
        forall|i: int| 0 <= i < s.len() ==> !has_rank(#[trigger] s[i], followers, account),
    ensures
        with_rank(s, followers, account) == Seq::<Record>::empty(),
    decreases s.len(),
{
    if s.len() > 0 {
        lemma_with_rank_absent(s.drop_last(), followers, account);
    }
}

/// A sequence that has records of a given rank to show holds one.
pub proof fn lemma_with_rank_present(s: Seq<Record>, followers: nat, account: nat) -> (i: int)
    requires
        with_rank(s, followers, account).len() > 0,
    ensures
        0 <= i < s.len(),
        has_rank(s[i], followers, account),
{
    if forall|i: int| 0 <= i < s.len() ==> !has_rank(#[trigger] s[i], followers, account) {
        lemma_with_rank_absent(s, followers, account);
    }
    choose|i: int| 0 <= i < s.len() && has_rank(#[trigger] s[i], followers, account)
}

/// The records of a given rank are the first record, where it has that
/// rank, and then those among the rest.
pub proof fn lemma_with_rank_first(s: Seq<Record>, followers: nat, account: nat)
    requires
        s.len() > 0,
    ensures
        with_rank(s, followers, account) == if has_rank(s[0], followers, account) {
            seq![s[0]] + with_rank(s.drop_first(), followers, account)
        } else {
            with_rank(s.drop_first(), followers, account)
        },
{
    let one = seq![s[0]];
    assert(s =~= one + s.drop_first());
    lemma_with_rank_concat(one, s.drop_first(), followers, account);
    assert(with_rank(one.drop_last(), followers, account) =~= Seq::<Record>::empty());
    if !has_rank(s[0], followers, account) {
        assert(Seq::<Record>::empty() + with_rank(s.drop_first(), followers, account)
            =~= with_rank(s.drop_first(), followers, account));
    }
}

/// Two sequences in rank order that hold, rank by rank, the same records in
/// the same order are one and the same.
pub proof fn lemma_ranked_alike(a: Seq<Record>, b: Seq<Record>)
    requires
        ranked(a),
        ranked(b),
        a.len() == b.len(),
        forall|followers: nat, account: nat| #[trigger]
            with_rank(a, followers, account) == with_rank(b, followers, account),
    ensures
        a == b,
    decreases a.len(),
{
    if a.len() > 0 {
        let x = a[0];
        let y = b[0];
        lemma_with_rank_first(a, x.followers(), x.account());
        lemma_with_rank_first(b, y.followers(), y.account());
        assert(with_rank(a, x.followers(), x.account()) == with_rank(
            b,
            x.followers(),
            x.account(),
        ));
        assert(with_rank(a, y.followers(), y.account()) == with_rank(
            b,
            y.followers(),
            y.account(),
        ));
        lemma_with_rank_present(b, x.followers(), x.account());
        lemma_with_rank_present(a, y.followers(), y.account());
        lemma_with_rank_first(b, x.followers(), x.account());
        assert(with_rank(a, x.followers(), x.account())[0] == x);
        let ta = a.drop_first();
        let tb = b.drop_first();
        assert forall|followers: nat, account: nat| #[trigger]
            with_rank(ta, followers, account) == with_rank(tb, followers, account) by {
            lemma_with_rank_first(a, followers, account);
            lemma_with_rank_first(b, followers, account);
            if has_rank(x, followers, account) {
                let rest = with_rank(ta, followers, account);
                assert((seq![x] + rest).drop_first() =~= rest);
            }
        }
        lemma_ranked_alike(ta, tb);
        assert(a =~= seq![x] + ta);
    }
}

/// A sequence has one ranking and no other.
pub proof fn lemma_ranking_unique(a: Seq<Record>, b: Seq<Record>, s: Seq<Record>)
    requires
        is_ranking_of(a, s),
        is_ranking_of(b, s),
    ensures
        a == b,
{
    lemma_ranked_alike(a, b);
}

/// Whether `a` may stand before `b`.
pub fn stands_before(a: &Record, b: &Record) -> (r: bool)
    ensures
        r == ranks_before(*a, *b),
{
    let left = a.followers_count();
    let right = b.followers_count();
    left > right || (left == right && a.user_id() <= b.user_id())
}

/// The records of `v` from last to first.
fn reversed(v: Vec<Record>) -> (r: Vec<Record>)
    ensures
        r@.len() == v@.len(),
        forall|t: int| 0 <= t < r@.len() ==> #[trigger] r@[t] == v@[v@.len() - 1 - t],
{
    let ghost all = v@;
    let mut v = v;
    let mut r: Vec<Record> = Vec::new();
    while v.len() > 0
        invariant
            v@.len() + r@.len() == all.len(),
            forall|t: int| 0 <= t < v@.len() ==> #[trigger] v@[t] == all[t],
            forall|t: int| 0 <= t < r@.len() ==> #[trigger] r@[t] == all[all.len() - 1 - t],
        decreases v@.len(),
    {
        let record = v.pop().unwrap();
        r.push(record);
    }
    r
}

/// Joins two ranked sequences into one. Where a record of `a` and one of
/// `b` tie, that of `a` comes first.
fn merge(a: Vec<Record>, b: Vec<Record>) -> (out: Vec<Record>)
    requires
        ranked(a@),
        ranked(b@),
    ensures
        out@.len() == a@.len() + b@.len(),
        ranked(out@),
        forall|followers: nat, account: nat| #[trigger]
            with_rank(out@, followers, account) == with_rank(a@, followers, account) + with_rank(
                b@,
                followers,
                account,
            ),
{
    let ghost left = a@;
    let ghost right = b@;
    let mut ra = reversed(a);
    let mut rb = reversed(b);
    let mut out: Vec<Record> = Vec::new();
    while ra.len() > 0 || rb.len() > 0
        invariant
            ranked(left),
            ranked(right),
            ra@.len() <= left.len(),
            rb@.len() <= right.len(),
            forall|t: int| 0 <= t < ra@.len() ==> #[trigger] ra@[t] == left[left.len() - 1 - t],
            forall|t: int| 0 <= t < rb@.len() ==> #[trigger] rb@[t] == right[right.len() - 1 - t],
            out@.len() == (left.len() - ra@.len()) + (right.len() - rb@.len()),
            ranked(out@),
            forall|y: int|
                0 <= y < out@.len() && ra@.len() > 0 ==> ranks_before(
                    #[trigger] out@[y],
                    left[left.len() - ra@.len()],
                ),
            forall|y: int|
                0 <= y < out@.len() && rb@.len() > 0 ==> ranks_before(
                    #[trigger] out@[y],
                    right[right.len() - rb@.len()],
                ),
            forall|y: int|
                0 <= y < right.len() - rb@.len() && ra@.len() > 0 ==> !ranks_before(
                    left[left.len() - ra@.len()],
                    #[trigger] right[y],
                ),
            forall|followers: nat, account: nat| #[trigger]
                with_rank(out@, followers, account) == with_rank(
                    left.take(left.len() - ra@.len()),
                    followers,
                    account,
                ) + with_rank(right.take(right.len() - rb@.len()), followers, account),
        decreases ra@.len() + rb@.len(),
    {
        let ghost i = left.len() - ra@.len();
        let ghost j = right.len() - rb@.len();
        let ghost before = out@;
        let from_left = if ra.len() == 0 {
            false
        } else if rb.len() == 0 {
            true
        } else {
            stands_before(&ra[ra.len() - 1], &rb[rb.len() - 1])
        };
        if from_left {
            let record = ra.pop().unwrap();
            out.push(record);
            proof {
                assert forall|followers: nat, account: nat| #[trigger]
                    with_rank(out@, followers, account) == with_rank(
                        left.take(left.len() - ra@.len()),
                        followers,
                        account,
                    ) + with_rank(right.take(right.len() - rb@.len()), followers, account) by {
                    let wl = with_rank(left.take(i), followers, account);
                    let wr = with_rank(right.take(j), followers, account);
                    assert(out@.drop_last() =~= before);
                    assert(with_rank(before, followers, account) == wl + wr);
                    assert(left.take(i + 1).drop_last() =~= left.take(i));
                    if has_rank(record, followers, account) {
                        lemma_with_rank_absent(right.take(j), followers, account);
                    }
                }
            }
        } else {
            let record = rb.pop().unwrap();
            out.push(record);
            proof {
                assert forall|followers: nat, account: nat| #[trigger]
                    with_rank(out@, followers, account) == with_rank(
                        left.take(left.len() - ra@.len()),
                        followers,
                        account,
                    ) + with_rank(right.take(right.len() - rb@.len()), followers, account) by {
                    let wl = with_rank(left.take(i), followers, account);
                    let wr = with_rank(right.take(j), followers, account);
                    assert(out@.drop_last() =~= before);
                    assert(with_rank(before, followers, account) == wl + wr);
                    assert(right.take(j + 1).drop_last() =~= right.take(j));
                }
            }
        }
    }
    assert(left.take(left.len() as int) =~= left);
    assert(right.take(right.len() as int) =~= right);
    out
}

/// Puts records in rank order: most followers first, lower user id first
/// among equals, and order of arrival among records that tie in both.
pub fn rank(records: Vec<Record>) -> (out: Vec<Record>)
    ensures
        is_ranking_of(out@, records@),
    decreases records@.len(),
{
    let n = records.len();
    if n <= 1 {
        return records;
    }
    let ghost all = records@;
    let mut records = records;
    let back = records.split_off(n / 2);
    let ghost front_in = records@;
    let ghost back_in = back@;
    let front = rank(records);
    let back = rank(back);
    let out = merge(front, back);
    proof {
        assert(all =~= front_in + back_in);
        assert forall|followers: nat, account: nat| #[trigger]
            with_rank(out@, followers, account) == with_rank(all, followers, account) by {
            lemma_with_rank_concat(front_in, back_in, followers, account);
            assert(with_rank(front@, followers, account) == with_rank(
                front_in,
                followers,
                account,
            ));
        }
    }
    out
}

/// A ranking runs from most followers to fewest and, among records with as
/// many followers, from the lowest user id up.
pub proof fn lemma_ranking_order(out: Seq<Record>, s: Seq<Record>, i: int, j: int)
    requires
        is_ranking_of(out, s),
        0 <= i <= j < out.len(),
    ensures
        out[i].followers() >= out[j].followers(),
        out[i].followers() == out[j].followers() ==> out[i].account() <= out[j].account(),
{
}

} // verus!
