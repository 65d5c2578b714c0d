//! Top-N reduction of aggregated groups, with an "Others" bucket for the rest.

use vstd::prelude::*;
use vstd::string::*;
use crate::aggregate::{Group, GroupView, groups_view};
use crate::error::DataError;
use crate::model::{Cell, CellView};

verus! {

/// Summary `a` ranks strictly above summary `b`; a missing summary ranks lowest.
pub open spec fn ranks_above(a: Option<int>, b: Option<int>) -> bool {
    match (a, b) {
        (Some(x), Some(y)) => x > y,
        (Some(_), None) => true,
        _ => false,
    }
}

/// Where `x` goes in a descending ranking `t`: after every entry it does not rank above.
pub open spec fn rank_pos(t: Seq<GroupView>, x: GroupView) -> int
    decreases t.len(),
{
    if t.len() == 0 {
        0
    } else if ranks_above(x.value, t[0].value) {
        0
    } else {
        1 + rank_pos(t.drop_first(), x)
    }
}

/// The groups by descending summary; ties keep their input order.
pub open spec fn ranked(s: Seq<GroupView>) -> Seq<GroupView>
    decreases s.len(),
{
    if s.len() == 0 {
        Seq::empty()
    } else {
        let t = ranked(s.drop_last());
        t.insert(rank_pos(t, s.last()), s.last())
    }
}

/// The sum of the summaries (a missing summary counts as zero).
pub open spec fn value_total(s: Seq<GroupView>) -> int
    decreases s.len(),
{
    if s.len() == 0 {
        0
    } else {
        value_total(s.drop_last()) + match s.last().value {
            Some(v) => v,
            None => 0,
        }
    }
}

pub open spec fn others_label() -> CellView {
    CellView::Text("Others"@)
}

/// The outcome of a Top-N reduction of `s` to `n` groups.
pub open spec fn top_n_outcome(s: Seq<GroupView>, n: nat, include_others: bool) -> (Seq<GroupView>, bool) {
    if s.len() <= n {
        (s, false)
    } else if include_others {
        (
            ranked(s).take(n as int).push(
                GroupView { label: others_label(), value: Some(value_total(ranked(s).skip(n as int))) },
            ),
            true,
        )
    } else {
        (ranked(s).take(n as int), false)
    }
}

impl Group {
    pub fn duplicate(&self) -> (r: Group)
        ensures
            r@ == self@,
    {
        Group { label: self.label.duplicate(), value: self.value }
    }
}

proof fn lemma_rank_pos(t: Seq<GroupView>, x: GroupView, k: int)
    requires
        0 <= k <= t.len(),
        forall|m: int| 0 <= m < k ==> !ranks_above(x.value, #[trigger] t[m].value),
        k < t.len() ==> ranks_above(x.value, t[k].value),
    ensures
        rank_pos(t, x) == k,
    decreases k,
{
    if k > 0 {
        assert(!ranks_above(x.value, t[0].value));
        assert forall|m: int| 0 <= m < k - 1 implies !ranks_above(x.value, #[trigger] t.drop_first()[m].value) by {
            assert(t.drop_first()[m] == t[m + 1]);
        }
        lemma_rank_pos(t.drop_first(), x, k - 1);
    }
}

fn ranks_above_exec(a: Option<i64>, b: Option<i64>) -> (r: bool)
    ensures
        r == ranks_above(
            match a {
                Some(v) => Some(v as int),
                None => None,
            },
            match b {
                Some(v) => Some(v as int),
                None => None,
            },
        ),
{
    match (a, b) {
        (Some(x), Some(y)) => x > y,
        (Some(_), None) => true,
        _ => false,
    }
}

/// The groups by descending summary, ties in input order.
pub fn rank_groups(groups: &Vec<Group>) -> (r: Vec<Group>)
    ensures
        groups_view(r@) == ranked(groups_view(groups@)),
        r@.len() == groups@.len(),
{
    let ghost w = groups_view(groups@);
    let mut r: Vec<Group> = Vec::new();
    let mut i: usize = 0;
    while i < groups.len()
        invariant
            i <= groups@.len(),
            w == groups_view(groups@),
            r@.len() == i,
            groups_view(r@) == ranked(w.take(i as int)),
        decreases groups@.len() - i,
    {
        assert(w.take(i + 1).drop_last() =~= w.take(i as int));
        let x = groups[i].duplicate();
        let mut k: usize = 0;
        while k < r.len() && !ranks_above_exec(x.value, r[k].value)
            invariant
                k <= r@.len(),
                forall|m: int| 0 <= m < k ==> !ranks_above(x@.value, #[trigger] r@[m]@.value),
            decreases r@.len() - k,
        {
            k = k + 1;
        }
        proof {
            assert forall|m: int| 0 <= m < k implies !ranks_above(x@.value, #[trigger] groups_view(r@)[m].value) by {
                assert(groups_view(r@)[m] == r@[m]@);
            }
            lemma_rank_pos(groups_view(r@), x@, k as int);
        }
        let ghost before = r@;
        r.insert(k, x);
        assert(groups_view(r@) =~= groups_view(before).insert(k as int, w[i as int]));
        i = i + 1;
    }
    assert(w.take(groups@.len() as int) =~= w);
    r
}

/// Reduces aggregated groups to the `n` with the largest summaries.
///
/// With at most `n` groups nothing changes. Otherwise the groups are ranked by descending
/// summary (ties keep their order), the first `n` are kept and, when `include_others` is
/// set, one more group labelled "Others" carries the sum of the rest. The flag tells
/// whether that group was added. Fails only when that sum does not fit in 64 bits.
pub fn apply_top_n_with_others(groups: &Vec<Group>, n: usize, include_others: bool) -> (r: Result<
    (Vec<Group>, bool),
    DataError,
>)
    ensures
        ({
            let o = top_n_outcome(groups_view(groups@), n as nat, include_others);
            match r {
                Ok((g, flag)) => groups_view(g@) == o.0 && flag == o.1,
                Err(_) => groups@.len() > n && include_others && !(i64::MIN <= value_total(
                    ranked(groups_view(groups@)).skip(n as int),
                ) <= i64::MAX),
            }
        }),
        r is Ok <==> (groups@.len() <= n || !include_others || i64::MIN <= value_total(
            ranked(groups_view(groups@)).skip(n as int),
        ) <= i64::MAX),
{
    let ghost w = groups_view(groups@);
    if groups.len() <= n {
        let mut same: Vec<Group> = Vec::new();
        let mut i: usize = 0;
        while i < groups.len()
            invariant
                i <= groups@.len(),
                same@.len() == i,
                forall|m: int| 0 <= m < i ==> #[trigger] same@[m]@ == groups@[m]@,
            decreases groups@.len() - i,
        {
            same.push(groups[i].duplicate());
            i = i + 1;
        }
        assert(groups_view(same@) =~= w);
        return Ok((same, false));
    }
    let sorted = rank_groups(groups);
    let ghost sv = groups_view(sorted@);
    let mut top: Vec<Group> = Vec::new();
    let mut i: usize = 0;
    while i < n
        invariant
            n < sorted@.len(),
            i <= n,
            sv == groups_view(sorted@),
            top@.len() == i,
            forall|m: int| 0 <= m < i ==> #[trigger] top@[m]@ == sv[m],
        decreases n - i,
    {
        top.push(sorted[i].duplicate());
        i = i + 1;
    }
    assert(groups_view(top@) =~= sv.take(n as int));
    if !include_others {
        return Ok((top, false));
    }
    let mut rest: i128 = 0;
    let mut k: usize = n;
    let ghost tail = sv.skip(n as int);
    while k < sorted.len()
        invariant
            n <= k <= sorted@.len(),
            sv == groups_view(sorted@),
            tail == sv.skip(n as int),
            rest == value_total(tail.take(k - n)),
            -((k - n) as int) * 0x8000_0000_0000_0000 <= rest <= ((k - n) as int) * 0x8000_0000_0000_0000,
        decreases sorted@.len() - k,
    {
        assert(tail.take(k + 1 - n).drop_last() =~= tail.take(k - n));
        assert(tail.take(k + 1 - n).last() == sorted@[k as int]@);
        assert(k - n < 0x1_0000_0000_0000_0000);
        match sorted[k].value {
            Some(v) => {
                rest = rest + v as i128;
            },
            None => {},
        }
        k = k + 1;
    }
    assert(tail.take(sorted@.len() - n) =~= tail);
    if rest < -0x8000_0000_0000_0000 || rest > 0x7fff_ffff_ffff_ffff {
        proof {
            reveal_strlit("aggregated value exceeds the 64-bit range");
        }
        return Err(DataError::ParseError(String::from_str("aggregated value exceeds the 64-bit range")));
    }
    proof {
        reveal_strlit("Others");
    }
    let others = Group { label: Cell::Text(String::from_str("Others")), value: Some(rest as i64) };
    let ghost before = top@;
    top.push(others);
    assert(groups_view(top@) =~= groups_view(before).push(
        GroupView { label: others_label(), value: Some(value_total(tail)) },
    ));
    Ok((top, true))
}

pub open spec fn value_of(g: GroupView) -> int {
    match g.value {
        Some(v) => v,
        None => 0,
    }
}

proof fn lemma_total_concat(a: Seq<GroupView>, b: Seq<GroupView>)
    ensures
        value_total(a + b) == value_total(a) + value_total(b),
    decreases b.len(),
{
    if b.len() > 0 {
        assert((a + b).drop_last() =~= a + b.drop_last());
        lemma_total_concat(a, b.drop_last());
    } else {
        assert(a + b =~= a);
    }
}

/// Ranking keeps the number of groups.
pub proof fn lemma_ranked_len(s: Seq<GroupView>)
    ensures
        ranked(s).len() == s.len(),
{
    lemma_ranked_total(s);
}

proof fn lemma_ranked_total(s: Seq<GroupView>)
    ensures
        value_total(ranked(s)) == value_total(s),
        ranked(s).len() == s.len(),
    decreases s.len(),
{
    if s.len() > 0 {
        let t = ranked(s.drop_last());
        lemma_ranked_total(s.drop_last());
        let k = rank_pos(t, s.last());
        lemma_rank_pos_bound(t, s.last());
        let x = s.last();
        assert(t.insert(k, x) =~= t.take(k) + seq![x] + t.skip(k));
        assert(t =~= t.take(k) + t.skip(k));
        lemma_total_concat(t.take(k) + seq![x], t.skip(k));
        lemma_total_concat(t.take(k), seq![x]);
        lemma_total_concat(t.take(k), t.skip(k));
        assert(seq![x].drop_last() =~= Seq::<GroupView>::empty());
        assert(value_total(seq![x]) == value_of(x)) by {
            assert(seq![x].len() == 1);
            assert(seq![x].last() == x);
            assert(value_total(seq![x].drop_last()) == 0);
        }
        assert(value_total(s) == value_total(s.drop_last()) + value_of(x));
        assert(value_total(t.insert(k, x)) == value_total(t) + value_of(x));
    }
}

proof fn lemma_rank_pos_bound(t: Seq<GroupView>, x: GroupView)
    ensures
        0 <= rank_pos(t, x) <= t.len(),
    decreases t.len(),
{
    if t.len() > 0 {
        lemma_rank_pos_bound(t.drop_first(), x);
    }
}

/// Top-N with Others conserves the total: the summaries of the kept groups plus the
/// "Others" bucket add up to the sum over all groups.
pub proof fn top_n_conserves_total(groups: Seq<GroupView>, n: nat)
    ensures
        value_total(top_n_outcome(groups, n, true).0) == value_total(groups),
{
    if groups.len() > n {
        let t = ranked(groups);
        lemma_ranked_total(groups);
        let out = top_n_outcome(groups, n, true).0;
        assert(out.drop_last() =~= t.take(n as int));
        assert(t =~= t.take(n as int) + t.skip(n as int));
        lemma_total_concat(t.take(n as int), t.skip(n as int));
    }
}

} // verus!
