//! Aggregation of the witnesses of one DBC into at most two canonical spends.
use vstd::prelude::*;
use crate::bytes::bytes_eq;
use crate::dbc::{
    lemma_spend_lt_irreflexive, lemma_spend_lt_total, lemma_spend_lt_transitive, same_spend,
    spend_cmp, spend_lt, spend_views, SignedSpend, SpendView,
};

verus! {

/// The most spends kept for one DBC: two distinct witnesses prove a double spend.
pub const MAX_SIGNED_SPENDS: usize = 2;

/// Which spends a search for the least one considers.
pub enum Pick {
    /// Spends of the DBC `d`.
    Id { d: Seq<u8> },
    /// Spends of the DBC `d` in a transaction other than `tx`.
    OtherTx { d: Seq<u8>, tx: Seq<u8> },
    /// Spends of the DBC `d` other than `a`.
    Other { d: Seq<u8>, a: SpendView },
}

pub open spec fn picks(p: Pick, v: SpendView) -> bool {
    match p {
        Pick::Id { d } => v.dbc_id == d,
        Pick::OtherTx { d, tx } => v.dbc_id == d && v.tx_hash != tx,
        Pick::Other { d, a } => v.dbc_id == d && v != a,
    }
}

/// The least spend of `s` in the canonical order among those that `p` picks.
pub open spec fn least(s: Seq<SpendView>, p: Pick) -> Option<SpendView>
    decreases s.len(),
{
    if s.len() == 0 {
        None
    } else {
        let rest = least(s.drop_last(), p);
        let x = s.last();
        if !picks(p, x) {
            rest
        } else {
            match rest {
                None => Some(x),
                Some(m) => if spend_lt(x, m) {
                    Some(x)
                } else {
                    Some(m)
                },
            }
        }
    }
}

/// `m` is an element of `s` that `p` picks and that comes before every other such element.
pub open spec fn is_least(s: Seq<SpendView>, p: Pick, m: SpendView) -> bool {
    &&& s.contains(m)
    &&& picks(p, m)
    &&& forall|x: SpendView| s.contains(x) && picks(p, x) ==> x == m || spend_lt(m, x)
}

/// The aggregate of the witnesses `xs` for the DBC `d`: none if no witness is
/// for `d`; else the least witness, followed by the least witness of another
/// transaction if there is one, or else by the next witness if there is one.
pub open spec fn aggregate(xs: Seq<SpendView>, d: Seq<u8>) -> Seq<SpendView> {
    match least(xs, Pick::Id { d }) {
        None => seq![],
        Some(a) => match least(xs, Pick::OtherTx { d, tx: a.tx_hash }) {
            Some(b) => seq![a, b],
            None => match least(xs, Pick::Other { d, a }) {
                Some(b) => seq![a, b],
                None => seq![a],
            },
        },
    }
}

proof fn lemma_least(s: Seq<SpendView>, p: Pick)
    ensures
        match least(s, p) {
            None => forall|x: SpendView| s.contains(x) ==> !picks(p, x),
            Some(m) => is_least(s, p, m),
        },
    decreases s.len(),
{
    if s.len() > 0 {
        let t = s.drop_last();
        let x = s.last();
        lemma_least(t, p);
        assert(s =~= t.push(x));
        assert forall|y: SpendView| s.contains(y) implies t.contains(y) || y == x by {
            let i = choose|i: int| 0 <= i < s.len() && s[i] == y;
            if i < t.len() {
                assert(t[i] == y);
            }
        }
        assert(s[s.len() - 1] == x);
        assert forall|y: SpendView| t.contains(y) implies s.contains(y) by {
            let i = choose|i: int| 0 <= i < t.len() && t[i] == y;
            assert(s[i] == y);
        }
        if picks(p, x) {
            if let Some(m) = least(t, p) {
                lemma_spend_lt_total(x, m);
                if spend_lt(x, m) {
                    assert forall|y: SpendView| s.contains(y) && picks(p, y) implies y == x
                        || spend_lt(x, y) by {
                        if y != x && y != m {
                            lemma_spend_lt_transitive(x, m, y);
                        }
                    }
                }
            }
        }
    }
}

proof fn lemma_least_in_subset(s: Seq<SpendView>, t: Seq<SpendView>, p: Pick, m: SpendView)
    requires
        is_least(s, p, m),
        t.contains(m),
        forall|x: SpendView| t.contains(x) ==> s.contains(x),
    ensures
        least(t, p) == Some(m),
{
    lemma_least(t, p);
    if let Some(n) = least(t, p) {
        if n != m {
            lemma_spend_lt_transitive(m, n, m);
            lemma_spend_lt_irreflexive(m);
        }
    }
}

proof fn lemma_none_in_subset(s: Seq<SpendView>, t: Seq<SpendView>, p: Pick)
    requires
        least(s, p) is None,
        forall|x: SpendView| t.contains(x) ==> s.contains(x),
    ensures
        least(t, p) is None,
{
    lemma_least(s, p);
    lemma_least(t, p);
}

proof fn lemma_least_same_members(s: Seq<SpendView>, t: Seq<SpendView>, p: Pick)
    requires
        forall|x: SpendView| t.contains(x) <==> s.contains(x),
    ensures
        least(t, p) == least(s, p),
{
    lemma_least(s, p);
    match least(s, p) {
        Some(m) => lemma_least_in_subset(s, t, p, m),
        None => lemma_none_in_subset(s, t, p),
    }
}

/// Every spend of the aggregate is one of the witnesses and is for the DBC `d`,
/// and there are at most two of them.
pub proof fn lemma_aggregate_bounded(xs: Seq<SpendView>, d: Seq<u8>)
    ensures
        aggregate(xs, d).len() <= MAX_SIGNED_SPENDS,
        forall|i: int|
            0 <= i < aggregate(xs, d).len() ==> xs.contains(#[trigger] aggregate(xs, d)[i])
                && aggregate(xs, d)[i].dbc_id == d,
{
    let a = least(xs, Pick::Id { d });
    lemma_least(xs, Pick::Id { d });
    if let Some(a) = a {
        lemma_least(xs, Pick::OtherTx { d, tx: a.tx_hash });
        lemma_least(xs, Pick::Other { d, a });
    }
}

/// A witness for the DBC `d` leaves the aggregate for `d` not empty.
pub proof fn lemma_aggregate_nonempty(xs: Seq<SpendView>, d: Seq<u8>)
    requires
        exists|i: int| 0 <= i < xs.len() && (#[trigger] xs[i]).dbc_id == d,
    ensures
        aggregate(xs, d).len() > 0,
{
    let i = choose|i: int| 0 <= i < xs.len() && (#[trigger] xs[i]).dbc_id == d;
    lemma_least(xs, Pick::Id { d });
    assert(xs.contains(xs[i]));
}

/// Aggregating an aggregate again changes nothing.
pub proof fn lemma_aggregate_idempotent(xs: Seq<SpendView>, d: Seq<u8>)
    ensures
        aggregate(aggregate(xs, d), d) == aggregate(xs, d),
{
    let r = aggregate(xs, d);
    lemma_aggregate_bounded(xs, d);
    assert forall|x: SpendView| r.contains(x) implies xs.contains(x) by {
        let i = choose|i: int| 0 <= i < r.len() && r[i] == x;
        assert(xs.contains(r[i]));
    }
    lemma_least(xs, Pick::Id { d });
    match least(xs, Pick::Id { d }) {
        None => {
            assert(r =~= seq![]);
            lemma_none_in_subset(xs, r, Pick::Id { d });
        },
        Some(a) => {
            assert(r[0] == a);
            lemma_least_in_subset(xs, r, Pick::Id { d }, a);
            let pick_other_tx = Pick::OtherTx { d, tx: a.tx_hash };
            let pick_other = Pick::Other { d, a };
            lemma_least(xs, pick_other_tx);
            lemma_least(xs, pick_other);
            match least(xs, pick_other_tx) {
                Some(b) => {
                    assert(r[1] == b);
                    lemma_least_in_subset(xs, r, pick_other_tx, b);
                },
                None => {
                    lemma_none_in_subset(xs, r, pick_other_tx);
                    match least(xs, pick_other) {
                        Some(b) => {
                            assert(r[1] == b);
                            lemma_least_in_subset(xs, r, pick_other, b);
                        },
                        None => {
                            lemma_none_in_subset(xs, r, pick_other);
                        },
                    }
                },
            }
        },
    }
}

/// The aggregate depends only on which witnesses are given, not on their order
/// or their repetitions.
pub proof fn lemma_aggregate_same_members(xs: Seq<SpendView>, ys: Seq<SpendView>, d: Seq<u8>)
    requires
        forall|x: SpendView| xs.contains(x) <==> ys.contains(x),
    ensures
        aggregate(xs, d) == aggregate(ys, d),
{
    lemma_least_same_members(xs, ys, Pick::Id { d });
    if let Some(a) = least(xs, Pick::Id { d }) {
        lemma_least_same_members(xs, ys, Pick::OtherTx { d, tx: a.tx_hash });
        lemma_least_same_members(xs, ys, Pick::Other { d, a });
    }
}

/// The aggregate of a permutation of the witnesses is the aggregate of the witnesses.
pub proof fn lemma_aggregate_permutation(xs: Seq<SpendView>, ys: Seq<SpendView>, d: Seq<u8>)
    requires
        xs.to_multiset() == ys.to_multiset(),
    ensures
        aggregate(xs, d) == aggregate(ys, d),
{
    assert forall|x: SpendView| xs.contains(x) <==> ys.contains(x) by {
        xs.to_multiset_ensures();
        ys.to_multiset_ensures();
        assert(xs.contains(x) <==> xs.to_multiset().count(x) > 0);
        assert(ys.contains(x) <==> ys.to_multiset().count(x) > 0);
    }
    lemma_aggregate_same_members(xs, ys, d);
}

/// The search that `least_index` runs.
pub open spec fn pick_for(v: Seq<SpendView>, d: Seq<u8>, first: Option<usize>, other_tx: bool) -> Pick {
    match first {
        None => Pick::Id { d },
        Some(k) => if other_tx {
            Pick::OtherTx { d, tx: v[k as int].tx_hash }
        } else {
            Pick::Other { d, a: v[k as int] }
        },
    }
}

pub open spec fn view_at(v: Seq<SpendView>, k: Option<usize>) -> Option<SpendView> {
    match k {
        None => None,
        Some(k) => Some(v[k as int]),
    }
}

/// The position of the least spend that the search picks.
fn least_index(spends: &Vec<SignedSpend>, d: &Vec<u8>, first: Option<usize>, other_tx: bool) -> (r:
    Option<usize>)
    requires
        first matches Some(k) ==> k < spends@.len(),
    ensures
        view_at(spend_views(spends@), r) == least(
            spend_views(spends@),
            pick_for(spend_views(spends@), d@, first, other_tx),
        ),
        r matches Some(k) ==> k < spends@.len(),
{
    let ghost v = spend_views(spends@);
    let ghost p = pick_for(v, d@, first, other_tx);
    let mut best: Option<usize> = None;
    let mut i: usize = 0;
    assert(v.take(0) =~= seq![]);
    while i < spends.len()
        invariant
            v == spend_views(spends@),
            p == pick_for(v, d@, first, other_tx),
            first matches Some(k) ==> k < spends@.len(),
            i <= spends@.len(),
            best matches Some(k) ==> k < i,
            view_at(v, best) == least(v.take(i as int), p),
        decreases spends@.len() - i,
    {
        let s = &spends[i];
        let wanted = if !bytes_eq(s.dbc_id.as_slice(), d.as_slice()) {
            false
        } else {
            match first {
                None => true,
                Some(k) => if other_tx {
                    !bytes_eq(s.spent_tx_hash.as_slice(), spends[k].spent_tx_hash.as_slice())
                } else {
                    !same_spend(s, &spends[k])
                },
            }
        };
        assert(v.take(i + 1).drop_last() =~= v.take(i as int));
        assert(v.take(i + 1).last() == v[i as int]);
        assert(wanted == picks(p, v[i as int]));
        if wanted {
            match best {
                None => {
                    best = Some(i);
                },
                Some(b) => {
                    if spend_cmp(s, &spends[b]) < 0 {
                        best = Some(i);
                    }
                },
            }
        }
        i = i + 1;
    }
    assert(v.take(i as int) =~= v);
    best
}

/// Combines the witnesses of the DBC `dbc_id` into its canonical aggregate.
/// Witnesses of other DBCs are left out.
pub fn aggregate_spends(spends: Vec<SignedSpend>, dbc_id: &Vec<u8>) -> (r: Vec<SignedSpend>)
    ensures
        spend_views(r@) == aggregate(spend_views(spends@), dbc_id@),
        r@.len() <= MAX_SIGNED_SPENDS,
{
    let ghost v = spend_views(spends@);
    let ghost d = dbc_id@;
    proof {
        lemma_aggregate_bounded(v, d);
    }
    let first = least_index(&spends, dbc_id, None, false);
    let k = match first {
        None => {
            let r: Vec<SignedSpend> = Vec::new();
            assert(spend_views(r@) =~= aggregate(v, d));
            return r;
        },
        Some(k) => k,
    };
    proof {
        lemma_least(v, Pick::Id { d });
        lemma_least(v, Pick::OtherTx { d, tx: v[k as int].tx_hash });
        lemma_least(v, Pick::Other { d, a: v[k as int] });
    }
    let second = match least_index(&spends, dbc_id, Some(k), true) {
        Some(j) => Some(j),
        None => least_index(&spends, dbc_id, Some(k), false),
    };
    let mut spends = spends;
    let mut r: Vec<SignedSpend> = Vec::new();
    match second {
        None => {
            let a = spends.swap_remove(k);
            r.push(a);
        },
        Some(j) => {
            assert(j != k);
            if j > k {
                let b = spends.remove(j);
                let a = spends.remove(k);
                r.push(a);
                r.push(b);
            } else {
                let a = spends.remove(k);
                let b = spends.remove(j);
                r.push(a);
                r.push(b);
            }
        },
    }
    assert(spend_views(r@) =~= aggregate(v, d));
    r
}

} // verus!
