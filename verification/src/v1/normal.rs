//! The normal form of a sequence of assets: sorted, with amounts of one
//! fungible merged and non-fungible instances listed once.

use crate::rel::Rel;
use crate::v1::multiasset::{
    any_contains, lemma_asset_id_order, lemma_asset_order, FungibilityView, MultiAssetView,
};
use vstd::prelude::*;

verus! {

/// The sum of two amounts, held at the greatest amount where it would pass
/// it.
pub open spec fn saturating_sum(a: u128, b: u128) -> u128 {
    if a + b > u128::MAX {
        u128::MAX
    } else {
        (a + b) as u128
    }
}

/// No asset comes after a later one in the total order.
pub open spec fn sorted(s: Seq<MultiAssetView>) -> bool {
    forall|i: int, j: int| #![trigger s[i], s[j]] 0 <= i < j < s.len() ==> s[i].rel(s[j]).at_most()
}

/// Every asset comes before every later one in the total order.
pub open spec fn ascending(s: Seq<MultiAssetView>) -> bool {
    forall|i: int, j: int|
        #![trigger s[i], s[j]]
        0 <= i < j < s.len() ==> s[i].rel(s[j]) == Rel::Less
}

/// No two fungible assets have one identifier.
pub open spec fn fungible_ids_distinct(s: Seq<MultiAssetView>) -> bool {
    forall|i: int, j: int|
        #![trigger s[i], s[j]]
        0 <= i < j < s.len() && s[i].is_fungible() && s[j].is_fungible() ==> s[i].id != s[j].id
}

/// The normal form: strictly ascending, each fungible listed once.
pub open spec fn is_normalized(s: Seq<MultiAssetView>) -> bool {
    ascending(s) && fungible_ids_distinct(s)
}

/// What a collection keeps while assets are pushed to it: sorted, each
/// fungible listed once. Only a non-fungible instance can occur twice.
pub open spec fn is_canonical(s: Seq<MultiAssetView>) -> bool {
    sorted(s) && fungible_ids_distinct(s)
}

/// Whether `b` may directly follow `a` in the normal form: it comes later
/// in the total order and is not a second amount of the same fungible.
pub open spec fn may_follow(a: MultiAssetView, b: MultiAssetView) -> bool {
    a.rel(b) == Rel::Less && !(a.is_fungible() && b.is_fungible() && a.id == b.id)
}

/// Every asset may directly follow the one before it.
pub open spec fn adjacent_in_order(s: Seq<MultiAssetView>) -> bool {
    forall|i: int| 0 <= i < s.len() - 1 ==> may_follow(#[trigger] s[i], s[i + 1])
}

/// Where `a` goes into `s`: behind the last asset that does not come after
/// it.
pub open spec fn insert_index(s: Seq<MultiAssetView>, a: MultiAssetView) -> int
    decreases s.len(),
{
    if s.len() > 0 && s.last().rel(a) == Rel::Greater {
        insert_index(s.drop_last(), a)
    } else {
        s.len() as int
    }
}

/// `s` with `a` put in at its place.
pub open spec fn insert(s: Seq<MultiAssetView>, a: MultiAssetView) -> Seq<MultiAssetView> {
    s.insert(insert_index(s, a), a)
}

/// The assets of `s` sorted: each put in, in turn, at its place among
/// those before it.
pub open spec fn sort(s: Seq<MultiAssetView>) -> Seq<MultiAssetView>
    decreases s.len(),
{
    if s.len() == 0 {
        s
    } else {
        insert(sort(s.drop_last()), s.last())
    }
}

/// `m` with `b` taken in at its end: an amount is added, saturating, to an
/// amount of the same fungible that `m` ends with; a non-fungible
/// instance that `m` ends with is not taken twice; any other asset is
/// appended.
pub open spec fn absorb(m: Seq<MultiAssetView>, b: MultiAssetView) -> Seq<MultiAssetView> {
    if m.len() == 0 {
        seq![b]
    } else if m.last().is_fungible() && b.is_fungible() && m.last().id == b.id {
        m.drop_last().push(
            MultiAssetView {
                id: b.id,
                fun: FungibilityView::Fungible(saturating_sum(m.last().amount(), b.amount())),
            },
        )
    } else if !m.last().is_fungible() && m.last() == b {
        m
    } else {
        m.push(b)
    }
}

/// `s` with neighbours merged: the assets of `s` absorbed one by one.
pub open spec fn merged(s: Seq<MultiAssetView>) -> Seq<MultiAssetView>
    decreases s.len(),
{
    if s.len() == 0 {
        s
    } else {
        absorb(merged(s.drop_last()), s.last())
    }
}

/// The normal form of `s`: sorted, then neighbours merged.
pub open spec fn normalize(s: Seq<MultiAssetView>) -> Seq<MultiAssetView> {
    merged(sort(s))
}

/// `insert_index` lies within `s`; all from it on come after `a`, and the
/// asset before it does not.
pub proof fn lemma_insert_index(s: Seq<MultiAssetView>, a: MultiAssetView)
    ensures
        0 <= insert_index(s, a) <= s.len(),
        forall|j: int| insert_index(s, a) <= j < s.len() ==> s[j].rel(a) == Rel::Greater,
        insert_index(s, a) > 0 ==> s[insert_index(s, a) - 1].rel(a).at_most(),
    decreases s.len(),
{
    if s.len() > 0 && s.last().rel(a) == Rel::Greater {
        let front = s.drop_last();
        lemma_insert_index(front, a);
        assert forall|j: int| insert_index(s, a) <= j < s.len() implies s[j].rel(a)
            == Rel::Greater by {
            if j < front.len() {
                assert(s[j] == front[j]);
            }
        }
        if insert_index(s, a) > 0 {
            assert(s[insert_index(s, a) - 1] == front[insert_index(front, a) - 1]);
        }
    }
}

/// Putting an asset into a sorted sequence leaves it sorted.
pub proof fn lemma_insert_sorted(s: Seq<MultiAssetView>, a: MultiAssetView)
    requires
        sorted(s),
    ensures
        sorted(insert(s, a)),
        insert(s, a).len() == s.len() + 1,
        insert(s, a).to_multiset() == s.to_multiset().insert(a),
{
    lemma_insert_index(s, a);
    let at = insert_index(s, a);
    let t = insert(s, a);
    vstd::seq_lib::to_multiset_insert(s, at, a);
    assert forall|i: int, j: int|
        #![trigger t[i], t[j]]
        0 <= i < j < t.len() implies t[i].rel(t[j]).at_most() by {
        if j < at {
        } else if j == at {
            lemma_asset_order(s[i], s[at - 1], a);
        } else if i < at {
        } else if i == at {
            lemma_asset_order(s[j - 1], a, a);
        } else {
        }
    }
}

/// `sort` gives a sorted sequence of the same assets.
pub proof fn lemma_sort(s: Seq<MultiAssetView>)
    ensures
        sorted(sort(s)),
        sort(s).len() == s.len(),
        sort(s).to_multiset() == s.to_multiset(),
    decreases s.len(),
{
    if s.len() > 0 {
        lemma_sort(s.drop_last());
        lemma_insert_sorted(sort(s.drop_last()), s.last());
        vstd::seq_lib::to_multiset_build(s.drop_last(), s.last());
        assert(s.drop_last().push(s.last()) =~= s);
    }
}

/// Sorting leaves a sorted sequence as it is.
pub proof fn lemma_sort_of_sorted(s: Seq<MultiAssetView>)
    requires
        sorted(s),
    ensures
        sort(s) == s,
    decreases s.len(),
{
    if s.len() > 0 {
        let front = s.drop_last();
        lemma_sort_of_sorted(front);
        if front.len() > 0 {
            lemma_asset_order(front.last(), s.last(), s.last());
        }
        assert(front.insert(front.len() as int, s.last()) =~= s);
    }
}

/// An ascending sequence is sorted.
pub proof fn lemma_ascending_sorted(s: Seq<MultiAssetView>)
    requires
        ascending(s),
    ensures
        sorted(s),
{
}

/// Merging the neighbours of a sorted sequence gives the normal form. It
/// ends with an asset of the kind and identifier that the sequence ends
/// with: that very asset, where it is non-fungible.
pub proof fn lemma_merged(s: Seq<MultiAssetView>)
    requires
        sorted(s),
    ensures
        is_normalized(merged(s)),
        merged(s).len() <= s.len(),
        s.len() > 0 ==> merged(s).len() > 0 && merged(s).last().id == s.last().id && merged(
            s,
        ).last().is_fungible() == s.last().is_fungible() && (!s.last().is_fungible() ==> merged(
            s,
        ).last() == s.last()),
    decreases s.len(),
{
    if s.len() > 0 {
        let front = s.drop_last();
        let b = s.last();
        lemma_merged(front);
        let m = merged(front);
        let r = absorb(m, b);
        if m.len() > 0 {
            let a = m.last();
            let e = front.last();
            assert(e == s[s.len() - 2]);
            assert(e.rel(b).at_most());
            lemma_asset_order(e, b, b);
            lemma_asset_id_order(a.id, b.id, b.id);
            if a.is_fungible() && b.is_fungible() && a.id == b.id {
                assert forall|i: int, j: int|
                    #![trigger r[i], r[j]]
                    0 <= i < j < r.len() implies r[i].rel(r[j]) == Rel::Less && (r[i].is_fungible() && r[j].is_fungible() ==> r[i].id
                    != r[j].id) by {
                    if j == r.len() - 1 {
                        assert(m[i].rel(m[m.len() - 1]) == Rel::Less);
                        lemma_asset_id_order(m[i].id, a.id, a.id);
                    } else {
                        assert(r[i] == m[i] && r[j] == m[j]);
                    }
                }
            } else if !a.is_fungible() && a == b {
            } else {
                assert(a.rel(b) == Rel::Less);
                assert forall|i: int, j: int|
                    #![trigger r[i], r[j]]
                    0 <= i < j < r.len() implies r[i].rel(r[j]) == Rel::Less && (r[i].is_fungible() && r[j].is_fungible() ==> r[i].id
                    != r[j].id) by {
                    if j == r.len() - 1 {
                        if i < m.len() - 1 {
                            assert(m[i].rel(m[m.len() - 1]) == Rel::Less);
                            lemma_asset_order(m[i], a, b);
                            lemma_asset_id_order(m[i].id, a.id, b.id);
                        }
                    } else {
                        assert(r[i] == m[i] && r[j] == m[j]);
                    }
                }
            }
        }
    }
}

/// Merging leaves the normal form as it is.
pub proof fn lemma_merged_of_normalized(s: Seq<MultiAssetView>)
    requires
        is_normalized(s),
    ensures
        merged(s) == s,
    decreases s.len(),
{
    if s.len() > 0 {
        let front = s.drop_last();
        lemma_merged_of_normalized(front);
        if front.len() > 0 {
            assert(front.last() == s[s.len() - 2]);
            assert(s[s.len() - 2].rel(s[s.len() - 1]) == Rel::Less);
            lemma_asset_order(front.last(), s.last(), s.last());
        }
        assert(front.push(s.last()) =~= s);
    }
}

/// The normal form of any sequence is normal.
pub proof fn lemma_normalize_is_normalized(s: Seq<MultiAssetView>)
    ensures
        is_normalized(normalize(s)),
        normalize(s).len() <= s.len(),
{
    lemma_sort(s);
    lemma_merged(sort(s));
}

/// A sequence is in normal form exactly when it is its own normal form.
pub proof fn lemma_normalized_iff_fixed(s: Seq<MultiAssetView>)
    ensures
        is_normalized(s) <==> normalize(s) == s,
{
    if is_normalized(s) {
        lemma_ascending_sorted(s);
        lemma_sort_of_sorted(s);
        lemma_merged_of_normalized(s);
    }
    lemma_normalize_is_normalized(s);
}

/// Normalizing twice is normalizing once.
pub proof fn lemma_normalize_idempotent(s: Seq<MultiAssetView>)
    ensures
        normalize(normalize(s)) == normalize(s),
{
    lemma_normalize_is_normalized(s);
    lemma_normalized_iff_fixed(normalize(s));
}

/// Two amounts of one fungible have one asset as their normal form: the
/// fungible with the saturating sum of the two.
pub proof fn lemma_normalize_two_fungibles(a: MultiAssetView, b: MultiAssetView)
    requires
        a.is_fungible(),
        b.is_fungible(),
        a.id == b.id,
    ensures
        normalize(seq![a, b]) == seq![
            MultiAssetView {
                id: a.id,
                fun: FungibilityView::Fungible(saturating_sum(a.amount(), b.amount())),
            },
        ],
{
    reveal_with_fuel(insert_index, 3);
    reveal_with_fuel(sort, 3);
    reveal_with_fuel(merged, 3);
    let s = seq![a, b];
    let one = seq![a];
    assert(s.drop_last() =~= one);
    assert(one.drop_last() =~= Seq::<MultiAssetView>::empty());
    assert(sort(one.drop_last()) =~= Seq::<MultiAssetView>::empty());
    assert(sort(one) =~= one);
    lemma_asset_order(a, b, b);
    let sorted_pair = sort(s);
    assert(sorted_pair == insert(one, b));
    if a.rel(b) == Rel::Greater {
        assert(insert_index(one, b) == 0);
        assert(sorted_pair =~= seq![b, a]);
    } else {
        assert(sorted_pair =~= seq![a, b]);
    }
    let first = sorted_pair[0];
    let second = sorted_pair[1];
    assert(sorted_pair.drop_last() =~= seq![first]);
    assert(seq![first].drop_last() =~= Seq::<MultiAssetView>::empty());
    assert(merged(seq![first]) =~= seq![first]);
    assert(merged(sorted_pair) == absorb(seq![first], second));
    assert(seq![first].drop_last().push(
        MultiAssetView {
            id: a.id,
            fun: FungibilityView::Fungible(saturating_sum(a.amount(), b.amount())),
        },
    ) =~= seq![
        MultiAssetView {
            id: a.id,
            fun: FungibilityView::Fungible(saturating_sum(a.amount(), b.amount())),
        },
    ]);
}

/// A sequence is in normal form exactly when each asset may directly
/// follow the one before it.
pub proof fn lemma_adjacent_in_order(s: Seq<MultiAssetView>)
    ensures
        adjacent_in_order(s) <==> is_normalized(s),
{
    if adjacent_in_order(s) {
        assert forall|i: int, j: int|
            #![trigger s[i], s[j]]
            0 <= i < j < s.len() implies s[i].rel(s[j]) == Rel::Less && (s[i].is_fungible()
                && s[j].is_fungible() ==> s[i].id != s[j].id) by {
            lemma_adjacent_reaches(s, i, j);
        }
        assert(ascending(s));
        assert(fungible_ids_distinct(s));
    }
    if is_normalized(s) {
        assert forall|i: int| 0 <= i < s.len() - 1 implies may_follow(#[trigger] s[i], s[i + 1]) by {
            assert(s[i].rel(s[i + 1]) == Rel::Less);
            assert(s[i].is_fungible() && s[i + 1].is_fungible() ==> s[i].id != s[i + 1].id);
        }
        assert(adjacent_in_order(s));
    }
}

/// Where each asset may directly follow the one before it, every asset
/// comes before every later one and is no amount of the same fungible.
proof fn lemma_adjacent_reaches(s: Seq<MultiAssetView>, i: int, j: int)
    requires
        adjacent_in_order(s),
        0 <= i < j < s.len(),
    ensures
        s[i].rel(s[j]) == Rel::Less,
        s[i].is_fungible() && s[j].is_fungible() ==> s[i].id != s[j].id,
    decreases j - i,
{
    assert(may_follow(s[j - 1], s[j]));
    if i < j - 1 {
        lemma_adjacent_reaches(s, i, j - 1);
        lemma_asset_order(s[i], s[j - 1], s[j]);
        lemma_asset_id_order(s[i].id, s[j - 1].id, s[j].id);
    }
}

/// What a sequence covers, it covers after it has absorbed another asset,
/// and it covers that asset too.
proof fn lemma_absorb_covers(m: Seq<MultiAssetView>, b: MultiAssetView, x: MultiAssetView)
    requires
        any_contains(m, x) || x == b,
    ensures
        any_contains(absorb(m, b), x),
{
    let r = absorb(m, b);
    if any_contains(m, x) {
        let i = choose|i: int| 0 <= i < m.len() && (#[trigger] m[i]).contains(x);
        if m.last().is_fungible() && b.is_fungible() && m.last().id == b.id {
            if i == m.len() - 1 {
                assert(r[r.len() - 1].contains(x));
            } else {
                assert(r[i] == m[i]);
                assert(r[i].contains(x));
            }
        } else if !m.last().is_fungible() && m.last() == b {
        } else {
            assert(r[i] == m[i]);
            assert(r[i].contains(x));
        }
    } else {
        assert(r[r.len() - 1].contains(x));
    }
}

/// Merging neighbours loses nothing: what comes out covers every asset
/// that went in.
pub proof fn lemma_merged_covers(s: Seq<MultiAssetView>, i: int)
    requires
        0 <= i < s.len(),
    ensures
        any_contains(merged(s), s[i]),
    decreases s.len(),
{
    let front = s.drop_last();
    if i < s.len() - 1 {
        lemma_merged_covers(front, i);
        assert(front[i] == s[i]);
    }
    lemma_absorb_covers(merged(front), s.last(), s[i]);
}

/// The normal form loses nothing: it covers every asset of the sequence.
/// An amount is covered by the sum it went into, an instance by itself.
pub proof fn lemma_normalize_covers(s: Seq<MultiAssetView>, i: int)
    requires
        0 <= i < s.len(),
    ensures
        any_contains(normalize(s), s[i]),
{
    lemma_sort(s);
    let sorted_s = sort(s);
    vstd::seq_lib::to_multiset_contains(s, s[i]);
    vstd::seq_lib::to_multiset_contains(sorted_s, s[i]);
    assert(s.contains(s[i]));
    assert(sorted_s.contains(s[i]));
    let j = choose|j: int| 0 <= j < sorted_s.len() && sorted_s[j] == s[i];
    lemma_merged_covers(sorted_s, j);
}

} // verus!
