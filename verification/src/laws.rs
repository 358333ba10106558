//! What holds of the list whatever is done to it.
//!
//! The contracts of the operations say what each call does. The lemmas here
//! say what follows for counts, for the order of the entries, and for the
//! identifiers over any number of calls.

use crate::list::{
    has_id, ids_unique, is_other_than, is_paid, is_shown_in, is_unpaid, paid_count, toggled_all,
    unpaid_count, with_paid_set,
};
use crate::mode::Mode;
use crate::pay::PayView;
use vstd::prelude::*;

verus! {

/// Filtering the empty sequence leaves it empty.
pub proof fn lemma_filter_empty(pred: spec_fn(PayView) -> bool)
    ensures
        Seq::<PayView>::empty().filter(pred) == Seq::<PayView>::empty(),
{
    reveal(Seq::filter);
}

/// Filtering a sequence that ends in `x` filters what stands before `x` and
/// then keeps `x` or not.
pub proof fn lemma_filter_push(s: Seq<PayView>, x: PayView, pred: spec_fn(PayView) -> bool)
    ensures
        s.push(x).filter(pred) == if pred(x) {
            s.filter(pred).push(x)
        } else {
            s.filter(pred)
        },
{
    reveal(Seq::filter);
    assert(s.push(x).drop_last() == s);
}

/// Every entry is either paid or not: the two counts add up to the length
/// of the list.
pub proof fn lemma_counts_partition(s: Seq<PayView>)
    ensures
        unpaid_count(s) + paid_count(s) == s.len(),
    decreases s.len(),
{
    if s.len() == 0 {
        assert(s == Seq::<PayView>::empty());
        lemma_filter_empty(is_unpaid());
        lemma_filter_empty(is_paid());
    } else {
        let before = s.drop_last();
        assert(s == before.push(s.last()));
        lemma_counts_partition(before);
        lemma_filter_push(before, s.last(), is_unpaid());
        lemma_filter_push(before, s.last(), is_paid());
    }
}

/// A filter keeps all the entries of which its predicate holds throughout.
pub proof fn lemma_filter_keeps_all(s: Seq<PayView>, pred: spec_fn(PayView) -> bool)
    requires
        forall|i: int| 0 <= i < s.len() ==> pred(#[trigger] s[i]),
    ensures
        s.filter(pred) == s,
    decreases s.len(),
{
    if s.len() == 0 {
        assert(s == Seq::<PayView>::empty());
        lemma_filter_empty(pred);
    } else {
        let before = s.drop_last();
        assert(s == before.push(s.last()));
        lemma_filter_keeps_all(before, pred);
        lemma_filter_push(before, s.last(), pred);
    }
}

/// A filter keeps none of the entries of which its predicate fails
/// throughout.
pub proof fn lemma_filter_keeps_none(s: Seq<PayView>, pred: spec_fn(PayView) -> bool)
    requires
        forall|i: int| 0 <= i < s.len() ==> !pred(#[trigger] s[i]),
    ensures
        s.filter(pred) == Seq::<PayView>::empty(),
    decreases s.len(),
{
    if s.len() == 0 {
        assert(s == Seq::<PayView>::empty());
        lemma_filter_empty(pred);
    } else {
        let before = s.drop_last();
        assert(s == before.push(s.last()));
        lemma_filter_keeps_none(before, pred);
        lemma_filter_push(before, s.last(), pred);
    }
}

/// Two filters whose predicates agree on every entry keep the same.
pub proof fn lemma_filter_same(
    s: Seq<PayView>,
    p: spec_fn(PayView) -> bool,
    q: spec_fn(PayView) -> bool,
)
    requires
        forall|i: int| 0 <= i < s.len() ==> p(#[trigger] s[i]) == q(s[i]),
    ensures
        s.filter(p) == s.filter(q),
    decreases s.len(),
{
    if s.len() == 0 {
        assert(s == Seq::<PayView>::empty());
        lemma_filter_empty(p);
        lemma_filter_empty(q);
    } else {
        let before = s.drop_last();
        assert(s == before.push(s.last()));
        lemma_filter_same(before, p, q);
        lemma_filter_push(before, s.last(), p);
        lemma_filter_push(before, s.last(), q);
    }
}

/// The places in `s` of the entries that a filter keeps, from first to
/// last.
pub open spec fn kept_positions(s: Seq<PayView>, pred: spec_fn(PayView) -> bool) -> Seq<int>
    decreases s.len(),
{
    if s.len() == 0 {
        Seq::empty()
    } else {
        let before = kept_positions(s.drop_last(), pred);
        if pred(s.last()) {
            before.push(s.len() - 1)
        } else {
            before
        }
    }
}

/// A filter keeps exactly the entries of which its predicate holds, each
/// once and in the order of the list: entry `k` of the result is the entry
/// of the list at place `kept_positions[k]`, these places rise, the
/// predicate holds at each of them, and it holds at no other place.
pub proof fn lemma_filter_keeps_order(s: Seq<PayView>, pred: spec_fn(PayView) -> bool)
    ensures
        kept_positions(s, pred).len() == s.filter(pred).len(),
        forall|k: int|
            0 <= k < s.filter(pred).len() ==> {
                &&& 0 <= (#[trigger] kept_positions(s, pred)[k]) < s.len()
                &&& s.filter(pred)[k] == s[kept_positions(s, pred)[k]]
                &&& pred(s.filter(pred)[k])
            },
        forall|j: int, k: int|
            0 <= j < k < kept_positions(s, pred).len() ==> (#[trigger] kept_positions(s, pred)[j])
                < (#[trigger] kept_positions(s, pred)[k]),
        forall|i: int|
            0 <= i < s.len() && pred(#[trigger] s[i]) ==> kept_positions(s, pred).contains(i),
    decreases s.len(),
{
    let at = kept_positions(s, pred);
    let t = s.filter(pred);
    if s.len() == 0 {
        assert(s == Seq::<PayView>::empty());
        lemma_filter_empty(pred);
    } else {
        let before = s.drop_last();
        let x = s.last();
        let at0 = kept_positions(before, pred);
        let t0 = before.filter(pred);
        assert(s == before.push(x));
        lemma_filter_keeps_order(before, pred);
        lemma_filter_push(before, x, pred);
        assert forall|k: int| 0 <= k < t.len() implies {
            &&& 0 <= (#[trigger] at[k]) < s.len()
            &&& t[k] == s[at[k]]
            &&& pred(t[k])
        } by {
            if k < t0.len() {
                assert(at[k] == at0[k]);
                assert(t[k] == t0[k]);
                assert(before[at0[k]] == s[at0[k]]);
            }
        }
        assert forall|j: int, k: int| 0 <= j < k < at.len() implies (#[trigger] at[j]) < (
        #[trigger] at[k]) by {
            assert(at[j] == at0[j]);
            if k < at0.len() {
                assert(at[k] == at0[k]);
            }
        }
        assert forall|i: int| 0 <= i < s.len() && pred(#[trigger] s[i]) implies at.contains(
            i,
        ) by {
            if i < before.len() {
                assert(before[i] == s[i]);
                assert(at0.contains(i));
                let k = choose|k: int| 0 <= k < at0.len() && at0[k] == i;
                assert(at[k] == i);
            } else {
                assert(at[at.len() - 1] == i);
            }
        }
    }
}

/// The three filters. `All` shows the list as it is. `Active` shows the
/// entries that are not paid and `Paid` those that are, each in the order
/// of the list; every entry is in exactly one of the two, so that their
/// lengths add up to the length of the list.
pub proof fn lemma_filters(s: Seq<PayView>)
    ensures
        s.filter(is_shown_in(Mode::All)) == s,
        s.filter(is_shown_in(Mode::Active)) == s.filter(is_unpaid()),
        s.filter(is_shown_in(Mode::Paid)) == s.filter(is_paid()),
        forall|k: int|
            0 <= k < s.filter(is_shown_in(Mode::Active)).len() ==> !(#[trigger] s.filter(
                is_shown_in(Mode::Active),
            )[k]).paid,
        forall|k: int|
            0 <= k < s.filter(is_shown_in(Mode::Paid)).len() ==> (#[trigger] s.filter(
                is_shown_in(Mode::Paid),
            )[k]).paid,
        s.filter(is_shown_in(Mode::Active)).len() + s.filter(is_shown_in(Mode::Paid)).len()
            == s.len(),
{
    lemma_filter_keeps_all(s, is_shown_in(Mode::All));
    lemma_filter_same(s, is_shown_in(Mode::Active), is_unpaid());
    lemma_filter_same(s, is_shown_in(Mode::Paid), is_paid());
    lemma_filter_keeps_order(s, is_unpaid());
    lemma_filter_keeps_order(s, is_paid());
    lemma_counts_partition(s);
}

/// After the paid entries are cleared, no paid entry is left and every
/// entry that was not paid is still there, in its place among the others:
/// the result is as long as the count of unpaid entries was, and clearing
/// once more changes nothing.
pub proof fn lemma_clear_paid(s: Seq<PayView>)
    ensures
        forall|k: int|
            0 <= k < s.filter(is_unpaid()).len() ==> !(#[trigger] s.filter(is_unpaid())[k]).paid,
        forall|i: int|
            0 <= i < s.len() && !(#[trigger] s[i]).paid ==> s.filter(is_unpaid()).contains(s[i]),
        s.filter(is_unpaid()).len() == unpaid_count(s),
        paid_count(s.filter(is_unpaid())) == 0,
        s.filter(is_unpaid()).filter(is_unpaid()) == s.filter(is_unpaid()),
{
    let t = s.filter(is_unpaid());
    lemma_filter_keeps_order(s, is_unpaid());
    assert forall|i: int| 0 <= i < s.len() && !(#[trigger] s[i]).paid implies t.contains(
        s[i],
    ) by {
        let at = kept_positions(s, is_unpaid());
        assert(is_unpaid()(s[i]));
        assert(at.contains(i));
        let k = choose|k: int| 0 <= k < at.len() && at[k] == i;
        assert(t[k] == s[i]);
    }
    assert forall|k: int| 0 <= k < t.len() implies !is_paid()(#[trigger] t[k]) by {}
    lemma_filter_keeps_none(t, is_paid());
    assert forall|k: int| 0 <= k < t.len() implies is_unpaid()(#[trigger] t[k]) by {}
    lemma_filter_keeps_all(t, is_unpaid());
}

/// Where at least one entry is not paid, the bulk toggle marks every entry
/// paid, and a second bulk toggle then sets every entry back to unpaid:
/// after the two calls the list is the one before them with no entry paid.
pub proof fn lemma_toggle_all_twice(s: Seq<PayView>)
    requires
        unpaid_count(s) > 0,
    ensures
        toggled_all(s) == s.map_values(with_paid_set(true)),
        unpaid_count(toggled_all(s)) == 0,
        paid_count(toggled_all(s)) == s.len(),
        toggled_all(toggled_all(s)) == s.map_values(with_paid_set(false)),
        paid_count(toggled_all(toggled_all(s))) == 0,
        unpaid_count(toggled_all(toggled_all(s))) == s.len(),
{
    let once = toggled_all(s);
    assert(once == s.map_values(with_paid_set(true)));
    assert forall|i: int| 0 <= i < once.len() implies !is_unpaid()(#[trigger] once[i]) by {}
    lemma_filter_keeps_none(once, is_unpaid());
    lemma_counts_partition(once);
    let twice = toggled_all(once);
    assert(twice =~= s.map_values(with_paid_set(false)));
    assert forall|i: int| 0 <= i < twice.len() implies !is_paid()(#[trigger] twice[i]) by {}
    lemma_filter_keeps_none(twice, is_paid());
    lemma_counts_partition(twice);
}

/// Where nothing is left to pay, the bulk toggle sets every entry back to
/// unpaid. On the empty list it changes nothing.
pub proof fn lemma_toggle_all_resets(s: Seq<PayView>)
    requires
        unpaid_count(s) == 0,
    ensures
        toggled_all(s) == s.map_values(with_paid_set(false)),
        paid_count(toggled_all(s)) == 0,
        s.len() == 0 ==> toggled_all(s) == s,
{
    let once = toggled_all(s);
    assert forall|i: int| 0 <= i < once.len() implies !is_paid()(#[trigger] once[i]) by {}
    lemma_filter_keeps_none(once, is_paid());
    if s.len() == 0 {
        assert(once =~= s);
    }
}

/// A list that holds the same identifiers at the same places as one
/// without a double has none either.
pub proof fn lemma_same_ids(s: Seq<PayView>, t: Seq<PayView>)
    requires
        s.len() == t.len(),
        forall|i: int| 0 <= i < s.len() ==> (#[trigger] s[i]).id == t[i].id,
    ensures
        ids_unique(s) == ids_unique(t),
        forall|id: u128| has_id(s, id) == has_id(t, id),
{
    if ids_unique(s) {
        assert forall|i: int, j: int| 0 <= i < j < t.len() implies (#[trigger] t[i]).id != (
        #[trigger] t[j]).id by {
            assert(s[i].id != s[j].id);
        }
    }
    if ids_unique(t) {
        assert forall|i: int, j: int| 0 <= i < j < s.len() implies (#[trigger] s[i]).id != (
        #[trigger] s[j]).id by {
            assert(t[i].id != t[j].id);
        }
    }
    assert forall|id: u128| has_id(s, id) == has_id(t, id) by {
        if has_id(s, id) {
            let i = choose|i: int| 0 <= i < s.len() && (#[trigger] s[i]).id == id;
            assert(t[i].id == id);
        }
        if has_id(t, id) {
            let i = choose|i: int| 0 <= i < t.len() && (#[trigger] t[i]).id == id;
            assert(s[i].id == id);
        }
    }
}

/// Adding an entry makes the list longer by one. Where no two entries
/// shared an identifier and the new one brings an identifier that is not in
/// use, no two share one afterwards.
pub proof fn lemma_add_keeps_ids_unique(s: Seq<PayView>, pay: PayView)
    ensures
        s.push(pay).len() == s.len() + 1,
        has_id(s.push(pay), pay.id),
        ids_unique(s) && !has_id(s, pay.id) ==> ids_unique(s.push(pay)),
{
    let t = s.push(pay);
    assert(t[s.len() as int].id == pay.id);
    if ids_unique(s) && !has_id(s, pay.id) {
        assert forall|i: int, j: int| 0 <= i < j < t.len() implies (#[trigger] t[i]).id != (
        #[trigger] t[j]).id by {
            assert(t[i] == s[i]);
            if j < s.len() {
                assert(t[j] == s[j]);
            }
        }
    }
}

/// A filter brings in no identifier, and where no two entries shared one,
/// no two of those that it keeps do.
pub proof fn lemma_filter_keeps_ids_unique(s: Seq<PayView>, pred: spec_fn(PayView) -> bool)
    ensures
        forall|id: u128| has_id(s.filter(pred), id) ==> has_id(s, id),
        ids_unique(s) ==> ids_unique(s.filter(pred)),
{
    let t = s.filter(pred);
    let at = kept_positions(s, pred);
    lemma_filter_keeps_order(s, pred);
    assert forall|id: u128| has_id(t, id) implies has_id(s, id) by {
        let k = choose|k: int| 0 <= k < t.len() && (#[trigger] t[k]).id == id;
        assert(s[at[k]].id == id);
    }
    if ids_unique(s) {
        assert forall|i: int, j: int| 0 <= i < j < t.len() implies (#[trigger] t[i]).id != (
        #[trigger] t[j]).id by {
            assert(at[i] < at[j]);
            assert(s[at[i]].id != s[at[j]].id);
        }
    }
}

/// Removing by identifier leaves no entry of that identifier. In a list
/// where no two entries share an identifier it takes out one entry if the
/// identifier is in use, and none (the list stays as it is) if it is not.
pub proof fn lemma_remove(s: Seq<PayView>, id: u128)
    ensures
        !has_id(s.filter(is_other_than(id)), id),
        !has_id(s, id) ==> s.filter(is_other_than(id)) == s,
        ids_unique(s) ==> ids_unique(s.filter(is_other_than(id))),
        ids_unique(s) && has_id(s, id) ==> s.filter(is_other_than(id)).len() == s.len() - 1,
    decreases s.len(),
{
    let pred = is_other_than(id);
    let t = s.filter(pred);
    lemma_filter_keeps_order(s, pred);
    lemma_filter_keeps_ids_unique(s, pred);
    if has_id(t, id) {
        let k = choose|k: int| 0 <= k < t.len() && (#[trigger] t[k]).id == id;
        assert(pred(t[k]));
    }
    if !has_id(s, id) {
        assert forall|i: int| 0 <= i < s.len() implies pred(#[trigger] s[i]) by {}
        lemma_filter_keeps_all(s, pred);
    }
    if ids_unique(s) && has_id(s, id) {
        let before = s.drop_last();
        let x = s.last();
        assert(s == before.push(x));
        lemma_filter_push(before, x, pred);
        assert forall|i: int, j: int| 0 <= i < j < before.len() implies (#[trigger] before[i]).id
            != (#[trigger] before[j]).id by {
            assert(s[i].id != s[j].id);
        }
        if x.id == id {
            assert forall|i: int| 0 <= i < before.len() implies pred(#[trigger] before[i]) by {
                assert(s[i].id != s[s.len() - 1].id);
            }
            lemma_filter_keeps_all(before, pred);
        } else {
            let i = choose|i: int| 0 <= i < s.len() && (#[trigger] s[i]).id == id;
            assert(before[i].id == id);
            lemma_remove(before, id);
        }
    }
}

/// One change to the list: an entry is added, or the entry of an
/// identifier is removed.
pub enum Change {
    Add(PayView),
    Remove(u128),
}

/// The list after one change.
pub open spec fn changed(s: Seq<PayView>, change: Change) -> Seq<PayView> {
    match change {
        Change::Add(pay) => s.push(pay),
        Change::Remove(id) => s.filter(is_other_than(id)),
    }
}

/// The list after a run of changes, made from first to last.
pub open spec fn changed_by(s: Seq<PayView>, changes: Seq<Change>) -> Seq<PayView>
    decreases changes.len(),
{
    if changes.len() == 0 {
        s
    } else {
        changed(changed_by(s, changes.drop_last()), changes.last())
    }
}

/// Whether every entry that a run of changes adds brings an identifier
/// that is not in use at that moment.
pub open spec fn adds_are_fresh(s: Seq<PayView>, changes: Seq<Change>) -> bool
    decreases changes.len(),
{
    if changes.len() == 0 {
        true
    } else {
        &&& adds_are_fresh(s, changes.drop_last())
        &&& match changes.last() {
            Change::Add(pay) => !has_id(changed_by(s, changes.drop_last()), pay.id),
            Change::Remove(_) => true,
        }
    }
}

/// The number of entries that a run of changes adds.
pub open spec fn adds(changes: Seq<Change>) -> nat
    decreases changes.len(),
{
    if changes.len() == 0 {
        0
    } else {
        adds(changes.drop_last()) + match changes.last() {
            Change::Add(_) => 1nat,
            Change::Remove(_) => 0nat,
        }
    }
}

/// The number of removals in a run of changes that found their entry.
pub open spec fn completed_removals(s: Seq<PayView>, changes: Seq<Change>) -> nat
    decreases changes.len(),
{
    if changes.len() == 0 {
        0
    } else {
        completed_removals(s, changes.drop_last()) + match changes.last() {
            Change::Add(_) => 0nat,
            Change::Remove(id) => if has_id(changed_by(s, changes.drop_last()), id) {
                1nat
            } else {
                0nat
            },
        }
    }
}

/// Over any run of additions and removals on a list in which no two
/// entries share an identifier, where every added entry brings an
/// identifier that is not in use: no two entries share an identifier
/// afterwards, and the list has grown by the number of additions less the
/// number of removals that found their entry.
pub proof fn lemma_changes(s: Seq<PayView>, changes: Seq<Change>)
    requires
        ids_unique(s),
        adds_are_fresh(s, changes),
    ensures
        ids_unique(changed_by(s, changes)),
        changed_by(s, changes).len() == s.len() + adds(changes) - completed_removals(s, changes),
    decreases changes.len(),
{
    if changes.len() > 0 {
        let before = changed_by(s, changes.drop_last());
        lemma_changes(s, changes.drop_last());
        match changes.last() {
            Change::Add(pay) => {
                lemma_add_keeps_ids_unique(before, pay);
            },
            Change::Remove(id) => {
                lemma_remove(before, id);
            },
        }
    }
}

} // verus!
