//! The list of payments and the operations on it.

use crate::laws::{
    lemma_add_keeps_ids_unique, lemma_filter_keeps_ids_unique, lemma_filter_push, lemma_remove,
    lemma_same_ids,
};
use crate::mode::Mode;
use crate::pay::{Pay, PayView};
use crate::storage::{pays_of, record_views, records_of, PaySerialized};
use vstd::prelude::*;

verus! {

/// The payments, in the order in which they were added.
#[derive(Debug, PartialEq, Eq)]
pub struct Pays(pub Vec<Pay>);

/// The values of a sequence of payments.
pub open spec fn views(items: Seq<Pay>) -> Seq<PayView> {
    items.map_values(|p: Pay| p@)
}

/// Holds of the entries that are not paid yet.
pub open spec fn is_unpaid() -> spec_fn(PayView) -> bool {
    |p: PayView| !p.paid
}

/// Holds of the entries that are paid.
pub open spec fn is_paid() -> spec_fn(PayView) -> bool {
    |p: PayView| p.paid
}

/// Gives every entry the same paid flag.
pub open spec fn with_paid_set(paid: bool) -> spec_fn(PayView) -> PayView {
    |p: PayView| p.with_paid(paid)
}

/// The number of entries that are not paid yet.
pub open spec fn unpaid_count(s: Seq<PayView>) -> nat {
    s.filter(is_unpaid()).len()
}

/// The number of entries that are paid.
pub open spec fn paid_count(s: Seq<PayView>) -> nat {
    s.filter(is_paid()).len()
}

/// The list after the bulk toggle: where nothing is left to pay, every entry
/// is set back to unpaid; otherwise every entry is marked paid.
pub open spec fn toggled_all(s: Seq<PayView>) -> Seq<PayView> {
    s.map_values(with_paid_set(unpaid_count(s) != 0))
}

/// Holds of the entries whose identifier is not `id`.
pub open spec fn is_other_than(id: u128) -> spec_fn(PayView) -> bool {
    |p: PayView| p.id != id
}

/// Holds of the entries that a filter shows.
pub open spec fn is_shown_in(mode: Mode) -> spec_fn(PayView) -> bool {
    |p: PayView|
        match mode {
            Mode::All => true,
            Mode::Active => !p.paid,
            Mode::Paid => p.paid,
        }
}

/// Sets the paid flag of the entries named `id` and leaves the others.
pub open spec fn with_paid_of(id: u128, paid: bool) -> spec_fn(PayView) -> PayView {
    |p: PayView|
        if p.id == id {
            p.with_paid(paid)
        } else {
            p
        }
}

/// Whether some entry has the identifier `id`.
pub open spec fn has_id(s: Seq<PayView>, id: u128) -> bool {
    exists|i: int| 0 <= i < s.len() && (#[trigger] s[i]).id == id
}

/// Whether no two entries share an identifier.
pub open spec fn ids_unique(s: Seq<PayView>) -> bool {
    forall|i: int, j: int| 0 <= i < j < s.len() ==> (#[trigger] s[i]).id != (#[trigger] s[j]).id
}

/// The list that the program starts with: the stored entries in their
/// order, or no entry where nothing could be read.
pub open spec fn restored(stored: Option<Seq<PayView>>) -> Seq<PayView> {
    match stored {
        Some(entries) => entries,
        None => Seq::empty(),
    }
}

impl View for Pays {
    type V = Seq<PayView>;

    open spec fn view(&self) -> Seq<PayView> {
        views(self.0@)
    }
}

impl Clone for Pays {
    fn clone(&self) -> (copy: Pays)
        ensures
            copy.0@ == self.0@,
            copy@ == self@,
    {
        let mut items: Vec<Pay> = Vec::new();
        let mut i: usize = 0;
        while i < self.0.len()
            invariant
                i <= self.0.len(),
                items@ == self.0@.take(i as int),
            decreases self.0.len() - i,
        {
            items.push(self.0[i].clone());
            assert(items@ == self.0@.take(i + 1));
            i += 1;
        }
        assert(self.0@.take(self.0@.len() as int) == self.0@);
        Pays(items)
    }
}

impl Pays {
    /// The list at startup. `stored` holds the records that were read from
    /// storage, or `None` where the slot was absent, unreadable or did not
    /// parse: the list then starts empty, and that is no error.
    pub fn new(stored: Option<Vec<PaySerialized>>) -> (pays: Pays)
        ensures
            pays@ == restored(
                match stored {
                    Some(records) => Some(record_views(records@)),
                    None => None,
                },
            ),
            stored matches Some(records) ==> pays.0@ == pays_of(records@),
            stored is None ==> pays.0@.len() == 0,
    {
        let mut items: Vec<Pay> = Vec::new();
        match stored {
            Some(records) => {
                let ghost all = records@;
                for record in it: records
                    invariant
                        it.seq() == all,
                        items@ == pays_of(all.take(it.index() as int)),
                        views(items@) == record_views(all.take(it.index() as int)),
                {
                    proof {
                        let done = all.take(it.index() as int);
                        assert(all.take(it.index() + 1) == done.push(record));
                        assert(record_views(done.push(record)) == record_views(done).push(
                            record@,
                        ));
                        assert(pays_of(done.push(record)) == pays_of(done).push(
                            record.spec_into_pay(),
                        ));
                    }
                    let pay = record.into_pay();
                    items.push(pay);
                    assert(views(items@) == views(items@.drop_last()).push(pay@));
                }
                assert(all.take(all.len() as int) == all);
            },
            None => {},
        }
        Pays(items)
    }

    /// The records of the entries, in the order of the list: what is
    /// written to storage after each change.
    pub fn records(&self) -> (records: Vec<PaySerialized>)
        ensures
            records@ == records_of(self.0@),
            record_views(records@) == self@,
    {
        let mut records: Vec<PaySerialized> = Vec::new();
        let mut i: usize = 0;
        while i < self.0.len()
            invariant
                i <= self.0.len(),
                records@ == records_of(self.0@.take(i as int)),
                record_views(records@) == views(self.0@.take(i as int)),
            decreases self.0.len() - i,
        {
            proof {
                let done = self.0@.take(i as int);
                assert(self.0@.take(i + 1) == done.push(self.0@[i as int]));
                assert(views(done.push(self.0@[i as int])) == views(done).push(self.0@[i as int]@));
                assert(records_of(done.push(self.0@[i as int])) == records_of(done).push(
                    PaySerialized::spec_from_pay(self.0@[i as int]),
                ));
            }
            let record = PaySerialized::from(&self.0[i]);
            records.push(record);
            assert(record_views(records@) == record_views(records@.drop_last()).push(record@));
            i += 1;
        }
        assert(self.0@.take(self.0@.len() as int) == self.0@);
        records
    }

    /// Whether the list has no entry.
    pub fn is_empty(&self) -> (empty: bool)
        ensures
            empty == (self@.len() == 0),
    {
        self.0.is_empty()
    }

    /// Appends `pay` to the end of the list. The list does not look at the
    /// identifier: whoever makes the entry gives it one that is not in use.
    pub fn add(&mut self, pay: Pay)
        ensures
            final(self)@ == old(self)@.push(pay@),
            final(self)@.len() == old(self)@.len() + 1,
            ids_unique(old(self)@) && !has_id(old(self)@, pay.id) ==> ids_unique(final(self)@),
    {
        proof {
            lemma_add_keeps_ids_unique(self@, pay@);
        }
        self.0.push(pay);
        assert(views(self.0@) == views(self.0@.drop_last()).push(pay@));
    }

    /// The number of entries that are not paid yet.
    pub fn balance(&self) -> (count: usize)
        ensures
            count == unpaid_count(self@),
    {
        let mut count: usize = 0;
        let mut i: usize = 0;
        while i < self.0.len()
            invariant
                i <= self.0.len(),
                count <= i,
                count == unpaid_count(views(self.0@.take(i as int))),
            decreases self.0.len() - i,
        {
            proof {
                let done = self.0@.take(i as int);
                assert(self.0@.take(i + 1) == done.push(self.0@[i as int]));
                assert(views(done.push(self.0@[i as int])) == views(done).push(self.0@[i as int]@));
                lemma_filter_push(views(done), self.0@[i as int]@, is_unpaid());
            }
            if !self.0[i].paid {
                count += 1;
            }
            i += 1;
        }
        assert(self.0@.take(self.0@.len() as int) == self.0@);
        count
    }

    /// The number of entries that are paid.
    pub fn paid(&self) -> (count: usize)
        ensures
            count == paid_count(self@),
    {
        let mut count: usize = 0;
        let mut i: usize = 0;
        while i < self.0.len()
            invariant
                i <= self.0.len(),
                count <= i,
                count == paid_count(views(self.0@.take(i as int))),
            decreases self.0.len() - i,
        {
            proof {
                let done = self.0@.take(i as int);
                assert(self.0@.take(i + 1) == done.push(self.0@[i as int]));
                assert(views(done.push(self.0@[i as int])) == views(done).push(self.0@[i as int]@));
                lemma_filter_push(views(done), self.0@[i as int]@, is_paid());
            }
            if self.0[i].paid {
                count += 1;
            }
            i += 1;
        }
        assert(self.0@.take(self.0@.len() as int) == self.0@);
        count
    }

    /// The bulk toggle. The decision is made once, from the whole list:
    /// where nothing is left to pay, every entry is set back to unpaid;
    /// otherwise every entry is marked paid. An empty list stays empty.
    pub fn toggle_all(&mut self)
        ensures
            final(self)@ == toggled_all(old(self)@),
            ids_unique(old(self)@) ==> ids_unique(final(self)@),
    {
        let paid = self.balance() != 0;
        let mut i: usize = 0;
        while i < self.0.len()
            invariant
                i <= self.0.len(),
                self.0.len() == old(self).0.len(),
                forall|k: int| 0 <= k < i ==> (#[trigger] self.0@[k])@ == old(self).0@[k]@.with_paid(paid),
                forall|k: int| i <= k < self.0.len() ==> #[trigger] self.0@[k] == old(self).0@[k],
            decreases self.0.len() - i,
        {
            self.0[i].paid = paid;
            i += 1;
        }
        assert(self@ =~= toggled_all(old(self)@));
        proof {
            lemma_same_ids(old(self)@, self@);
        }
    }

    /// Deletes the entry named `id`. Where the list has no such entry,
    /// nothing changes.
    pub fn remove(&mut self, id: u128)
        ensures
            final(self)@ == old(self)@.filter(is_other_than(id)),
            !has_id(final(self)@, id),
            !has_id(old(self)@, id) ==> final(self)@ == old(self)@,
            ids_unique(old(self)@) ==> ids_unique(final(self)@),
            ids_unique(old(self)@) && has_id(old(self)@, id) ==> final(self)@.len() == old(
                self,
            )@.len() - 1,
    {
        proof {
            lemma_remove(self@, id);
        }
        let keep = |pay: &Pay| -> (kept: bool)
            ensures
                kept == (pay.id != id),
            { pay.id != id };
        self.retain(keep, Ghost(is_other_than(id)));
    }

    /// Deletes every entry that is paid. What an entry held is given up
    /// with it; nothing else is to be released.
    pub fn clear_paid(&mut self)
        ensures
            final(self)@ == old(self)@.filter(is_unpaid()),
            ids_unique(old(self)@) ==> ids_unique(final(self)@),
    {
        proof {
            lemma_filter_keeps_ids_unique(self@, is_unpaid());
        }
        let keep = |pay: &Pay| -> (kept: bool)
            ensures
                kept == !pay.paid,
            { !pay.paid };
        self.retain(keep, Ghost(is_unpaid()));
    }

    /// The entries that `mode` shows, in the order of the list. The result
    /// is a copy: changing it does not change the list.
    pub fn filtered(&self, mode: Mode) -> (shown: Vec<Pay>)
        ensures
            views(shown@) == self@.filter(is_shown_in(mode)),
    {
        let mut shown: Vec<Pay> = Vec::new();
        let mut i: usize = 0;
        while i < self.0.len()
            invariant
                i <= self.0.len(),
                views(shown@) == views(self.0@.take(i as int)).filter(is_shown_in(mode)),
            decreases self.0.len() - i,
        {
            proof {
                let done = self.0@.take(i as int);
                assert(self.0@.take(i + 1) == done.push(self.0@[i as int]));
                assert(views(done.push(self.0@[i as int])) == views(done).push(self.0@[i as int]@));
                lemma_filter_push(views(done), self.0@[i as int]@, is_shown_in(mode));
            }
            let show = match mode {
                Mode::All => true,
                Mode::Active => !self.0[i].paid,
                Mode::Paid => self.0[i].paid,
            };
            if show {
                let copy = self.0[i].clone();
                shown.push(copy);
                assert(views(shown@) == views(shown@.drop_last()).push(copy@));
            }
            i += 1;
        }
        assert(self.0@.take(self.0@.len() as int) == self.0@);
        shown
    }

    /// Sets the paid flag of the entry named `id`. Where the list has no
    /// such entry, nothing changes.
    pub fn set_paid(&mut self, id: u128, paid: bool)
        ensures
            final(self)@ == old(self)@.map_values(with_paid_of(id, paid)),
            ids_unique(old(self)@) ==> ids_unique(final(self)@),
    {
        let mut i: usize = 0;
        while i < self.0.len()
            invariant
                i <= self.0.len(),
                self.0.len() == old(self).0.len(),
                forall|k: int|
                    0 <= k < i ==> (#[trigger] self.0@[k])@ == with_paid_of(id, paid)(
                        old(self).0@[k]@,
                    ),
                forall|k: int| i <= k < self.0.len() ==> #[trigger] self.0@[k] == old(self).0@[k],
            decreases self.0.len() - i,
        {
            if self.0[i].id == id {
                self.0[i].paid = paid;
            }
            i += 1;
        }
        assert(self@ =~= old(self)@.map_values(with_paid_of(id, paid)));
        proof {
            lemma_same_ids(old(self)@, self@);
        }
    }

    /// Keeps the entries of which `keep` holds, in their order, and drops
    /// the others. `pred` is what `keep` computes.
    fn retain<F: Fn(&Pay) -> bool>(&mut self, keep: F, Ghost(pred): Ghost<spec_fn(PayView) -> bool>)
        requires
            forall|p: Pay| #[trigger] keep.requires((&p,)),
            forall|p: Pay, kept: bool| #[trigger] keep.ensures((&p,), kept) ==> kept == pred(p@),
        ensures
            final(self)@ == old(self)@.filter(pred),
    {
        let mut items: Vec<Pay> = Vec::new();
        core::mem::swap(&mut self.0, &mut items);
        let ghost all = items@;
        for pay in it: items
            invariant
                forall|p: Pay| #[trigger] keep.requires((&p,)),
                forall|p: Pay, kept: bool| #[trigger]
                    keep.ensures((&p,), kept) ==> kept == pred(p@),
                it.seq() == all,
                views(self.0@) == views(all.take(it.index() as int)).filter(pred),
        {
            proof {
                let done = all.take(it.index() as int);
                assert(all.take(it.index() + 1) == done.push(pay));
                assert(views(done.push(pay)) == views(done).push(pay@));
                lemma_filter_push(views(done), pay@, pred);
            }
            if keep(&pay) {
                self.0.push(pay);
                assert(views(self.0@) == views(self.0@.drop_last()).push(pay@));
            }
        }
        assert(all.take(all.len() as int) == all);
    }
}

} // verus!
