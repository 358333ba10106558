//! What the two text fields do to the list: the field for new entries and
//! the field in which an entry is edited.
//!
//! Both fields hold one text. A number is read from it for the amount, and
//! the same text is written to the sender, the receiver and the currency:
//! the fields have no separate parts. Reading the number is left to the
//! caller, who hands over what came of it; a text that is no number is
//! turned away and changes nothing.

use crate::ident::{fresh_id, is_random_id};
use crate::laws::lemma_same_ids;
use crate::list::{has_id, ids_unique, is_other_than, views, Pays};
use crate::pay::{Pay, PayView};
use crate::text::{trim, trimmed};
use vstd::prelude::*;

verus! {

/// The key code of the Enter key.
pub const ENTER_KEY: u32 = 13;

/// The key code of the Escape key.
pub const ESCAPE_KEY: u32 = 27;

/// What a key press in the field for new entries asks for.
#[derive(Debug, Clone, Copy, PartialEq, Eq, Structural)]
pub enum Submission {
    /// Nothing: the key is not Enter, or the field is blank.
    Ignore,
    /// The text is no number and is turned away.
    Reject,
    /// A new entry with this amount.
    Accept { amount_bits: u64 },
}

/// What became of a key press in the field for new entries.
#[derive(Debug, Clone, Copy, PartialEq, Eq, Structural)]
pub enum Submitted {
    /// The list is as it was, and so is the field.
    Ignored,
    /// The list is as it was; the user is to be told that the text is no
    /// number.
    Rejected,
    /// The list has a new last entry with this identifier; the field is to
    /// be cleared.
    Added { id: u128 },
}

/// What became of the text of the edit field when the edit was committed.
#[derive(Debug, Clone, Copy, PartialEq, Eq, Structural)]
pub enum Saved {
    /// The text was blank: the entry is deleted.
    Removed,
    /// The text is no number: the entry is as it was.
    Rejected,
    /// The text was written to the entry.
    Applied,
}

/// The decision on a key press, from the key, the text of the field
/// without the white space at its ends, and the number that this text
/// denotes, if it denotes one.
pub open spec fn submission_of(key_code: u32, entry: Seq<char>, amount: Option<u64>) -> Submission {
    if key_code != ENTER_KEY || entry.len() == 0 {
        Submission::Ignore
    } else {
        match amount {
            Some(amount_bits) => Submission::Accept { amount_bits },
            None => Submission::Reject,
        }
    }
}

/// The entry that one text makes: not paid, with the text as sender,
/// receiver and currency.
pub open spec fn entry_of(id: u128, amount_bits: u64, entry: Seq<char>) -> PayView {
    PayView { id, amount_bits, receiver: entry, currency: entry, sender: entry, paid: false }
}

/// Writes one text and its number to the entries named `id` and leaves the
/// others. The identifier and the paid flag stay.
pub open spec fn with_entry_of(id: u128, amount_bits: u64, entry: Seq<char>) -> spec_fn(
    PayView,
) -> PayView {
    |p: PayView|
        if p.id == id {
            PayView { amount_bits, receiver: entry, currency: entry, sender: entry, ..p }
        } else {
            p
        }
}

/// The outcome of committing an edit, from the text of the field without
/// the white space at its ends and the number that it denotes, if any.
pub open spec fn save_of(entry: Seq<char>, amount: Option<u64>) -> Saved {
    if entry.len() == 0 {
        Saved::Removed
    } else {
        match amount {
            Some(_) => Saved::Applied,
            None => Saved::Rejected,
        }
    }
}

/// The list after committing an edit of the entry named `id`.
pub open spec fn saved(s: Seq<PayView>, id: u128, entry: Seq<char>, amount: Option<u64>) -> Seq<
    PayView,
> {
    if entry.len() == 0 {
        s.filter(is_other_than(id))
    } else {
        match amount {
            Some(amount_bits) => s.map_values(with_entry_of(id, amount_bits, entry)),
            None => s,
        }
    }
}

/// Decides what a key press in the field for new entries asks for.
/// `entry` is the text of the field without the white space at its ends,
/// `amount` the number that it denotes, if it denotes one.
pub fn submission(key_code: u32, entry: &str, amount: Option<u64>) -> (decision: Submission)
    ensures
        decision == submission_of(key_code, entry@, amount),
{
    if key_code != ENTER_KEY || entry.is_empty() {
        Submission::Ignore
    } else {
        match amount {
            Some(amount_bits) => Submission::Accept { amount_bits },
            None => Submission::Reject,
        }
    }
}

impl Pays {
    /// Appends the entry that `entry` makes under the identifier `id`: not
    /// paid, with the text as sender, receiver and currency.
    pub fn add_entry(&mut self, id: u128, amount_bits: u64, entry: &str)
        ensures
            final(self)@ == old(self)@.push(entry_of(id, amount_bits, entry@)),
            ids_unique(old(self)@) && !has_id(old(self)@, id) ==> ids_unique(final(self)@),
    {
        let pay = Pay::new(id, amount_bits, entry.to_owned(), entry.to_owned(), entry.to_owned());
        self.add(pay);
    }

    /// Handles a key press in the field for new entries. `value` is the
    /// text of the field as it stands, `amount` the number that the text
    /// denotes once the white space at its ends is taken away, if it
    /// denotes one.
    ///
    /// Enter on a text that is a number appends an entry under a newly
    /// drawn identifier. Enter on another text that is not blank is turned
    /// away. Everything else is ignored. The list changes in the first case
    /// only.
    pub fn submit(&mut self, key_code: u32, value: &str, amount: Option<u64>) -> (outcome:
        Submitted)
        ensures
            match submission_of(key_code, trimmed(value@), amount) {
                Submission::Ignore => {
                    &&& outcome == Submitted::Ignored
                    &&& final(self)@ == old(self)@
                },
                Submission::Reject => {
                    &&& outcome == Submitted::Rejected
                    &&& final(self)@ == old(self)@
                },
                Submission::Accept { amount_bits } => {
                    &&& outcome matches Submitted::Added { id }
                    &&& is_random_id(id)
                    &&& final(self)@ == old(self)@.push(
                        entry_of(id, amount_bits, trimmed(value@)),
                    )
                    &&& ids_unique(old(self)@) && !has_id(old(self)@, id) ==> ids_unique(
                        final(self)@,
                    )
                },
            },
    {
        let entry = trim(value);
        match submission(key_code, entry, amount) {
            Submission::Ignore => Submitted::Ignored,
            Submission::Reject => Submitted::Rejected,
            Submission::Accept { amount_bits } => {
                let id = fresh_id();
                self.add_entry(id, amount_bits, entry);
                Submitted::Added { id }
            },
        }
    }

    /// Commits an edit of the entry named `id`. `entry` is the text of the
    /// edit field without the white space at its ends, `amount` the number
    /// that it denotes, if it denotes one.
    ///
    /// A blank text deletes the entry. A text that is no number changes
    /// nothing. Any other text is written to the entry: its number to the
    /// amount, the text itself to the sender, the receiver and the
    /// currency alike.
    pub fn save_entry(&mut self, id: u128, entry: &str, amount: Option<u64>) -> (outcome: Saved)
        ensures
            outcome == save_of(entry@, amount),
            final(self)@ == saved(old(self)@, id, entry@, amount),
            ids_unique(old(self)@) ==> ids_unique(final(self)@),
    {
        if entry.is_empty() {
            self.remove(id);
            return Saved::Removed;
        }
        let amount_bits = match amount {
            Some(amount_bits) => amount_bits,
            None => {
                return Saved::Rejected;
            },
        };
        let mut i: usize = 0;
        while i < self.0.len()
            invariant
                i <= self.0.len(),
                self.0.len() == old(self).0.len(),
                forall|k: int|
                    0 <= k < i ==> (#[trigger] self.0@[k])@ == with_entry_of(
                        id,
                        amount_bits,
                        entry@,
                    )(old(self).0@[k]@),
                forall|k: int| i <= k < self.0.len() ==> #[trigger] self.0@[k] == old(self).0@[k],
            decreases self.0.len() - i,
        {
            if self.0[i].id == id {
                self.0[i].amount_bits = amount_bits;
                self.0[i].sender = entry.to_owned();
                self.0[i].receiver = entry.to_owned();
                self.0[i].currency = entry.to_owned();
            }
            i += 1;
        }
        assert(views(self.0@) =~= old(self)@.map_values(with_entry_of(id, amount_bits, entry@)));
        proof {
            lemma_same_ids(old(self)@, self@);
        }
        Saved::Applied
    }

    /// Commits an edit of the entry named `id` with the text of the edit
    /// field as it stands: the white space at its ends is taken away, and
    /// the rest is handled as `save_entry` says. `amount` is the number
    /// that the text denotes without that white space, if it denotes one.
    pub fn save(&mut self, id: u128, value: &str, amount: Option<u64>) -> (outcome: Saved)
        ensures
            outcome == save_of(trimmed(value@), amount),
            final(self)@ == saved(old(self)@, id, trimmed(value@), amount),
            ids_unique(old(self)@) ==> ids_unique(final(self)@),
    {
        self.save_entry(id, trim(value), amount)
    }
}

} // verus!
