//! The plain record in which a payment is kept between two runs.

use crate::list::views;
use crate::pay::{Pay, PayView};
use vstd::prelude::*;
use vstd::std_specs::convert::FromSpecImpl;

verus! {

/// A payment as it is stored: the same fields as a `Pay`, each as a plain
/// value.
#[derive(Debug, PartialEq, Eq)]
pub struct PaySerialized {
    /// The 128 bits of the entry's identifier.
    pub id: u128,
    /// The amount, as the bit pattern of an IEEE 754 double.
    pub amount_bits: u64,
    /// Who is to get the money.
    pub receiver: String,
    /// The currency of the amount.
    pub currency: String,
    /// Who pays.
    pub sender: String,
    /// Whether the payment has been made.
    pub paid: bool,
}

impl View for PaySerialized {
    type V = PayView;

    open spec fn view(&self) -> PayView {
        PayView {
            id: self.id,
            amount_bits: self.amount_bits,
            receiver: self.receiver@,
            currency: self.currency@,
            sender: self.sender@,
            paid: self.paid,
        }
    }
}

/// The values of a sequence of records.
pub open spec fn record_views(records: Seq<PaySerialized>) -> Seq<PayView> {
    records.map_values(|r: PaySerialized| r@)
}

impl PaySerialized {
    /// The record of a payment.
    pub open spec fn spec_from_pay(pay: Pay) -> PaySerialized {
        PaySerialized {
            id: pay.id,
            amount_bits: pay.amount_bits,
            receiver: pay.receiver,
            currency: pay.currency,
            sender: pay.sender,
            paid: pay.paid,
        }
    }

    /// The payment that this record stands for.
    pub open spec fn spec_into_pay(self) -> Pay {
        Pay {
            id: self.id,
            amount_bits: self.amount_bits,
            receiver: self.receiver,
            currency: self.currency,
            sender: self.sender,
            paid: self.paid,
        }
    }

    /// Turns the record into the payment it stands for, field by field.
    pub fn into_pay(self) -> (pay: Pay)
        ensures
            pay == self.spec_into_pay(),
            pay@ == self@,
    {
        Pay::new_with_paid(
            self.id,
            self.amount_bits,
            self.receiver,
            self.currency,
            self.sender,
            self.paid,
        )
    }
}

impl From<&Pay> for PaySerialized {
    /// The record of a payment: a copy of each field.
    fn from(pay: &Pay) -> (record: PaySerialized)
        ensures
            record == PaySerialized::spec_from_pay(*pay),
            record@ == pay@,
    {
        PaySerialized {
            id: pay.id,
            amount_bits: pay.amount_bits,
            receiver: pay.receiver.clone(),
            currency: pay.currency.clone(),
            sender: pay.sender.clone(),
            paid: pay.paid,
        }
    }
}

impl FromSpecImpl<&Pay> for PaySerialized {
    open spec fn obeys_from_spec() -> bool {
        true
    }

    open spec fn from_spec(pay: &Pay) -> PaySerialized {
        PaySerialized::spec_from_pay(*pay)
    }
}

/// The records of a sequence of payments, one for each and in their order.
pub open spec fn records_of(pays: Seq<Pay>) -> Seq<PaySerialized> {
    pays.map_values(|p: Pay| PaySerialized::spec_from_pay(p))
}

/// The payments that a sequence of records stands for, in their order.
pub open spec fn pays_of(records: Seq<PaySerialized>) -> Seq<Pay> {
    records.map_values(|r: PaySerialized| r.spec_into_pay())
}

/// Storing a payment and reading it back gives the payment again: every
/// field of it, the identifier and the paid flag among them.
pub proof fn lemma_record_round_trip(pay: Pay)
    ensures
        PaySerialized::spec_from_pay(pay).spec_into_pay() == pay,
        PaySerialized::spec_from_pay(pay)@ == pay@,
{
}

/// Storing a list and reading it back gives the list again: as many
/// entries, in the same order, each with its identifier, its amount, its
/// three texts and its paid flag.
pub proof fn lemma_list_round_trip(pays: Seq<Pay>)
    ensures
        pays_of(records_of(pays)) == pays,
        record_views(records_of(pays)) == views(pays),
        views(pays_of(records_of(pays))) == views(pays),
{
    assert(pays_of(records_of(pays)) =~= pays);
    assert(record_views(records_of(pays)) =~= views(pays));
}

} // verus!
