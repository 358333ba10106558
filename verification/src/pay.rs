//! One payment: an amount that a sender owes a receiver.

use vstd::prelude::*;

verus! {

/// One payment.
///
/// The identifier is set when the entry is made and names the entry for as
/// long as it lives; the other fields may change without the entry becoming
/// another one.
#[derive(Debug, PartialEq, Eq)]
pub struct Pay {
    /// The 128 bits of the entry's identifier.
    pub id: u128,
    /// The amount, as the bit pattern of an IEEE 754 double.
    pub amount_bits: u64,
    /// Who is to get the money.
    pub receiver: String,
    /// The currency of the amount.
    pub currency: String,
    /// Who pays.
    pub sender: String,
    /// Whether the payment has been made.
    pub paid: bool,
}

/// The mathematical value of a payment: its fields, with each text as a
/// sequence of characters.
pub struct PayView {
    pub id: u128,
    pub amount_bits: u64,
    pub receiver: Seq<char>,
    pub currency: Seq<char>,
    pub sender: Seq<char>,
    pub paid: bool,
}

impl PayView {
    /// This value with the paid flag replaced.
    pub open spec fn with_paid(self, paid: bool) -> PayView {
        PayView { paid, ..self }
    }
}

impl View for Pay {
    type V = PayView;

    open spec fn view(&self) -> PayView {
        PayView {
            id: self.id,
            amount_bits: self.amount_bits,
            receiver: self.receiver@,
            currency: self.currency@,
            sender: self.sender@,
            paid: self.paid,
        }
    }
}

impl Clone for Pay {
    fn clone(&self) -> (copy: Pay)
        ensures
            copy == *self,
    {
        Pay {
            id: self.id,
            amount_bits: self.amount_bits,
            receiver: self.receiver.clone(),
            currency: self.currency.clone(),
            sender: self.sender.clone(),
            paid: self.paid,
        }
    }
}

impl Pay {
    /// A payment that has not been made yet.
    pub fn new(id: u128, amount_bits: u64, receiver: String, currency: String, sender: String) -> (pay:
        Pay)
        ensures
            pay == (Pay { id, amount_bits, receiver, currency, sender, paid: false }),
    {
        Pay::new_with_paid(id, amount_bits, receiver, currency, sender, false)
    }

    /// A payment with the paid flag as given.
    pub fn new_with_paid(
        id: u128,
        amount_bits: u64,
        receiver: String,
        currency: String,
        sender: String,
        paid: bool,
    ) -> (pay: Pay)
        ensures
            pay == (Pay { id, amount_bits, receiver, currency, sender, paid }),
    {
        Pay { id, amount_bits, receiver, currency, sender, paid }
    }

    /// Flips the paid flag and leaves every other field as it was.
    pub fn toggle(&mut self)
        ensures
            *final(self) == (Pay { paid: !old(self).paid, ..*old(self) }),
    {
        self.paid = !self.paid;
    }
}

} // verus!
