use pays::{Pay, Pays};

#[test]
fn one_payment_from_entry_to_reset() {
    let mut pays = Pays::new(None);
    assert!(pays.is_empty());

    pays.add(Pay::new(
        1,
        10f64.to_bits(),
        String::from("B"),
        String::from("USD"),
        String::from("A"),
    ));
    assert_eq!(pays.balance(), 1);
    assert_eq!(pays.paid(), 0);

    pays.0[0].toggle();
    assert_eq!(pays.balance(), 0);
    assert_eq!(pays.paid(), 1);

    pays.toggle_all();
    assert_eq!(pays.paid(), 0);
    assert_eq!(pays.balance(), 1);
    assert_eq!(f64::from_bits(pays.0[0].amount_bits), 10.0);
    assert_eq!(pays.0[0].sender, "A");
    assert_eq!(pays.0[0].currency, "USD");
    assert_eq!(pays.0[0].receiver, "B");
}
