use pays::{Mode, Pay, Pays};

fn pay(id: u128, amount: f64, paid: bool) -> Pay {
    Pay::new_with_paid(
        id,
        amount.to_bits(),
        format!("receiver {}", id),
        String::from("USD"),
        format!("sender {}", id),
        paid,
    )
}

fn list(entries: &[(u128, bool)]) -> Pays {
    let mut pays = Pays::new(None);
    for (id, paid) in entries {
        pays.add(pay(*id, 1.0, *paid));
    }
    pays
}

fn ids(items: &[Pay]) -> Vec<u128> {
    items.iter().map(|p| p.id).collect()
}

fn flags(items: &[Pay]) -> Vec<bool> {
    items.iter().map(|p| p.paid).collect()
}

fn all_distinct(items: &[Pay]) -> bool {
    let mut seen = ids(items);
    seen.sort();
    seen.dedup();
    seen.len() == items.len()
}

#[test]
fn pay_new_is_not_paid() {
    let p = Pay::new(7, 2.5f64.to_bits(), String::from("B"), String::from("EUR"), String::from("A"));
    assert_eq!(p.id, 7);
    assert_eq!(f64::from_bits(p.amount_bits), 2.5);
    assert_eq!(p.receiver, "B");
    assert_eq!(p.currency, "EUR");
    assert_eq!(p.sender, "A");
    assert!(!p.paid);
}

#[test]
fn pay_new_with_paid_keeps_the_flag() {
    let p = Pay::new_with_paid(
        9,
        0.1f64.to_bits(),
        String::from("r"),
        String::from("c"),
        String::from("s"),
        true,
    );
    assert_eq!(p.id, 9);
    assert_eq!(p.amount_bits, 0.1f64.to_bits());
    assert_eq!(p.receiver, "r");
    assert_eq!(p.currency, "c");
    assert_eq!(p.sender, "s");
    assert!(p.paid);
}

#[test]
fn pay_toggle_flips_only_the_flag() {
    let mut p = pay(3, 4.0, false);
    let before = p.clone();
    p.toggle();
    assert!(p.paid);
    assert_eq!(p.id, before.id);
    assert_eq!(p.amount_bits, before.amount_bits);
    assert_eq!(p.receiver, before.receiver);
    assert_eq!(p.currency, before.currency);
    assert_eq!(p.sender, before.sender);
    p.toggle();
    assert_eq!(p, before);
}

#[test]
fn pay_clone_is_equal() {
    let p = pay(5, -3.25, true);
    assert_eq!(p.clone(), p);
}

#[test]
fn new_list_is_empty() {
    let pays = Pays::new(None);
    assert!(pays.is_empty());
    assert_eq!(pays.0.len(), 0);
    assert_eq!(pays.balance(), 0);
    assert_eq!(pays.paid(), 0);
}

#[test]
fn add_appends_at_the_end() {
    let mut pays = Pays::new(None);
    pays.add(pay(3, 1.0, false));
    pays.add(pay(1, 2.0, true));
    pays.add(pay(2, 3.0, false));
    assert!(!pays.is_empty());
    assert_eq!(ids(&pays.0), vec![3, 1, 2]);
    assert_eq!(flags(&pays.0), vec![false, true, false]);
    assert_eq!(pays.0[1], pay(1, 2.0, true));
}

#[test]
fn add_does_not_look_at_the_identifier() {
    let mut pays = list(&[(1, false)]);
    pays.add(pay(1, 9.0, true));
    assert_eq!(ids(&pays.0), vec![1, 1]);
}

#[test]
fn remove_deletes_the_entry() {
    let mut pays = list(&[(1, false), (2, true), (3, false)]);
    pays.remove(2);
    assert_eq!(ids(&pays.0), vec![1, 3]);
    assert_eq!(flags(&pays.0), vec![false, false]);
}

#[test]
fn remove_of_an_absent_identifier_changes_nothing() {
    let mut pays = list(&[(1, false), (2, true)]);
    let before = pays.clone();
    pays.remove(7);
    assert_eq!(pays, before);
    let mut empty = Pays::new(None);
    empty.remove(1);
    assert!(empty.is_empty());
}

#[test]
fn remove_first_and_last() {
    let mut pays = list(&[(1, false), (2, true), (3, false)]);
    pays.remove(1);
    assert_eq!(ids(&pays.0), vec![2, 3]);
    pays.remove(3);
    assert_eq!(ids(&pays.0), vec![2]);
    pays.remove(2);
    assert!(pays.is_empty());
}

#[test]
fn length_is_adds_less_completed_removals() {
    let mut pays = Pays::new(None);
    let mut adds = 0usize;
    let mut removed = 0usize;
    for id in 1..=6u128 {
        pays.add(pay(id, 1.0, id % 2 == 0));
        adds += 1;
    }
    for id in [2u128, 9, 5, 2, 6] {
        let there = pays.0.iter().any(|p| p.id == id);
        pays.remove(id);
        if there {
            removed += 1;
        }
        assert!(all_distinct(&pays.0));
    }
    pays.add(pay(2, 1.0, false));
    adds += 1;
    assert_eq!(removed, 3);
    assert_eq!(pays.0.len(), adds - removed);
    assert_eq!(ids(&pays.0), vec![1, 3, 4, 2]);
    assert!(all_distinct(&pays.0));
}

#[test]
fn balance_and_paid_count() {
    let pays = list(&[(1, false), (2, true), (3, false), (4, false), (5, true)]);
    assert_eq!(pays.balance(), 3);
    assert_eq!(pays.paid(), 2);
}

#[test]
fn balance_and_paid_add_up_to_the_length() {
    let cases: Vec<Vec<(u128, bool)>> = vec![
        vec![],
        vec![(1, false)],
        vec![(1, true)],
        vec![(1, true), (2, true), (3, true)],
        vec![(1, false), (2, false)],
        vec![(1, false), (2, true), (3, false), (4, true), (5, true)],
    ];
    for entries in cases {
        let pays = list(&entries);
        assert_eq!(pays.balance() + pays.paid(), pays.0.len());
    }
}

#[test]
fn toggle_all_marks_all_paid_when_some_are_not() {
    let mut pays = list(&[(1, false), (2, true), (3, false)]);
    pays.toggle_all();
    assert_eq!(flags(&pays.0), vec![true, true, true]);
    assert_eq!(ids(&pays.0), vec![1, 2, 3]);
    assert_eq!(pays.balance(), 0);
    assert_eq!(pays.paid(), 3);
}

#[test]
fn toggle_all_resets_when_all_are_paid() {
    let mut pays = list(&[(1, true), (2, true)]);
    pays.toggle_all();
    assert_eq!(flags(&pays.0), vec![false, false]);
    assert_eq!(pays.balance(), 2);
    assert_eq!(pays.paid(), 0);
}

#[test]
fn toggle_all_twice_from_some_unpaid() {
    let mut pays = list(&[(1, true), (2, false), (3, true)]);
    let before = pays.clone();
    pays.toggle_all();
    assert_eq!(pays.balance(), 0);
    assert_eq!(flags(&pays.0), vec![true, true, true]);
    pays.toggle_all();
    assert_eq!(pays.paid(), 0);
    assert_eq!(flags(&pays.0), vec![false, false, false]);
    for (now, then) in pays.0.iter().zip(before.0.iter()) {
        assert_eq!(now.id, then.id);
        assert_eq!(now.amount_bits, then.amount_bits);
        assert_eq!(now.receiver, then.receiver);
        assert_eq!(now.currency, then.currency);
        assert_eq!(now.sender, then.sender);
    }
}

#[test]
fn toggle_all_on_the_empty_list_does_nothing() {
    let mut pays = Pays::new(None);
    pays.toggle_all();
    assert!(pays.is_empty());
    pays.toggle_all();
    assert!(pays.is_empty());
}

#[test]
fn toggle_all_keeps_the_other_fields() {
    let mut pays = list(&[(1, false), (2, true)]);
    pays.toggle_all();
    assert_eq!(pays.0[0], pay(1, 1.0, true));
    assert_eq!(pays.0[1], pay(2, 1.0, true));
}

#[test]
fn clear_paid_leaves_the_unpaid() {
    let mut pays = list(&[(1, true), (2, false), (3, true), (4, false), (5, true)]);
    pays.clear_paid();
    assert_eq!(ids(&pays.0), vec![2, 4]);
    assert_eq!(flags(&pays.0), vec![false, false]);
    assert_eq!(pays.paid(), 0);
    assert_eq!(pays.balance(), 2);
    let after = pays.clone();
    pays.clear_paid();
    assert_eq!(pays, after);
}

#[test]
fn clear_paid_edges() {
    let mut none_paid = list(&[(1, false), (2, false)]);
    none_paid.clear_paid();
    assert_eq!(ids(&none_paid.0), vec![1, 2]);
    let mut all_paid = list(&[(1, true), (2, true)]);
    all_paid.clear_paid();
    assert!(all_paid.is_empty());
    let mut empty = Pays::new(None);
    empty.clear_paid();
    assert!(empty.is_empty());
}

#[test]
fn filtered_all_is_the_list() {
    let pays = list(&[(4, true), (2, false), (9, true), (1, false)]);
    assert_eq!(pays.filtered(Mode::All), pays.0);
}

#[test]
fn filtered_active_is_the_unpaid_in_order() {
    let pays = list(&[(4, true), (2, false), (9, true), (1, false), (7, false)]);
    let shown = pays.filtered(Mode::Active);
    assert_eq!(ids(&shown), vec![2, 1, 7]);
    assert!(shown.iter().all(|p| !p.paid));
    assert_eq!(shown[0], pay(2, 1.0, false));
}

#[test]
fn filtered_paid_is_the_complement() {
    let pays = list(&[(4, true), (2, false), (9, true), (1, false), (7, false)]);
    let shown = pays.filtered(Mode::Paid);
    assert_eq!(ids(&shown), vec![4, 9]);
    assert!(shown.iter().all(|p| p.paid));
    let active = pays.filtered(Mode::Active);
    assert_eq!(shown.len() + active.len(), pays.0.len());
    for p in &pays.0 {
        let in_paid = shown.iter().filter(|q| q.id == p.id).count();
        let in_active = active.iter().filter(|q| q.id == p.id).count();
        assert_eq!(in_paid + in_active, 1);
    }
}

#[test]
fn filtered_of_the_empty_list_is_empty() {
    let pays = Pays::new(None);
    assert!(pays.filtered(Mode::All).is_empty());
    assert!(pays.filtered(Mode::Active).is_empty());
    assert!(pays.filtered(Mode::Paid).is_empty());
}

#[test]
fn filtered_is_a_copy() {
    let pays = list(&[(1, false), (2, true)]);
    let mut shown = pays.filtered(Mode::All);
    shown[0].toggle();
    shown.pop();
    assert_eq!(flags(&pays.0), vec![false, true]);
    assert_eq!(pays.0.len(), 2);
}

#[test]
fn filtered_follows_the_list() {
    let mut pays = list(&[(1, false), (2, false)]);
    assert_eq!(ids(&pays.filtered(Mode::Active)), vec![1, 2]);
    pays.set_paid(1, true);
    assert_eq!(ids(&pays.filtered(Mode::Active)), vec![2]);
    assert_eq!(ids(&pays.filtered(Mode::Paid)), vec![1]);
    pays.remove(2);
    assert!(pays.filtered(Mode::Active).is_empty());
}

#[test]
fn set_paid_sets_the_flag_of_one_entry() {
    let mut pays = list(&[(1, false), (2, false), (3, true)]);
    pays.set_paid(2, true);
    assert_eq!(flags(&pays.0), vec![false, true, true]);
    pays.set_paid(3, false);
    assert_eq!(flags(&pays.0), vec![false, true, false]);
    pays.set_paid(3, false);
    assert_eq!(flags(&pays.0), vec![false, true, false]);
    assert_eq!(pays.0[1], pay(2, 1.0, true));
}

#[test]
fn set_paid_of_an_absent_identifier_changes_nothing() {
    let mut pays = list(&[(1, false), (2, true)]);
    let before = pays.clone();
    pays.set_paid(5, true);
    assert_eq!(pays, before);
}

#[test]
fn list_clone_is_equal() {
    let pays = list(&[(1, false), (2, true)]);
    let copy = pays.clone();
    assert_eq!(copy, pays);
    assert_eq!(copy.0.len(), 2);
}
