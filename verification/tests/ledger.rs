use dybudget::ledger::{
    clone_transactions, entry, remaining, seed_transactions, total_spent, Rgb, Transaction,
};

fn tx(amount: i64) -> Transaction {
    entry("t", "d", amount, Rgb { r: 1, g: 2, b: 3 })
}

#[test]
fn seed_is_the_five_example_entries() {
    let seed = seed_transactions();
    assert_eq!(seed.len(), 5);
    assert_eq!(seed[0], entry("teva overflow", "Aug 31, 2023", -45800, Rgb { r: 42, g: 201, b: 121 }));
    assert_eq!(seed[1], entry("mcdonald", "Aug 30, 2023", -11946, Rgb { r: 230, g: 78, b: 95 }));
    assert_eq!(seed[2], entry("bath and bodyworks", "Aug 30, 2023", -8000, Rgb { r: 110, g: 133, b: 255 }));
    assert_eq!(seed[3], entry("dominos pizza", "Aug 28, 2023", -8100, Rgb { r: 230, g: 156, b: 71 }));
    assert_eq!(seed[4], entry("dr.locker", "Aug 28, 2023", -4000, Rgb { r: 180, g: 180, b: 200 }));
}

#[test]
fn total_spent_of_the_seed() {
    assert_eq!(total_spent(&seed_transactions()), 77846);
}

#[test]
fn total_spent_of_nothing_is_zero() {
    assert_eq!(total_spent(&Vec::new()), 0);
    assert_eq!(remaining(250000, &Vec::new()), 250000);
}

#[test]
fn total_spent_counts_income_as_spending() {
    let txs = vec![tx(-1000), tx(2500), tx(0), tx(-1)];
    assert_eq!(total_spent(&txs), 3501);
    assert_eq!(remaining(3000, &txs), -501);
}

#[test]
fn total_spent_holds_the_largest_magnitudes() {
    let txs = vec![tx(i64::MIN), tx(i64::MAX), tx(i64::MIN)];
    let expected: i128 = 3 * (1i128 << 63) - 1;
    assert_eq!(total_spent(&txs), expected);
    assert_eq!(remaining(i64::MIN, &txs), -(1i128 << 63) - expected);
}

#[test]
fn remaining_is_budget_less_total_spent() {
    let seed = seed_transactions();
    assert_eq!(remaining(250000, &seed), 250000 - 77846);
    assert_eq!(remaining(0, &seed), -77846);
    assert_eq!(remaining(-500, &seed), -500 - total_spent(&seed));
}

#[test]
fn entry_keeps_its_parts() {
    let t = entry("Coffee", "Today", -350, Rgb { r: 88, g: 172, b: 255 });
    assert_eq!(t.title, "Coffee");
    assert_eq!(t.date, "Today");
    assert_eq!(t.amount, -350);
    assert_eq!(t.color, Rgb { r: 88, g: 172, b: 255 });
    assert_eq!(t.clone(), t);
}

#[test]
fn clone_transactions_keeps_order_and_contents() {
    let seed = seed_transactions();
    let copy = clone_transactions(&seed);
    assert_eq!(copy, seed);
    assert_eq!(clone_transactions(&Vec::new()), Vec::new());
}
