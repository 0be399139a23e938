//! The ledger: transactions in the order in which they were entered, the
//! state that is kept between runs, and the totals derived from them.

use crate::money::abs_value;
use vstd::prelude::*;
use vstd::string::*;

verus! {

/// A colour, by its red, green and blue parts.
#[derive(Debug, Clone, Copy, PartialEq, Eq, Structural)]
pub struct Rgb {
    pub r: u8,
    pub g: u8,
    pub b: u8,
}

/// One ledger entry. `amount` is in hundredths: negative for an expense,
/// positive for income. `date` is a free-form label.
#[derive(Debug, PartialEq, Eq)]
pub struct Transaction {
    pub title: String,
    pub date: String,
    pub amount: i64,
    pub color: Rgb,
}

/// What a `Transaction` holds, as plain values.
pub struct TransactionView {
    pub title: Seq<char>,
    pub date: Seq<char>,
    pub amount: int,
    pub color: Rgb,
}

impl View for Transaction {
    type V = TransactionView;

    open spec fn view(&self) -> TransactionView {
        TransactionView {
            title: self.title@,
            date: self.date@,
            amount: self.amount as int,
            color: self.color,
        }
    }
}

impl Clone for Transaction {
    fn clone(&self) -> (r: Self)
        ensures
            r@ == self@,
    {
        Transaction {
            title: self.title.clone(),
            date: self.date.clone(),
            amount: self.amount,
            color: self.color,
        }
    }
}

/// The entries of `txs`, in order, as plain values.
pub open spec fn entries(txs: Seq<Transaction>) -> Seq<TransactionView> {
    Seq::new(txs.len(), |i: int| txs[i]@)
}

/// The state kept between runs: the monthly budget, in hundredths, and the
/// transactions in order.
#[derive(Debug, PartialEq, Eq)]
pub struct PersistedState {
    pub monthly_budget: i64,
    pub transactions: Vec<Transaction>,
}

/// What a `PersistedState` holds, as plain values.
pub struct PersistedStateView {
    pub monthly_budget: int,
    pub transactions: Seq<TransactionView>,
}

impl View for PersistedState {
    type V = PersistedStateView;

    open spec fn view(&self) -> PersistedStateView {
        PersistedStateView {
            monthly_budget: self.monthly_budget as int,
            transactions: entries(self.transactions@),
        }
    }
}

/// The sum of the magnitudes of all amounts in `txs`. Income counts towards
/// it as an expense does.
pub open spec fn spent(txs: Seq<TransactionView>) -> int
    decreases txs.len(),
{
    if txs.len() == 0 {
        0
    } else {
        spent(txs.drop_last()) + abs_value(txs.last().amount)
    }
}

/// What is left of `budget` after `txs`. It may be negative.
pub open spec fn left(budget: int, txs: Seq<TransactionView>) -> int {
    budget - spent(txs)
}

/// The spending of a ledger followed by another is the sum of both.
pub proof fn lemma_spent_concat(a: Seq<TransactionView>, b: Seq<TransactionView>)
    ensures
        spent(a + b) == spent(a) + spent(b),
    decreases b.len(),
{
    if b.len() == 0 {
        assert(a + b =~= a);
    } else {
        assert((a + b).drop_last() =~= a + b.drop_last());
        lemma_spent_concat(a, b.drop_last());
    }
}

/// Appending one entry raises the spending by the magnitude of its amount.
pub proof fn lemma_spent_push(txs: Seq<TransactionView>, tx: TransactionView)
    ensures
        spent(txs.push(tx)) == spent(txs) + abs_value(tx.amount),
{
    assert(txs.push(tx).drop_last() =~= txs);
}

/// Spending is never negative, and at most 2^63 hundredths for each entry.
pub proof fn lemma_spent_bounds(txs: Seq<Transaction>)
    ensures
        0 <= spent(entries(txs)) <= txs.len() * 0x8000_0000_0000_0000,
    decreases txs.len(),
{
    if txs.len() > 0 {
        assert(entries(txs).drop_last() =~= entries(txs.drop_last()));
        lemma_spent_bounds(txs.drop_last());
    }
}

/// The sum of the magnitudes of all amounts in `txs`, in hundredths.
pub fn total_spent(txs: &Vec<Transaction>) -> (total: i128)
    ensures
        total == spent(entries(txs@)),
{
    let n: usize = txs.len();
    let mut total: i128 = 0;
    let mut i: usize = 0;
    while i < n
        invariant
            i <= n,
            n == txs@.len(),
            total == spent(entries(txs@.subrange(0, i as int))),
            0 <= total <= i * 0x8000_0000_0000_0000,
        decreases n - i,
    {
        let amount: i128 = txs[i].amount as i128;
        let size: i128 = if amount < 0 {
            -amount
        } else {
            amount
        };
        proof {
            let before = txs@.subrange(0, i as int);
            let after = txs@.subrange(0, i + 1);
            assert(entries(after).drop_last() =~= entries(before));
            assert(entries(after).last() == txs@[i as int]@);
        }
        total = total + size;
        i += 1;
    }
    proof {
        assert(txs@.subrange(0, n as int) =~= txs@);
    }
    total
}

/// What is left of `budget` after `txs`, in hundredths. It may be negative.
pub fn remaining(budget: i64, txs: &Vec<Transaction>) -> (rest: i128)
    ensures
        rest == left(budget as int, entries(txs@)),
{
    let n: usize = txs.len();
    proof {
        lemma_spent_bounds(txs@);
        assert(spent(entries(txs@)) <= n * 0x8000_0000_0000_0000);
    }
    budget as i128 - total_spent(txs)
}

/// Copies a ledger, entry by entry.
pub fn clone_transactions(txs: &Vec<Transaction>) -> (copy: Vec<Transaction>)
    ensures
        entries(copy@) == entries(txs@),
{
    let mut copy: Vec<Transaction> = Vec::new();
    let mut i: usize = 0;
    while i < txs.len()
        invariant
            i <= txs@.len(),
            entries(copy@) =~= entries(txs@.subrange(0, i as int)),
            copy@.len() == i,
        decreases txs@.len() - i,
    {
        let ghost before = copy@;
        let tx = txs[i].clone();
        copy.push(tx);
        proof {
            let part = txs@.subrange(0, i as int);
            let next = txs@.subrange(0, i + 1);
            assert forall|j: int| 0 <= j < i + 1 implies entries(copy@)[j] == entries(next)[j] by {
                if j < i {
                    assert(entries(before)[j] == entries(part)[j]);
                }
            }
        }
        i += 1;
    }
    proof {
        assert(txs@.subrange(0, i as int) =~= txs@);
    }
    copy
}

/// The five example entries with which a ledger starts when nothing was
/// kept.
pub open spec fn seed_entries() -> Seq<TransactionView> {
    seq![
        TransactionView {
            title: "teva overflow"@,
            date: "Aug 31, 2023"@,
            amount: -45800,
            color: Rgb { r: 42, g: 201, b: 121 },
        },
        TransactionView {
            title: "mcdonald"@,
            date: "Aug 30, 2023"@,
            amount: -11946,
            color: Rgb { r: 230, g: 78, b: 95 },
        },
        TransactionView {
            title: "bath and bodyworks"@,
            date: "Aug 30, 2023"@,
            amount: -8000,
            color: Rgb { r: 110, g: 133, b: 255 },
        },
        TransactionView {
            title: "dominos pizza"@,
            date: "Aug 28, 2023"@,
            amount: -8100,
            color: Rgb { r: 230, g: 156, b: 71 },
        },
        TransactionView {
            title: "dr.locker"@,
            date: "Aug 28, 2023"@,
            amount: -4000,
            color: Rgb { r: 180, g: 180, b: 200 },
        },
    ]
}

/// Builds one entry from its parts.
pub fn entry(title: &str, date: &str, amount: i64, color: Rgb) -> (tx: Transaction)
    ensures
        tx@ == (TransactionView { title: title@, date: date@, amount: amount as int, color }),
{
    Transaction { title: title.to_owned(), date: date.to_owned(), amount, color }
}

/// The five example entries with which a ledger starts when nothing was
/// kept.
pub fn seed_transactions() -> (txs: Vec<Transaction>)
    ensures
        entries(txs@) == seed_entries(),
{
    let mut txs: Vec<Transaction> = Vec::new();
    txs.push(entry("teva overflow", "Aug 31, 2023", -45800, Rgb { r: 42, g: 201, b: 121 }));
    txs.push(entry("mcdonald", "Aug 30, 2023", -11946, Rgb { r: 230, g: 78, b: 95 }));
    txs.push(entry("bath and bodyworks", "Aug 30, 2023", -8000, Rgb { r: 110, g: 133, b: 255 }));
    txs.push(entry("dominos pizza", "Aug 28, 2023", -8100, Rgb { r: 230, g: 156, b: 71 }));
    txs.push(entry("dr.locker", "Aug 28, 2023", -4000, Rgb { r: 180, g: 180, b: 200 }));
    proof {
        assert(entries(txs@) =~= seed_entries());
    }
    txs
}

} // verus!
