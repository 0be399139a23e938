//! The budget form: the text fields that the user fills in, and the rules
//! by which their contents change the budget and the ledger.

use crate::ledger::{
    clone_transactions, entries, entry, left, lemma_spent_concat, lemma_spent_push, seed_entries,
    seed_transactions, spent, PersistedState, PersistedStateView, Rgb, Transaction,
    TransactionView,
};
use crate::money::{
    abs_value, amount_text, format_amount, lemma_parse_amount_text, lemma_unsigned_amount_text,
    parse_amount, parse_amount_spec, MAX_AMOUNT,
};
use crate::text::{lemma_trimmed_twice, lemma_trimmed_unchanged, trim, trimmed};
use vstd::prelude::*;
use vstd::string::*;

verus! {

/// Why form input was turned down.
#[derive(Debug, Clone, Copy, PartialEq, Eq, Structural)]
pub enum InputError {
    /// The budget text is no decimal numeral, or is negative.
    InvalidBudget,
    /// The quick-entry amount is no decimal numeral, or is not positive.
    InvalidAmount,
    /// The quick-entry description is blank.
    MissingDescription,
    /// The title of the full form is blank.
    MissingTitle,
    /// The amount of the full form is no decimal numeral.
    InvalidNumber,
}

/// The status line that reports `e` to the user.
pub open spec fn message_text(e: InputError) -> Seq<char> {
    match e {
        InputError::InvalidBudget => "Enter a valid non-negative number for the monthly budget."@,
        InputError::InvalidAmount => "Enter a positive number for the amount."@,
        InputError::MissingDescription => "Describe the entry before adding it."@,
        InputError::MissingTitle => "Enter a title for the transaction."@,
        InputError::InvalidNumber => "Enter a valid number for amount."@,
    }
}

impl InputError {
    /// The status line that reports this error to the user.
    pub fn message(&self) -> (r: &'static str)
        ensures
            r@ == message_text(*self),
    {
        match self {
            InputError::InvalidBudget => "Enter a valid non-negative number for the monthly budget.",
            InputError::InvalidAmount => "Enter a positive number for the amount.",
            InputError::MissingDescription => "Describe the entry before adding it.",
            InputError::MissingTitle => "Enter a title for the transaction.",
            InputError::InvalidNumber => "Enter a valid number for amount.",
        }
    }
}

/// The budget that the text `input` asks for: the amount it denotes once
/// trimmed, if that is not negative.
pub open spec fn budget_from_input(input: Seq<char>) -> Option<int> {
    match parse_amount_spec(trimmed(input)) {
        Some(v) => if v >= 0 {
            Some(v)
        } else {
            None
        },
        None => None,
    }
}

/// The entry that the quick-entry fields ask for. The amount must be
/// positive and is recorded as an expense; the description must not be
/// blank. The amount is looked at first.
pub open spec fn quick_entry(description: Seq<char>, amount: Seq<char>) -> Result<
    TransactionView,
    InputError,
> {
    match parse_amount_spec(trimmed(amount)) {
        Some(v) => if v <= 0 {
            Err(InputError::InvalidAmount)
        } else if trimmed(description).len() == 0 {
            Err(InputError::MissingDescription)
        } else {
            Ok(
                TransactionView {
                    title: trimmed(description),
                    date: "Today"@,
                    amount: -v,
                    color: Rgb { r: 88, g: 172, b: 255 },
                },
            )
        },
        None => Err(InputError::InvalidAmount),
    }
}

/// The colour that the full form gives an entry: one for an expense, another
/// for income.
pub open spec fn sign_color(amount: int) -> Rgb {
    if amount < 0 {
        Rgb { r: 230, g: 78, b: 95 }
    } else {
        Rgb { r: 110, g: 220, b: 140 }
    }
}

/// The colour in which a row of the ledger shows its amount: one for an
/// expense, another for anything else.
pub open spec fn row_color(amount: int) -> Rgb {
    if amount < 0 {
        Rgb { r: 240, g: 80, b: 100 }
    } else {
        Rgb { r: 110, g: 220, b: 140 }
    }
}

/// The colour that the full form gives an entry with this amount.
pub fn color_by_sign(amount: i64) -> (color: Rgb)
    ensures
        color == sign_color(amount as int),
{
    if amount < 0 {
        Rgb { r: 230, g: 78, b: 95 }
    } else {
        Rgb { r: 110, g: 220, b: 140 }
    }
}

/// The colour in which a row of the ledger shows this amount.
pub fn row_amount_color(amount: i64) -> (color: Rgb)
    ensures
        color == row_color(amount as int),
{
    if amount < 0 {
        Rgb { r: 240, g: 80, b: 100 }
    } else {
        Rgb { r: 110, g: 220, b: 140 }
    }
}

/// The entry that the fields of the full form ask for. The title must not
/// be blank; the amount keeps its sign. The title is looked at first.
pub open spec fn form_entry(title: Seq<char>, date: Seq<char>, amount: Seq<char>) -> Result<
    TransactionView,
    InputError,
> {
    if trimmed(title).len() == 0 {
        Err(InputError::MissingTitle)
    } else {
        match parse_amount_spec(trimmed(amount)) {
            Some(v) => Ok(
                TransactionView {
                    title: trimmed(title),
                    date: trimmed(date),
                    amount: v,
                    color: sign_color(v),
                },
            ),
            None => Err(InputError::InvalidNumber),
        }
    }
}

/// The budget and ledger with which a run starts: what was kept, or the
/// default budget of 2500.00 and the example entries.
pub open spec fn restored(saved: Option<PersistedStateView>) -> PersistedStateView {
    match saved {
        Some(state) => state,
        None => PersistedStateView { monthly_budget: 250000, transactions: seed_entries() },
    }
}

/// The ledger after the quick entries that `inputs` ask for, taken in order.
/// Each input is a description and an amount text; one that is turned down
/// adds nothing.
pub open spec fn after_quick_entries(
    txs: Seq<TransactionView>,
    inputs: Seq<(Seq<char>, Seq<char>)>,
) -> Seq<TransactionView>
    decreases inputs.len(),
{
    if inputs.len() == 0 {
        txs
    } else {
        let before = after_quick_entries(txs, inputs.drop_last());
        match quick_entry(inputs.last().0, inputs.last().1) {
            Ok(tx) => before.push(tx),
            Err(_) => before,
        }
    }
}

/// The sum of the amounts entered by those of `inputs` that are accepted as
/// quick entries.
pub open spec fn quick_entries_total(inputs: Seq<(Seq<char>, Seq<char>)>) -> int
    decreases inputs.len(),
{
    if inputs.len() == 0 {
        0
    } else {
        quick_entries_total(inputs.drop_last()) + (match quick_entry(
            inputs.last().0,
            inputs.last().1,
        ) {
            Ok(tx) => -tx.amount,
            Err(_) => 0,
        })
    }
}

/// The entries that a run of quick entries has put behind the `before`
/// entries that the ledger held.
pub open spec fn appended(before: nat, after: Seq<TransactionView>) -> Seq<TransactionView> {
    after.subrange(before as int, after.len() as int)
}

/// After any run of quick entries the ledger begins with what it held
/// before, and the total spent is what it was before plus the sum of the
/// amounts entered, which is the sum of the magnitudes of the entries put
/// behind.
pub proof fn lemma_spent_after_quick_entries(
    txs: Seq<TransactionView>,
    inputs: Seq<(Seq<char>, Seq<char>)>,
)
    ensures
        spent(after_quick_entries(txs, inputs)) == spent(txs) + quick_entries_total(inputs),
        after_quick_entries(txs, inputs).len() >= txs.len(),
        after_quick_entries(txs, inputs).subrange(0, txs.len() as int) == txs,
        spent(appended(txs.len(), after_quick_entries(txs, inputs))) == quick_entries_total(inputs),
    decreases inputs.len(),
{
    let after = after_quick_entries(txs, inputs);
    if inputs.len() == 0 {
        assert(txs.subrange(0, txs.len() as int) =~= txs);
    } else {
        lemma_spent_after_quick_entries(txs, inputs.drop_last());
        let before = after_quick_entries(txs, inputs.drop_last());
        match quick_entry(inputs.last().0, inputs.last().1) {
            Ok(tx) => {
                lemma_spent_push(before, tx);
                assert(before.push(tx).subrange(0, txs.len() as int) =~= before.subrange(
                    0,
                    txs.len() as int,
                ));
            },
            Err(_) => {},
        }
    }
    assert(after =~= txs + appended(txs.len(), after));
    lemma_spent_concat(txs, appended(txs.len(), after));
}

/// What is left is the budget less the total spent, whatever the ledger
/// holds, and an accepted quick entry lowers it by the amount entered.
pub proof fn lemma_left_after_quick_entry(
    budget: int,
    txs: Seq<TransactionView>,
    description: Seq<char>,
    amount: Seq<char>,
)
    requires
        quick_entry(description, amount) is Ok,
    ensures
        left(budget, txs) == budget - spent(txs),
        left(budget, txs.push(quick_entry(description, amount)->Ok_0)) == left(budget, txs)
            + quick_entry(description, amount)->Ok_0.amount,
        quick_entry(description, amount)->Ok_0.amount < 0,
{
    lemma_spent_push(txs, quick_entry(description, amount)->Ok_0);
}

/// Starting from what was kept gives back the budget and the ledger that
/// were kept, entry for entry and in order.
pub proof fn lemma_restored_is_kept(state: PersistedStateView)
    ensures
        restored(Some(state)) == state,
        restored(Some(state)).transactions == state.transactions,
        restored(Some(state)).monthly_budget == state.monthly_budget,
{
}

/// The text that a budget is written as is taken back as the same budget,
/// for every budget that is not negative.
pub proof fn lemma_budget_text_is_accepted(budget: int)
    requires
        0 <= budget <= MAX_AMOUNT,
    ensures
        budget_from_input(amount_text(budget)) == Some(budget),
{
    lemma_unsigned_amount_text(abs_value(budget));
    lemma_trimmed_unchanged(amount_text(budget));
    lemma_parse_amount_text(budget);
}

/// Whitespace around the text of a form field does not change what the
/// field asks for.
pub proof fn lemma_fields_are_trimmed(description: Seq<char>, amount: Seq<char>)
    ensures
        budget_from_input(trimmed(amount)) == budget_from_input(amount),
        quick_entry(trimmed(description), trimmed(amount)) == quick_entry(description, amount),
{
    lemma_trimmed_twice(description);
    lemma_trimmed_twice(amount);
}

/// The budget, the ledger, and the text fields of the forms.
#[derive(Debug)]
pub struct BudgetApp {
    /// The monthly budget, in hundredths.
    pub monthly_budget: i64,
    pub budget_input: String,
    pub entry_description: String,
    pub entry_amount: String,
    pub transactions: Vec<Transaction>,
    /// The last message for the user; empty if there is none.
    pub status: String,
    /// Whether the full form is open.
    pub show_new_tx: bool,
    pub form_title: String,
    pub form_amount: String,
    pub form_date: String,
}

impl BudgetApp {
    /// The budget and the ledger, as plain values.
    pub open spec fn kept(&self) -> PersistedStateView {
        PersistedStateView {
            monthly_budget: self.monthly_budget as int,
            transactions: entries(self.transactions@),
        }
    }

    /// Starts from what was kept, if anything was, and else from the default
    /// budget and the example entries. The forms start out empty and closed.
    pub fn from_saved(saved: Option<PersistedState>) -> (app: BudgetApp)
        ensures
            app.kept() == restored(
                match saved {
                    Some(state) => Some(state@),
                    None => None,
                },
            ),
            app.budget_input@ == (match saved {
                Some(state) => amount_text(state.monthly_budget as int),
                None => "2500"@,
            }),
            app.entry_description@.len() == 0,
            app.entry_amount@.len() == 0,
            app.status@.len() == 0,
            !app.show_new_tx,
            app.form_title@.len() == 0,
            app.form_amount@.len() == 0,
            app.form_date@ == "Today"@,
    {
        let (monthly_budget, budget_input, transactions) = match saved {
            Some(state) => (
                state.monthly_budget,
                format_amount(state.monthly_budget as i128),
                state.transactions,
            ),
            None => (250000i64, "2500".to_owned(), seed_transactions()),
        };
        BudgetApp {
            monthly_budget,
            budget_input,
            entry_description: String::new(),
            entry_amount: String::new(),
            transactions,
            status: String::new(),
            show_new_tx: false,
            form_title: String::new(),
            form_amount: String::new(),
            form_date: "Today".to_owned(),
        }
    }

    /// The sum of the magnitudes of all amounts in the ledger, in
    /// hundredths.
    pub fn total_spent(&self) -> (total: i128)
        ensures
            total == spent(entries(self.transactions@)),
    {
        crate::ledger::total_spent(&self.transactions)
    }

    /// The budget less the total spent, in hundredths. It may be negative.
    pub fn remaining(&self) -> (rest: i128)
        ensures
            rest == left(self.monthly_budget as int, entries(self.transactions@)),
            rest == self.monthly_budget - spent(entries(self.transactions@)),
    {
        crate::ledger::remaining(self.monthly_budget, &self.transactions)
    }

    /// The state to keep: the budget and a copy of the ledger.
    pub fn persisted_state(&self) -> (state: PersistedState)
        ensures
            state@ == self.kept(),
    {
        PersistedState {
            monthly_budget: self.monthly_budget,
            transactions: clone_transactions(&self.transactions),
        }
    }

    /// Sets the budget from the budget field. On success the budget is the
    /// amount entered and the caller has a changed state to keep; on failure
    /// the budget stays. Either way the status line says what happened, and
    /// nothing else changes.
    pub fn update_budget_from_input(&mut self) -> (r: Result<(), InputError>)
        ensures
            match budget_from_input(old(self).budget_input@) {
                Some(v) => {
                    &&& r is Ok
                    &&& final(self).monthly_budget == v
                    &&& final(self).status@ == "Monthly budget set to $"@ + amount_text(v)
                },
                None => {
                    &&& r == Err::<(), InputError>(InputError::InvalidBudget)
                    &&& final(self).monthly_budget == old(self).monthly_budget
                    &&& final(self).status@ == message_text(InputError::InvalidBudget)
                },
            },
            r is Ok ==> final(self).monthly_budget >= 0,
            final(self).transactions == old(self).transactions,
            final(self).budget_input == old(self).budget_input,
            final(self).entry_description == old(self).entry_description,
            final(self).entry_amount == old(self).entry_amount,
            final(self).show_new_tx == old(self).show_new_tx,
            final(self).form_title == old(self).form_title,
            final(self).form_amount == old(self).form_amount,
            final(self).form_date == old(self).form_date,
    {
        match parse_amount(trim(self.budget_input.as_str())) {
            Some(v) => {
                if v >= 0 {
                    let mut status = "Monthly budget set to $".to_owned();
                    let shown = format_amount(v as i128);
                    status.append(shown.as_str());
                    self.monthly_budget = v;
                    self.status = status;
                    return Ok(());
                }
            },
            None => {},
        }
        self.status = InputError::InvalidBudget.message().to_owned();
        Err(InputError::InvalidBudget)
    }

    /// Adds the quick entry that the description and amount fields ask for.
    /// On success the entry stands at the end of the ledger, both fields are
    /// cleared, and the caller has a changed state to keep; on failure the
    /// ledger and the fields stay. Either way the status line says what
    /// happened, and nothing else changes.
    pub fn add_entry(&mut self) -> (r: Result<(), InputError>)
        ensures
            match quick_entry(old(self).entry_description@, old(self).entry_amount@) {
                Ok(tx) => {
                    &&& r is Ok
                    &&& entries(final(self).transactions@) == entries(old(self).transactions@).push(
                        tx,
                    )
                    &&& final(self).entry_description@.len() == 0
                    &&& final(self).entry_amount@.len() == 0
                    &&& final(self).status@ == "Entry added."@
                },
                Err(e) => {
                    &&& r == Err::<(), InputError>(e)
                    &&& final(self).transactions == old(self).transactions
                    &&& final(self).entry_description == old(self).entry_description
                    &&& final(self).entry_amount == old(self).entry_amount
                    &&& final(self).status@ == message_text(e)
                },
            },
            final(self).monthly_budget == old(self).monthly_budget,
            final(self).budget_input == old(self).budget_input,
            final(self).show_new_tx == old(self).show_new_tx,
            final(self).form_title == old(self).form_title,
            final(self).form_amount == old(self).form_amount,
            final(self).form_date == old(self).form_date,
    {
        let amount: i64 = match parse_amount(trim(self.entry_amount.as_str())) {
            Some(v) => v,
            None => 0,
        };
        if amount <= 0 {
            self.status = InputError::InvalidAmount.message().to_owned();
            return Err(InputError::InvalidAmount);
        }
        let title = trim(self.entry_description.as_str());
        if title.is_empty() {
            self.status = InputError::MissingDescription.message().to_owned();
            return Err(InputError::MissingDescription);
        }
        let tx = entry(title, "Today", -amount, Rgb { r: 88, g: 172, b: 255 });
        self.transactions.push(tx);
        proof {
            assert(entries(self.transactions@) =~= entries(old(self).transactions@).push(tx@));
        }
        self.entry_description = String::new();
        self.entry_amount = String::new();
        self.status = "Entry added.".to_owned();
        Ok(())
    }

    /// Adds the entry that the full form asks for. On success the entry
    /// stands at the end of the ledger, the form is cleared and closed, and
    /// the caller has a changed state to keep; on failure the ledger and the
    /// form stay. Either way the status line says what happened, and nothing
    /// else changes.
    pub fn submit_new_tx(&mut self) -> (r: Result<(), InputError>)
        ensures
            match form_entry(
                old(self).form_title@,
                old(self).form_date@,
                old(self).form_amount@,
            ) {
                Ok(tx) => {
                    &&& r is Ok
                    &&& entries(final(self).transactions@) == entries(old(self).transactions@).push(
                        tx,
                    )
                    &&& final(self).form_title@.len() == 0
                    &&& final(self).form_amount@.len() == 0
                    &&& final(self).form_date@ == "Today"@
                    &&& final(self).status@ == "Transaction saved."@
                    &&& !final(self).show_new_tx
                },
                Err(e) => {
                    &&& r == Err::<(), InputError>(e)
                    &&& final(self).transactions == old(self).transactions
                    &&& final(self).form_title == old(self).form_title
                    &&& final(self).form_amount == old(self).form_amount
                    &&& final(self).form_date == old(self).form_date
                    &&& final(self).status@ == message_text(e)
                    &&& final(self).show_new_tx == old(self).show_new_tx
                },
            },
            final(self).monthly_budget == old(self).monthly_budget,
            final(self).budget_input == old(self).budget_input,
            final(self).entry_description == old(self).entry_description,
            final(self).entry_amount == old(self).entry_amount,
    {
        let title = trim(self.form_title.as_str());
        if title.is_empty() {
            self.status = InputError::MissingTitle.message().to_owned();
            return Err(InputError::MissingTitle);
        }
        match parse_amount(trim(self.form_amount.as_str())) {
            Some(amount) => {
                let tx = entry(
                    title,
                    trim(self.form_date.as_str()),
                    amount,
                    color_by_sign(amount),
                );
                self.transactions.push(tx);
                proof {
                    assert(entries(self.transactions@) =~= entries(old(self).transactions@).push(
                        tx@,
                    ));
                }
                self.form_title = String::new();
                self.form_amount = String::new();
                self.form_date = "Today".to_owned();
                self.status = "Transaction saved.".to_owned();
                self.show_new_tx = false;
                Ok(())
            },
            None => {
                self.status = InputError::InvalidNumber.message().to_owned();
                Err(InputError::InvalidNumber)
            },
        }
    }
}

} // verus!
