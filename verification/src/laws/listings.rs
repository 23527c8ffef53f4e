//! What holds of the lists of accounts and contracts.
use crate::chain::{Ledger, Reply, RequestView};
use crate::model::{CommandStepView, CommandTaskView, SessionView, StageView, StartTaskView};
use crate::settings::{Account, Listing};
use vstd::prelude::*;

verus! {

/// An account that is one of the initial ones is called by its address and its
/// name, wherever among them it stands. Of several with its address the first gives
/// the name.
pub proof fn initial_accounts_are_called_by_name(s: SessionView, i: int)
    requires
        0 <= i < s.settings.initial_accounts@.len(),
        forall|j: int|
            0 <= j < i ==> (#[trigger] s.settings.initial_accounts@[j]).address@
                != s.settings.initial_accounts@[i].address@,
    ensures
        ({
            let account = s.settings.initial_accounts@[i];
            crate::model::account_label(s, account.address@) == account.address@ + " ("@
                + account.name@ + ")"@
        }),
{
    lemma_name_of(s.settings.initial_accounts@, i, 0);
}

proof fn lemma_name_of(accounts: Seq<Account>, i: int, from: int)
    requires
        0 <= from <= i < accounts.len(),
        forall|j: int| 0 <= j < i ==> (#[trigger] accounts[j]).address@ != accounts[i].address@,
    ensures
        crate::model::account_name(accounts, accounts[i].address@, from) == Some(
            accounts[i].name@,
        ),
    decreases i - from,
{
    if from < i {
        assert(accounts[from].address@ != accounts[i].address@);
        lemma_name_of(accounts, i, from + 1);
    }
}

/// An account that is none of the initial ones is called by its address alone.
pub proof fn other_accounts_are_called_by_address(s: SessionView, address: Seq<char>)
    requires
        forall|j: int|
            0 <= j < s.settings.initial_accounts@.len() ==> (
            #[trigger] s.settings.initial_accounts@[j]).address@ != address,
    ensures
        crate::model::account_label(s, address) == address,
{
    lemma_no_name(s.settings.initial_accounts@, address, 0);
}

proof fn lemma_no_name(accounts: Seq<Account>, address: Seq<char>, from: int)
    requires
        0 <= from <= accounts.len(),
        forall|j: int| 0 <= j < accounts.len() ==> (#[trigger] accounts[j]).address@ != address,
    ensures
        crate::model::account_name(accounts, address, from) is None,
    decreases accounts.len() - from,
{
    if from < accounts.len() {
        assert(accounts[from].address@ != address);
        lemma_no_name(accounts, address, from + 1);
    }
}

/// A session that draws tables asks for the ledger and shows one table of all its
/// accounts, or nothing where there are none, and is not changed by that. One that
/// lists plainly asks nothing and shows a line for each initial account.
pub proof fn accounts_are_listed(s: SessionView, command: Seq<char>, ledger: Ledger)
    requires
        "::get_accounts"@.is_prefix_of(command),
    ensures
        s.listing == Listing::Table ==> crate::model::command_step(s, command)
            == CommandStepView::Ask(RequestView::ReadLedger, CommandTaskView::Accounts),
        ({
            let (after, step) = crate::model::command_resumed(
                s,
                CommandTaskView::Accounts,
                Reply::Ledger(ledger),
                Seq::empty(),
            );
            &&& after == s
            &&& step == CommandStepView::Done(
                if ledger.accounts@.len() == 0 {
                    Seq::empty()
                } else {
                    seq![crate::table::table_text(crate::model::account_rows(s, ledger))]
                },
            )
        }),
        s.listing == Listing::Plain ==> {
            let step = crate::model::command_step(s, command);
            let accounts = s.settings.initial_accounts@;
            &&& step is Done
            &&& step->Done_0.len() == accounts.len()
            &&& forall|i: int|
                0 <= i < accounts.len() ==> step->Done_0[i] == (#[trigger] accounts[i]).address@
                    + ": "@ + crate::text::decimal(accounts[i].balance as nat) + " ("@
                    + accounts[i].name@ + ")"@
        },
{
    super::commands::commands_are_known_by_how_they_begin(command);
}

/// The contracts of a session are listed in the order in which they were stored: in
/// a table one row for each, with its identifier and its description, under a head,
/// or plainly one line for each, with its identifier. A session without initial
/// contracts lists none.
pub proof fn contracts_are_listed(s: SessionView, command: Seq<char>)
    requires
        "::get_contracts"@.is_prefix_of(command),
    ensures
        ({
            let step = crate::model::command_step(s, command);
            let rows = crate::model::contract_rows(s);
            let lines = step->Done_0;
            &&& step is Done
            &&& lines == crate::model::contract_lines(s)
            &&& s.settings.initial_contracts@.len() == 0 ==> lines.len() == 0
            &&& s.settings.initial_contracts@.len() > 0 && s.listing == Listing::Table ==> lines
                == seq![crate::table::table_text(rows)]
            &&& s.settings.initial_contracts@.len() > 0 && s.listing == Listing::Plain ==> {
                &&& lines.len() == s.contracts.len()
                &&& forall|i: int|
                    0 <= i < s.contracts.len() ==> lines[i] == (#[trigger] s.contracts[i]).0
            }
            &&& rows.len() == 1 + s.contracts.len()
            &&& rows[0] == seq!["Contract identifier"@, "Public functions"@]
            &&& forall|i: int|
                0 <= i < s.contracts.len() ==> rows[i + 1] == seq![
                    (#[trigger] s.contracts[i]).0,
                    s.contracts[i].1,
                ]
        }),
{
    super::commands::commands_are_known_by_how_they_begin(command);
    assert(crate::model::contract_rows(s)[0] =~= seq![
        "Contract identifier"@,
        "Public functions"@,
    ]);
}

/// A table of contracts can be drawn if and only if every identifier and every
/// description can be measured; without a table there is nothing to measure.
pub proof fn contract_tables_have_to_be_measurable(s: SessionView, command: Seq<char>)
    ensures
        crate::model::contracts_listable(s) <==> {
            ||| s.settings.initial_contracts@.len() == 0
            ||| s.listing == Listing::Plain
            ||| forall|i: int|
                0 <= i < s.contracts.len() ==> crate::table::measurable(
                    (#[trigger] s.contracts[i]).0,
                ) && crate::table::measurable(s.contracts[i].1)
        },
        crate::model::takes_command(s, command) <==> !"::get_contracts"@.is_prefix_of(command)
            || crate::model::contracts_listable(s),
{
    super::commands::commands_are_known_by_how_they_begin(command);
    let rows = crate::model::contract_rows(s);
    contracts_are_listed_as_rows(s);
    reveal_strlit("Contract identifier");
    reveal_strlit("Public functions");
    crate::table::plain_text_is_measurable("Contract identifier"@);
    crate::table::plain_text_is_measurable("Public functions"@);
    if crate::table::all_measurable(rows) {
        assert forall|i: int| 0 <= i < s.contracts.len() implies crate::table::measurable(
            (#[trigger] s.contracts[i]).0,
        ) && crate::table::measurable(s.contracts[i].1) by {
            assert(crate::table::measurable(rows[i + 1][0]));
            assert(crate::table::measurable(rows[i + 1][1]));
        }
    }
    if forall|i: int|
        0 <= i < s.contracts.len() ==> crate::table::measurable((#[trigger] s.contracts[i]).0)
            && crate::table::measurable(s.contracts[i].1) {
        assert forall|i: int, j: int|
            0 <= i < rows.len() && 0 <= j < rows[i].len() implies crate::table::measurable(
            #[trigger] rows[i][j],
        ) by {
            if i > 0 {
                assert(crate::table::measurable(s.contracts[i - 1].0));
            }
        }
    }
}

proof fn contracts_are_listed_as_rows(s: SessionView)
    ensures
        ({
            let rows = crate::model::contract_rows(s);
            &&& rows.len() == 1 + s.contracts.len()
            &&& rows[0] == seq!["Contract identifier"@, "Public functions"@]
            &&& forall|i: int|
                1 <= i < rows.len() ==> #[trigger] rows[i] == seq![
                    s.contracts[i - 1].0,
                    s.contracts[i - 1].1,
                ]
        }),
{
}

/// A ledger is taken if and only if it has a balance for every account and token,
/// and, where it has accounts, the names of its tokens and the labels of its
/// accounts can be measured.
pub proof fn ledgers_have_to_be_complete_and_measurable(
    s: SessionView,
    ledger: Ledger,
    output: Seq<Seq<char>>,
)
    ensures
        crate::model::command_accepts(s, CommandTaskView::Accounts, Reply::Ledger(ledger)) <==> {
            &&& forall|i: int|
                0 <= i < ledger.accounts@.len() ==> (
                #[trigger] ledger.accounts@[i]).balances@.len() == ledger.tokens@.len()
            &&& ledger.accounts@.len() > 0 ==> {
                &&& forall|t: int|
                    0 <= t < ledger.tokens@.len() ==> crate::table::measurable(
                        (#[trigger] ledger.tokens@[t])@,
                    )
                &&& forall|i: int|
                    0 <= i < ledger.accounts@.len() ==> crate::table::measurable(
                        crate::model::account_label(
                            s,
                            (#[trigger] ledger.accounts@[i]).address@,
                        ),
                    )
            }
        },
        crate::model::start_accepts(
            s,
            StartTaskView { output, stage: StageView::Balances },
            Reply::Ledger(ledger),
        ) == crate::model::command_accepts(s, CommandTaskView::Accounts, Reply::Ledger(ledger)),
{
    let rows = crate::model::account_rows(s, ledger);
    let tokens = ledger.tokens@;
    let accounts = ledger.accounts@;
    assert(ledger.tokens.deep_view().len() == tokens.len());
    reveal_strlit("Address");
    crate::table::plain_text_is_measurable("Address"@);
    assert(rows[0] =~= seq!["Address"@] + ledger.tokens.deep_view());
    if crate::table::all_measurable(rows) {
        assert forall|t: int| 0 <= t < tokens.len() implies crate::table::measurable(
            (#[trigger] tokens[t])@,
        ) by {
            assert(rows[0][t + 1] == tokens[t]@);
        }
        assert forall|i: int| 0 <= i < accounts.len() implies crate::table::measurable(
            crate::model::account_label(s, (#[trigger] accounts[i]).address@),
        ) by {
            assert(crate::table::measurable(rows[i + 1][0]));
        }
    }
    if (forall|t: int|
        0 <= t < tokens.len() ==> crate::table::measurable((#[trigger] tokens[t])@)) && (forall|
        i: int,
    |
        0 <= i < accounts.len() ==> crate::table::measurable(
            crate::model::account_label(s, (#[trigger] accounts[i]).address@),
        )) {
        assert forall|i: int, j: int|
            0 <= i < rows.len() && 0 <= j < rows[i].len() implies crate::table::measurable(
            #[trigger] rows[i][j],
        ) by {
            if i == 0 {
                if j > 0 {
                    assert(rows[0][j] == tokens[j - 1]@);
                }
            } else {
                let row = accounts[i - 1];
                assert(rows[i] == crate::model::account_cells(s, row));
                if j > 0 {
                    lemma_numbers_are_measurable(row.balances@[j - 1] as nat);
                    assert(rows[i][j] == crate::text::decimal(row.balances@[j - 1] as nat));
                }
            }
        }
    }
}

proof fn lemma_numbers_are_measurable(n: nat)
    ensures
        crate::table::measurable(crate::text::decimal(n)),
{
    crate::text::decimal_then_number(n, n);
    let text = crate::text::decimal(n);
    if text.contains('\x1B') {
        let k = choose|k: int| 0 <= k < text.len() && text[k] == '\x1B';
        assert(crate::text::is_digit(text[k]));
    }
    crate::table::plain_text_is_measurable(text);
}

} // verus!
