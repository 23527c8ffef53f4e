//! What holds of a start, step by step.
use crate::chain::{Ledger, Reply, RequestView, RunOutcome};
use crate::diagnostic::Diagnostic;
use crate::model::{SessionView, StageView, StartStepView, StartTaskView};
use crate::settings::Listing;
use vstd::prelude::*;

verus! {

/// A start goes to its initial accounts first, one after the other: the address of
/// each is parsed, and its balance is put down for the credit.
pub proof fn accounts_come_first(s: SessionView, output: Seq<Seq<char>>, k: int)
    requires
        0 <= k < s.settings.initial_accounts@.len(),
    ensures
        crate::model::credit_from(s, output, k) == StartStepView::Ask(
            RequestView::ParsePrincipal(s.settings.initial_accounts@[k].address@),
            StartTaskView {
                output,
                stage: StageView::Recipient {
                    address: s.settings.initial_accounts@[k].address@,
                    balance: s.settings.initial_accounts@[k].balance,
                    next: (k + 1) as usize,
                },
            },
        ),
        crate::model::start_step(s) == crate::model::credit_from(s, Seq::empty(), 0),
{
}

/// An account whose address stands for a principal is credited with its balance. One
/// whose address stands for nobody, or whose credit is refused, is told in red, and
/// one that was credited is not told. Then it is the turn of the next account, or of
/// the first contract behind the last account, and the session is as it was.
pub proof fn accounts_are_credited(
    s: SessionView,
    output: Seq<Seq<char>>,
    address: Seq<char>,
    balance: u64,
    next: usize,
    message: String,
)
    ensures
        ({
            let parse = StartTaskView {
                output,
                stage: StageView::Recipient { address, balance, next },
            };
            let credit = StartTaskView { output, stage: StageView::Credit { next } };
            &&& crate::model::start_resumed(s, parse, Reply::Principal(true)) == (
                s,
                StartStepView::Ask(RequestView::CreditStx(address, balance), credit),
            )
            &&& crate::model::start_resumed(s, parse, Reply::Principal(false)) == (
                s,
                crate::model::credit_from(
                    s,
                    output.push(crate::model::red("Unable to parse address to credit"@)),
                    next as int,
                ),
            )
            &&& crate::model::start_resumed(s, credit, Reply::Credited(Ok(message))) == (
                s,
                crate::model::credit_from(s, output, next as int),
            )
            &&& crate::model::start_resumed(s, credit, Reply::Credited(Err(message))) == (
                s,
                crate::model::credit_from(
                    s,
                    output.push(crate::model::red(message@)),
                    next as int,
                ),
            )
        }),
        crate::model::start_step(s) == crate::model::credit_from(s, Seq::empty(), 0),
        next >= s.settings.initial_accounts@.len() ==> crate::model::credit_from(
            s,
            output,
            next as int,
        ) == crate::model::load_from(s, output, 0),
{
    let credit = StartTaskView { output, stage: StageView::Credit { next } };
    assert(output + Seq::<Seq<char>>::empty() =~= output);
    assert(output + seq![crate::model::red(message@)] =~= output.push(
        crate::model::red(message@),
    ));
}

/// An initial contract with a name is deployed under that name, as one of the
/// sender's, whichever of the initial contracts it is and whatever the session has
/// stored by then. One without a name is numbered by the contracts stored by then.
pub proof fn initial_contracts_keep_their_names(s: SessionView, output: Seq<Seq<char>>, k: int)
    requires
        0 <= k < s.settings.initial_contracts@.len(),
    ensures
        ({
            let contract = s.settings.initial_contracts@[k];
            let name = match contract.name {
                Some(name) => name@,
                None => "contract-"@ + crate::text::decimal(s.contracts.len()),
            };
            crate::model::load_from(s, output, k) == StartStepView::Ask(
                RequestView::ParseContractId(s.tx_sender + "."@ + name),
                StartTaskView {
                    output,
                    stage: StageView::Identify {
                        snippet: contract.code@,
                        name,
                        next: (k + 1) as usize,
                    },
                },
            )
        }),
{
}

/// A contract runs for the sender under the identifier that was parsed for it. If it
/// was stored it joins the contracts. Nothing is told of one that ran well; of one
/// that failed, what a command would tell. Then the next contract is deployed, under
/// its own name if it has one, whatever came of this one.
pub proof fn contracts_are_deployed_in_turn(
    s: SessionView,
    output: Seq<Seq<char>>,
    snippet: Seq<char>,
    name: Seq<char>,
    contract_id: String,
    next: usize,
    outcome: RunOutcome,
    own_name: String,
)
    ensures
        ({
            let identify = StartTaskView {
                output,
                stage: StageView::Identify { snippet, name, next },
            };
            let run = StartTaskView {
                output,
                stage: StageView::Contract { snippet, name, contract_id: contract_id@, next },
            };
            let (after, step) = crate::model::start_resumed(s, run, Reply::Ran(outcome));
            let contracts = s.settings.initial_contracts@;
            &&& crate::model::start_resumed(s, identify, Reply::ContractId(Some(contract_id))) == (
                s,
                StartStepView::Ask(
                    RequestView::Run {
                        tx_sender: s.tx_sender,
                        contract_id: contract_id@,
                        snippet,
                    },
                    run,
                ),
            )
            &&& after == crate::model::recorded(s, contract_id@, outcome)
            &&& outcome is Ok ==> step == crate::model::load_from(after, output, next as int)
            &&& next < contracts.len() && contracts[next as int].name == Some(own_name) ==> {
                &&& step matches StartStepView::Ask(RequestView::ParseContractId(asked), _)
                &&& asked == s.tx_sender + "."@ + own_name@
            }
        }),
{
    assert(output + Seq::<Seq<char>>::empty() =~= output);
}

/// Of a contract that failed, a start tells the message and, where the error points
/// at code, all its lines with the spans painted, behind what it had to tell before.
pub proof fn failed_deployments_are_told(
    s: SessionView,
    output: Seq<Seq<char>>,
    snippet: Seq<char>,
    name: Seq<char>,
    contract_id: Seq<char>,
    next: usize,
    message: String,
    diagnostic: Option<Diagnostic>,
)
    ensures
        ({
            let run = StartTaskView {
                output,
                stage: StageView::Contract { snippet, name, contract_id, next },
            };
            let told = output.push(crate::model::red(message@));
            let (after, step) = crate::model::start_resumed(
                s,
                run,
                Reply::Ran(Err((message, diagnostic))),
            );
            &&& after == s
            &&& diagnostic is None ==> step == crate::model::load_from(s, told, next as int)
            &&& diagnostic matches Some(diagnostic) ==> step == crate::model::load_from(
                s,
                if diagnostic.spans@.len() == 0 {
                    told
                } else {
                    told + crate::diagnostic::highlighted(
                        crate::text::lines_of(snippet),
                        diagnostic.spans@,
                    )
                },
                next as int,
            )
        }),
{
    let told = output.push(crate::model::red(message@));
    let none: Seq<Seq<char>> = Seq::empty();
    assert(output + (seq![crate::model::red(message@)] + none) =~= told);
    if let Some(diagnostic) = diagnostic {
        let code = crate::diagnostic::highlighted(
            crate::text::lines_of(snippet),
            diagnostic.spans@,
        );
        assert(output + (seq![crate::model::red(message@)] + code) =~= told + code);
    }
}

/// When all contracts have run, they are listed under a title, if there are initial
/// ones. Then the accounts are listed under a title, if there are initial ones: as a
/// table when the ledger has been read, or at once as lines. All that was told is
/// joined to one text, line by line.
pub proof fn starts_end_in_two_lists(
    s: SessionView,
    output: Seq<Seq<char>>,
    next: int,
    ledger: Ledger,
)
    requires
        next >= s.settings.initial_contracts@.len(),
    ensures
        ({
            let first = if s.settings.initial_contracts@.len() > 0 {
                output + seq![crate::model::blue("Initialized contracts"@)]
                    + crate::model::contract_lines(s)
            } else {
                output
            };
            let titled = first + seq![crate::model::blue("Initialized balances"@)];
            let step = crate::model::load_from(s, output, next);
            let read = StartTaskView { output: titled, stage: StageView::Balances };
            let shown = if ledger.accounts@.len() > 0 {
                titled + seq![crate::table::table_text(crate::model::account_rows(s, ledger))]
            } else {
                titled
            };
            &&& s.settings.initial_accounts@.len() == 0 ==> step == StartStepView::Done(
                crate::text::joined(first, seq!['\n']),
            )
            &&& s.settings.initial_accounts@.len() > 0 && s.listing == Listing::Table ==> step
                == StartStepView::Ask(RequestView::ReadLedger, read)
            &&& s.settings.initial_accounts@.len() > 0 && s.listing == Listing::Plain ==> step
                == StartStepView::Done(
                crate::text::joined(titled + crate::model::account_lines(s), seq!['\n']),
            )
            &&& crate::model::start_resumed(s, read, Reply::Ledger(ledger)) == (
                s,
                StartStepView::Done(crate::text::joined(shown, seq!['\n'])),
            )
        }),
        crate::model::account_lines(s).len() == s.settings.initial_accounts@.len(),
        forall|i: int|
            0 <= i < s.settings.initial_accounts@.len() ==> #[trigger] crate::model::account_lines(
                s,
            )[i] == s.settings.initial_accounts@[i].address@ + ": "@ + crate::text::decimal(
                s.settings.initial_accounts@[i].balance as nat,
            ) + " ("@ + s.settings.initial_accounts@[i].name@ + ")"@,
{
    reveal_strlit("\n");
    assert("\n"@ =~= seq!['\n']);
    let blue = crate::model::blue("Initialized contracts"@);
    assert(output.push(blue) =~= output + seq![blue]);
    let first = if s.settings.initial_contracts@.len() > 0 {
        output + seq![blue] + crate::model::contract_lines(s)
    } else {
        output
    };
    let title = crate::model::blue("Initialized balances"@);
    let titled = first + seq![title];
    assert(first.push(title) =~= titled);
    assert(titled + Seq::<Seq<char>>::empty() =~= titled);
}

/// The reply that a start waits for is of the kind that was asked for. An identifier
/// has to be good, an error has to point into the code, and behind the last contract
/// the contracts have to be listable.
pub proof fn starts_take_the_reply_they_wait_for(
    s: SessionView,
    output: Seq<Seq<char>>,
    text: Seq<char>,
    name: Seq<char>,
    contract_id: Seq<char>,
    balance: u64,
    next: usize,
    reply: Reply,
)
    ensures
        crate::model::start_accepts(
            s,
            StartTaskView {
                output,
                stage: StageView::Recipient { address: text, balance, next },
            },
            reply,
        ) == reply is Principal,
        crate::model::start_accepts(
            s,
            StartTaskView { output, stage: StageView::Credit { next } },
            reply,
        ) == reply is Credited,
        crate::model::start_accepts(
            s,
            StartTaskView { output, stage: StageView::Identify { snippet: text, name, next } },
            reply,
        ) == (reply matches Reply::ContractId(Some(_))),
        crate::model::start_accepts(
            s,
            StartTaskView {
                output,
                stage: StageView::Contract { snippet: text, name, contract_id, next },
            },
            reply,
        ) == (reply matches Reply::Ran(outcome) && crate::model::points_into(text, outcome) && (
        next < s.settings.initial_contracts@.len() || crate::model::contracts_listable(
            crate::model::recorded(s, contract_id, outcome),
        ))),
        crate::model::start_accepts(
            s,
            StartTaskView { output, stage: StageView::Balances },
            reply,
        ) ==> reply is Ledger,
{
}

} // verus!
