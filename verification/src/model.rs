//! What a session is and does, as mathematics: the state, what each command asks
//! for, and how the session goes on with a reply.
use crate::chain::{AccountRow, Ledger, Reply, RequestView, RunOutcome, RunReport, StepView};
use crate::diagnostic::Diagnostic;
use crate::paint::Colour;
use crate::settings::{Account, Listing, SessionSettings};
use vstd::prelude::*;

verus! {

/// The state of a session.
pub struct SessionView {
    /// What it started from.
    pub settings: SessionSettings,
    /// How it lists accounts and contracts.
    pub listing: Listing,
    /// The address that sends its transactions.
    pub tx_sender: Seq<char>,
    /// The contracts that it has stored: identifier and description of each.
    pub contracts: Seq<(Seq<char>, Seq<char>)>,
    /// The reference manual.
    pub reference: Map<Seq<char>, Seq<char>>,
}

// ---- colours ----

/// Text in red: something went wrong.
pub open spec fn red(text: Seq<char>) -> Seq<char> {
    crate::paint::painted(crate::paint::plain(Colour::Red), text)
}

/// Text in green: something was done.
pub open spec fn green(text: Seq<char>) -> Seq<char> {
    crate::paint::painted(crate::paint::plain(Colour::Green), text)
}

/// Text in blue: a heading.
pub open spec fn blue(text: Seq<char>) -> Seq<char> {
    crate::paint::painted(crate::paint::plain(Colour::Blue), text)
}

/// Text in black: an event.
pub open spec fn black(text: Seq<char>) -> Seq<char> {
    crate::paint::painted(crate::paint::plain(Colour::Black), text)
}

/// Text in yellow: help.
pub open spec fn yellow(text: Seq<char>) -> Seq<char> {
    crate::paint::painted(crate::paint::plain(Colour::Yellow), text)
}

// ---- running a snippet ----

/// The name under which a snippet runs: its own, or one with the number of
/// contracts stored so far.
pub open spec fn contract_name(s: SessionView, name: Option<Seq<char>>) -> Seq<char> {
    match name {
        Some(name) => name,
        None => "contract-"@ + crate::text::decimal(s.contracts.len()),
    }
}

/// The request for the identifier of a contract: it is one of the sender's.
pub open spec fn identify_request(s: SessionView, name: Seq<char>) -> RequestView {
    RequestView::ParseContractId(s.tx_sender + "."@ + name)
}

/// The request to run `snippet` for the sender, under `contract_id`.
pub open spec fn run_request(
    s: SessionView,
    snippet: Seq<char>,
    contract_id: Seq<char>,
) -> RequestView {
    RequestView::Run { tx_sender: s.tx_sender, contract_id, snippet }
}

/// The session after a run under `contract_id`: a snippet that was stored joins the
/// contracts, and nothing else changes.
pub open spec fn recorded(
    s: SessionView,
    contract_id: Seq<char>,
    outcome: RunOutcome,
) -> SessionView {
    match outcome {
        Ok(report) => if report.contract_saved {
            SessionView {
                contracts: s.contracts.push((contract_id, report.result@)),
                ..s
            }
        } else {
            s
        },
        Err(_) => s,
    }
}

/// What is shown of a run that succeeded, with `texts` for its events.
pub open spec fn success_lines(
    name: Seq<char>,
    report: RunReport,
    texts: Seq<Seq<char>>,
) -> Seq<Seq<char>> {
    let stored = if report.contract_saved {
        seq![green(
            "→ ."@ + name
                + " contract successfully stored. Use (contract-call? ...) for invoking the public functions:"@,
        )]
    } else {
        Seq::empty()
    };
    let events = if report.events@.len() > 0 {
        seq![black("Events emitted"@)] + texts.map_values(|text: Seq<char>| black(text))
    } else {
        Seq::empty()
    };
    stored + events + seq![green(report.result@)]
}

/// What is shown of a run that failed: the message and, where the error points at
/// code, the whole snippet with those places highlighted.
pub open spec fn failure_lines(
    snippet: Seq<char>,
    message: Seq<char>,
    diagnostic: Option<Diagnostic>,
) -> Seq<Seq<char>> {
    let code = match diagnostic {
        Some(diagnostic) => if diagnostic.spans@.len() > 0 {
            crate::diagnostic::highlighted(
                crate::text::lines_of(snippet),
                diagnostic.spans@,
            )
        } else {
            Seq::empty()
        },
        None => Seq::empty(),
    };
    seq![red(message)] + code
}

/// Whether every place at which an error points lies in `snippet`.
pub open spec fn points_into(snippet: Seq<char>, outcome: RunOutcome) -> bool {
    match outcome {
        Err((_, Some(diagnostic))) => crate::diagnostic::highlightable(
            crate::text::lines_of(snippet),
            diagnostic.spans@,
        ),
        _ => true,
    }
}

/// What is shown of a run, good or bad.
pub open spec fn outcome_lines(
    snippet: Seq<char>,
    name: Seq<char>,
    outcome: RunOutcome,
    texts: Seq<Seq<char>>,
) -> Result<Seq<Seq<char>>, Seq<Seq<char>>> {
    match outcome {
        Ok(report) => Ok(success_lines(name, report, texts)),
        Err((message, diagnostic)) => Err(failure_lines(snippet, message@, diagnostic)),
    }
}

/// Whether `texts` are the texts of the events in `outcome`; without a report
/// there are none.
pub open spec fn event_texts(outcome: RunOutcome, texts: Seq<Seq<char>>) -> bool {
    match outcome {
        Ok(report) => crate::event::are_texts_of(report.events@, texts),
        Err(_) => texts.len() == 0,
    }
}

// ---- listings ----

/// The name of the first initial account from position `from` on that has `address`.
pub open spec fn account_name(
    accounts: Seq<Account>,
    address: Seq<char>,
    from: int,
) -> Option<Seq<char>>
    decreases accounts.len() - from,
{
    if from < 0 || from >= accounts.len() {
        None
    } else if accounts[from].address@ == address {
        Some(accounts[from].name@)
    } else {
        account_name(accounts, address, from + 1)
    }
}

/// How an account is called in a table: its address, and its name where it has one.
pub open spec fn account_label(s: SessionView, address: Seq<char>) -> Seq<char> {
    match account_name(s.settings.initial_accounts@, address, 0) {
        Some(name) => address + " ("@ + name + ")"@,
        None => address,
    }
}

/// The cells of an account: its label and its balances.
pub open spec fn account_cells(s: SessionView, row: AccountRow) -> Seq<Seq<char>> {
    seq![account_label(s, row.address@)] + row.balances@.map_values(
        |balance: u128| crate::text::decimal(balance as nat),
    )
}

/// The table of accounts: a head with the tokens, and a row for each account.
pub open spec fn account_rows(s: SessionView, ledger: Ledger) -> Seq<Seq<Seq<char>>> {
    seq![seq!["Address"@] + ledger.tokens.deep_view()] + ledger.accounts@.map_values(
        |row: AccountRow| account_cells(s, row),
    )
}

/// The accounts as a table, or nothing where there are none.
pub open spec fn accounts_table(s: SessionView, ledger: Ledger) -> Seq<Seq<char>> {
    if ledger.accounts@.len() > 0 {
        seq![crate::table::table_text(account_rows(s, ledger))]
    } else {
        Seq::empty()
    }
}

/// Whether the table of accounts can be drawn.
pub open spec fn accounts_drawable(s: SessionView, ledger: Ledger) -> bool {
    ledger.accounts@.len() > 0 ==> crate::table::all_measurable(account_rows(s, ledger))
}

/// An initial account on one line.
pub open spec fn account_line(account: Account) -> Seq<char> {
    account.address@ + ": "@ + crate::text::decimal(account.balance as nat) + " ("@ + account.name@
        + ")"@
}

/// The initial accounts, one to a line.
pub open spec fn account_lines(s: SessionView) -> Seq<Seq<char>> {
    s.settings.initial_accounts@.map_values(|account: Account| account_line(account))
}

/// The table of contracts.
pub open spec fn contract_rows(s: SessionView) -> Seq<Seq<Seq<char>>> {
    seq![seq!["Contract identifier"@, "Public functions"@]] + s.contracts.map_values(
        |contract: (Seq<char>, Seq<char>)| seq![contract.0, contract.1],
    )
}

/// The contracts that the session has stored. There is no such list in a session
/// without initial contracts.
pub open spec fn contract_lines(s: SessionView) -> Seq<Seq<char>> {
    if s.settings.initial_contracts@.len() == 0 {
        Seq::empty()
    } else {
        match s.listing {
            Listing::Table => seq![crate::table::table_text(contract_rows(s))],
            Listing::Plain => s.contracts.map_values(
                |contract: (Seq<char>, Seq<char>)| contract.0,
            ),
        }
    }
}

/// Whether the contracts can be listed.
pub open spec fn contracts_listable(s: SessionView) -> bool {
    s.settings.initial_contracts@.len() > 0 && s.listing == Listing::Table
        ==> crate::table::all_measurable(contract_rows(s))
}

// ---- commands ----

/// What a command is about.
#[derive(Clone, Copy, Debug, PartialEq, Eq, Structural)]
pub enum Verb {
    Help,
    ListFunctions,
    DescribeFunction,
    MintStx,
    SetTxSender,
    GetAccounts,
    GetContracts,
    GetBlockHeight,
    AdvanceChainTip,
    /// Anything else is code to run.
    Snippet,
}

/// What `command` is about. Only the request for help has to be the whole command;
/// the others are known by how the command begins.
pub open spec fn verb_of(command: Seq<char>) -> Verb {
    if command == "::help"@ {
        Verb::Help
    } else if "::list_functions"@.is_prefix_of(command) {
        Verb::ListFunctions
    } else if "::describe_function"@.is_prefix_of(command) {
        Verb::DescribeFunction
    } else if "::mint_stx"@.is_prefix_of(command) {
        Verb::MintStx
    } else if "::set_tx_sender"@.is_prefix_of(command) {
        Verb::SetTxSender
    } else if "::get_accounts"@.is_prefix_of(command) {
        Verb::GetAccounts
    } else if "::get_contracts"@.is_prefix_of(command) {
        Verb::GetContracts
    } else if "::get_block_height"@.is_prefix_of(command) {
        Verb::GetBlockHeight
    } else if "::advance_chain_tip"@.is_prefix_of(command) {
        Verb::AdvanceChainTip
    } else {
        Verb::Snippet
    }
}

/// The words of a command: a space separates two of them.
pub open spec fn words(command: Seq<char>) -> Seq<Seq<char>> {
    crate::text::split(command, ' ')
}

/// What the help says of each command.
pub open spec fn help_texts() -> Seq<Seq<char>> {
    seq![
        "::help\t\t\t\t\tDisplay help"@,
        "::list_functions\t\t\tDisplay all the native functions available in clarity"@,
        "::describe_function <function>\t\tDisplay documentation for a given native function fn-name"@,
        "::mint_stx <principal> <amount>\t\tMint STX balance for a given principal"@,
        "::set_tx_sender <principal>\t\tSet tx-sender variable to principal"@,
        "::get_accounts\t\t\t\tGet genesis accounts"@,
        "::get_contracts\t\t\t\tGet contracts"@,
        "::get_block_height\t\t\tGet current block height"@,
        "::advance_chain_tip <count>\t\tSimulate mining of <count> blocks"@,
    ]
}

/// The help, one command to a line.
pub open spec fn help_lines() -> Seq<Seq<char>> {
    help_texts().map_values(|text: Seq<char>| yellow(text))
}

/// All the keywords of the reference, one to a line.
pub open spec fn function_lines(s: SessionView) -> Seq<Seq<char>> {
    seq![yellow(crate::text::joined(crate::reference::index_of(s.reference), "\n"@))]
}

/// The keyword that a command asks about: all of it but the verb and the spaces.
pub open spec fn described_keyword(command: Seq<char>) -> Seq<char> {
    crate::text::replaced(
        crate::text::replaced(command, "::describe_function"@, ""@),
        " "@,
        ""@,
    )
}

/// The page that a command asks for.
pub open spec fn doc_lines(s: SessionView, command: Seq<char>) -> Seq<Seq<char>> {
    let keyword = described_keyword(command);
    if s.reference.dom().contains(keyword) {
        seq![yellow(s.reference[keyword])]
    } else {
        seq![yellow("Function unknown"@)]
    }
}

/// What a command that waits for a reply has put down.
pub enum CommandTaskView {
    /// The recipient to parse, and the amount to credit as it was written.
    Recipient { address: Seq<char>, amount: Seq<char> },
    /// The credit.
    Credit,
    /// The sender to parse.
    Sender,
    /// The address of the sender to parse, and how the sender is shown.
    SwitchSender { text: Seq<char> },
    /// The number of blocks.
    AdvanceTip { count: u32 },
    Height,
    Accounts,
    /// The code to run and its name, of which the identifier is to be parsed.
    Identify { snippet: Seq<char>, name: Seq<char> },
    /// The code that runs, its name and its identifier.
    Snippet { snippet: Seq<char>, name: Seq<char>, contract_id: Seq<char> },
}

/// A step of a command, which ends in lines to show.
pub type CommandStepView = StepView<Seq<Seq<char>>, CommandTaskView>;

/// A command that ends at once, with one line in red.
pub open spec fn refused(reason: Seq<char>) -> CommandStepView {
    StepView::Done(seq![red(reason)])
}

/// What a session does first on a request to mint.
pub open spec fn mint_step(command: Seq<char>) -> CommandStepView {
    let args = words(command);
    if args.len() != 3 {
        refused("Usage: ::mint_stx <recipient address> <amount>"@)
    } else {
        StepView::Ask(
            RequestView::ParsePrincipal(args[1]),
            CommandTaskView::Recipient { address: args[1], amount: args[2] },
        )
    }
}

/// What a session does first on a request to switch the sender.
pub open spec fn sender_step(command: Seq<char>) -> CommandStepView {
    let args = words(command);
    if args.len() != 2 {
        refused("Usage: ::set_tx_sender <address>"@)
    } else {
        StepView::Ask(
            RequestView::ParseStandardPrincipal(args[1]),
            CommandTaskView::Sender,
        )
    }
}

/// What a session does first on a request to mine blocks.
pub open spec fn advance_step(command: Seq<char>) -> CommandStepView {
    let args = words(command);
    if args.len() != 2 {
        refused("Usage: ::advance_chain_tip <count>"@)
    } else {
        match crate::text::number_in(args[1], u32::MAX as nat) {
            None => refused("Unable to parse count"@),
            Some(count) => StepView::Ask(
                RequestView::AdvanceChainTip(count as u32),
                CommandTaskView::AdvanceTip { count: count as u32 },
            ),
        }
    }
}

/// What a session does first on a request for the accounts.
pub open spec fn accounts_step(s: SessionView) -> CommandStepView {
    match s.listing {
        Listing::Table => StepView::Ask(RequestView::ReadLedger, CommandTaskView::Accounts),
        Listing::Plain => StepView::Done(account_lines(s)),
    }
}

/// What a session does first on code to run.
pub open spec fn snippet_step(s: SessionView, snippet: Seq<char>) -> CommandStepView {
    let name = contract_name(s, None);
    StepView::Ask(
        identify_request(s, name),
        CommandTaskView::Identify { snippet, name },
    )
}

/// What a session does first on `command`.
pub open spec fn command_step(s: SessionView, command: Seq<char>) -> CommandStepView {
    match verb_of(command) {
        Verb::Help => StepView::Done(help_lines()),
        Verb::ListFunctions => StepView::Done(function_lines(s)),
        Verb::DescribeFunction => StepView::Done(doc_lines(s, command)),
        Verb::MintStx => mint_step(command),
        Verb::SetTxSender => sender_step(command),
        Verb::GetAccounts => accounts_step(s),
        Verb::GetContracts => StepView::Done(contract_lines(s)),
        Verb::GetBlockHeight => StepView::Ask(RequestView::BlockHeight, CommandTaskView::Height),
        Verb::AdvanceChainTip => advance_step(command),
        Verb::Snippet => snippet_step(s, command),
    }
}

/// Whether a session can take `command`: a list of contracts has to be listable.
pub open spec fn takes_command(s: SessionView, command: Seq<char>) -> bool {
    verb_of(command) == Verb::GetContracts ==> contracts_listable(s)
}

/// Whether a session can go on with `reply`: it has to be of the kind that was
/// asked for, the address of a principal and the identifier of a contract have to
/// be good, a ledger has to be complete and its table drawable, and an error has to
/// point into the code.
pub open spec fn command_accepts(s: SessionView, task: CommandTaskView, reply: Reply) -> bool {
    match (task, reply) {
        (CommandTaskView::Recipient { .. }, Reply::Principal(_)) => true,
        (CommandTaskView::Credit, Reply::Credited(_)) => true,
        (CommandTaskView::Sender, Reply::StandardPrincipal(_)) => true,
        (CommandTaskView::SwitchSender { .. }, Reply::StandardPrincipal(parsed)) => parsed is Some,
        (CommandTaskView::AdvanceTip { .. }, Reply::Height(_)) => true,
        (CommandTaskView::Height, Reply::Height(_)) => true,
        (CommandTaskView::Accounts, Reply::Ledger(ledger)) => ledger.complete()
            && accounts_drawable(s, ledger),
        (CommandTaskView::Identify { .. }, Reply::ContractId(parsed)) => parsed is Some,
        (CommandTaskView::Snippet { snippet, .. }, Reply::Ran(outcome)) => points_into(
            snippet,
            outcome,
        ),
        _ => false,
    }
}

/// Whether `texts` are the texts of the events that `reply` reports.
pub open spec fn reply_texts(reply: Reply, texts: Seq<Seq<char>>) -> bool {
    match reply {
        Reply::Ran(outcome) => event_texts(outcome, texts),
        _ => texts.len() == 0,
    }
}

/// How a session goes on with a command when `reply` has come, with `texts` for the
/// events in it: the session then, and the next step.
pub open spec fn command_resumed(
    s: SessionView,
    task: CommandTaskView,
    reply: Reply,
    texts: Seq<Seq<char>>,
) -> (SessionView, CommandStepView) {
    match (task, reply) {
        (CommandTaskView::Recipient { address, amount }, Reply::Principal(known)) => (
            s,
            if !known {
                refused("Unable to parse the address"@)
            } else {
                match crate::text::number_in(amount, u64::MAX as nat) {
                    None => refused("Unable to parse the balance"@),
                    Some(amount) => StepView::Ask(
                        RequestView::CreditStx(address, amount as u64),
                        CommandTaskView::Credit,
                    ),
                }
            },
        ),
        (CommandTaskView::Credit, Reply::Credited(credited)) => (
            s,
            match credited {
                Ok(message) => StepView::Done(seq![green(message@)]),
                Err(reason) => refused(reason@),
            },
        ),
        (CommandTaskView::Sender, Reply::StandardPrincipal(parsed)) => (
            s,
            match parsed {
                None => refused("Unable to parse the address"@),
                Some(principal) => StepView::Ask(
                    RequestView::ParseStandardPrincipal(principal.address@),
                    CommandTaskView::SwitchSender { text: principal.text@ },
                ),
            },
        ),
        (CommandTaskView::SwitchSender { text }, Reply::StandardPrincipal(Some(principal))) => (
            SessionView { tx_sender: principal.address@, ..s },
            StepView::Done(seq![green("tx-sender switched to "@ + text)]),
        ),
        (CommandTaskView::AdvanceTip { count }, Reply::Height(height)) => (
            s,
            StepView::Done(
                seq![
                    green(
                        crate::text::decimal(count as nat) + " blocks simulated, new height: "@
                            + crate::text::decimal(height as nat),
                    ),
                ],
            ),
        ),
        (CommandTaskView::Height, Reply::Height(height)) => (
            s,
            StepView::Done(
                seq![green("Current height: "@ + crate::text::decimal(height as nat))],
            ),
        ),
        (CommandTaskView::Accounts, Reply::Ledger(ledger)) => (
            s,
            StepView::Done(accounts_table(s, ledger)),
        ),
        (CommandTaskView::Identify { snippet, name }, Reply::ContractId(Some(contract_id))) => (
            s,
            StepView::Ask(
                run_request(s, snippet, contract_id@),
                CommandTaskView::Snippet { snippet, name, contract_id: contract_id@ },
            ),
        ),
        (CommandTaskView::Snippet { snippet, name, contract_id }, Reply::Ran(outcome)) => (
            recorded(s, contract_id, outcome),
            StepView::Done(
                match outcome_lines(snippet, name, outcome, texts) {
                    Ok(lines) => lines,
                    Err(lines) => lines,
                },
            ),
        ),
        _ => (s, StepView::Done(Seq::empty())),
    }
}

// ---- starting ----

/// Where the start of a session stands.
pub enum StageView {
    /// The account to credit is to be parsed; `next` is the account behind it.
    Recipient { address: Seq<char>, balance: u64, next: usize },
    /// The account is to be credited.
    Credit { next: usize },
    /// The identifier of the contract is to be parsed; `next` is the contract behind it.
    Identify { snippet: Seq<char>, name: Seq<char>, next: usize },
    /// The contract runs.
    Contract { snippet: Seq<char>, name: Seq<char>, contract_id: Seq<char>, next: usize },
    /// The balances are to be read.
    Balances,
}

/// What a start that waits for a reply has put down: what it has to say so far, and
/// where it stands.
pub struct StartTaskView {
    pub output: Seq<Seq<char>>,
    pub stage: StageView,
}

/// A step of a start, which ends in a text to show.
pub type StartStepView = StepView<Seq<char>, StartTaskView>;

/// The start from the initial account at position `next` on.
pub open spec fn credit_from(s: SessionView, output: Seq<Seq<char>>, next: int) -> StartStepView {
    if next < s.settings.initial_accounts@.len() {
        let account = s.settings.initial_accounts@[next];
        StepView::Ask(
            RequestView::ParsePrincipal(account.address@),
            StartTaskView {
                output,
                stage: StageView::Recipient {
                    address: account.address@,
                    balance: account.balance,
                    next: (next + 1) as usize,
                },
            },
        )
    } else {
        load_from(s, output, 0)
    }
}

/// The start from the initial contract at position `next` on.
pub open spec fn load_from(s: SessionView, output: Seq<Seq<char>>, next: int) -> StartStepView {
    if next < s.settings.initial_contracts@.len() {
        let contract = s.settings.initial_contracts@[next];
        let name = contract_name(s, contract.name.deep_view());
        StepView::Ask(
            identify_request(s, name),
            StartTaskView {
                output,
                stage: StageView::Identify {
                    snippet: contract.code@,
                    name,
                    next: (next + 1) as usize,
                },
            },
        )
    } else if s.settings.initial_contracts@.len() > 0 {
        report_balances(s, output.push(blue("Initialized contracts"@)) + contract_lines(s))
    } else {
        report_balances(s, output)
    }
}

/// The start when all contracts have run.
pub open spec fn report_balances(s: SessionView, output: Seq<Seq<char>>) -> StartStepView {
    if s.settings.initial_accounts@.len() > 0 {
        let output = output.push(blue("Initialized balances"@));
        match s.listing {
            Listing::Table => StepView::Ask(
                RequestView::ReadLedger,
                StartTaskView { output, stage: StageView::Balances },
            ),
            Listing::Plain => StepView::Done(
                crate::text::joined(output + account_lines(s), "\n"@),
            ),
        }
    } else {
        StepView::Done(crate::text::joined(output, "\n"@))
    }
}

/// What a session does first to start.
pub open spec fn start_step(s: SessionView) -> StartStepView {
    credit_from(s, Seq::empty(), 0)
}

/// What a start says of an account whose credit came back as `credited`.
pub open spec fn credit_lines(credited: Result<String, String>) -> Seq<Seq<char>> {
    match credited {
        Ok(_) => Seq::empty(),
        Err(reason) => seq![red(reason@)],
    }
}

/// What a start says of a contract that ran: only what went wrong.
pub open spec fn load_lines(snippet: Seq<char>, outcome: RunOutcome) -> Seq<Seq<char>> {
    match outcome {
        Ok(_) => Seq::empty(),
        Err((message, diagnostic)) => failure_lines(snippet, message@, diagnostic),
    }
}

/// Whether a start can go on with `reply`: it has to be of the kind that was asked
/// for, the identifier of a contract has to be good, an error has to point into the
/// code, a ledger has to be complete, and a table has to be drawable.
pub open spec fn start_accepts(s: SessionView, task: StartTaskView, reply: Reply) -> bool {
    match (task.stage, reply) {
        (StageView::Recipient { .. }, Reply::Principal(_)) => true,
        (StageView::Credit { .. }, Reply::Credited(_)) => true,
        (StageView::Identify { .. }, Reply::ContractId(parsed)) => parsed is Some,
        (StageView::Contract { snippet, contract_id, next, .. }, Reply::Ran(outcome)) => {
            &&& points_into(snippet, outcome)
            &&& next >= s.settings.initial_contracts@.len() ==> contracts_listable(
                recorded(s, contract_id, outcome),
            )
        },
        (StageView::Balances, Reply::Ledger(ledger)) => ledger.complete()
            && accounts_drawable(s, ledger),
        _ => false,
    }
}

/// How a session goes on with its start when `reply` has come: the session then,
/// and the next step.
pub open spec fn start_resumed(
    s: SessionView,
    task: StartTaskView,
    reply: Reply,
) -> (SessionView, StartStepView) {
    match (task.stage, reply) {
        (StageView::Recipient { address, balance, next }, Reply::Principal(known)) => (
            s,
            if !known {
                credit_from(
                    s,
                    task.output.push(red("Unable to parse address to credit"@)),
                    next as int,
                )
            } else {
                StepView::Ask(
                    RequestView::CreditStx(address, balance),
                    StartTaskView { output: task.output, stage: StageView::Credit { next } },
                )
            },
        ),
        (StageView::Credit { next }, Reply::Credited(credited)) => (
            s,
            credit_from(s, task.output + credit_lines(credited), next as int),
        ),
        (StageView::Identify { snippet, name, next }, Reply::ContractId(Some(contract_id))) => (
            s,
            StepView::Ask(
                run_request(s, snippet, contract_id@),
                StartTaskView {
                    output: task.output,
                    stage: StageView::Contract {
                        snippet,
                        name,
                        contract_id: contract_id@,
                        next,
                    },
                },
            ),
        ),
        (StageView::Contract { snippet, contract_id, next, .. }, Reply::Ran(outcome)) => {
            let after = recorded(s, contract_id, outcome);
            (after, load_from(after, task.output + load_lines(snippet, outcome), next as int))
        },
        (StageView::Balances, Reply::Ledger(ledger)) => (
            s,
            StepView::Done(
                crate::text::joined(task.output + accounts_table(s, ledger), "\n"@),
            ),
        ),
        _ => (s, StepView::Done(Seq::empty())),
    }
}

} // verus!
