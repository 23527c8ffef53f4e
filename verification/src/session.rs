//! The session.
use crate::chain::{
    AccountRow, Ledger, Reply, Request, RequestView, RunOutcome, StandardPrincipal,
    Step,
};
use crate::diagnostic::{can_highlight, highlight, Diagnostic};
use crate::event::write_events;
use crate::model::{CommandTaskView, SessionView, StageView, StartTaskView, Verb};
use crate::paint::{paint_plain, Colour};
use crate::reference::{build_api_reference, ApiReference, Catalogue};
use crate::settings::{Account, Listing, SessionSettings};
use crate::table::{are_measurable, draw_table};
use crate::text::{
    is_same, join, push_line, push_row, replace, split_on, starts_with, to_decimal, to_number,
};
use serde_json::Value;
use vstd::prelude::*;
use vstd::string::*;

verus! {

/// A session: what it started from, what it has stored, and who sends.
#[derive(Clone, Debug)]
pub struct Session {
    settings: SessionSettings,
    listing: Listing,
    tx_sender: String,
    contracts: Vec<(String, String)>,
    api_reference: ApiReference,
}

impl View for Session {
    type V = SessionView;

    closed spec fn view(&self) -> SessionView {
        SessionView {
            settings: self.settings,
            listing: self.listing,
            tx_sender: self.tx_sender@,
            contracts: self.contracts@.map_values(|contract: (String, String)|
                (contract.0@, contract.1@)),
            reference: self.api_reference@,
        }
    }
}

/// A session that waits for its sender.
#[derive(Clone, Debug)]
pub struct Opening {
    settings: SessionSettings,
    listing: Listing,
    api_reference: ApiReference,
}

impl Opening {
    /// The session that this becomes when `tx_sender` is the address of the sender.
    pub closed spec fn session_of(&self, tx_sender: Seq<char>) -> SessionView {
        SessionView {
            settings: self.settings,
            listing: self.listing,
            tx_sender,
            contracts: Seq::empty(),
            reference: self.api_reference@,
        }
    }
}

/// A snippet to run, and its name.
#[derive(Clone, Debug)]
pub struct IdentifyTask {
    pub snippet: String,
    pub name: String,
}

/// A snippet that runs, its name and its identifier.
#[derive(Clone, Debug)]
pub struct RunTask {
    pub snippet: String,
    pub name: String,
    pub contract_id: String,
}

/// What a command that waits for a reply has put down.
#[derive(Clone, Debug)]
pub enum CommandTask {
    Recipient { address: String, amount: String },
    Credit,
    Sender,
    SwitchSender { text: String },
    AdvanceTip { count: u32 },
    Height,
    Accounts,
    Identify(IdentifyTask),
    Snippet(RunTask),
}

impl View for CommandTask {
    type V = CommandTaskView;

    open spec fn view(&self) -> CommandTaskView {
        match *self {
            CommandTask::Recipient { address, amount } => CommandTaskView::Recipient {
                address: address@,
                amount: amount@,
            },
            CommandTask::Credit => CommandTaskView::Credit,
            CommandTask::Sender => CommandTaskView::Sender,
            CommandTask::SwitchSender { text } => CommandTaskView::SwitchSender { text: text@ },
            CommandTask::AdvanceTip { count } => CommandTaskView::AdvanceTip { count },
            CommandTask::Height => CommandTaskView::Height,
            CommandTask::Accounts => CommandTaskView::Accounts,
            CommandTask::Identify(identify) => CommandTaskView::Identify {
                snippet: identify.snippet@,
                name: identify.name@,
            },
            CommandTask::Snippet(run) => CommandTaskView::Snippet {
                snippet: run.snippet@,
                name: run.name@,
                contract_id: run.contract_id@,
            },
        }
    }
}

/// Where the start of a session stands.
#[derive(Clone, Debug)]
pub enum Stage {
    Recipient { address: String, balance: u64, next: usize },
    Credit { next: usize },
    Identify { identify: IdentifyTask, next: usize },
    Contract { run: RunTask, next: usize },
    Balances,
}

impl View for Stage {
    type V = StageView;

    open spec fn view(&self) -> StageView {
        match *self {
            Stage::Recipient { address, balance, next } => StageView::Recipient {
                address: address@,
                balance,
                next,
            },
            Stage::Credit { next } => StageView::Credit { next },
            Stage::Identify { identify, next } => StageView::Identify {
                snippet: identify.snippet@,
                name: identify.name@,
                next,
            },
            Stage::Contract { run, next } => StageView::Contract {
                snippet: run.snippet@,
                name: run.name@,
                contract_id: run.contract_id@,
                next,
            },
            Stage::Balances => StageView::Balances,
        }
    }
}

/// What a start that waits for a reply has put down.
#[derive(Clone, Debug)]
pub struct StartTask {
    pub output: Vec<String>,
    pub stage: Stage,
}

impl View for StartTask {
    type V = StartTaskView;

    open spec fn view(&self) -> StartTaskView {
        StartTaskView { output: self.output.deep_view(), stage: self.stage@ }
    }
}

/// What came of a snippet: the name under which it was stored, if it was, its
/// result and its events; or a message with the place of the error.
pub type Interpretation = Result<
    (Option<String>, String, Vec<Value>),
    (String, Option<Diagnostic>),
>;

/// The address that a session with these settings sends from: the one of the
/// deployer, or the burn address where there is none.
pub open spec fn first_sender(settings: SessionSettings, burn_address: Seq<char>) -> Seq<char> {
    match settings.initial_deployer {
        Some(account) => account.address@,
        None => burn_address,
    }
}

/// The lines of a result, good or bad, as values of the model.
pub open spec fn result_lines(
    result: Result<Vec<String>, Vec<String>>,
) -> Result<Seq<Seq<char>>, Seq<Seq<char>>> {
    match result {
        Ok(lines) => Ok(lines.deep_view()),
        Err(lines) => Err(lines.deep_view()),
    }
}

fn one_line(line: String) -> (lines: Vec<String>)
    ensures
        lines.deep_view() == seq![line@],
{
    let mut lines: Vec<String> = Vec::new();
    push_line(&mut lines, line);
    proof {
        assert(lines.deep_view() =~= seq![line@]);
    }
    lines
}

fn append_lines(lines: &mut Vec<String>, more: &mut Vec<String>)
    ensures
        final(lines).deep_view() == old(lines).deep_view() + old(more).deep_view(),
{
    let ghost before = lines.deep_view();
    let ghost added = more.deep_view();
    lines.append(more);
    proof {
        assert(lines.deep_view() =~= before + added);
    }
}

fn refuse(reason: &str) -> (step: Step<Vec<String>, CommandTask>)
    ensures
        step@ == crate::model::refused(reason@),
{
    Step::Done(one_line(paint_plain(Colour::Red, reason)))
}

impl Session {
    /// Prepares a session. Its sender has to be parsed before it opens.
    pub fn new(
        settings: SessionSettings,
        listing: Listing,
        burn_address: &str,
        catalogue: &Catalogue,
    ) -> (result: (Request, Opening))
        ensures
            result.0@ == RequestView::ParseStandardPrincipal(
                first_sender(settings, burn_address@),
            ),
            forall|tx_sender: Seq<char>| #[trigger]
                result.1.session_of(tx_sender) == (SessionView {
                    settings,
                    listing,
                    tx_sender,
                    contracts: Seq::empty(),
                    reference: crate::reference::filed(crate::reference::pages(*catalogue)),
                }),
    {
        let address: String = match &settings.initial_deployer {
            Some(account) => account.address.clone(),
            None => burn_address.to_owned(),
        };
        let api_reference: ApiReference = build_api_reference(catalogue);
        (Request::ParseStandardPrincipal(address), Opening { settings, listing, api_reference })
    }

    /// Opens a session that sends from `tx_sender`.
    pub fn open(opening: Opening, tx_sender: StandardPrincipal) -> (session: Session)
        ensures
            session@ == opening.session_of(tx_sender.address@),
    {
        let session: Session = Session {
            settings: opening.settings,
            listing: opening.listing,
            tx_sender: tx_sender.address,
            contracts: Vec::new(),
            api_reference: opening.api_reference,
        };
        proof {
            assert(session@.contracts =~= Seq::empty());
        }
        session
    }

    /// Begins with a snippet, under its own name or under the next free one: its
    /// identifier has to be parsed before it runs.
    pub fn interpret(&self, snippet: String, name: Option<String>) -> (result: (
        Request,
        IdentifyTask,
    ))
        ensures
            result.1.snippet == snippet,
            result.1.name@ == crate::model::contract_name(self@, name.deep_view()),
            result.0@ == crate::model::identify_request(self@, result.1.name@),
    {
        let name: String = match name {
            Some(name) => name,
            None => {
                let mut numbered: String = "contract-".to_owned();
                numbered.append(to_decimal(self.contracts.len() as u128).as_str());
                numbered
            },
        };
        let mut contract_id: String = self.tx_sender.clone();
        contract_id.append(".");
        contract_id.append(name.as_str());
        (Request::ParseContractId(contract_id), IdentifyTask { snippet, name })
    }

    /// Asks to run a snippet under the identifier that was parsed for it.
    pub fn run_identified(&self, task: IdentifyTask, contract_id: String) -> (result: (
        Request,
        RunTask,
    ))
        ensures
            result.1.snippet == task.snippet,
            result.1.name == task.name,
            result.1.contract_id == contract_id,
            result.0@ == crate::model::run_request(self@, task.snippet@, contract_id@),
    {
        let request: Request = Request::Run {
            tx_sender: self.tx_sender.clone(),
            contract_id: contract_id.clone(),
            snippet: task.snippet.clone(),
        };
        (request, RunTask { snippet: task.snippet, name: task.name, contract_id })
    }

    /// Takes note of what came of a snippet: one that was stored joins the contracts.
    pub fn finish_interpret(&mut self, task: RunTask, outcome: RunOutcome) -> (result:
        Interpretation)
        ensures
            final(self)@ == crate::model::recorded(old(self)@, task.contract_id@, outcome),
            result == (match outcome {
                Ok(report) => Ok(
                    (
                        if report.contract_saved {
                            Some(task.name)
                        } else {
                            None
                        },
                        report.result,
                        report.events,
                    ),
                ),
                Err(failure) => Err(failure),
            }),
    {
        match outcome {
            Ok(report) => {
                if report.contract_saved {
                    let ghost before = self@.contracts;
                    self.contracts.push((task.contract_id, report.result.clone()));
                    proof {
                        assert(self@.contracts =~= before.push(
                            (task.contract_id@, report.result@),
                        ));
                    }
                    Ok((Some(task.name), report.result, report.events))
                } else {
                    Ok((None, report.result, report.events))
                }
            },
            Err(failure) => Err(failure),
        }
    }

    /// Begins with a snippet of which is to be shown what comes of it.
    pub fn formatted_interpretation(&self, snippet: String, name: Option<String>) -> (result: (
        Request,
        IdentifyTask,
    ))
        ensures
            result.1.snippet == snippet,
            result.1.name@ == crate::model::contract_name(self@, name.deep_view()),
            result.0@ == crate::model::identify_request(self@, result.1.name@),
    {
        self.interpret(snippet, name)
    }

    /// Takes note of what came of a snippet and shows it.
    pub fn finish_formatted_interpretation(&mut self, task: RunTask, outcome: RunOutcome) -> (result:
        Result<Vec<String>, Vec<String>>)
        requires
            crate::model::points_into(task.snippet@, outcome),
        ensures
            final(self)@ == crate::model::recorded(old(self)@, task.contract_id@, outcome),
            exists|texts: Seq<Seq<char>>| #[trigger]
                crate::model::event_texts(outcome, texts) && result_lines(result)
                    == crate::model::outcome_lines(task.snippet@, task.name@, outcome, texts),
    {
        let snippet: String = task.snippet.clone();
        match self.finish_interpret(task, outcome) {
            Ok((stored, result, events)) => {
                let texts: Vec<String> = write_events(&events);
                let ghost report = outcome->Ok_0;
                let lines: Vec<String> = show_success(stored, result.as_str(), &texts);
                proof {
                    assert(crate::model::event_texts(outcome, texts.deep_view()));
                    assert(lines.deep_view() =~= crate::model::success_lines(
                        task.name@,
                        report,
                        texts.deep_view(),
                    ));
                }
                Ok(lines)
            },
            Err((message, diagnostic)) => {
                let lines: Vec<String> = show_failure(
                    snippet.as_str(),
                    message.as_str(),
                    &diagnostic,
                );
                proof {
                    assert(crate::model::event_texts(outcome, Seq::empty()));
                }
                Err(lines)
            },
        }
    }
}

/// The lines on a run that succeeded.
fn show_success(stored: Option<String>, result: &str, texts: &Vec<String>) -> (lines: Vec<String>)
    ensures
        lines.deep_view() == (match stored {
            Some(name) => seq![
                crate::model::green(
                    "→ ."@ + name@
                        + " contract successfully stored. Use (contract-call? ...) for invoking the public functions:"@,
                ),
            ],
            None => Seq::empty(),
        }) + (if texts@.len() > 0 {
            seq![crate::model::black("Events emitted"@)] + texts.deep_view().map_values(
                |text: Seq<char>| crate::model::black(text),
            )
        } else {
            Seq::empty()
        }) + seq![crate::model::green(result@)],
{
    let mut lines: Vec<String> = Vec::new();
    if let Some(name) = stored {
        let mut line: String = "→ .".to_owned();
        line.append(name.as_str());
        line.append(
            " contract successfully stored. Use (contract-call? ...) for invoking the public functions:",
        );
        push_line(&mut lines, paint_plain(Colour::Green, line.as_str()));
    }
    let ghost head = lines.deep_view();
    let ghost shown = texts.deep_view().map_values(|text: Seq<char>| crate::model::black(text));
    if texts.len() > 0 {
        push_line(&mut lines, paint_plain(Colour::Black, "Events emitted"));
        let ghost titled = lines.deep_view();
        let mut i: usize = 0;
        proof {
            assert(titled + shown.take(0) =~= titled);
        }
        while i < texts.len()
            invariant
                i <= texts@.len(),
                shown == texts.deep_view().map_values(
                    |text: Seq<char>| crate::model::black(text),
                ),
                lines.deep_view() == titled + shown.take(i as int),
            decreases texts@.len() - i,
        {
            push_line(&mut lines, paint_plain(Colour::Black, texts[i].as_str()));
            proof {
                assert(titled + shown.take(i + 1) =~= (titled + shown.take(i as int)).push(
                    shown[i as int],
                ));
            }
            i += 1;
        }
        proof {
            assert(shown.take(i as int) =~= shown);
        }
    }
    push_line(&mut lines, paint_plain(Colour::Green, result));
    lines
}

/// The lines on a run that failed.
fn show_failure(snippet: &str, message: &str, diagnostic: &Option<Diagnostic>) -> (lines: Vec<
    String,
>)
    requires
        diagnostic matches Some(diagnostic) ==> crate::diagnostic::highlightable(
            crate::text::lines_of(snippet@),
            diagnostic.spans@,
        ),
    ensures
        lines.deep_view() == crate::model::failure_lines(snippet@, message@, *diagnostic),
{
    let mut lines: Vec<String> = one_line(paint_plain(Colour::Red, message));
    if let Some(diagnostic) = diagnostic {
        if diagnostic.spans.len() > 0 {
            let mut code: Vec<String> = highlight(snippet, &diagnostic.spans);
            append_lines(&mut lines, &mut code);
        }
    }
    lines
}

/// What `command` is about.
fn verb(command: &str) -> (result: Verb)
    ensures
        result == crate::model::verb_of(command@),
{
    if is_same(command, "::help") {
        Verb::Help
    } else if starts_with(command, "::list_functions") {
        Verb::ListFunctions
    } else if starts_with(command, "::describe_function") {
        Verb::DescribeFunction
    } else if starts_with(command, "::mint_stx") {
        Verb::MintStx
    } else if starts_with(command, "::set_tx_sender") {
        Verb::SetTxSender
    } else if starts_with(command, "::get_accounts") {
        Verb::GetAccounts
    } else if starts_with(command, "::get_contracts") {
        Verb::GetContracts
    } else if starts_with(command, "::get_block_height") {
        Verb::GetBlockHeight
    } else if starts_with(command, "::advance_chain_tip") {
        Verb::AdvanceChainTip
    } else {
        Verb::Snippet
    }
}

impl Session {
    /// The page of `keyword` in the reference, where it has one.
    pub fn lookup_api_reference(&self, keyword: &str) -> (page: Option<&String>)
        ensures
            match page {
                Some(page) => self@.reference.dom().contains(keyword@) && page@
                    == self@.reference[keyword@],
                None => !self@.reference.dom().contains(keyword@),
            },
    {
        self.api_reference.lookup(keyword)
    }

    /// The keywords of the reference in alphabetical order.
    pub fn get_api_reference_index(&self) -> (keywords: Vec<String>)
        ensures
            crate::reference::is_index_of(keywords.deep_view(), self@.reference),
            keywords.deep_view() == crate::reference::index_of(self@.reference),
    {
        self.api_reference.index()
    }

    /// The address that sends the transactions of this session.
    pub fn get_tx_sender(&self) -> (address: String)
        ensures
            address@ == self@.tx_sender,
    {
        self.tx_sender.clone()
    }

    /// Asks for the principal with `address`, which is to send from now on.
    pub fn set_tx_sender(&self, address: String) -> (request: Request)
        ensures
            request@ == RequestView::ParseStandardPrincipal(address@),
    {
        Request::ParseStandardPrincipal(address)
    }

    /// Sends from `tx_sender` from now on.
    pub fn finish_set_tx_sender(&mut self, tx_sender: StandardPrincipal)
        ensures
            final(self)@ == (SessionView { tx_sender: tx_sender.address@, ..old(self)@ }),
    {
        self.tx_sender = tx_sender.address;
    }

    /// Asks for `count` more blocks; the reply is the new height.
    pub fn advance_chain_tip(&self, count: u32) -> (request: Request)
        ensures
            request@ == RequestView::AdvanceChainTip(count),
    {
        Request::AdvanceChainTip(count)
    }

    fn display_help(&self, output: &mut Vec<String>)
        ensures
            final(output).deep_view() == old(output).deep_view() + crate::model::help_lines(),
    {
        let ghost before = output.deep_view();
        push_line(output, paint_plain(Colour::Yellow, "::help\t\t\t\t\tDisplay help"));
        push_line(
            output,
            paint_plain(
                Colour::Yellow,
                "::list_functions\t\t\tDisplay all the native functions available in clarity",
            ),
        );
        push_line(
            output,
            paint_plain(
                Colour::Yellow,
                "::describe_function <function>\t\tDisplay documentation for a given native function fn-name",
            ),
        );
        push_line(
            output,
            paint_plain(
                Colour::Yellow,
                "::mint_stx <principal> <amount>\t\tMint STX balance for a given principal",
            ),
        );
        push_line(
            output,
            paint_plain(
                Colour::Yellow,
                "::set_tx_sender <principal>\t\tSet tx-sender variable to principal",
            ),
        );
        push_line(
            output,
            paint_plain(Colour::Yellow, "::get_accounts\t\t\t\tGet genesis accounts"),
        );
        push_line(output, paint_plain(Colour::Yellow, "::get_contracts\t\t\t\tGet contracts"));
        push_line(
            output,
            paint_plain(Colour::Yellow, "::get_block_height\t\t\tGet current block height"),
        );
        push_line(
            output,
            paint_plain(
                Colour::Yellow,
                "::advance_chain_tip <count>\t\tSimulate mining of <count> blocks",
            ),
        );
        proof {
            assert(output.deep_view() =~= before + crate::model::help_lines());
        }
    }

    fn display_functions(&self, output: &mut Vec<String>)
        ensures
            final(output).deep_view() == old(output).deep_view() + crate::model::function_lines(
                self@,
            ),
    {
        let ghost before = output.deep_view();
        let index: Vec<String> = self.get_api_reference_index();
        push_line(output, paint_plain(Colour::Yellow, join(&index, "\n").as_str()));
        proof {
            assert(output.deep_view() =~= before + crate::model::function_lines(self@));
        }
    }

    fn display_doc(&self, output: &mut Vec<String>, command: &str)
        ensures
            final(output).deep_view() == old(output).deep_view() + crate::model::doc_lines(
                self@,
                command@,
            ),
    {
        let ghost before = output.deep_view();
        proof {
            reveal_strlit("::describe_function");
            reveal_strlit(" ");
        }
        let without_verb: String = replace(command, "::describe_function", "");
        let keyword: String = replace(without_verb.as_str(), " ", "");
        let line: String = match self.lookup_api_reference(keyword.as_str()) {
            Some(page) => paint_plain(Colour::Yellow, page.as_str()),
            None => paint_plain(Colour::Yellow, "Function unknown"),
        };
        push_line(output, line);
        proof {
            assert(output.deep_view() =~= before + crate::model::doc_lines(self@, command@));
        }
    }

    fn mint_stx(&self, command: &str) -> (step: Step<Vec<String>, CommandTask>)
        ensures
            step@ == crate::model::mint_step(command@),
    {
        let args: Vec<String> = split_on(command, ' ');
        if args.len() != 3 {
            return refuse("Usage: ::mint_stx <recipient address> <amount>");
        }
        let address: String = args[1].clone();
        let amount: String = args[2].clone();
        Step::Ask(
            Request::ParsePrincipal(address.clone()),
            CommandTask::Recipient { address, amount },
        )
    }

    fn parse_and_set_tx_sender(&self, command: &str) -> (step: Step<Vec<String>, CommandTask>)
        ensures
            step@ == crate::model::sender_step(command@),
    {
        let args: Vec<String> = split_on(command, ' ');
        if args.len() != 2 {
            return refuse("Usage: ::set_tx_sender <address>");
        }
        Step::Ask(Request::ParseStandardPrincipal(args[1].clone()), CommandTask::Sender)
    }

    fn parse_and_advance_chain_tip(&self, command: &str) -> (step: Step<
        Vec<String>,
        CommandTask,
    >)
        ensures
            step@ == crate::model::advance_step(command@),
    {
        let args: Vec<String> = split_on(command, ' ');
        if args.len() != 2 {
            return refuse("Usage: ::advance_chain_tip <count>");
        }
        match to_number(args[1].as_str(), u32::MAX as u64) {
            None => refuse("Unable to parse count"),
            Some(count) => Step::Ask(
                self.advance_chain_tip(count as u32),
                CommandTask::AdvanceTip { count: count as u32 },
            ),
        }
    }

    fn get_account_name(&self, address: &String) -> (name: Option<&String>)
        ensures
            (match name {
                Some(name) => Some(name@),
                None => None,
            }) == crate::model::account_name(self@.settings.initial_accounts@, address@, 0),
    {
        let accounts: &Vec<Account> = &self.settings.initial_accounts;
        let mut i: usize = 0;
        while i < accounts.len()
            invariant
                i <= accounts@.len(),
                accounts@ == self@.settings.initial_accounts@,
                crate::model::account_name(accounts@, address@, 0)
                    == crate::model::account_name(accounts@, address@, i as int),
            decreases accounts@.len() - i,
        {
            if accounts[i].address == *address {
                return Some(&accounts[i].name);
            }
            i += 1;
        }
        None
    }

    fn account_row(&self, row: &AccountRow) -> (cells: Vec<String>)
        ensures
            cells.deep_view() == crate::model::account_cells(self@, *row),
    {
        let mut label: String = row.address.clone();
        if let Some(name) = self.get_account_name(&row.address) {
            label.append(" (");
            label.append(name.as_str());
            label.append(")");
        }
        let mut cells: Vec<String> = one_line(label);
        let ghost head = cells.deep_view();
        let ghost shown = row.balances@.map_values(
            |balance: u128| crate::text::decimal(balance as nat),
        );
        let mut i: usize = 0;
        proof {
            assert(head + shown.take(0) =~= head);
        }
        while i < row.balances.len()
            invariant
                i <= row.balances@.len(),
                shown == row.balances@.map_values(
                    |balance: u128| crate::text::decimal(balance as nat),
                ),
                cells.deep_view() == head + shown.take(i as int),
            decreases row.balances@.len() - i,
        {
            push_line(&mut cells, to_decimal(row.balances[i]));
            proof {
                assert(head + shown.take(i + 1) =~= (head + shown.take(i as int)).push(
                    shown[i as int],
                ));
            }
            i += 1;
        }
        proof {
            assert(shown.take(i as int) =~= shown);
        }
        cells
    }

    fn account_table(&self, ledger: &Ledger) -> (rows: Vec<Vec<String>>)
        ensures
            rows.deep_view() == crate::model::account_rows(self@, *ledger),
    {
        let mut head: Vec<String> = one_line("Address".to_owned());
        let ghost first = head.deep_view();
        let ghost tokens = ledger.tokens.deep_view();
        let mut i: usize = 0;
        proof {
            assert(first + tokens.take(0) =~= first);
        }
        while i < ledger.tokens.len()
            invariant
                i <= ledger.tokens@.len(),
                tokens == ledger.tokens.deep_view(),
                head.deep_view() == first + tokens.take(i as int),
            decreases ledger.tokens@.len() - i,
        {
            push_line(&mut head, ledger.tokens[i].clone());
            proof {
                assert(first + tokens.take(i + 1) =~= (first + tokens.take(i as int)).push(
                    tokens[i as int],
                ));
            }
            i += 1;
        }
        let mut rows: Vec<Vec<String>> = Vec::new();
        push_row(&mut rows, head);
        let ghost titled = rows.deep_view();
        let ghost shown = ledger.accounts@.map_values(
            |row: AccountRow| crate::model::account_cells(self@, row),
        );
        proof {
            assert(tokens.take(i as int) =~= tokens);
            assert(titled =~= seq![seq!["Address"@] + tokens]);
            assert(titled + shown.take(0) =~= titled);
        }
        let mut j: usize = 0;
        while j < ledger.accounts.len()
            invariant
                j <= ledger.accounts@.len(),
                shown == ledger.accounts@.map_values(
                    |row: AccountRow| crate::model::account_cells(self@, row),
                ),
                rows.deep_view() == titled + shown.take(j as int),
            decreases ledger.accounts@.len() - j,
        {
            push_row(&mut rows, self.account_row(&ledger.accounts[j]));
            proof {
                assert(titled + shown.take(j + 1) =~= (titled + shown.take(j as int)).push(
                    shown[j as int],
                ));
            }
            j += 1;
        }
        proof {
            assert(shown.take(j as int) =~= shown);
        }
        rows
    }

    fn get_accounts(&self, output: &mut Vec<String>, ledger: &Ledger)
        requires
            crate::model::accounts_drawable(self@, *ledger),
        ensures
            final(output).deep_view() == old(output).deep_view() + crate::model::accounts_table(
                self@,
                *ledger,
            ),
    {
        let ghost before = output.deep_view();
        if ledger.accounts.len() > 0 {
            let rows: Vec<Vec<String>> = self.account_table(ledger);
            push_line(output, draw_table(&rows));
        }
        proof {
            assert(output.deep_view() =~= before + crate::model::accounts_table(self@, *ledger));
        }
    }

    fn get_plain_accounts(&self, output: &mut Vec<String>)
        ensures
            final(output).deep_view() == old(output).deep_view() + crate::model::account_lines(
                self@,
            ),
    {
        let ghost before = output.deep_view();
        let ghost shown = crate::model::account_lines(self@);
        let accounts: &Vec<Account> = &self.settings.initial_accounts;
        let mut i: usize = 0;
        proof {
            assert(before + shown.take(0) =~= before);
        }
        while i < accounts.len()
            invariant
                i <= accounts@.len(),
                accounts@ == self@.settings.initial_accounts@,
                shown == crate::model::account_lines(self@),
                output.deep_view() == before + shown.take(i as int),
            decreases accounts@.len() - i,
        {
            let account: &Account = &accounts[i];
            let mut line: String = account.address.clone();
            line.append(": ");
            line.append(to_decimal(account.balance as u128).as_str());
            line.append(" (");
            line.append(account.name.as_str());
            line.append(")");
            push_line(output, line);
            proof {
                assert(before + shown.take(i + 1) =~= (before + shown.take(i as int)).push(
                    shown[i as int],
                ));
            }
            i += 1;
        }
        proof {
            assert(shown.take(i as int) =~= shown);
        }
    }

    fn contract_table(&self) -> (rows: Vec<Vec<String>>)
        ensures
            rows.deep_view() == crate::model::contract_rows(self@),
    {
        let mut head: Vec<String> = one_line("Contract identifier".to_owned());
        push_line(&mut head, "Public functions".to_owned());
        let mut rows: Vec<Vec<String>> = Vec::new();
        push_row(&mut rows, head);
        let ghost titled = rows.deep_view();
        let ghost shown = self@.contracts.map_values(
            |contract: (Seq<char>, Seq<char>)| seq![contract.0, contract.1],
        );
        proof {
            assert(head.deep_view() =~= seq!["Contract identifier"@, "Public functions"@]);
            assert(titled =~= seq![seq!["Contract identifier"@, "Public functions"@]]);
            assert(titled + shown.take(0) =~= titled);
        }
        let mut i: usize = 0;
        while i < self.contracts.len()
            invariant
                i <= self.contracts@.len(),
                shown == self@.contracts.map_values(
                    |contract: (Seq<char>, Seq<char>)| seq![contract.0, contract.1],
                ),
                rows.deep_view() == titled + shown.take(i as int),
            decreases self.contracts@.len() - i,
        {
            let mut row: Vec<String> = one_line(self.contracts[i].0.clone());
            push_line(&mut row, self.contracts[i].1.clone());
            proof {
                assert(row.deep_view() =~= shown[i as int]);
            }
            push_row(&mut rows, row);
            proof {
                assert(titled + shown.take(i + 1) =~= (titled + shown.take(i as int)).push(
                    shown[i as int],
                ));
            }
            i += 1;
        }
        proof {
            assert(shown.take(i as int) =~= shown);
        }
        rows
    }

    fn get_contracts(&self, output: &mut Vec<String>)
        requires
            crate::model::contracts_listable(self@),
        ensures
            final(output).deep_view() == old(output).deep_view() + crate::model::contract_lines(
                self@,
            ),
    {
        let ghost before = output.deep_view();
        if self.settings.initial_contracts.len() > 0 {
            match self.listing {
                Listing::Table => {
                    let rows: Vec<Vec<String>> = self.contract_table();
                    push_line(output, draw_table(&rows));
                },
                Listing::Plain => self.get_plain_contracts(output),
            }
        }
        proof {
            assert(output.deep_view() =~= before + crate::model::contract_lines(self@));
        }
    }

    fn get_plain_contracts(&self, output: &mut Vec<String>)
        ensures
            final(output).deep_view() == old(output).deep_view() + self@.contracts.map_values(
                |contract: (Seq<char>, Seq<char>)| contract.0,
            ),
    {
        let ghost before = output.deep_view();
        let ghost shown = self@.contracts.map_values(
            |contract: (Seq<char>, Seq<char>)| contract.0,
        );
        let mut i: usize = 0;
        proof {
            assert(before + shown.take(0) =~= before);
        }
        while i < self.contracts.len()
            invariant
                i <= self.contracts@.len(),
                shown == self@.contracts.map_values(
                    |contract: (Seq<char>, Seq<char>)| contract.0,
                ),
                output.deep_view() == before + shown.take(i as int),
            decreases self.contracts@.len() - i,
        {
            push_line(output, self.contracts[i].0.clone());
            proof {
                assert(before + shown.take(i + 1) =~= (before + shown.take(i as int)).push(
                    shown[i as int],
                ));
            }
            i += 1;
        }
        proof {
            assert(shown.take(i as int) =~= shown);
        }
    }

    fn get_block_height(&self, output: &mut Vec<String>, height: u32)
        ensures
            final(output).deep_view() == old(output).deep_view().push(
                crate::model::green("Current height: "@ + crate::text::decimal(height as nat)),
            ),
    {
        let mut line: String = "Current height: ".to_owned();
        line.append(to_decimal(height as u128).as_str());
        push_line(output, paint_plain(Colour::Green, line.as_str()));
    }
}

impl Session {
    /// Takes a command: it is done at once, or asks for something first.
    pub fn handle_command(&self, command: &str) -> (step: Step<Vec<String>, CommandTask>)
        requires
            crate::model::takes_command(self@, command@),
        ensures
            step@ == crate::model::command_step(self@, command@),
    {
        let mut output: Vec<String> = Vec::new();
        let ghost none = output.deep_view();
        proof {
            assert(none =~= Seq::empty());
        }
        match verb(command) {
            Verb::Help => {
                self.display_help(&mut output);
                proof {
                    assert(none + crate::model::help_lines() =~= crate::model::help_lines());
                }
                Step::Done(output)
            },
            Verb::ListFunctions => {
                self.display_functions(&mut output);
                proof {
                    let lines = crate::model::function_lines(self@);
                    assert(none + lines =~= lines);
                }
                Step::Done(output)
            },
            Verb::DescribeFunction => {
                self.display_doc(&mut output, command);
                proof {
                    let lines = crate::model::doc_lines(self@, command@);
                    assert(none + lines =~= lines);
                }
                Step::Done(output)
            },
            Verb::MintStx => self.mint_stx(command),
            Verb::SetTxSender => self.parse_and_set_tx_sender(command),
            Verb::GetAccounts => match self.listing {
                Listing::Table => Step::Ask(Request::ReadLedger, CommandTask::Accounts),
                Listing::Plain => {
                    self.get_plain_accounts(&mut output);
                    proof {
                        let lines = crate::model::account_lines(self@);
                        assert(none + lines =~= lines);
                    }
                    Step::Done(output)
                },
            },
            Verb::GetContracts => {
                self.get_contracts(&mut output);
                proof {
                    let lines = crate::model::contract_lines(self@);
                    assert(none + lines =~= lines);
                }
                Step::Done(output)
            },
            Verb::GetBlockHeight => Step::Ask(Request::BlockHeight, CommandTask::Height),
            Verb::AdvanceChainTip => self.parse_and_advance_chain_tip(command),
            Verb::Snippet => {
                let (request, identify): (Request, IdentifyTask) = self.formatted_interpretation(
                    command.to_owned(),
                    None,
                );
                Step::Ask(request, CommandTask::Identify(identify))
            },
        }
    }

    /// Goes on with a command when `reply` has come.
    pub fn resume_command(&mut self, task: CommandTask, reply: Reply) -> (step: Step<
        Vec<String>,
        CommandTask,
    >)
        requires
            crate::model::command_accepts(old(self)@, task@, reply),
        ensures
            exists|texts: Seq<Seq<char>>| #[trigger]
                crate::model::reply_texts(reply, texts) && (final(self)@, step@)
                    == crate::model::command_resumed(old(self)@, task@, reply, texts),
    {
        proof {
            assert(reply !is Ran ==> crate::model::reply_texts(reply, Seq::empty()));
        }
        match (task, reply) {
            (CommandTask::Recipient { address, amount }, Reply::Principal(known)) => {
                if !known {
                    return refuse("Unable to parse the address");
                }
                match to_number(amount.as_str(), u64::MAX) {
                    None => refuse("Unable to parse the balance"),
                    Some(amount) => Step::Ask(
                        Request::CreditStx(address, amount),
                        CommandTask::Credit,
                    ),
                }
            },
            (CommandTask::Credit, Reply::Credited(credited)) => match credited {
                Ok(message) => Step::Done(
                    one_line(paint_plain(Colour::Green, message.as_str())),
                ),
                Err(reason) => refuse(reason.as_str()),
            },
            (CommandTask::Sender, Reply::StandardPrincipal(parsed)) => match parsed {
                None => refuse("Unable to parse the address"),
                Some(principal) => Step::Ask(
                    self.set_tx_sender(principal.address),
                    CommandTask::SwitchSender { text: principal.text },
                ),
            },
            (CommandTask::SwitchSender { text }, Reply::StandardPrincipal(Some(principal))) => {
                self.finish_set_tx_sender(principal);
                let mut line: String = "tx-sender switched to ".to_owned();
                line.append(text.as_str());
                Step::Done(one_line(paint_plain(Colour::Green, line.as_str())))
            },
            (CommandTask::AdvanceTip { count }, Reply::Height(height)) => {
                let mut line: String = to_decimal(count as u128);
                line.append(" blocks simulated, new height: ");
                line.append(to_decimal(height as u128).as_str());
                Step::Done(one_line(paint_plain(Colour::Green, line.as_str())))
            },
            (CommandTask::Height, Reply::Height(height)) => {
                let mut output: Vec<String> = Vec::new();
                self.get_block_height(&mut output, height);
                proof {
                    let shown = crate::model::green(
                        "Current height: "@ + crate::text::decimal(height as nat),
                    );
                    assert(output.deep_view() =~= seq![shown]);
                }
                Step::Done(output)
            },
            (CommandTask::Accounts, Reply::Ledger(ledger)) => {
                let mut output: Vec<String> = Vec::new();
                self.get_accounts(&mut output, &ledger);
                proof {
                    assert(output.deep_view() =~= crate::model::accounts_table(self@, ledger));
                }
                Step::Done(output)
            },
            (CommandTask::Identify(identify), Reply::ContractId(Some(contract_id))) => {
                let (request, run): (Request, RunTask) = self.run_identified(
                    identify,
                    contract_id,
                );
                Step::Ask(request, CommandTask::Snippet(run))
            },
            (CommandTask::Snippet(run), Reply::Ran(outcome)) => {
                let result: Result<Vec<String>, Vec<String>> =
                    self.finish_formatted_interpretation(run, outcome);
                proof {
                    let texts = choose|texts: Seq<Seq<char>>| #[trigger]
                        crate::model::event_texts(outcome, texts) && result_lines(result)
                            == crate::model::outcome_lines(
                            run.snippet@,
                            run.name@,
                            outcome,
                            texts,
                        );
                    assert(crate::model::reply_texts(Reply::Ran(outcome), texts));
                }
                match result {
                    Ok(lines) => Step::Done(lines),
                    Err(lines) => Step::Done(lines),
                }
            },
            _ => {
                let output: Vec<String> = Vec::new();
                proof {
                    assert(output.deep_view() =~= Seq::empty());
                }
                Step::Done(output)
            },
        }
    }

    /// Tells whether this session can take `command`.
    pub fn takes_command(&self, command: &str) -> (result: bool)
        ensures
            result == crate::model::takes_command(self@, command@),
    {
        match verb(command) {
            Verb::GetContracts => self.can_list_contracts(),
            _ => true,
        }
    }

    /// Tells whether this session can go on with a command when `reply` has come.
    pub fn accepts_for_command(&self, task: &CommandTask, reply: &Reply) -> (result: bool)
        ensures
            result == crate::model::command_accepts(self@, task@, *reply),
    {
        match (task, reply) {
            (CommandTask::Recipient { .. }, Reply::Principal(_)) => true,
            (CommandTask::Credit, Reply::Credited(_)) => true,
            (CommandTask::Sender, Reply::StandardPrincipal(_)) => true,
            (CommandTask::SwitchSender { .. }, Reply::StandardPrincipal(parsed)) => parsed.is_some(),
            (CommandTask::AdvanceTip { .. }, Reply::Height(_)) => true,
            (CommandTask::Height, Reply::Height(_)) => true,
            (CommandTask::Accounts, Reply::Ledger(ledger)) => ledger.is_complete()
                && self.can_draw_accounts(ledger),
            (CommandTask::Identify(_), Reply::ContractId(parsed)) => parsed.is_some(),
            (CommandTask::Snippet(run), Reply::Ran(outcome)) => lies_within(
                run.snippet.as_str(),
                outcome,
            ),
            _ => false,
        }
    }

    fn can_list_contracts(&self) -> (result: bool)
        ensures
            result == crate::model::contracts_listable(self@),
    {
        if self.settings.initial_contracts.len() == 0 {
            return true;
        }
        match self.listing {
            Listing::Table => {
                let rows: Vec<Vec<String>> = self.contract_table();
                are_measurable(&rows)
            },
            Listing::Plain => true,
        }
    }

    fn can_draw_accounts(&self, ledger: &Ledger) -> (result: bool)
        ensures
            result == crate::model::accounts_drawable(self@, *ledger),
    {
        if ledger.accounts.len() == 0 {
            return true;
        }
        let rows: Vec<Vec<String>> = self.account_table(ledger);
        are_measurable(&rows)
    }
}

/// Tells whether every place at which an error points lies in `snippet`.
pub fn lies_within(snippet: &str, outcome: &RunOutcome) -> (result: bool)
    ensures
        result == crate::model::points_into(snippet@, *outcome),
{
    match outcome {
        Err((_, Some(diagnostic))) => can_highlight(snippet, &diagnostic.spans),
        _ => true,
    }
}

impl Session {
    /// Starts: credits the initial accounts, deploys the initial contracts, and
    /// shows both.
    pub fn start(&self) -> (step: Step<String, StartTask>)
        ensures
            step@ == crate::model::start_step(self@),
    {
        let output: Vec<String> = Vec::new();
        proof {
            assert(output.deep_view() =~= Seq::empty());
        }
        self.credit_from(output, 0)
    }

    fn credit_from(&self, output: Vec<String>, next: usize) -> (step: Step<String, StartTask>)
        ensures
            step@ == crate::model::credit_from(self@, output.deep_view(), next as int),
    {
        let accounts: &Vec<Account> = &self.settings.initial_accounts;
        if next < accounts.len() {
            let account: &Account = &accounts[next];
            Step::Ask(
                Request::ParsePrincipal(account.address.clone()),
                StartTask {
                    output,
                    stage: Stage::Recipient {
                        address: account.address.clone(),
                        balance: account.balance,
                        next: next + 1,
                    },
                },
            )
        } else {
            self.load_from(output, 0)
        }
    }

    fn load_from(&self, output: Vec<String>, next: usize) -> (step: Step<String, StartTask>)
        requires
            next == 0 || crate::model::contracts_listable(self@) || next
                < self@.settings.initial_contracts@.len(),
        ensures
            step@ == crate::model::load_from(self@, output.deep_view(), next as int),
    {
        if next < self.settings.initial_contracts.len() {
            let (request, identify): (Request, IdentifyTask) = self.formatted_interpretation(
                self.settings.initial_contracts[next].code.clone(),
                self.settings.initial_contracts[next].name.clone(),
            );
            Step::Ask(
                request,
                StartTask { output, stage: Stage::Identify { identify, next: next + 1 } },
            )
        } else if self.settings.initial_contracts.len() > 0 {
            let mut output: Vec<String> = output;
            push_line(&mut output, paint_plain(Colour::Blue, "Initialized contracts"));
            self.get_contracts(&mut output);
            self.report_balances(output)
        } else {
            self.report_balances(output)
        }
    }

    fn report_balances(&self, output: Vec<String>) -> (step: Step<String, StartTask>)
        ensures
            step@ == crate::model::report_balances(self@, output.deep_view()),
    {
        if self.settings.initial_accounts.len() > 0 {
            let mut output: Vec<String> = output;
            push_line(&mut output, paint_plain(Colour::Blue, "Initialized balances"));
            match self.listing {
                Listing::Table => Step::Ask(
                    Request::ReadLedger,
                    StartTask { output, stage: Stage::Balances },
                ),
                Listing::Plain => {
                    self.get_plain_accounts(&mut output);
                    Step::Done(join(&output, "\n"))
                },
            }
        } else {
            Step::Done(join(&output, "\n"))
        }
    }

    /// Goes on with the start when `reply` has come.
    pub fn resume_start(&mut self, task: StartTask, reply: Reply) -> (step: Step<
        String,
        StartTask,
    >)
        requires
            crate::model::start_accepts(old(self)@, task@, reply),
        ensures
            (final(self)@, step@) == crate::model::start_resumed(old(self)@, task@, reply),
    {
        let mut output: Vec<String> = task.output;
        let ghost before = output.deep_view();
        match (task.stage, reply) {
            (Stage::Recipient { address, balance, next }, Reply::Principal(known)) => {
                if !known {
                    push_line(
                        &mut output,
                        paint_plain(Colour::Red, "Unable to parse address to credit"),
                    );
                    return self.credit_from(output, next);
                }
                Step::Ask(
                    Request::CreditStx(address, balance),
                    StartTask { output, stage: Stage::Credit { next } },
                )
            },
            (Stage::Credit { next }, Reply::Credited(credited)) => {
                if let Err(reason) = &credited {
                    push_line(&mut output, paint_plain(Colour::Red, reason.as_str()));
                }
                proof {
                    assert(output.deep_view() =~= before + crate::model::credit_lines(credited));
                }
                self.credit_from(output, next)
            },
            (Stage::Identify { identify, next }, Reply::ContractId(Some(contract_id))) => {
                let (request, run): (Request, RunTask) = self.run_identified(
                    identify,
                    contract_id,
                );
                Step::Ask(request, StartTask { output, stage: Stage::Contract { run, next } })
            },
            (Stage::Contract { run, next }, Reply::Ran(outcome)) => {
                match self.finish_formatted_interpretation(run, outcome) {
                    Ok(_) => {},
                    Err(lines) => {
                        let mut lines: Vec<String> = lines;
                        append_lines(&mut output, &mut lines);
                    },
                }
                proof {
                    assert(output.deep_view() =~= before + crate::model::load_lines(
                        run.snippet@,
                        outcome,
                    ));
                }
                self.load_from(output, next)
            },
            (Stage::Balances, Reply::Ledger(ledger)) => {
                self.get_accounts(&mut output, &ledger);
                Step::Done(join(&output, "\n"))
            },
            _ => {
                let nothing: String = String::new();
                Step::Done(nothing)
            },
        }
    }

    /// Tells whether this session can go on with its start when `reply` has come.
    pub fn accepts_for_start(&self, task: &StartTask, reply: &Reply) -> (result: bool)
        ensures
            result == crate::model::start_accepts(self@, task@, *reply),
    {
        match (&task.stage, reply) {
            (Stage::Recipient { .. }, Reply::Principal(_)) => true,
            (Stage::Credit { .. }, Reply::Credited(_)) => true,
            (Stage::Identify { .. }, Reply::ContractId(parsed)) => parsed.is_some(),
            (Stage::Contract { run, next }, Reply::Ran(outcome)) => {
                lies_within(run.snippet.as_str(), outcome) && (*next
                    < self.settings.initial_contracts.len() || self.can_list_after(
                    &run.contract_id,
                    outcome,
                ))
            },
            (Stage::Balances, Reply::Ledger(ledger)) => ledger.is_complete()
                && self.can_draw_accounts(ledger),
            _ => false,
        }
    }

    /// Tells whether the contracts can be listed once a run under `contract_id` is
    /// recorded.
    fn can_list_after(&self, contract_id: &String, outcome: &RunOutcome) -> (result: bool)
        ensures
            result == crate::model::contracts_listable(
                crate::model::recorded(self@, contract_id@, *outcome),
            ),
    {
        if self.settings.initial_contracts.len() == 0 {
            return true;
        }
        match self.listing {
            Listing::Table => {
                let mut rows: Vec<Vec<String>> = self.contract_table();
                if let Ok(report) = outcome {
                    if report.contract_saved {
                        let mut row: Vec<String> = one_line(contract_id.clone());
                        push_line(&mut row, report.result.clone());
                        proof {
                            assert(row.deep_view() =~= seq![contract_id@, report.result@]);
                        }
                        push_row(&mut rows, row);
                    }
                }
                proof {
                    assert(rows.deep_view() =~= crate::model::contract_rows(
                        crate::model::recorded(self@, contract_id@, *outcome),
                    ));
                }
                are_measurable(&rows)
            },
            Listing::Plain => true,
        }
    }
}

/// What a command puts down is seen in the model as what it is, with all that it
/// holds.
pub proof fn command_tasks_keep_what_they_hold(
    a: String,
    b: String,
    count: u32,
    identify: IdentifyTask,
    run: RunTask,
)
    ensures
        (CommandTask::Recipient { address: a, amount: b })@ == (CommandTaskView::Recipient {
            address: a@,
            amount: b@,
        }),
        CommandTask::Credit@ == CommandTaskView::Credit,
        CommandTask::Sender@ == CommandTaskView::Sender,
        (CommandTask::SwitchSender { text: a })@ == (CommandTaskView::SwitchSender { text: a@ }),
        (CommandTask::AdvanceTip { count })@ == (CommandTaskView::AdvanceTip { count }),
        CommandTask::Height@ == CommandTaskView::Height,
        CommandTask::Accounts@ == CommandTaskView::Accounts,
        CommandTask::Identify(identify)@ == (CommandTaskView::Identify {
            snippet: identify.snippet@,
            name: identify.name@,
        }),
        CommandTask::Snippet(run)@ == (CommandTaskView::Snippet {
            snippet: run.snippet@,
            name: run.name@,
            contract_id: run.contract_id@,
        }),
{
}

/// What a start puts down is seen in the model as what it is, with all that it holds.
pub proof fn start_tasks_keep_what_they_hold(
    output: Vec<String>,
    stage: Stage,
    address: String,
    balance: u64,
    identify: IdentifyTask,
    run: RunTask,
    next: usize,
)
    ensures
        (StartTask { output, stage })@ == (StartTaskView {
            output: output.deep_view(),
            stage: stage@,
        }),
        (Stage::Recipient { address, balance, next })@ == (StageView::Recipient {
            address: address@,
            balance,
            next,
        }),
        (Stage::Credit { next })@ == (StageView::Credit { next }),
        (Stage::Identify { identify, next })@ == (StageView::Identify {
            snippet: identify.snippet@,
            name: identify.name@,
            next,
        }),
        (Stage::Contract { run, next })@ == (StageView::Contract {
            snippet: run.snippet@,
            name: run.name@,
            contract_id: run.contract_id@,
            next,
        }),
        Stage::Balances@ == StageView::Balances,
{
}

/// Lines on a success are told apart from lines on a failure, and all are kept.
pub proof fn results_keep_their_lines(lines: Vec<String>)
    ensures
        result_lines(Ok(lines)) == Ok::<Seq<Seq<char>>, Seq<Seq<char>>>(lines.deep_view()),
        result_lines(Err(lines)) == Err::<Seq<Seq<char>>, Seq<Seq<char>>>(lines.deep_view()),
{
}

} // verus!
