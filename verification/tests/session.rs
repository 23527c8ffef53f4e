use clarity_repl::chain::{
    AccountRow, Ledger, Reply, Request, RunOutcome, RunReport, StandardPrincipal, Step,
};
use clarity_repl::diagnostic::{Diagnostic, Span};
use clarity_repl::reference::{Catalogue, FunctionApi, KeywordApi};
use clarity_repl::session::{
    lies_within, CommandTask, IdentifyTask, RunTask, Session, Stage, StartTask,
};
use clarity_repl::settings::{Account, InitialContract, Listing, SessionSettings};
use serde_json::Value;
use std::collections::VecDeque;

const BURN: &str = "ST000000000000000000002AMW42H";

/// A chain on which addresses that begin with `ST` are good, no credit of thirteen
/// is given, identifiers are written in capitals, and snippets come out as they are
/// told to.
struct Chain {
    height: u32,
    accounts: Vec<(String, u128)>,
    outcomes: VecDeque<RunOutcome>,
    asked: Vec<String>,
}

impl Chain {
    fn new(outcomes: Vec<RunOutcome>) -> Chain {
        Chain { height: 1, accounts: vec![], outcomes: outcomes.into(), asked: vec![] }
    }

    fn answer(&mut self, request: &Request) -> Reply {
        match request {
            Request::ParsePrincipal(address) => {
                self.asked.push(format!("parse {}", address));
                Reply::Principal(address.starts_with("ST"))
            }
            Request::ParseStandardPrincipal(address) => {
                self.asked.push(format!("parse standard {}", address));
                Reply::StandardPrincipal(if address.starts_with("ST") && !address.contains('.') {
                    Some(principal(address))
                } else {
                    None
                })
            }
            Request::CreditStx(address, amount) => {
                self.asked.push(format!("credit {} {}", address, amount));
                if *amount == 13 {
                    return Reply::Credited(Err("unlucky".to_string()));
                }
                self.accounts.push((address.clone(), *amount as u128));
                Reply::Credited(Ok(format!("{} has {}", address, amount)))
            }
            Request::ParseContractId(text) => {
                self.asked.push(format!("identify {}", text));
                Reply::ContractId(Some(text.to_uppercase()))
            }
            Request::Run { tx_sender, contract_id, snippet } => {
                self.asked.push(format!("run {} {} {}", tx_sender, contract_id, snippet));
                Reply::Ran(self.outcomes.pop_front().unwrap())
            }
            Request::AdvanceChainTip(count) => {
                self.height += count;
                Reply::Height(self.height)
            }
            Request::BlockHeight => Reply::Height(self.height),
            Request::ReadLedger => {
                self.asked.push("ledger".to_string());
                Reply::Ledger(Ledger {
                    tokens: vec!["STX".to_string()],
                    accounts: self
                        .accounts
                        .iter()
                        .map(|(address, balance)| AccountRow {
                            address: address.clone(),
                            balances: vec![*balance],
                        })
                        .collect(),
                })
            }
        }
    }
}

fn principal(address: &str) -> StandardPrincipal {
    StandardPrincipal { address: address.to_string(), text: format!("<{}>", address) }
}

fn start(session: &mut Session, chain: &mut Chain) -> String {
    let mut step = session.start();
    loop {
        match step {
            Step::Done(text) => return text,
            Step::Ask(request, task) => {
                let reply = chain.answer(&request);
                assert!(session.accepts_for_start(&task, &reply));
                step = session.resume_start(task, reply);
            }
        }
    }
}

fn command(session: &mut Session, chain: &mut Chain, text: &str) -> Vec<String> {
    assert!(session.takes_command(text));
    let mut step = session.handle_command(text);
    loop {
        match step {
            Step::Done(lines) => return lines,
            Step::Ask(request, task) => {
                let reply = chain.answer(&request);
                assert!(session.accepts_for_command(&task, &reply));
                step = session.resume_command(task, reply);
            }
        }
    }
}

fn catalogue() -> Catalogue {
    Catalogue {
        functions: vec![FunctionApi {
            name: "map-get?".to_string(),
            signature: "(map-get? m k)".to_string(),
            description: "Reads\na map.".to_string(),
            example: "(map-get? m 1)".to_string(),
        }],
        defines: vec![FunctionApi {
            name: "define-map".to_string(),
            signature: "(define-map m k v)".to_string(),
            description: "Defines.".to_string(),
            example: "x".to_string(),
        }],
        keywords: vec![KeywordApi {
            name: "tx-sender".to_string(),
            description: "Who sends.".to_string(),
            example: "y".to_string(),
        }],
    }
}

fn account(address: &str, balance: u64, name: &str) -> Account {
    Account { address: address.to_string(), balance, name: name.to_string() }
}

fn contract(code: &str, name: Option<&str>) -> InitialContract {
    InitialContract { code: code.to_string(), name: name.map(|name| name.to_string()) }
}

fn no_settings() -> SessionSettings {
    SessionSettings { initial_deployer: None, initial_accounts: vec![], initial_contracts: vec![] }
}

fn open(settings: SessionSettings, listing: Listing) -> Session {
    let (request, opening) = Session::new(settings, listing, BURN, &catalogue());
    match request {
        Request::ParseStandardPrincipal(address) => Session::open(opening, principal(&address)),
        _ => panic!("the sender is to be parsed"),
    }
}

fn plain_session() -> Session {
    open(no_settings(), Listing::Table)
}

fn value(result: &str) -> RunOutcome {
    Ok(RunReport {
        contract_saved: false,
        result: result.to_string(),
        events: vec![],
    })
}

fn stored(functions: &str) -> RunOutcome {
    Ok(RunReport {
        contract_saved: true,
        result: functions.to_string(),
        events: vec![],
    })
}

fn failed(message: &str, spans: Vec<Span>) -> RunOutcome {
    Err((message.to_string(), Some(Diagnostic { spans })))
}

fn red(text: &str) -> String {
    format!("\x1b[31m{}\x1b[0m", text)
}

fn green(text: &str) -> String {
    format!("\x1b[32m{}\x1b[0m", text)
}

fn yellow(text: &str) -> String {
    format!("\x1b[33m{}\x1b[0m", text)
}

fn blue(text: &str) -> String {
    format!("\x1b[34m{}\x1b[0m", text)
}

fn black(text: &str) -> String {
    format!("\x1b[30m{}\x1b[0m", text)
}

// ---- opening ----

#[test]
fn the_deployer_sends_first() {
    let mut settings = no_settings();
    settings.initial_deployer = Some(account("STDEPLOYER", 0, "deployer"));
    let session = open(settings, Listing::Table);
    assert_eq!(session.get_tx_sender(), "STDEPLOYER");
}

#[test]
fn without_a_deployer_the_burn_address_sends() {
    assert_eq!(plain_session().get_tx_sender(), BURN);
}

// ---- the reference ----

#[test]
fn the_reference_is_searched() {
    let session = plain_session();
    assert_eq!(session.get_api_reference_index(), vec!["define-map", "map-get?", "tx-sender"]);
    assert_eq!(
        session.lookup_api_reference("tx-sender").unwrap(),
        "Description\nWho sends.\n\nExamples\ny"
    );
    assert!(session.lookup_api_reference("nothing").is_none());
}

#[test]
fn functions_are_listed() {
    let lines = command(&mut plain_session(), &mut Chain::new(vec![]), "::list_functions please");
    assert_eq!(lines, vec![yellow("define-map\nmap-get?\ntx-sender")]);
}

#[test]
fn a_function_is_described() {
    let mut session = plain_session();
    let mut chain = Chain::new(vec![]);
    let page = "Usage\n(map-get? m k)\n\nDescription\nReads a map.\n\nExamples\n(map-get? m 1)";
    assert_eq!(command(&mut session, &mut chain, "::describe_function map-get?"), vec![yellow(page)]);
    assert_eq!(command(&mut session, &mut chain, "::describe_functionmap-get?"), vec![yellow(page)]);
    assert_eq!(command(&mut session, &mut chain, "::describe_function map - get?"), vec![yellow(page)]);
    assert_eq!(
        command(&mut session, &mut chain, "::describe_function map"),
        vec![yellow("Function unknown")]
    );
}

// ---- commands ----

#[test]
fn help_is_given() {
    let lines = command(&mut plain_session(), &mut Chain::new(vec![]), "::help");
    assert_eq!(
        lines,
        vec![
            yellow("::help\t\t\t\t\tDisplay help"),
            yellow("::list_functions\t\t\tDisplay all the native functions available in clarity"),
            yellow("::describe_function <function>\t\tDisplay documentation for a given native function fn-name"),
            yellow("::mint_stx <principal> <amount>\t\tMint STX balance for a given principal"),
            yellow("::set_tx_sender <principal>\t\tSet tx-sender variable to principal"),
            yellow("::get_accounts\t\t\t\tGet genesis accounts"),
            yellow("::get_contracts\t\t\t\tGet contracts"),
            yellow("::get_block_height\t\t\tGet current block height"),
            yellow("::advance_chain_tip <count>\t\tSimulate mining of <count> blocks"),
        ]
    );
}

#[test]
fn help_has_to_be_the_whole_command() {
    let mut chain = Chain::new(vec![value("u1")]);
    let lines = command(&mut plain_session(), &mut chain, "::help me");
    assert_eq!(lines, vec![green("u1")]);
    assert_eq!(
        chain.asked,
        vec![
            format!("identify {}.contract-0", BURN),
            format!("run {} {}.CONTRACT-0 ::help me", BURN, BURN),
        ]
    );
}

#[test]
fn minting_asks_for_a_credit() {
    let mut chain = Chain::new(vec![]);
    let lines = command(&mut plain_session(), &mut chain, "::mint_stx ST1 500");
    assert_eq!(lines, vec![green("ST1 has 500")]);
    assert_eq!(chain.asked, vec!["parse ST1", "credit ST1 500"]);
}

#[test]
fn a_refused_credit_is_shown() {
    let lines = command(&mut plain_session(), &mut Chain::new(vec![]), "::mint_stx ST1 13");
    assert_eq!(lines, vec![red("unlucky")]);
}

#[test]
fn minting_checks_usage_then_address_then_amount() {
    let mut session = plain_session();
    let mut chain = Chain::new(vec![]);
    let usage = red("Usage: ::mint_stx <recipient address> <amount>");
    assert_eq!(command(&mut session, &mut chain, "::mint_stx"), vec![usage.clone()]);
    assert_eq!(command(&mut session, &mut chain, "::mint_stx ST1"), vec![usage.clone()]);
    assert_eq!(command(&mut session, &mut chain, "::mint_stx ST1  5"), vec![usage]);
    assert!(chain.asked.is_empty());
    assert_eq!(
        command(&mut session, &mut chain, "::mint_stx nobody nothing"),
        vec![red("Unable to parse the address")]
    );
    assert_eq!(
        command(&mut session, &mut chain, "::mint_stx ST1 18446744073709551616"),
        vec![red("Unable to parse the balance")]
    );
    assert_eq!(chain.asked, vec!["parse nobody", "parse ST1"]);
    assert_eq!(
        command(&mut session, &mut chain, "::mint_stx ST1 18446744073709551615"),
        vec![green("ST1 has 18446744073709551615")]
    );
}

#[test]
fn the_sender_is_switched() {
    let mut session = plain_session();
    let mut chain = Chain::new(vec![value("1")]);
    assert_eq!(
        command(&mut session, &mut chain, "::set_tx_sender ST2"),
        vec![green("tx-sender switched to <ST2>")]
    );
    assert_eq!(session.get_tx_sender(), "ST2");
    assert_eq!(chain.asked, vec!["parse standard ST2", "parse standard ST2"]);
    command(&mut session, &mut chain, "(+ 1 0)");
    assert_eq!(chain.asked[2], "identify ST2.contract-0");
    assert_eq!(chain.asked[3], "run ST2 ST2.CONTRACT-0 (+ 1 0)");
}

#[test]
fn a_bad_sender_is_refused() {
    let mut session = plain_session();
    let mut chain = Chain::new(vec![]);
    assert_eq!(
        command(&mut session, &mut chain, "::set_tx_sender ST2.contract"),
        vec![red("Unable to parse the address")]
    );
    assert_eq!(
        command(&mut session, &mut chain, "::set_tx_sender"),
        vec![red("Usage: ::set_tx_sender <address>")]
    );
    assert_eq!(session.get_tx_sender(), BURN);
}

#[test]
fn the_sender_is_set_directly() {
    let mut session = plain_session();
    match session.set_tx_sender("ST9".to_string()) {
        Request::ParseStandardPrincipal(address) => assert_eq!(address, "ST9"),
        _ => panic!("the address is to be parsed"),
    }
    session.finish_set_tx_sender(principal("ST9"));
    assert_eq!(session.get_tx_sender(), "ST9");
}

#[test]
fn the_chain_advances() {
    let mut session = plain_session();
    let mut chain = Chain::new(vec![]);
    assert_eq!(
        command(&mut session, &mut chain, "::advance_chain_tip 10"),
        vec![green("10 blocks simulated, new height: 11")]
    );
    assert_eq!(command(&mut session, &mut chain, "::get_block_height"), vec![green("Current height: 11")]);
    match session.advance_chain_tip(3) {
        Request::AdvanceChainTip(count) => assert_eq!(count, 3),
        _ => panic!("blocks are to be mined"),
    }
}

#[test]
fn mined_blocks_add_up() {
    let mut session = plain_session();
    let mut twice = Chain::new(vec![]);
    command(&mut session, &mut twice, "::advance_chain_tip 4");
    assert_eq!(command(&mut session, &mut twice, "::get_block_height"), vec![green("Current height: 5")]);
    assert_eq!(
        command(&mut session, &mut twice, "::advance_chain_tip 38"),
        vec![green("38 blocks simulated, new height: 43")]
    );
    let mut once = Chain::new(vec![]);
    assert_eq!(
        command(&mut session, &mut once, "::advance_chain_tip 42"),
        vec![green("42 blocks simulated, new height: 43")]
    );
    for chain in [&mut twice, &mut once] {
        assert_eq!(command(&mut session, chain, "::get_block_height"), vec![green("Current height: 43")]);
        assert_eq!(command(&mut session, chain, "::get_block_height"), vec![green("Current height: 43")]);
    }
}

#[test]
fn the_help_is_the_same_in_every_session() {
    let mut chain = full_chain();
    let mut busy = open(full_settings(), Listing::Plain);
    start(&mut busy, &mut chain);
    let lines = command(&mut busy, &mut chain, "::help");
    assert_eq!(lines, command(&mut plain_session(), &mut chain, "::help"));
    let names: Vec<String> = lines
        .iter()
        .map(|line| line["\x1b[33m".len()..].split(['\t', ' ']).next().unwrap().to_string())
        .collect();
    assert_eq!(
        names,
        vec![
            "::help",
            "::list_functions",
            "::describe_function",
            "::mint_stx",
            "::set_tx_sender",
            "::get_accounts",
            "::get_contracts",
            "::get_block_height",
            "::advance_chain_tip",
        ]
    );
}

#[test]
fn a_bad_count_is_refused() {
    let mut session = plain_session();
    let mut chain = Chain::new(vec![]);
    let bad = red("Unable to parse count");
    assert_eq!(command(&mut session, &mut chain, "::advance_chain_tip ten"), vec![bad.clone()]);
    assert_eq!(command(&mut session, &mut chain, "::advance_chain_tip 4294967296"), vec![bad.clone()]);
    assert_eq!(command(&mut session, &mut chain, "::advance_chain_tip "), vec![bad]);
    assert_eq!(
        command(&mut session, &mut chain, "::advance_chain_tip"),
        vec![red("Usage: ::advance_chain_tip <count>")]
    );
    assert_eq!(chain.height, 1);
}

// ---- running ----

#[test]
fn a_value_is_shown() {
    let mut session = plain_session();
    let mut chain = Chain::new(vec![value("u3"), value("u4")]);
    assert_eq!(command(&mut session, &mut chain, "(+ u1 u2)"), vec![green("u3")]);
    command(&mut session, &mut chain, "(+ u2 u2)");
    assert_eq!(
        chain.asked,
        vec![
            format!("identify {}.contract-0", BURN),
            format!("run {} {}.CONTRACT-0 (+ u1 u2)", BURN, BURN),
            format!("identify {}.contract-0", BURN),
            format!("run {} {}.CONTRACT-0 (+ u2 u2)", BURN, BURN),
        ]
    );
}

#[test]
fn a_stored_contract_is_announced_and_counted() {
    let mut session = plain_session();
    let mut chain = Chain::new(vec![stored("(f)"), value("1")]);
    assert_eq!(
        command(&mut session, &mut chain, "(define-public (f) (ok 1))"),
        vec![
            green("→ .contract-0 contract successfully stored. Use (contract-call? ...) for invoking the public functions:"),
            green("(f)"),
        ]
    );
    command(&mut session, &mut chain, "1");
    assert_eq!(chain.asked[2], format!("identify {}.contract-1", BURN));
}

#[test]
fn events_are_shown_as_compact_json() {
    let mut object = serde_json::Map::new();
    object.insert("type".to_string(), Value::from("print"));
    object.insert("amount".to_string(), Value::from(7));
    let outcome = Ok(RunReport {
        contract_saved: false,
        result: "true".to_string(),
        events: vec![Value::Object(object), Value::Null],
    });
    let lines = command(&mut plain_session(), &mut Chain::new(vec![outcome]), "(print 7)");
    assert_eq!(
        lines,
        vec![
            black("Events emitted"),
            black("{\"amount\":7,\"type\":\"print\"}"),
            black("null"),
            green("true"),
        ]
    );
}

#[test]
fn an_error_is_shown_in_the_code() {
    let spans = vec![Span { start_line: 2, start_column: 2, end_line: 2, end_column: 4 }];
    let mut chain = Chain::new(vec![failed("use of unresolved function 'foo'", spans)]);
    assert_eq!(
        command(&mut plain_session(), &mut chain, "1\n(foo)"),
        vec![
            red("use of unresolved function 'foo'"),
            "1".to_string(),
            "(\x1b[1;4;31mfoo\x1b[0m)".to_string(),
        ]
    );
}

#[test]
fn an_error_without_a_place_shows_no_code() {
    let mut session = plain_session();
    let mut chain = Chain::new(vec![
        failed("lost", vec![]),
        Err(("runtime error".to_string(), None)),
    ]);
    assert_eq!(command(&mut session, &mut chain, "1"), vec![red("lost")]);
    assert_eq!(command(&mut session, &mut chain, "1"), vec![red("runtime error")]);
}

#[test]
fn an_error_outside_of_the_code_is_not_accepted() {
    let session = plain_session();
    let spans = vec![Span { start_line: 1, start_column: 1, end_line: 1, end_column: 9 }];
    let task = CommandTask::Snippet(RunTask {
        snippet: "1".to_string(),
        name: "c".to_string(),
        contract_id: "ST1.c".to_string(),
    });
    let reply = Reply::Ran(failed("bad", spans.clone()));
    assert!(!session.accepts_for_command(&task, &reply));
    assert!(!lies_within("1", &failed("bad", spans.clone())));
    assert!(lies_within("123456789", &failed("bad", spans)));
}

#[test]
fn replies_of_another_kind_are_not_accepted() {
    let session = plain_session();
    assert!(!session.accepts_for_command(&CommandTask::Height, &Reply::Principal(true)));
    assert!(session.accepts_for_command(&CommandTask::Height, &Reply::Height(1)));
    let switch = CommandTask::SwitchSender { text: "x".to_string() };
    assert!(!session.accepts_for_command(&switch, &Reply::StandardPrincipal(None)));
    let identify = IdentifyTask { snippet: "1".to_string(), name: "c".to_string() };
    assert!(!session.accepts_for_command(
        &CommandTask::Identify(identify.clone()),
        &Reply::ContractId(None)
    ));
    let task = StartTask { output: vec![], stage: Stage::Identify { identify, next: 1 } };
    assert!(!session.accepts_for_start(&task, &Reply::ContractId(None)));
    let task = StartTask { output: vec![], stage: Stage::Credit { next: 0 } };
    assert!(!session.accepts_for_start(&task, &Reply::Height(1)));
}

fn run_as(session: &Session, task: IdentifyTask, contract_id: &str) -> RunTask {
    session.run_identified(task, contract_id.to_string()).1
}

#[test]
fn a_snippet_is_interpreted() {
    let mut session = plain_session();
    let (request, task) = session.interpret("(f)".to_string(), Some("mine".to_string()));
    match request {
        Request::ParseContractId(text) => assert_eq!(text, format!("{}.mine", BURN)),
        _ => panic!("the identifier is to be parsed"),
    }
    let (request, task) = session.run_identified(task, "ID".to_string());
    match request {
        Request::Run { tx_sender, contract_id, snippet } => {
            assert_eq!(tx_sender, BURN);
            assert_eq!(contract_id, "ID");
            assert_eq!(snippet, "(f)");
        }
        _ => panic!("the snippet is to run"),
    }
    let (name, result, events) = session.finish_interpret(task, stored("(f)")).unwrap();
    assert_eq!(name, Some("mine".to_string()));
    assert_eq!(result, "(f)");
    assert!(events.is_empty());
    let (_, task) = session.interpret("1".to_string(), None);
    assert_eq!(task.name, "contract-1");
    let task = run_as(&session, task, "ID2");
    let (name, result, _) = session.finish_interpret(task, value("1")).unwrap();
    assert_eq!(name, None);
    assert_eq!(result, "1");
    let (_, task) = session.interpret("1".to_string(), None);
    let task = run_as(&session, task, "ID3");
    let (message, diagnostic) = session.finish_interpret(task, failed("no", vec![])).unwrap_err();
    assert_eq!(message, "no");
    assert!(diagnostic.unwrap().spans.is_empty());
}

#[test]
fn an_interpretation_is_formatted() {
    let mut session = plain_session();
    let (_, task) = session.formatted_interpretation("1".to_string(), None);
    let task = run_as(&session, task, "ID");
    assert_eq!(session.finish_formatted_interpretation(task, value("1")), Ok(vec![green("1")]));
    let (_, task) = session.formatted_interpretation("1".to_string(), None);
    let task = run_as(&session, task, "ID");
    assert_eq!(
        session.finish_formatted_interpretation(task, failed("no", vec![])),
        Err(vec![red("no")])
    );
}

// ---- listings ----

fn two_accounts() -> SessionSettings {
    SessionSettings {
        initial_deployer: None,
        initial_accounts: vec![account("ST1", 100, "alice"), account("ST22", 5, "bob")],
        initial_contracts: vec![],
    }
}

#[test]
fn accounts_are_drawn() {
    let mut session = open(two_accounts(), Listing::Table);
    let mut chain = Chain::new(vec![]);
    assert!(command(&mut session, &mut chain, "::get_accounts").is_empty());
    chain.accounts = vec![("ST1".to_string(), 100), ("ST3".to_string(), 7)];
    assert_eq!(
        command(&mut session, &mut chain, "::get_accounts"),
        vec![
            "\
+-------------+-----+
| Address     | STX |
+-------------+-----+
| ST1 (alice) | 100 |
+-------------+-----+
| ST3         | 7   |
+-------------+-----+
"
        ]
    );
}

fn two_tokens(balances: Vec<u128>) -> Ledger {
    Ledger {
        tokens: vec!["STX".to_string(), "ST3.gold".to_string()],
        accounts: vec![
            AccountRow { address: "ST1".to_string(), balances: vec![100, 2] },
            AccountRow { address: "ST3".to_string(), balances },
        ],
    }
}

#[test]
fn every_account_shows_every_token() {
    let mut session = open(two_accounts(), Listing::Table);
    let ledger = two_tokens(vec![0, 340282366920938463463374607431768211455]);
    assert!(ledger.is_complete());
    let reply = Reply::Ledger(ledger);
    assert!(session.accepts_for_command(&CommandTask::Accounts, &reply));
    match session.resume_command(CommandTask::Accounts, reply) {
        Step::Done(lines) => assert_eq!(
            lines,
            vec![
                "\
+-------------+-----+-----------------------------------------+
| Address     | STX | ST3.gold                                |
+-------------+-----+-----------------------------------------+
| ST1 (alice) | 100 | 2                                       |
+-------------+-----+-----------------------------------------+
| ST3         | 0   | 340282366920938463463374607431768211455 |
+-------------+-----+-----------------------------------------+
"
            ]
        ),
        Step::Ask(_, _) => panic!("the accounts are there"),
    }
}

#[test]
fn a_ledger_with_gaps_is_not_accepted() {
    let session = open(two_accounts(), Listing::Table);
    let task = StartTask { output: vec![], stage: Stage::Balances };
    for balances in [vec![], vec![1], vec![1, 2, 3]] {
        let ledger = two_tokens(balances);
        assert!(!ledger.is_complete());
        let reply = Reply::Ledger(ledger);
        assert!(!session.accepts_for_command(&CommandTask::Accounts, &reply));
        assert!(!session.accepts_for_start(&task, &reply));
    }
    assert!(session.accepts_for_start(&task, &Reply::Ledger(two_tokens(vec![1, 2]))));
    assert!(Ledger { tokens: vec!["STX".to_string()], accounts: vec![] }.is_complete());
}

#[test]
fn accounts_are_listed_plainly() {
    let mut session = open(two_accounts(), Listing::Plain);
    let mut chain = Chain::new(vec![]);
    assert_eq!(
        command(&mut session, &mut chain, "::get_accounts"),
        vec!["ST1: 100 (alice)", "ST22: 5 (bob)"]
    );
    assert!(chain.asked.is_empty());
}

#[test]
fn the_first_account_with_an_address_gives_its_name() {
    let mut settings = two_accounts();
    settings.initial_accounts.push(account("ST1", 1, "impostor"));
    let mut session = open(settings, Listing::Table);
    let mut chain = Chain::new(vec![]);
    chain.accounts = vec![("ST1".to_string(), 1)];
    let lines = command(&mut session, &mut chain, "::get_accounts");
    assert!(lines[0].contains("| ST1 (alice) | 1   |"));
}

#[test]
fn contracts_are_listed_only_with_initial_contracts() {
    let mut session = plain_session();
    let mut chain = Chain::new(vec![stored("(f)")]);
    command(&mut session, &mut chain, "(f)");
    assert!(command(&mut session, &mut chain, "::get_contracts").is_empty());
}

#[test]
fn contracts_that_cannot_be_measured_are_not_listed() {
    let mut settings = no_settings();
    settings.initial_contracts = vec![contract("1", None)];
    let mut session = open(settings, Listing::Table);
    let mut chain = Chain::new(vec![stored("\x1b[é")]);
    assert!(session.takes_command("::get_contracts"));
    command(&mut session, &mut chain, "1");
    assert!(!session.takes_command("::get_contracts"));
    assert!(session.takes_command("::get_accounts"));
}

// ---- starting ----

#[test]
fn an_empty_session_starts_silently() {
    let mut chain = Chain::new(vec![]);
    assert_eq!(start(&mut plain_session(), &mut chain), "");
    assert!(chain.asked.is_empty());
}

fn full_settings() -> SessionSettings {
    SessionSettings {
        initial_deployer: Some(account("STD", 0, "deployer")),
        initial_accounts: vec![
            account("nobody", 1, "nobody"),
            account("ST1", 100, "alice"),
            account("ST2", 13, "unlucky"),
        ],
        initial_contracts: vec![
            contract("(good)", Some("good")),
            contract("(bad)", None),
            contract("(next)", None),
        ],
    }
}

fn full_chain() -> Chain {
    let spans = vec![Span { start_line: 1, start_column: 2, end_line: 1, end_column: 4 }];
    Chain::new(vec![stored("(f)"), failed("broken", spans), stored("")])
}

#[test]
fn a_start_credits_deploys_and_shows() {
    let mut session = open(full_settings(), Listing::Table);
    let mut chain = full_chain();
    let text = start(&mut session, &mut chain);
    let expected = vec![
        red("Unable to parse address to credit"),
        red("unlucky"),
        red("broken"),
        "(\x1b[1;4;31mbad\x1b[0m)".to_string(),
        blue("Initialized contracts"),
        "\
+---------------------+------------------+
| Contract identifier | Public functions |
+---------------------+------------------+
| STD.GOOD            | (f)              |
+---------------------+------------------+
| STD.CONTRACT-1      |                  |
+---------------------+------------------+
"
        .to_string(),
        blue("Initialized balances"),
        "\
+-------------+-----+
| Address     | STX |
+-------------+-----+
| ST1 (alice) | 100 |
+-------------+-----+
"
        .to_string(),
    ];
    assert_eq!(text, expected.join("\n"));
    assert_eq!(
        chain.asked,
        vec![
            "parse nobody",
            "parse ST1",
            "credit ST1 100",
            "parse ST2",
            "credit ST2 13",
            "identify STD.good",
            "run STD STD.GOOD (good)",
            "identify STD.contract-1",
            "run STD STD.CONTRACT-1 (bad)",
            "identify STD.contract-1",
            "run STD STD.CONTRACT-1 (next)",
            "ledger",
        ]
    );
    assert_eq!(command(&mut session, &mut chain, "::get_contracts"), vec![expected[5].clone()]);
}

#[test]
fn a_start_lists_plainly() {
    let mut session = open(full_settings(), Listing::Plain);
    let mut chain = full_chain();
    let text = start(&mut session, &mut chain);
    let expected = vec![
        red("Unable to parse address to credit"),
        red("unlucky"),
        red("broken"),
        "(\x1b[1;4;31mbad\x1b[0m)".to_string(),
        blue("Initialized contracts"),
        "STD.GOOD".to_string(),
        "STD.CONTRACT-1".to_string(),
        blue("Initialized balances"),
        "nobody: 1 (nobody)".to_string(),
        "ST1: 100 (alice)".to_string(),
        "ST2: 13 (unlucky)".to_string(),
    ];
    assert_eq!(text, expected.join("\n"));
}

#[test]
fn commands_keep_what_was_there() {
    let mut session = open(full_settings(), Listing::Plain);
    let mut chain = full_chain();
    start(&mut session, &mut chain);
    assert_eq!(session.get_tx_sender(), "STD");
    chain.outcomes.push_back(failed("no", vec![]));
    chain.outcomes.push_back(stored("(g)"));
    for text in ["::help", "::mint_stx ST1 5", "::set_tx_sender ST4", "(no)", "(yes)"] {
        command(&mut session, &mut chain, text);
    }
    assert_eq!(
        command(&mut session, &mut chain, "::get_contracts"),
        vec!["STD.GOOD", "STD.CONTRACT-1", "ST4.CONTRACT-2"]
    );
    assert_eq!(
        command(&mut session, &mut chain, "::get_accounts"),
        vec!["nobody: 1 (nobody)", "ST1: 100 (alice)", "ST2: 13 (unlucky)"]
    );
    assert_eq!(session.get_api_reference_index().len(), 3);
}

#[test]
fn a_copied_session_goes_its_own_way() {
    let mut session = plain_session();
    let copy = session.clone();
    session.finish_set_tx_sender(principal("ST5"));
    assert_eq!(copy.get_tx_sender(), BURN);
    assert_eq!(copy.get_api_reference_index(), session.get_api_reference_index());
}
