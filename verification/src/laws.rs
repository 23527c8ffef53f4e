//! What holds of a session over more than one call.
use crate::chain::{Ledger, Reply, RequestView, RunOutcome, StandardPrincipal, StepView};
use crate::model::{
    CommandStepView, CommandTaskView, SessionView, StageView, StartStepView, StartTaskView, Verb,
};
use crate::paint::Colour;
use crate::settings::{Account, InitialContract, Listing};
use vstd::prelude::*;

pub mod commands;
pub mod listings;
pub mod runs;
pub mod starting;

verus! {

// ---- what every step keeps ----

/// Whether `after` can follow from `before`: the settings, the listing and the
/// reference are the same, and contracts have at most been added.
pub open spec fn grown(before: SessionView, after: SessionView) -> bool {
    &&& after.settings == before.settings
    &&& after.listing == before.listing
    &&& after.reference == before.reference
    &&& before.contracts.is_prefix_of(after.contracts)
}

/// No reply to a command takes a contract away or touches what the session
/// started from.
pub proof fn commands_only_add(
    s: SessionView,
    task: CommandTaskView,
    reply: Reply,
    texts: Seq<Seq<char>>,
)
    ensures
        grown(s, crate::model::command_resumed(s, task, reply, texts).0),
{
    assert(s.contracts =~= s.contracts.subrange(0, s.contracts.len() as int));
    assert forall|contract: (Seq<char>, Seq<char>)| s.contracts.is_prefix_of(
        #[trigger] s.contracts.push(contract),
    ) by {
        assert(s.contracts =~= s.contracts.push(contract).subrange(0, s.contracts.len() as int));
    }
}

/// No reply during a start takes a contract away, switches the sender or touches
/// what the session started from.
pub proof fn starts_only_add(s: SessionView, task: StartTaskView, reply: Reply)
    ensures
        grown(s, crate::model::start_resumed(s, task, reply).0),
        crate::model::start_resumed(s, task, reply).0.tx_sender == s.tx_sender,
{
    assert(s.contracts =~= s.contracts.subrange(0, s.contracts.len() as int));
    assert forall|contract: (Seq<char>, Seq<char>)| s.contracts.is_prefix_of(
        #[trigger] s.contracts.push(contract),
    ) by {
        assert(s.contracts =~= s.contracts.push(contract).subrange(0, s.contracts.len() as int));
    }
}

// ---- commands ----

/// The steps that a command has still before it.
pub open spec fn steps_left(step: CommandStepView) -> nat {
    match step {
        StepView::Done(_) => 0,
        StepView::Ask(_, CommandTaskView::Recipient { .. }) => 2,
        StepView::Ask(_, CommandTaskView::Sender) => 2,
        StepView::Ask(_, CommandTaskView::Identify { .. }) => 2,
        StepView::Ask(_, _) => 1,
    }
}

/// A command comes to its end: every reply brings it closer, and two are enough.
pub proof fn commands_end(
    s: SessionView,
    command: Seq<char>,
    request: RequestView,
    task: CommandTaskView,
    reply: Reply,
    texts: Seq<Seq<char>>,
)
    ensures
        steps_left(crate::model::command_step(s, command)) <= 2,
        steps_left(crate::model::command_resumed(s, task, reply, texts).1) < steps_left(
            StepView::Ask(request, task),
        ),
{
}

/// A command that asks puts down a task that waits for what was asked: a reply
/// that the session can go on with answers the request.
pub proof fn replies_answer(
    s: SessionView,
    command: Seq<char>,
    before: CommandTaskView,
    earlier: Reply,
    texts: Seq<Seq<char>>,
    later: SessionView,
    reply: Reply,
)
    ensures
        crate::model::command_step(s, command) matches StepView::Ask(request, task) ==> (crate::model::command_accepts(
            later,
            task,
            reply,
        ) ==> crate::chain::answers(request, reply)),
        crate::model::command_resumed(s, before, earlier, texts).1 matches StepView::Ask(request, task) ==> (
        crate::model::command_accepts(later, task, reply) ==> crate::chain::answers(request, reply)),
{
}

/// A start that asks waits for what was asked: a reply that the session can go on
/// with answers the request.
pub proof fn start_replies_answer(
    s: SessionView,
    before: StartTaskView,
    earlier: Reply,
    later: SessionView,
    reply: Reply,
)
    ensures
        crate::model::start_step(s) matches StepView::Ask(request, task) ==> (
        crate::model::start_accepts(later, task, reply) ==> crate::chain::answers(
            request,
            reply,
        )),
        crate::model::start_resumed(s, before, earlier).1 matches StepView::Ask(request, task)
            ==> (crate::model::start_accepts(later, task, reply) ==> crate::chain::answers(
            request,
            reply,
        )),
{
}

/// What does not begin with a colon is code.
pub proof fn code_is_run(command: Seq<char>)
    requires
        command.len() == 0 || command[0] != ':',
    ensures
        crate::model::verb_of(command) == Verb::Snippet,
{
    reveal_strlit("::help");
    reveal_strlit("::list_functions");
    reveal_strlit("::describe_function");
    reveal_strlit("::mint_stx");
    reveal_strlit("::set_tx_sender");
    reveal_strlit("::get_accounts");
    reveal_strlit("::get_contracts");
    reveal_strlit("::get_block_height");
    reveal_strlit("::advance_chain_tip");
    assert forall|prefix: Seq<char>|
        prefix.len() > 0 && prefix[0] == ':' implies !#[trigger] prefix.is_prefix_of(command) by {
        if prefix.is_prefix_of(command) {
            assert(command.subrange(0, prefix.len() as int)[0] == prefix[0]);
        }
    }
}

/// The commands with which a session does something other than run code, each with
/// the text by which it is known, in the order in which they are looked for.
pub open spec fn built_ins() -> Seq<(Verb, Seq<char>)> {
    seq![
        (Verb::Help, "::help"@),
        (Verb::ListFunctions, "::list_functions"@),
        (Verb::DescribeFunction, "::describe_function"@),
        (Verb::MintStx, "::mint_stx"@),
        (Verb::SetTxSender, "::set_tx_sender"@),
        (Verb::GetAccounts, "::get_accounts"@),
        (Verb::GetContracts, "::get_contracts"@),
        (Verb::GetBlockHeight, "::get_block_height"@),
        (Verb::AdvanceChainTip, "::advance_chain_tip"@),
    ]
}

/// Whether `verb` is the verb of one of those commands.
pub open spec fn is_built_in(verb: Verb) -> bool {
    exists|i: int| 0 <= i < built_ins().len() && (#[trigger] built_ins()[i]).0 == verb
}

/// Whether the first word of `text`, up to a tab or a space, is `name`.
pub open spec fn is_about(text: Seq<char>, name: Seq<char>) -> bool {
    &&& name.is_prefix_of(text)
    &&& name.len() < text.len()
    &&& text[name.len() as int] == '\t' || text[name.len() as int] == ' '
}

/// The help is the same in every session. It has one yellow line for each command
/// that does not run code, in the order in which the commands are looked for, and
/// no line twice.
pub proof fn help_covers_the_commands(s: SessionView)
    ensures
        crate::model::command_step(s, "::help"@) == CommandStepView::Done(
            crate::model::help_lines(),
        ),
        crate::model::help_lines().len() == built_ins().len(),
        crate::model::help_texts().len() == built_ins().len(),
        forall|i: int|
            0 <= i < built_ins().len() ==> {
                &&& #[trigger] crate::model::help_lines()[i] == crate::model::yellow(
                    crate::model::help_texts()[i],
                )
                &&& is_about(crate::model::help_texts()[i], built_ins()[i].1)
            },
        crate::model::help_lines().no_duplicates(),
        forall|i: int|
            0 <= i < built_ins().len() ==> crate::model::verb_of((#[trigger] built_ins()[i]).1)
                == built_ins()[i].0,
        forall|i: int, j: int|
            0 <= i < j < built_ins().len() ==> (#[trigger] built_ins()[i]).0 != (
            #[trigger] built_ins()[j]).0,
        forall|verb: Verb| verb != Verb::Snippet ==> #[trigger] is_built_in(verb),
{
    lemma_help_texts();
    lemma_built_ins();
    let texts = crate::model::help_texts();
    let lines = crate::model::help_lines();
    assert forall|i: int, j: int| 0 <= i < j < lines.len() implies lines[i] != lines[j] by {
        if lines[i] == lines[j] {
            let head = crate::paint::style_prefix(crate::paint::plain(Colour::Yellow));
            let from = head.len() as int;
            assert(lines[i].len() == lines[j].len());
            assert(lines[i].subrange(from, from + texts[i].len()) =~= texts[i]);
            assert(lines[j].subrange(from, from + texts[j].len()) =~= texts[j]);
        }
    }
    let all = built_ins();
    assert(all[0].0 == Verb::Help && all[1].0 == Verb::ListFunctions);
    assert(all[2].0 == Verb::DescribeFunction && all[3].0 == Verb::MintStx);
    assert(all[4].0 == Verb::SetTxSender && all[5].0 == Verb::GetAccounts);
    assert(all[6].0 == Verb::GetContracts && all[7].0 == Verb::GetBlockHeight);
    assert(all[8].0 == Verb::AdvanceChainTip);
}

/// The texts of the help are about the commands, and differ.
proof fn lemma_help_texts()
    ensures
        crate::model::help_texts().len() == built_ins().len(),
        forall|i: int|
            0 <= i < built_ins().len() ==> is_about(
                #[trigger] crate::model::help_texts()[i],
                built_ins()[i].1,
            ),
        forall|i: int, j: int|
            0 <= i < j < built_ins().len() ==> #[trigger] crate::model::help_texts()[i]
                != #[trigger] crate::model::help_texts()[j],
{
    reveal_strlit("::help");
    reveal_strlit("::list_functions");
    reveal_strlit("::describe_function");
    reveal_strlit("::mint_stx");
    reveal_strlit("::set_tx_sender");
    reveal_strlit("::get_accounts");
    reveal_strlit("::get_contracts");
    reveal_strlit("::get_block_height");
    reveal_strlit("::advance_chain_tip");
    reveal_strlit("::help\t\t\t\t\tDisplay help");
    reveal_strlit("::list_functions\t\t\tDisplay all the native functions available in clarity");
    reveal_strlit(
        "::describe_function <function>\t\tDisplay documentation for a given native function fn-name",
    );
    reveal_strlit("::mint_stx <principal> <amount>\t\tMint STX balance for a given principal");
    reveal_strlit("::set_tx_sender <principal>\t\tSet tx-sender variable to principal");
    reveal_strlit("::get_accounts\t\t\t\tGet genesis accounts");
    reveal_strlit("::get_contracts\t\t\t\tGet contracts");
    reveal_strlit("::get_block_height\t\t\tGet current block height");
    reveal_strlit("::advance_chain_tip <count>\t\tSimulate mining of <count> blocks");
    let texts = crate::model::help_texts();
    let names = built_ins();
    assert forall|i: int| 0 <= i < names.len() implies is_about(
        #[trigger] texts[i],
        names[i].1,
    ) by {
        let name = names[i].1;
        assert(name =~= texts[i].subrange(0, name.len() as int));
    }
}

/// A command is taken for what its own text says.
proof fn lemma_built_ins()
    ensures
        forall|i: int|
            0 <= i < built_ins().len() ==> crate::model::verb_of((#[trigger] built_ins()[i]).1)
                == built_ins()[i].0,
{
    reveal_strlit("::help");
    reveal_strlit("::list_functions");
    reveal_strlit("::describe_function");
    reveal_strlit("::mint_stx");
    reveal_strlit("::set_tx_sender");
    reveal_strlit("::get_accounts");
    reveal_strlit("::get_contracts");
    reveal_strlit("::get_block_height");
    reveal_strlit("::advance_chain_tip");
    assert forall|prefix: Seq<char>, text: Seq<char>|
        prefix.len() > 2 && text.len() > 2 && prefix[2] != text[2] implies !#[trigger] prefix.is_prefix_of(
        text,
    ) by {
        if prefix.is_prefix_of(text) {
            assert(text.subrange(0, prefix.len() as int)[2] == prefix[2]);
        }
    }
    assert forall|prefix: Seq<char>, text: Seq<char>|
        prefix.len() > 6 && text.len() > 6 && prefix[6] != text[6] implies !#[trigger] prefix.is_prefix_of(
        text,
    ) by {
        if prefix.is_prefix_of(text) {
            assert(text.subrange(0, prefix.len() as int)[6] == prefix[6]);
        }
    }
    assert forall|text: Seq<char>| #[trigger] text.is_prefix_of(text) by {
        assert(text =~= text.subrange(0, text.len() as int));
    }
    assert(crate::model::verb_of("::help"@) == Verb::Help);
    assert(crate::model::verb_of("::list_functions"@) == Verb::ListFunctions);
    assert(crate::model::verb_of("::describe_function"@) == Verb::DescribeFunction);
    assert(crate::model::verb_of("::mint_stx"@) == Verb::MintStx);
    assert(crate::model::verb_of("::set_tx_sender"@) == Verb::SetTxSender);
    assert(crate::model::verb_of("::get_accounts"@) == Verb::GetAccounts);
    assert(crate::model::verb_of("::get_contracts"@) == Verb::GetContracts);
    assert(crate::model::verb_of("::get_block_height"@) == Verb::GetBlockHeight);
    assert(crate::model::verb_of("::advance_chain_tip"@) == Verb::AdvanceChainTip);
}

/// Minting credits the recipient with the amount, both as they were written, and
/// asks for nothing else on the way.
pub proof fn minting_credits(s: SessionView, command: Seq<char>, amount: u64, message: String)
    requires
        crate::model::verb_of(command) == Verb::MintStx,
        crate::model::words(command).len() == 3,
        crate::text::number_in(crate::model::words(command)[2], u64::MAX as nat) == Some(amount as nat),
    ensures
        ({
            let address = crate::model::words(command)[1];
            let parse = CommandTaskView::Recipient { address, amount: crate::model::words(command)[2] };
            &&& crate::model::command_step(s, command) == CommandStepView::Ask(
                RequestView::ParsePrincipal(address),
                parse,
            )
            &&& crate::model::command_resumed(s, parse, Reply::Principal(true), Seq::empty()) == (
                s,
                CommandStepView::Ask(
                    RequestView::CreditStx(address, amount),
                    CommandTaskView::Credit,
                ),
            )
            &&& crate::model::command_resumed(
                s,
                CommandTaskView::Credit,
                Reply::Credited(Ok(message)),
                Seq::empty(),
            ) == (s, CommandStepView::Done(seq![crate::model::green(message@)]))
        }),
{
}

/// A credit is asked for only when the recipient is known and the amount is a
/// number: no other reply to a command leads to it.
pub proof fn no_other_credit(
    s: SessionView,
    task: CommandTaskView,
    reply: Reply,
    texts: Seq<Seq<char>>,
)
    ensures
        (crate::model::command_resumed(s, task, reply, texts).1 matches StepView::Ask(request, _) && request
            is CreditStx) <==> (task matches CommandTaskView::Recipient { amount, .. } && reply
            == Reply::Principal(true) && crate::text::number_in(amount, u64::MAX as nat) is Some),
{
}

/// Once the sender has been switched, code runs for the new sender, as one of the
/// new sender's contracts.
pub proof fn new_sender_sends(
    s: SessionView,
    text: Seq<char>,
    sender: StandardPrincipal,
    snippet: Seq<char>,
    name: Seq<char>,
    contract_id: Seq<char>,
)
    ensures
        ({
            let task = CommandTaskView::SwitchSender { text };
            let reply = Reply::StandardPrincipal(Some(sender));
            let after = crate::model::command_resumed(s, task, reply, Seq::empty()).0;
            &&& after.tx_sender == sender.address@
            &&& crate::model::identify_request(after, name) == RequestView::ParseContractId(
                sender.address@ + "."@ + name,
            )
            &&& crate::model::run_request(after, snippet, contract_id) == (RequestView::Run {
                tx_sender: sender.address@,
                contract_id,
                snippet,
            })
        }),
{
}

/// Code runs under the identifier that was parsed for it, and is stored under that
/// one if it is stored.
pub proof fn code_keeps_its_identifier(
    s: SessionView,
    command: Seq<char>,
    contract_id: String,
    outcome: RunOutcome,
    texts: Seq<Seq<char>>,
)
    requires
        crate::model::verb_of(command) == Verb::Snippet,
    ensures
        ({
            let name = crate::model::contract_name(s, None);
            let identify = CommandTaskView::Identify { snippet: command, name };
            let run = CommandTaskView::Snippet {
                snippet: command,
                name,
                contract_id: contract_id@,
            };
            &&& crate::model::command_step(s, command) == CommandStepView::Ask(
                crate::model::identify_request(s, name),
                identify,
            )
            &&& crate::model::command_resumed(
                s,
                identify,
                Reply::ContractId(Some(contract_id)),
                Seq::empty(),
            ) == (
                s,
                CommandStepView::Ask(
                    crate::model::run_request(s, command, contract_id@),
                    run,
                ),
            )
            &&& crate::model::command_resumed(s, run, Reply::Ran(outcome), texts).0
                == crate::model::recorded(s, contract_id@, outcome)
        }),
{
}

/// Two snippets without a name of their own run under one name only if no
/// contract was stored in between.
pub proof fn default_names_differ(earlier: SessionView, later: SessionView)
    requires
        earlier.contracts.len() != later.contracts.len(),
    ensures
        crate::model::contract_name(earlier, None) != crate::model::contract_name(later, None),
{
    let a = earlier.contracts.len();
    let b = later.contracts.len();
    let max = if a < b {
        b
    } else {
        a
    };
    crate::text::decimal_then_number(a, max);
    crate::text::decimal_then_number(b, max);
    let head = "contract-"@;
    let first = crate::model::contract_name(earlier, None);
    let second = crate::model::contract_name(later, None);
    assert(first.skip(head.len() as int) =~= crate::text::decimal(a));
    assert(second.skip(head.len() as int) =~= crate::text::decimal(b));
}

/// A command to mine `count` blocks asks for that many. If the chain counts its
/// blocks, the height that is shown is the one before and `count` more. The session
/// stays as it is.
pub proof fn mining_raises_the_height(s: SessionView, height: u32, count: u32, reply: Reply)
    requires
        crate::chain::counts_blocks(height, RequestView::AdvanceChainTip(count), reply),
    ensures
        crate::model::command_step(
            s,
            "::advance_chain_tip "@ + crate::text::decimal(count as nat),
        ) == CommandStepView::Ask(
            RequestView::AdvanceChainTip(count),
            CommandTaskView::AdvanceTip { count },
        ),
        crate::model::command_resumed(
            s,
            CommandTaskView::AdvanceTip { count },
            reply,
            Seq::empty(),
        ) == (
            s,
            CommandStepView::Done(
                seq![
                    crate::model::green(
                        crate::text::decimal(count as nat) + " blocks simulated, new height: "@
                            + crate::text::decimal((height + count) as nat),
                    ),
                ],
            ),
        ),
{
    let verb = "::advance_chain_tip"@;
    let number = crate::text::decimal(count as nat);
    let command = "::advance_chain_tip "@ + number;
    reveal_strlit("::advance_chain_tip");
    reveal_strlit("::advance_chain_tip ");
    assert(verb =~= command.subrange(0, verb.len() as int));
    lemma_mining_verb(command);
    crate::text::decimal_then_number(count as nat, u32::MAX as nat);
    let pieces = seq![verb, number];
    assert(pieces.drop_last() =~= seq![verb]);
    assert(crate::text::joined(seq![verb], seq![' ']) == verb);
    assert(crate::text::joined(pieces, seq![' ']) =~= command);
    crate::text::join_then_split(pieces, ' ');
}

/// On a chain that counts its blocks it makes no difference whether blocks are mined
/// in one go or in two.
pub proof fn mined_blocks_add_up(
    height: u32,
    first: u32,
    second: u32,
    between: u32,
    after: Reply,
    at_once: Reply,
)
    requires
        first + second <= u32::MAX,
        crate::chain::counts_blocks(
            height,
            RequestView::AdvanceChainTip(first),
            Reply::Height(between),
        ),
        crate::chain::counts_blocks(between, RequestView::AdvanceChainTip(second), after),
        crate::chain::counts_blocks(
            height,
            RequestView::AdvanceChainTip((first + second) as u32),
            at_once,
        ),
    ensures
        after == at_once,
        after == Reply::Height((height + first + second) as u32),
{
}

/// The height that is shown right after blocks were mined is the one that mining
/// them led to, if the chain counts its blocks. Neither command changes the session.
pub proof fn height_is_the_one_reached(
    s: SessionView,
    height: u32,
    count: u32,
    reached: u32,
    reply: Reply,
)
    requires
        crate::chain::counts_blocks(
            height,
            RequestView::AdvanceChainTip(count),
            Reply::Height(reached),
        ),
        crate::chain::counts_blocks(reached, RequestView::BlockHeight, reply),
    ensures
        ({
            let mined = crate::model::command_resumed(
                s,
                CommandTaskView::AdvanceTip { count },
                Reply::Height(reached),
                Seq::empty(),
            ).0;
            &&& mined == s
            &&& crate::model::command_step(mined, "::get_block_height"@) == CommandStepView::Ask(
                RequestView::BlockHeight,
                CommandTaskView::Height,
            )
            &&& crate::model::command_resumed(
                mined,
                CommandTaskView::Height,
                reply,
                Seq::empty(),
            ) == (
                s,
                CommandStepView::Done(
                    seq![
                        crate::model::green(
                            "Current height: "@ + crate::text::decimal(reached as nat),
                        ),
                    ],
                ),
            )
        }),
        reached == height + count,
{
    lemma_built_ins();
    assert(built_ins()[7].1 == "::get_block_height"@);
}

/// A command that begins with the words for mining is about mining.
proof fn lemma_mining_verb(command: Seq<char>)
    requires
        "::advance_chain_tip"@.is_prefix_of(command),
    ensures
        crate::model::verb_of(command) == Verb::AdvanceChainTip,
{
    reveal_strlit("::help");
    reveal_strlit("::list_functions");
    reveal_strlit("::describe_function");
    reveal_strlit("::mint_stx");
    reveal_strlit("::set_tx_sender");
    reveal_strlit("::get_accounts");
    reveal_strlit("::get_contracts");
    reveal_strlit("::get_block_height");
    reveal_strlit("::advance_chain_tip");
    assert(command[2] == "::advance_chain_tip"@[2]) by {
        assert(command.subrange(0, "::advance_chain_tip"@.len() as int)[2] == command[2]);
    }
    assert forall|prefix: Seq<char>|
        prefix.len() > 2 && prefix[2] != command[2] implies !#[trigger] prefix.is_prefix_of(
        command,
    ) by {
        if prefix.is_prefix_of(command) {
            assert(command.subrange(0, prefix.len() as int)[2] == prefix[2]);
        }
    }
}

/// A contract that is stored is listed behind those that were stored before.
pub proof fn stored_contracts_are_listed(
    s: SessionView,
    contract_id: Seq<char>,
    outcome: RunOutcome,
)
    requires
        outcome matches Ok(report) && report.contract_saved,
    ensures
        ({
            let after = crate::model::recorded(s, contract_id, outcome);
            &&& crate::model::contract_rows(after) == crate::model::contract_rows(s).push(
                seq![contract_id, outcome->Ok_0.result@],
            )
            &&& s.listing == Listing::Plain && s.settings.initial_contracts@.len() > 0
                ==> crate::model::contract_lines(after) == crate::model::contract_lines(s).push(
                contract_id,
            )
        }),
{
    let after = crate::model::recorded(s, contract_id, outcome);
    assert(crate::model::contract_rows(after) =~= crate::model::contract_rows(s).push(
        seq![contract_id, outcome->Ok_0.result@],
    ));
    if s.listing == Listing::Plain && s.settings.initial_contracts@.len() > 0 {
        assert(crate::model::contract_lines(after) =~= crate::model::contract_lines(s).push(
            contract_id,
        ));
    }
}

/// The table of accounts has a column for each token: its head names the tokens,
/// and every account has a row with its label and then its balance of each token,
/// in the order of the head.
pub proof fn accounts_show_every_token(s: SessionView, ledger: Ledger)
    requires
        ledger.complete(),
    ensures
        ({
            let rows = crate::model::account_rows(s, ledger);
            let tokens = ledger.tokens@;
            let accounts = ledger.accounts@;
            &&& rows.len() == 1 + accounts.len()
            &&& rows[0].len() == 1 + tokens.len()
            &&& rows[0][0] == "Address"@
            &&& forall|t: int| 0 <= t < tokens.len() ==> rows[0][t + 1] == (#[trigger] tokens[t])@
            &&& forall|i: int|
                0 <= i < accounts.len() ==> {
                    &&& rows[i + 1].len() == 1 + tokens.len()
                    &&& rows[i + 1][0] == crate::model::account_label(
                        s,
                        (#[trigger] accounts[i]).address@,
                    )
                }
            &&& forall|i: int, t: int|
                0 <= i < accounts.len() && 0 <= t < tokens.len() ==> rows[i + 1][t + 1]
                    == crate::text::decimal((#[trigger] accounts[i].balances@[t]) as nat)
        }),
{
    assert(ledger.tokens.deep_view().len() == ledger.tokens@.len());
}

/// A ledger with which a session goes on, in a command or in its start, has a
/// balance for every account and token.
pub proof fn accepted_ledgers_are_complete(
    s: SessionView,
    output: Seq<Seq<char>>,
    ledger: Ledger,
)
    ensures
        crate::model::command_accepts(s, CommandTaskView::Accounts, Reply::Ledger(ledger))
            ==> ledger.complete(),
        crate::model::start_accepts(
            s,
            StartTaskView { output, stage: StageView::Balances },
            Reply::Ledger(ledger),
        ) ==> ledger.complete(),
{
}

/// Asking about a keyword of the reference shows its page, if the keyword holds
/// neither a space nor the verb itself.
pub proof fn listed_keywords_are_described(s: SessionView, keyword: Seq<char>)
    requires
        s.reference.dom().contains(keyword),
        !keyword.contains(' '),
        forall|i: int|
            0 <= i < keyword.len() ==> !"::describe_function"@.is_prefix_of(
                #[trigger] keyword.skip(i),
            ),
    ensures
        crate::model::command_step(s, "::describe_function "@ + keyword) == CommandStepView::Done(
            seq![crate::model::yellow(s.reference[keyword])],
        ),
{
    let verb = "::describe_function"@;
    let command = "::describe_function "@ + keyword;
    reveal_strlit("::help");
    reveal_strlit("::list_functions");
    reveal_strlit("::describe_function");
    reveal_strlit("::describe_function ");
    reveal_strlit("");
    reveal_strlit(" ");
    let spaced = seq![' '] + keyword;
    assert(command =~= verb + spaced);
    assert(verb =~= command.subrange(0, verb.len() as int));
    assert(verb.is_prefix_of(command));
    assert(command != "::help"@) by {
        assert(command.len() >= 20);
    }
    assert(!"::list_functions"@.is_prefix_of(command)) by {
        if "::list_functions"@.is_prefix_of(command) {
            assert(command.subrange(0, "::list_functions"@.len() as int)[2] == 'l');
            assert(command[2] == 'd');
        }
    }
    assert(command.skip(verb.len() as int) =~= spaced);
    assert forall|i: int| 0 <= i < spaced.len() implies !verb.is_prefix_of(
        #[trigger] spaced.skip(i),
    ) by {
        if i == 0 {
            if verb.is_prefix_of(spaced.skip(0)) {
                assert(spaced.skip(0).subrange(0, verb.len() as int)[0] == verb[0]);
            }
        } else {
            assert(spaced.skip(i) =~= keyword.skip(i - 1));
        }
    }
    crate::text::absent_patterns_change_nothing(spaced, verb, ""@);
    assert(crate::text::replaced(command, verb, ""@) =~= spaced);
    assert(" "@ =~= seq![' ']);
    assert(spaced.skip(1) =~= keyword);
    assert(" "@ =~= spaced.subrange(0, 1));
    assert forall|i: int| 0 <= i < keyword.len() implies !" "@.is_prefix_of(
        #[trigger] keyword.skip(i),
    ) by {
        if " "@.is_prefix_of(keyword.skip(i)) {
            assert(keyword.skip(i).subrange(0, 1)[0] == ' ');
            assert(keyword[i] == ' ');
        }
    }
    crate::text::absent_patterns_change_nothing(keyword, " "@, ""@);
    assert(crate::text::replaced(spaced, " "@, ""@) =~= keyword);
}

// ---- the whole of a start ----

/// What came of one initial account: its address stood for nobody, or its credit
/// went through or was refused.
pub enum Verdict {
    Unknown,
    Credited(Result<String, String>),
}

/// What came of one initial contract: the identifier that was parsed for it, and
/// its run.
pub struct Deployment {
    pub contract_id: String,
    pub outcome: RunOutcome,
}

/// What was asked for an account.
pub open spec fn account_requests(account: Account, verdict: Verdict) -> Seq<RequestView> {
    match verdict {
        Verdict::Unknown => seq![RequestView::ParsePrincipal(account.address@)],
        Verdict::Credited(_) => seq![
            RequestView::ParsePrincipal(account.address@),
            RequestView::CreditStx(account.address@, account.balance),
        ],
    }
}

/// What was replied for an account.
pub open spec fn account_replies(verdict: Verdict) -> Seq<Reply> {
    match verdict {
        Verdict::Unknown => seq![Reply::Principal(false)],
        Verdict::Credited(credited) => seq![Reply::Principal(true), Reply::Credited(credited)],
    }
}

/// What is said of an account.
pub open spec fn account_output(verdict: Verdict) -> Seq<Seq<char>> {
    match verdict {
        Verdict::Unknown => seq![crate::model::red("Unable to parse address to credit"@)],
        Verdict::Credited(credited) => crate::model::credit_lines(credited),
    }
}

/// What was asked for the accounts from position `from` on.
pub open spec fn all_account_requests(
    accounts: Seq<Account>,
    verdicts: Seq<Verdict>,
    from: int,
) -> Seq<RequestView>
    decreases accounts.len() - from,
{
    if from >= accounts.len() {
        Seq::empty()
    } else {
        account_requests(accounts[from], verdicts[from]) + all_account_requests(
            accounts,
            verdicts,
            from + 1,
        )
    }
}

/// What was replied for the accounts from position `from` on.
pub open spec fn all_account_replies(verdicts: Seq<Verdict>, from: int) -> Seq<Reply>
    decreases verdicts.len() - from,
{
    if from >= verdicts.len() {
        Seq::empty()
    } else {
        account_replies(verdicts[from]) + all_account_replies(verdicts, from + 1)
    }
}

/// What is said of the accounts from position `from` on.
pub open spec fn all_account_output(verdicts: Seq<Verdict>, from: int) -> Seq<Seq<char>>
    decreases verdicts.len() - from,
{
    if from >= verdicts.len() {
        Seq::empty()
    } else {
        account_output(verdicts[from]) + all_account_output(verdicts, from + 1)
    }
}

/// The session when these deployments have been recorded, from position `from` on.
pub open spec fn after_runs(s: SessionView, runs: Seq<Deployment>, from: int) -> SessionView
    decreases runs.len() - from,
{
    if from >= runs.len() {
        s
    } else {
        after_runs(
            crate::model::recorded(s, runs[from].contract_id@, runs[from].outcome),
            runs,
            from + 1,
        )
    }
}

/// What was asked for the contracts from position `from` on: each runs under its
/// own name or under the next free one.
pub open spec fn all_run_requests(s: SessionView, runs: Seq<Deployment>, from: int) -> Seq<
    RequestView,
>
    decreases runs.len() - from,
{
    if from >= runs.len() {
        Seq::empty()
    } else {
        let contract = s.settings.initial_contracts@[from];
        let name = crate::model::contract_name(s, contract.name.deep_view());
        seq![
            crate::model::identify_request(s, name),
            crate::model::run_request(s, contract.code@, runs[from].contract_id@),
        ] + all_run_requests(
            crate::model::recorded(s, runs[from].contract_id@, runs[from].outcome),
            runs,
            from + 1,
        )
    }
}

/// What was replied for the contracts from position `from` on.
pub open spec fn all_run_replies(runs: Seq<Deployment>, from: int) -> Seq<Reply>
    decreases runs.len() - from,
{
    if from >= runs.len() {
        Seq::empty()
    } else {
        seq![
            Reply::ContractId(Some(runs[from].contract_id)),
            Reply::Ran(runs[from].outcome),
        ] + all_run_replies(runs, from + 1)
    }
}

/// What is said of the contracts from position `from` on.
pub open spec fn all_run_output(
    contracts: Seq<InitialContract>,
    runs: Seq<Deployment>,
    from: int,
) -> Seq<Seq<char>>
    decreases runs.len() - from,
{
    if from >= runs.len() {
        Seq::empty()
    } else {
        crate::model::load_lines(contracts[from].code@, runs[from].outcome) + all_run_output(
            contracts,
            runs,
            from + 1,
        )
    }
}

/// Whether a start ends by reading the ledger.
pub open spec fn reads_ledger(s: SessionView) -> bool {
    s.settings.initial_accounts@.len() > 0 && s.listing == Listing::Table
}

/// What a start shows below the accounts and contracts that went wrong.
pub open spec fn start_summary(s: SessionView, ledger: Ledger) -> Seq<Seq<char>> {
    let contracts = if s.settings.initial_contracts@.len() > 0 {
        seq![crate::model::blue("Initialized contracts"@)] + crate::model::contract_lines(s)
    } else {
        Seq::empty()
    };
    let balances = if s.settings.initial_accounts@.len() > 0 {
        seq![crate::model::blue("Initialized balances"@)] + match s.listing {
            Listing::Table => crate::model::accounts_table(s, ledger),
            Listing::Plain => crate::model::account_lines(s),
        }
    } else {
        Seq::empty()
    };
    contracts + balances
}

/// How far a start has come: the session, the step, and what was asked until then.
pub struct StartRun {
    pub session: SessionView,
    pub step: StartStepView,
    pub asked: Seq<RequestView>,
}

/// A start that stands at `step`, played on with `replies`.
pub open spec fn played(s: SessionView, step: StartStepView, replies: Seq<Reply>) -> StartRun
    decreases replies.len(),
{
    match step {
        StepView::Ask(request, task) if replies.len() > 0 => {
            let (after, next) = crate::model::start_resumed(s, task, replies[0]);
            let rest = played(after, next, replies.drop_first());
            StartRun { asked: seq![request] + rest.asked, ..rest }
        },
        _ => StartRun { session: s, step, asked: Seq::empty() },
    }
}

/// A start goes through the initial accounts in order, parses the address of each
/// and credits it with its balance if it stands for a principal; then it goes
/// through the initial contracts in order, parses the identifier of each and runs
/// it; then, for a table, it reads the ledger. It asks for nothing else. It stores
/// the contracts that were saved, and says first what went wrong, account by
/// account and contract by contract, then what is there.
pub proof fn start_from_end_to_end(
    s: SessionView,
    verdicts: Seq<Verdict>,
    runs: Seq<Deployment>,
    ledger: Ledger,
)
    requires
        verdicts.len() == s.settings.initial_accounts@.len(),
        runs.len() == s.settings.initial_contracts@.len(),
    ensures
        ({
            let last = if reads_ledger(s) {
                seq![Reply::Ledger(ledger)]
            } else {
                Seq::empty()
            };
            let replies = all_account_replies(verdicts, 0) + all_run_replies(runs, 0) + last;
            let run = played(s, crate::model::start_step(s), replies);
            let end = after_runs(s, runs, 0);
            &&& run.session == end
            &&& run.step == StartStepView::Done(
                crate::text::joined(
                    all_account_output(verdicts, 0) + all_run_output(
                        s.settings.initial_contracts@,
                        runs,
                        0,
                    ) + start_summary(end, ledger),
                    "\n"@,
                ),
            )
            &&& run.asked == all_account_requests(s.settings.initial_accounts@, verdicts, 0)
                + all_run_requests(s, runs, 0) + (if reads_ledger(s) {
                seq![RequestView::ReadLedger]
            } else {
                Seq::empty()
            })
        }),
{
    let last: Seq<Reply> = if reads_ledger(s) {
        seq![Reply::Ledger(ledger)]
    } else {
        Seq::empty()
    };
    let ran = all_run_replies(runs, 0);
    let none: Seq<Seq<char>> = Seq::empty();
    let said = all_account_output(verdicts, 0);
    let tail = ran + last;
    assert(all_account_replies(verdicts, 0) + ran + last =~= all_account_replies(verdicts, 0)
        + tail);
    lemma_accounts(s, none, verdicts, 0, tail);
    assert(none + said =~= said);
    lemma_contracts(s, said, runs, 0, last);
    let end = after_runs(s, runs, 0);
    lemma_after_runs(s, runs, 0);
    let output = said + all_run_output(s.settings.initial_contracts@, runs, 0);
    lemma_summary(end, output, ledger, last);
    let a = all_account_requests(s.settings.initial_accounts@, verdicts, 0);
    let b = all_run_requests(s, runs, 0);
    let c: Seq<RequestView> = if reads_ledger(s) {
        seq![RequestView::ReadLedger]
    } else {
        Seq::empty()
    };
    assert(a + (b + c) =~= a + b + c);
}

/// The accounts from position `from` on.
#[verifier::spinoff_prover]
proof fn lemma_accounts(
    s: SessionView,
    output: Seq<Seq<char>>,
    verdicts: Seq<Verdict>,
    from: int,
    tail: Seq<Reply>,
)
    requires
        verdicts.len() == s.settings.initial_accounts@.len(),
        0 <= from <= verdicts.len(),
    ensures
        ({
            let all = played(
                s,
                crate::model::credit_from(s, output, from),
                all_account_replies(verdicts, from) + tail,
            );
            let rest = played(
                s,
                crate::model::load_from(s, output + all_account_output(verdicts, from), 0),
                tail,
            );
            &&& all.session == rest.session
            &&& all.step == rest.step
            &&& all.asked == all_account_requests(
                s.settings.initial_accounts@,
                verdicts,
                from,
            ) + rest.asked
        }),
    decreases verdicts.len() - from,
{
    let accounts = s.settings.initial_accounts@;
    assert(accounts.len() == s.settings.initial_accounts.len());
    let replies = all_account_replies(verdicts, from) + tail;
    let step = crate::model::credit_from(s, output, from);
    if from == verdicts.len() {
        assert(replies =~= tail);
        assert(output + all_account_output(verdicts, from) =~= output);
        let rest = played(s, crate::model::load_from(s, output, 0), tail);
        assert(all_account_requests(accounts, verdicts, from) + rest.asked =~= rest.asked);
    } else {
        let verdict = verdicts[from];
        let said = output + account_output(verdict);
        let later = all_account_replies(verdicts, from + 1) + tail;
        let next = crate::model::credit_from(s, said, from + 1);
        lemma_accounts(s, said, verdicts, from + 1, tail);
        assert(said + all_account_output(verdicts, from + 1) =~= output + all_account_output(
            verdicts,
            from,
        ));
        let rest = played(s, next, later);
        match verdict {
            Verdict::Unknown => {
                assert(replies[0] == Reply::Principal(false));
                assert(replies.drop_first() =~= later);
                assert(output.push(
                    crate::model::red("Unable to parse address to credit"@),
                ) =~= said);
                assert(played(s, step, replies).asked =~= account_requests(
                    accounts[from],
                    verdict,
                ) + rest.asked);
            },
            Verdict::Credited(credited) => {
                let middle = replies.drop_first();
                assert(replies[0] == Reply::Principal(true));
                assert(middle[0] == Reply::Credited(credited));
                assert(middle.drop_first() =~= later);
                let crediting = crate::model::start_resumed(s, step->Ask_1, replies[0]).1;
                assert(played(s, crediting, middle).session == rest.session);
                assert(played(s, crediting, middle).step == rest.step);
                assert(played(s, crediting, middle).asked =~= seq![
                    RequestView::CreditStx(accounts[from].address@, accounts[from].balance),
                ] + rest.asked);
                assert(played(s, step, replies).asked =~= account_requests(
                    accounts[from],
                    verdict,
                ) + rest.asked);
            },
        }
        assert(played(s, step, replies).asked =~= all_account_requests(accounts, verdicts, from)
            + played(
            s,
            crate::model::load_from(s, output + all_account_output(verdicts, from), 0),
            tail,
        ).asked);
    }
}

/// The contracts from position `from` on.
#[verifier::spinoff_prover]
#[verifier::rlimit(60)]
proof fn lemma_contracts(
    s: SessionView,
    output: Seq<Seq<char>>,
    runs: Seq<Deployment>,
    from: int,
    tail: Seq<Reply>,
)
    requires
        runs.len() == s.settings.initial_contracts@.len(),
        0 <= from <= runs.len(),
    ensures
        ({
            let all = played(
                s,
                crate::model::load_from(s, output, from),
                all_run_replies(runs, from) + tail,
            );
            let end = after_runs(s, runs, from);
            let rest = played(
                end,
                crate::model::load_from(
                    end,
                    output + all_run_output(s.settings.initial_contracts@, runs, from),
                    runs.len() as int,
                ),
                tail,
            );
            &&& all.session == rest.session
            &&& all.step == rest.step
            &&& all.asked == all_run_requests(s, runs, from) + rest.asked
        }),
    decreases runs.len() - from,
{
    let contracts = s.settings.initial_contracts@;
    assert(contracts.len() == s.settings.initial_contracts.len());
    let replies = all_run_replies(runs, from) + tail;
    if from == runs.len() {
        assert(replies =~= tail);
        assert(output + all_run_output(contracts, runs, from) =~= output);
        let rest = played(s, crate::model::load_from(s, output, from), tail);
        assert(all_run_requests(s, runs, from) + rest.asked =~= rest.asked);
    } else {
        let contract_id = runs[from].contract_id;
        let outcome = runs[from].outcome;
        let after = crate::model::recorded(s, contract_id@, outcome);
        let said = output + crate::model::load_lines(contracts[from].code@, outcome);
        lemma_contracts(after, said, runs, from + 1, tail);
        assert(said + all_run_output(contracts, runs, from + 1) =~= output + all_run_output(
            contracts,
            runs,
            from,
        ));
        let step = crate::model::load_from(s, output, from);
        let middle = replies.drop_first();
        let later = all_run_replies(runs, from + 1) + tail;
        assert(replies[0] == Reply::ContractId(Some(contract_id)));
        assert(middle[0] == Reply::Ran(outcome));
        assert(middle.drop_first() =~= later);
        let running = crate::model::start_resumed(s, step->Ask_1, replies[0]).1;
        let next = crate::model::load_from(after, said, from + 1);
        let rest = played(after, next, later);
        assert(played(s, running, middle).session == rest.session);
        assert(played(s, running, middle).step == rest.step);
        assert(played(s, running, middle).asked =~= seq![
            crate::model::run_request(s, contracts[from].code@, contract_id@),
        ] + rest.asked);
        let end = after_runs(s, runs, from);
        let last = played(
            end,
            crate::model::load_from(
                end,
                output + all_run_output(contracts, runs, from),
                runs.len() as int,
            ),
            tail,
        );
        assert(played(s, step, replies).asked =~= all_run_requests(s, runs, from) + last.asked);
    }
}

/// Recording runs changes the contracts alone.
proof fn lemma_after_runs(s: SessionView, runs: Seq<Deployment>, from: int)
    ensures
        after_runs(s, runs, from).settings == s.settings,
        after_runs(s, runs, from).listing == s.listing,
    decreases runs.len() - from,
{
    if from < runs.len() {
        lemma_after_runs(
            crate::model::recorded(s, runs[from].contract_id@, runs[from].outcome),
            runs,
            from + 1,
        );
    }
}

/// The end of a start, when all contracts have run.
proof fn lemma_summary(
    s: SessionView,
    output: Seq<Seq<char>>,
    ledger: Ledger,
    last: Seq<Reply>,
)
    requires
        last == (if reads_ledger(s) {
            seq![Reply::Ledger(ledger)]
        } else {
            Seq::empty()
        }),
    ensures
        ({
            let run = played(
                s,
                crate::model::load_from(
                    s,
                    output,
                    s.settings.initial_contracts@.len() as int,
                ),
                last,
            );
            &&& run.session == s
            &&& run.step == StartStepView::Done(
                crate::text::joined(output + start_summary(s, ledger), "\n"@),
            )
            &&& run.asked == (if reads_ledger(s) {
                seq![RequestView::ReadLedger]
            } else {
                Seq::empty()
            })
        }),
{
    let listed = if s.settings.initial_contracts@.len() > 0 {
        output.push(crate::model::blue("Initialized contracts"@)) + crate::model::contract_lines(s)
    } else {
        output
    };
    if s.settings.initial_accounts@.len() > 0 {
        let titled = listed.push(crate::model::blue("Initialized balances"@));
        match s.listing {
            Listing::Table => {
                let shown = titled + crate::model::accounts_table(s, ledger);
                assert(shown =~= output + start_summary(s, ledger));
                let step = crate::model::report_balances(s, listed);
                let resumed = crate::model::start_resumed(s, step->Ask_1, last[0]);
                assert(resumed.1 == StartStepView::Done(crate::text::joined(shown, "\n"@)));
                assert(played(s, resumed.1, last.drop_first()).step == resumed.1);
                assert(played(s, step, last).asked =~= seq![RequestView::ReadLedger]);
            },
            Listing::Plain => {
                assert(titled + crate::model::account_lines(s) =~= output + start_summary(
                    s,
                    ledger,
                ));
            },
        }
    } else {
        assert(listed =~= output + start_summary(s, ledger));
    }
}

} // verus!
