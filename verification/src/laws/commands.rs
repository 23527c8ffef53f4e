//! What holds of each command.
use crate::chain::{Reply, RequestView, StandardPrincipal};
use crate::model::{CommandStepView, CommandTaskView, SessionView, Verb};
use crate::settings::{Account, SessionSettings};
use vstd::prelude::*;

verus! {

/// Every line of a session is its text as it was in the colour that it is meant to
/// have.
pub proof fn colours_are_told_apart(text: Seq<char>)
    ensures
        crate::model::black(text) == "\x1B[30m"@ + text + "\x1B[0m"@,
        crate::model::red(text) == "\x1B[31m"@ + text + "\x1B[0m"@,
        crate::model::green(text) == "\x1B[32m"@ + text + "\x1B[0m"@,
        crate::model::yellow(text) == "\x1B[33m"@ + text + "\x1B[0m"@,
        crate::model::blue(text) == "\x1B[34m"@ + text + "\x1B[0m"@,
{
    crate::paint::paint_stands_around_the_text(text);
}

/// The help has to be asked for in so many words. All other commands are known by
/// how they begin, whatever follows, and what begins like none of them is code.
pub proof fn commands_are_known_by_how_they_begin(command: Seq<char>)
    ensures
        ({
            let verb = crate::model::verb_of(command);
            &&& verb == Verb::Help <==> command == "::help"@
            &&& verb == Verb::ListFunctions <==> "::list_functions"@.is_prefix_of(command)
            &&& verb == Verb::DescribeFunction <==> "::describe_function"@.is_prefix_of(command)
            &&& verb == Verb::MintStx <==> "::mint_stx"@.is_prefix_of(command)
            &&& verb == Verb::SetTxSender <==> "::set_tx_sender"@.is_prefix_of(command)
            &&& verb == Verb::GetAccounts <==> "::get_accounts"@.is_prefix_of(command)
            &&& verb == Verb::GetContracts <==> "::get_contracts"@.is_prefix_of(command)
            &&& verb == Verb::GetBlockHeight <==> "::get_block_height"@.is_prefix_of(command)
            &&& verb == Verb::AdvanceChainTip <==> "::advance_chain_tip"@.is_prefix_of(command)
            &&& verb == Verb::Snippet <==> {
                &&& command != "::help"@
                &&& !"::list_functions"@.is_prefix_of(command)
                &&& !"::describe_function"@.is_prefix_of(command)
                &&& !"::mint_stx"@.is_prefix_of(command)
                &&& !"::set_tx_sender"@.is_prefix_of(command)
                &&& !"::get_accounts"@.is_prefix_of(command)
                &&& !"::get_contracts"@.is_prefix_of(command)
                &&& !"::get_block_height"@.is_prefix_of(command)
                &&& !"::advance_chain_tip"@.is_prefix_of(command)
            }
        }),
{
    reveal_strlit("::help");
    reveal_strlit("::list_functions");
    reveal_strlit("::describe_function");
    reveal_strlit("::mint_stx");
    reveal_strlit("::set_tx_sender");
    reveal_strlit("::get_accounts");
    reveal_strlit("::get_contracts");
    reveal_strlit("::get_block_height");
    reveal_strlit("::advance_chain_tip");
    assert forall|prefix: Seq<char>|
        prefix.len() > 6 && #[trigger] prefix.is_prefix_of(command) implies command.len() > 6
        && command[2] == prefix[2] && command[6] == prefix[6] by {
        assert(command.subrange(0, prefix.len() as int)[2] == prefix[2]);
        assert(command.subrange(0, prefix.len() as int)[6] == prefix[6]);
    }
}

/// The words that a command is made of are what stands between its spaces.
proof fn lemma_words(pieces: Seq<Seq<char>>)
    requires
        pieces.len() > 0,
        forall|i: int| 0 <= i < pieces.len() ==> !(#[trigger] pieces[i]).contains(' '),
    ensures
        crate::model::words(crate::text::joined(pieces, seq![' '])) == pieces,
{
    crate::text::join_then_split(pieces, ' ');
}

/// Minting takes two words, between single spaces: an address, which is to be parsed,
/// and an amount. With more or fewer words it only tells how it is used.
pub proof fn minting_takes_two_words(s: SessionView, pieces: Seq<Seq<char>>)
    requires
        pieces.len() > 0,
        forall|i: int| 0 <= i < pieces.len() ==> !(#[trigger] pieces[i]).contains(' '),
        "::mint_stx"@.is_prefix_of(crate::text::joined(pieces, seq![' '])),
    ensures
        crate::model::command_step(s, crate::text::joined(pieces, seq![' '])) == (if pieces.len()
            == 3 {
            CommandStepView::Ask(
                RequestView::ParsePrincipal(pieces[1]),
                CommandTaskView::Recipient { address: pieces[1], amount: pieces[2] },
            )
        } else {
            CommandStepView::Done(
                seq![crate::model::red("Usage: ::mint_stx <recipient address> <amount>"@)],
            )
        }),
{
    lemma_words(pieces);
    commands_are_known_by_how_they_begin(crate::text::joined(pieces, seq![' ']));
}

/// Switching the sender takes one word, an address, which is to be parsed. With more
/// or fewer words it only tells how it is used.
pub proof fn switching_takes_one_word(s: SessionView, pieces: Seq<Seq<char>>)
    requires
        pieces.len() > 0,
        forall|i: int| 0 <= i < pieces.len() ==> !(#[trigger] pieces[i]).contains(' '),
        "::set_tx_sender"@.is_prefix_of(crate::text::joined(pieces, seq![' '])),
    ensures
        crate::model::command_step(s, crate::text::joined(pieces, seq![' '])) == (if pieces.len()
            == 2 {
            CommandStepView::Ask(
                RequestView::ParseStandardPrincipal(pieces[1]),
                CommandTaskView::Sender,
            )
        } else {
            CommandStepView::Done(
                seq![crate::model::red("Usage: ::set_tx_sender <address>"@)],
            )
        }),
{
    lemma_words(pieces);
    commands_are_known_by_how_they_begin(crate::text::joined(pieces, seq![' ']));
}

/// Mining takes one word, a number of blocks, and asks for as many. What is no such
/// number is refused. With more or fewer words it only tells how it is used.
pub proof fn mining_takes_one_number(s: SessionView, pieces: Seq<Seq<char>>)
    requires
        pieces.len() > 0,
        forall|i: int| 0 <= i < pieces.len() ==> !(#[trigger] pieces[i]).contains(' '),
        "::advance_chain_tip"@.is_prefix_of(crate::text::joined(pieces, seq![' '])),
    ensures
        ({
            let step = crate::model::command_step(s, crate::text::joined(pieces, seq![' ']));
            if pieces.len() != 2 {
                step == CommandStepView::Done(
                    seq![crate::model::red("Usage: ::advance_chain_tip <count>"@)],
                )
            } else {
                match crate::text::number_in(pieces[1], 0xFFFF_FFFF) {
                    Some(count) => {
                        &&& step matches CommandStepView::Ask(
                            RequestView::AdvanceChainTip(asked),
                            CommandTaskView::AdvanceTip { count: noted },
                        )
                        &&& asked == count
                        &&& noted == count
                    },
                    None => step == CommandStepView::Done(
                        seq![crate::model::red("Unable to parse count"@)],
                    ),
                }
            }
        }),
{
    lemma_words(pieces);
    commands_are_known_by_how_they_begin(crate::text::joined(pieces, seq![' ']));
}

/// What follows on each reply to a request to mint: an unknown recipient is refused
/// before a bad amount is, a good amount is credited to the recipient, and the answer
/// to that is shown, good in green and bad in red. The session stays as it is.
pub proof fn minting_goes_by_the_replies(
    s: SessionView,
    address: Seq<char>,
    amount: Seq<char>,
    known: bool,
    message: String,
)
    ensures
        ({
            let task = CommandTaskView::Recipient { address, amount };
            let (after, step) = crate::model::command_resumed(
                s,
                task,
                Reply::Principal(known),
                Seq::empty(),
            );
            &&& after == s
            &&& !known ==> step == CommandStepView::Done(
                seq![crate::model::red("Unable to parse the address"@)],
            )
            &&& known ==> match crate::text::number_in(amount, 0xFFFF_FFFF_FFFF_FFFF) {
                Some(n) => {
                    &&& step matches CommandStepView::Ask(
                        RequestView::CreditStx(credited, much),
                        CommandTaskView::Credit,
                    )
                    &&& credited == address
                    &&& much == n
                },
                None => step == CommandStepView::Done(
                    seq![crate::model::red("Unable to parse the balance"@)],
                ),
            }
        }),
        crate::model::command_resumed(
            s,
            CommandTaskView::Credit,
            Reply::Credited(Ok(message)),
            Seq::empty(),
        ) == (s, CommandStepView::Done(seq![crate::model::green(message@)])),
        crate::model::command_resumed(
            s,
            CommandTaskView::Credit,
            Reply::Credited(Err(message)),
            Seq::empty(),
        ) == (s, CommandStepView::Done(seq![crate::model::red(message@)])),
{
}

/// What follows on each reply to a request to switch the sender: a bad address is
/// refused; the address of a good one is parsed once more, and then it sends, and is
/// told as it is shown. Nothing else of the session changes.
pub proof fn switching_goes_by_the_replies(
    s: SessionView,
    first: StandardPrincipal,
    text: Seq<char>,
    second: StandardPrincipal,
)
    ensures
        crate::model::command_resumed(
            s,
            CommandTaskView::Sender,
            Reply::StandardPrincipal(None),
            Seq::empty(),
        ) == (s, CommandStepView::Done(seq![crate::model::red("Unable to parse the address"@)])),
        crate::model::command_resumed(
            s,
            CommandTaskView::Sender,
            Reply::StandardPrincipal(Some(first)),
            Seq::empty(),
        ) == (
            s,
            CommandStepView::Ask(
                RequestView::ParseStandardPrincipal(first.address@),
                CommandTaskView::SwitchSender { text: first.text@ },
            ),
        ),
        ({
            let (after, step) = crate::model::command_resumed(
                s,
                CommandTaskView::SwitchSender { text },
                Reply::StandardPrincipal(Some(second)),
                Seq::empty(),
            );
            &&& after.tx_sender == second.address@
            &&& after.settings == s.settings
            &&& after.listing == s.listing
            &&& after.contracts == s.contracts
            &&& after.reference == s.reference
            &&& step == CommandStepView::Done(
                seq![crate::model::green("tx-sender switched to "@ + text)],
            )
        }),
{
}

/// Whatever height the chain replies is shown as it is, with the number of blocks
/// where blocks were mined, and the session stays as it is.
pub proof fn heights_are_shown(s: SessionView, command: Seq<char>, count: u32, height: u32)
    requires
        "::get_block_height"@.is_prefix_of(command),
    ensures
        crate::model::command_step(s, command) == CommandStepView::Ask(
            RequestView::BlockHeight,
            CommandTaskView::Height,
        ),
        crate::model::command_resumed(
            s,
            CommandTaskView::Height,
            Reply::Height(height),
            Seq::empty(),
        ) == (
            s,
            CommandStepView::Done(
                seq![
                    crate::model::green(
                        "Current height: "@ + crate::text::decimal(height as nat),
                    ),
                ],
            ),
        ),
        crate::model::command_resumed(
            s,
            CommandTaskView::AdvanceTip { count },
            Reply::Height(height),
            Seq::empty(),
        ) == (
            s,
            CommandStepView::Done(
                seq![
                    crate::model::green(
                        crate::text::decimal(count as nat) + " blocks simulated, new height: "@
                            + crate::text::decimal(height as nat),
                    ),
                ],
            ),
        ),
{
    commands_are_known_by_how_they_begin(command);
}

/// Asking about a function leaves out every space of what is asked about, and shows
/// the page of what is left, or that there is none.
pub proof fn functions_are_described(s: SessionView, asked: Seq<char>)
    requires
        forall|i: int|
            0 <= i < asked.len() ==> !"::describe_function"@.is_prefix_of(
                #[trigger] asked.skip(i),
            ),
    ensures
        ({
            let keyword = asked.filter(|c: char| c != ' ');
            crate::model::command_step(s, "::describe_function"@ + asked)
                == CommandStepView::Done(
                seq![
                    crate::model::yellow(
                        if s.reference.dom().contains(keyword) {
                            s.reference[keyword]
                        } else {
                            "Function unknown"@
                        },
                    ),
                ],
            )
        }),
{
    let verb = "::describe_function"@;
    let command = verb + asked;
    let none: Seq<char> = Seq::empty();
    reveal_strlit("::describe_function");
    reveal_strlit("");
    reveal_strlit(" ");
    assert(""@ =~= none);
    assert(" "@ =~= seq![' ']);
    assert(verb =~= command.subrange(0, verb.len() as int));
    commands_are_known_by_how_they_begin(command);
    crate::text::first_occurrence_is_replaced(none, verb, asked, ""@);
    assert(none + verb + asked =~= command);
    crate::text::absent_patterns_change_nothing(asked, verb, ""@);
    assert(none + ""@ + asked =~= asked);
    crate::text::characters_are_removed(asked, ' ');
}

/// What is asked about is all of the command but its spaces and the text by which it
/// is known, wherever that stands: the command is cut at its first occurrence, and the
/// rest is looked through in the same way.
pub proof fn keywords_are_what_is_left(head: Seq<char>, tail: Seq<char>, rest: Seq<char>)
    requires
        forall|i: int|
            0 <= i < head.len() ==> !"::describe_function"@.is_prefix_of(
                #[trigger] (head + "::describe_function"@ + tail).skip(i),
            ),
        forall|i: int|
            0 <= i < rest.len() ==> !"::describe_function"@.is_prefix_of(#[trigger] rest.skip(i)),
    ensures
        crate::model::described_keyword(rest) == rest.filter(|c: char| c != ' '),
        crate::model::described_keyword(head + "::describe_function"@ + tail) == head.filter(
            |c: char| c != ' ',
        ) + crate::model::described_keyword(tail),
{
    let verb = "::describe_function"@;
    let none: Seq<char> = Seq::empty();
    let keep = |c: char| c != ' ';
    reveal_strlit("::describe_function");
    reveal_strlit("");
    reveal_strlit(" ");
    assert(""@ =~= none);
    assert(" "@ =~= seq![' ']);
    crate::text::absent_patterns_change_nothing(rest, verb, ""@);
    crate::text::characters_are_removed(rest, ' ');
    crate::text::first_occurrence_is_replaced(head, verb, tail, ""@);
    let later = crate::text::replaced(tail, verb, ""@);
    assert(head + ""@ + later =~= head + later);
    crate::text::characters_are_removed(head + later, ' ');
    crate::text::characters_are_removed(later, ' ');
    Seq::filter_distributes_over_add(head, later, keep);
}

/// A command that asks about a function shows the page of what it asks about, or that
/// there is none.
pub proof fn pages_are_shown(s: SessionView, command: Seq<char>)
    requires
        "::describe_function"@.is_prefix_of(command),
    ensures
        ({
            let keyword = crate::model::described_keyword(command);
            crate::model::command_step(s, command) == CommandStepView::Done(
                seq![
                    crate::model::yellow(
                        if s.reference.dom().contains(keyword) {
                            s.reference[keyword]
                        } else {
                            "Function unknown"@
                        },
                    ),
                ],
            )
        }),
{
    commands_are_known_by_how_they_begin(command);
}

/// Asking for the functions shows all keywords of the reference in one line of the
/// session, in the order of the index, and what follows the request does not matter.
pub proof fn functions_are_listed(s: SessionView, command: Seq<char>, index: Seq<Seq<char>>)
    requires
        "::list_functions"@.is_prefix_of(command),
        crate::reference::is_index_of(index, s.reference),
    ensures
        crate::model::command_step(s, command) == CommandStepView::Done(
            seq![crate::model::yellow(crate::text::joined(index, "\n"@))],
        ),
{
    commands_are_known_by_how_they_begin(command);
    crate::reference::index_names_every_keyword(index, s.reference);
}

/// Code is run as the sender's next contract.
pub proof fn code_is_the_next_contract(s: SessionView, command: Seq<char>)
    requires
        crate::model::verb_of(command) == Verb::Snippet,
    ensures
        ({
            let name = "contract-"@ + crate::text::decimal(s.contracts.len());
            crate::model::command_step(s, command) == CommandStepView::Ask(
                RequestView::ParseContractId(s.tx_sender + "."@ + name),
                CommandTaskView::Identify { snippet: command, name },
            )
        }),
{
}

/// The reply that a command waits for is of the kind that was asked for; an address
/// that was good before and an identifier have to be good.
pub proof fn commands_take_the_reply_they_wait_for(
    s: SessionView,
    address: Seq<char>,
    amount: Seq<char>,
    count: u32,
    contract_id: Seq<char>,
    reply: Reply,
)
    ensures
        crate::model::command_accepts(s, CommandTaskView::Recipient { address, amount }, reply)
            == reply is Principal,
        crate::model::command_accepts(s, CommandTaskView::Credit, reply) == reply is Credited,
        crate::model::command_accepts(s, CommandTaskView::Sender, reply)
            == reply is StandardPrincipal,
        crate::model::command_accepts(s, CommandTaskView::SwitchSender { text: address }, reply)
            == (reply matches Reply::StandardPrincipal(Some(_))),
        crate::model::command_accepts(s, CommandTaskView::AdvanceTip { count }, reply)
            == reply is Height,
        crate::model::command_accepts(s, CommandTaskView::Height, reply) == reply is Height,
        crate::model::command_accepts(s, CommandTaskView::Accounts, reply) ==> reply is Ledger,
        crate::model::command_accepts(
            s,
            CommandTaskView::Identify { snippet: address, name: amount },
            reply,
        ) == (reply matches Reply::ContractId(Some(_))),
        crate::model::command_accepts(
            s,
            CommandTaskView::Snippet { snippet: address, name: amount, contract_id },
            reply,
        ) == (reply matches Reply::Ran(outcome) && crate::model::points_into(address, outcome)),
{
}

/// The deployer sends first, where there is one.
pub proof fn deployers_send_first(
    settings: SessionSettings,
    deployer: Account,
    burn_address: Seq<char>,
)
    ensures
        settings.initial_deployer == Some(deployer) ==> crate::session::first_sender(
            settings,
            burn_address,
        ) == deployer.address@,
        settings.initial_deployer is None ==> crate::session::first_sender(
            settings,
            burn_address,
        ) == burn_address,
{
}

} // verus!
