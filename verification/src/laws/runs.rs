//! What holds of code that runs: the name under which it runs, and what is shown
//! and kept of it.
use crate::chain::{Reply, RequestView, RunOutcome, RunReport};
use crate::diagnostic::Diagnostic;
use crate::model::{CommandStepView, CommandTaskView, SessionView};
use serde_json::Value;
use vstd::prelude::*;
use vstd::string::*;

verus! {

/// Code with a name of its own runs under that name, whatever the session has
/// stored; code without one is numbered by the contracts stored so far. Either way
/// the contract is one of the sender's.
pub proof fn named_code_keeps_its_name(s: SessionView, name: Seq<char>)
    ensures
        crate::model::contract_name(s, Some(name)) == name,
        crate::model::contract_name(s, None) == "contract-"@ + crate::text::decimal(
            s.contracts.len(),
        ),
        crate::model::identify_request(s, name) == RequestView::ParseContractId(
            s.tx_sender + "."@ + name,
        ),
{
}

/// What the sender has identified runs for the sender, under that identifier, as it
/// was written.
pub proof fn code_runs_as_it_was_written(
    s: SessionView,
    snippet: Seq<char>,
    name: Seq<char>,
    contract_id: String,
)
    ensures
        crate::model::run_request(s, snippet, contract_id@) == (RequestView::Run {
            tx_sender: s.tx_sender,
            contract_id: contract_id@,
            snippet,
        }),
        crate::model::command_resumed(
            s,
            CommandTaskView::Identify { snippet, name },
            Reply::ContractId(Some(contract_id)),
            Seq::empty(),
        ) == (
            s,
            CommandStepView::Ask(
                RequestView::Run { tx_sender: s.tx_sender, contract_id: contract_id@, snippet },
                CommandTaskView::Snippet { snippet, name, contract_id: contract_id@ },
            ),
        ),
{
}

/// A run that succeeded is shown from the end: the last line is the result; right
/// before it, if there are events, stands a line for each of them, in order, under
/// their title; and above that, if the code was stored, where it was. There is
/// nothing else, and whether the code was stored has no part in how events are shown.
pub proof fn success_is_shown_in_full(
    s: SessionView,
    snippet: Seq<char>,
    name: Seq<char>,
    contract_id: Seq<char>,
    report: RunReport,
    texts: Seq<Seq<char>>,
)
    requires
        crate::model::event_texts(Ok(report), texts),
    ensures
        ({
            let task = CommandTaskView::Snippet { snippet, name, contract_id };
            let (after, step) = crate::model::command_resumed(
                s,
                task,
                Reply::Ran(Ok(report)),
                texts,
            );
            let lines = step->Done_0;
            let events = report.events@.len();
            let end = lines.len() - 1;
            &&& after == crate::model::recorded(s, contract_id, Ok(report))
            &&& step is Done
            &&& crate::model::outcome_lines(snippet, name, Ok(report), texts) == Ok::<
                Seq<Seq<char>>,
                Seq<Seq<char>>,
            >(lines)
            &&& lines.len() == 1 + (if events > 0 {
                events + 1
            } else {
                0
            }) + (if report.contract_saved {
                1int
            } else {
                0
            })
            &&& lines[end] == crate::model::green(report.result@)
            &&& events > 0 ==> lines[end - events - 1] == crate::model::black("Events emitted"@)
            &&& texts.len() == events
            &&& forall|k: int|
                0 <= k < events ==> {
                    &&& lines[end - events + k] == crate::model::black(#[trigger] texts[k])
                    &&& exists|written: String| #[trigger]
                        to_string_from_display_ensures::<Value>(&report.events@[k], written)
                            && written@ == texts[k]
                }
            &&& report.contract_saved ==> lines[0] == crate::model::green(
                "→ ."@ + name
                    + " contract successfully stored. Use (contract-call? ...) for invoking the public functions:"@,
            )
        }),
{
    let task = CommandTaskView::Snippet { snippet, name, contract_id };
    let step = crate::model::command_resumed(s, task, Reply::Ran(Ok(report)), texts).1;
    let lines = step->Done_0;
    let events = report.events@.len();
    let end = lines.len() - 1;
    assert forall|k: int| 0 <= k < events implies {
        &&& lines[end - events + k] == crate::model::black(#[trigger] texts[k])
        &&& exists|written: String| #[trigger]
            to_string_from_display_ensures::<Value>(&report.events@[k], written) && written@
                == texts[k]
    } by {
        assert(crate::event::is_text_of(report.events@[k], texts[k]));
    }
}

/// The texts of a reply are those of the events that it reports, one for each and in
/// order, and there are none where it reports no events.
pub proof fn texts_are_those_of_the_events(
    reply: Reply,
    report: RunReport,
    texts: Seq<Seq<char>>,
    k: int,
)
    requires
        crate::model::reply_texts(reply, texts),
    ensures
        reply == Reply::Ran(Ok(report)) ==> {
            &&& texts.len() == report.events@.len()
            &&& 0 <= k < texts.len() ==> exists|written: String| #[trigger]
                to_string_from_display_ensures::<Value>(&report.events@[k], written) && written@
                    == texts[k]
        },
        !(reply matches Reply::Ran(Ok(_))) ==> texts.len() == 0,
{
    if reply == Reply::Ran(Ok(report)) && 0 <= k < texts.len() {
        assert(crate::event::is_text_of(report.events@[k], texts[k]));
    }
}

/// A run that failed is shown by its message alone, or, where the error points at
/// code, by its message and all lines of the code with the spans painted. Nothing is
/// kept of it.
pub proof fn failure_is_shown_with_its_code(
    s: SessionView,
    snippet: Seq<char>,
    name: Seq<char>,
    contract_id: Seq<char>,
    message: String,
    diagnostic: Option<Diagnostic>,
)
    ensures
        ({
            let task = CommandTaskView::Snippet { snippet, name, contract_id };
            let outcome: RunOutcome = Err((message, diagnostic));
            let (after, step) = crate::model::command_resumed(
                s,
                task,
                Reply::Ran(outcome),
                Seq::empty(),
            );
            let lines = step->Done_0;
            &&& after == s
            &&& step is Done
            &&& crate::model::outcome_lines(snippet, name, outcome, Seq::empty()) == Err::<
                Seq<Seq<char>>,
                Seq<Seq<char>>,
            >(lines)
            &&& lines.len() >= 1
            &&& lines[0] == crate::model::red(message@)
            &&& diagnostic is None ==> lines.len() == 1
            &&& diagnostic matches Some(diagnostic) ==> if diagnostic.spans@.len() == 0 {
                lines.len() == 1
            } else {
                lines.skip(1) == crate::diagnostic::highlighted(
                    crate::text::lines_of(snippet),
                    diagnostic.spans@,
                )
            }
        }),
{
    let task = CommandTaskView::Snippet { snippet, name, contract_id };
    let outcome: RunOutcome = Err((message, diagnostic));
    let lines = crate::model::command_resumed(s, task, Reply::Ran(outcome), Seq::empty()).1->Done_0;
    if let Some(diagnostic) = diagnostic {
        if diagnostic.spans@.len() > 0 {
            assert(lines.skip(1) =~= crate::diagnostic::highlighted(
                crate::text::lines_of(snippet),
                diagnostic.spans@,
            ));
        }
    }
}

/// Where a failed run is pointed at over several lines, the code in front of the
/// start of the span stays unpainted on the first of them: the line is shown as it
/// is up to the column of the start, and painted from there on.
pub proof fn code_before_an_error_is_not_painted(
    s: SessionView,
    snippet: Seq<char>,
    name: Seq<char>,
    contract_id: Seq<char>,
    message: String,
    diagnostic: Diagnostic,
) -> (cut: (Seq<char>, Seq<char>))
    requires
        diagnostic.spans@.len() == 1,
        crate::model::points_into(snippet, Err((message, Some(diagnostic)))),
        1 <= diagnostic.spans@[0].start_line < diagnostic.spans@[0].end_line,
        diagnostic.spans@[0].start_line <= crate::text::lines_of(snippet).len(),
        1 <= diagnostic.spans@[0].start_column,
        1 <= diagnostic.spans@[0].end_column,
        crate::text::lines_of(snippet)[diagnostic.spans@[0].start_line - 1].len() > 0,
    ensures
        ({
            let span = diagnostic.spans@[0];
            let (before, behind) = cut;
            let lines = crate::model::command_resumed(
                s,
                CommandTaskView::Snippet { snippet, name, contract_id },
                Reply::Ran(Err((message, Some(diagnostic)))),
                Seq::empty(),
            ).1->Done_0;
            &&& vstd::utf8::encode_utf8(before).len() == span.start_column - 1
            &&& crate::text::lines_of(snippet)[span.start_line - 1] == before + behind
            &&& lines[span.start_line as int] == before + "\x1B[1;4;31m"@ + behind + "\x1B[0m"@
        }),
{
    let span = diagnostic.spans@[0];
    let code = crate::text::lines_of(snippet);
    let index = span.start_line - 1;
    assert(diagnostic.spans@ =~= seq![span]);
    let (head, part, tail) = crate::diagnostic::spans_paint_from_start_to_end(code, span, index);
    failure_is_shown_with_its_code(s, snippet, name, contract_id, message, Some(diagnostic));
    crate::diagnostic::spans_are_painted_in_order(code, Seq::empty(), span);
    vstd::utf8::encode_utf8_decode_utf8(tail);
    assert(tail =~= Seq::empty());
    assert(head + part + tail =~= head + part);
    let lines = crate::model::command_resumed(
        s,
        CommandTaskView::Snippet { snippet, name, contract_id },
        Reply::Ran(Err((message, Some(diagnostic)))),
        Seq::empty(),
    ).1->Done_0;
    assert(lines.skip(1)[index] == lines[span.start_line as int]);
    assert(head + "\x1B[1;4;31m"@ + part + "\x1B[0m"@ + tail =~= head + "\x1B[1;4;31m"@ + part
        + "\x1B[0m"@);
    (head, part)
}

/// An error has to point into the code that ran; a run without one does not.
pub proof fn errors_point_into_the_code(
    snippet: Seq<char>,
    report: RunReport,
    message: String,
    diagnostic: Diagnostic,
)
    ensures
        crate::model::points_into(snippet, Ok(report)),
        crate::model::points_into(snippet, Err((message, None))),
        crate::model::points_into(snippet, Err((message, Some(diagnostic))))
            == crate::diagnostic::highlightable(
            crate::text::lines_of(snippet),
            diagnostic.spans@,
        ),
{
}

/// A run that was stored puts one contract behind the others, with its identifier
/// and its description, and no other run changes anything.
pub proof fn only_what_was_stored_is_kept(
    s: SessionView,
    contract_id: Seq<char>,
    outcome: RunOutcome,
)
    ensures
        ({
            let after = crate::model::recorded(s, contract_id, outcome);
            &&& after.settings == s.settings
            &&& after.listing == s.listing
            &&& after.tx_sender == s.tx_sender
            &&& after.reference == s.reference
            &&& match outcome {
                Ok(report) => if report.contract_saved {
                    &&& after.contracts.len() == s.contracts.len() + 1
                    &&& after.contracts.take(s.contracts.len() as int) == s.contracts
                    &&& after.contracts.last() == (contract_id, report.result@)
                } else {
                    after.contracts == s.contracts
                },
                Err(_) => after.contracts == s.contracts,
            }
        }),
{
    let after = crate::model::recorded(s, contract_id, outcome);
    assert(after.contracts.take(s.contracts.len() as int) =~= s.contracts);
}

} // verus!
