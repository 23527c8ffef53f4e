//! Events that a run emits.
use crate::text::push_line;
use serde_json::Value;
use vstd::prelude::*;
use vstd::string::*;

verus! {

/// `serde_json::Value`, an event in JSON. Nothing is known of what is inside.
#[verifier::external_type_specification]
#[verifier::external_body]
pub struct ExValue(serde_json::Value);

/// Whether `text` is how `event` is written: what its `to_string` gives.
pub open spec fn is_text_of(event: Value, text: Seq<char>) -> bool {
    exists|written: String| #[trigger]
        to_string_from_display_ensures::<Value>(&event, written) && written@ == text
}

/// Whether `texts` are the texts of `events`, one for each, in order.
pub open spec fn are_texts_of(events: Seq<Value>, texts: Seq<Seq<char>>) -> bool {
    &&& texts.len() == events.len()
    &&& forall|i: int| 0 <= i < events.len() ==> is_text_of(events[i], #[trigger] texts[i])
}

/// Writes every event.
pub fn write_events(events: &Vec<Value>) -> (texts: Vec<String>)
    ensures
        are_texts_of(events@, texts.deep_view()),
{
    let mut texts: Vec<String> = Vec::new();
    let mut i: usize = 0;
    while i < events.len()
        invariant
            i <= events@.len(),
            texts.deep_view().len() == i,
            forall|k: int|
                0 <= k < i ==> is_text_of(events@[k], #[trigger] texts.deep_view()[k]),
        decreases events@.len() - i,
    {
        let written: String = events[i].to_string();
        proof {
            assert(to_string_from_display_ensures::<Value>(&events@[i as int], written));
            assert(is_text_of(events@[i as int], written@));
        }
        push_line(&mut texts, written);
        i += 1;
    }
    texts
}

} // verus!
