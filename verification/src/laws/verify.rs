//! Verifications, as they are shown.

use crate::crypto::verify;
use crate::crypto::verify::{EmojiState, FlowState, SasState};
use crate::json::JsonView;
use vstd::prelude::*;
use vstd::string::*;

verus! {

/// Whether a value lists texts: one for each, in their order.
pub open spec fn lists(v: JsonView, texts: Seq<String>) -> bool {
    &&& v matches JsonView::Array(items)
    &&& items.len() == texts.len()
    &&& forall|i: int| 0 <= i < texts.len() ==> items[i] == JsonView::Str((#[trigger] texts[i])@)
}

proof fn lemma_lists(texts: Seq<String>)
    ensures
        lists(verify::strings_json(crate::text::texts(texts)), texts),
{
}

proof fn lemma_flow_words()
    ensures
        "flow_id"@ != "other_user"@,
        "flow_id"@ != "we_started"@,
        "flow_id"@ != "is_ready"@,
        "flow_id"@ != "is_done"@,
        "flow_id"@ != "is_passive"@,
        "flow_id"@ != "is_cancelled"@,
        "flow_id"@ != "their_methods"@,
        "flow_id"@ != "state"@,
        "other_user"@ != "we_started"@,
        "other_user"@ != "is_ready"@,
        "other_user"@ != "is_done"@,
        "other_user"@ != "is_passive"@,
        "other_user"@ != "is_cancelled"@,
        "other_user"@ != "their_methods"@,
        "other_user"@ != "state"@,
        "we_started"@ != "is_ready"@,
        "we_started"@ != "is_done"@,
        "we_started"@ != "is_passive"@,
        "we_started"@ != "is_cancelled"@,
        "we_started"@ != "their_methods"@,
        "we_started"@ != "state"@,
        "is_ready"@ != "is_done"@,
        "is_ready"@ != "is_passive"@,
        "is_ready"@ != "is_cancelled"@,
        "is_ready"@ != "their_methods"@,
        "is_ready"@ != "state"@,
        "is_done"@ != "is_passive"@,
        "is_done"@ != "is_cancelled"@,
        "is_done"@ != "their_methods"@,
        "is_done"@ != "state"@,
        "is_passive"@ != "is_cancelled"@,
        "is_passive"@ != "their_methods"@,
        "is_passive"@ != "state"@,
        "is_cancelled"@ != "their_methods"@,
        "is_cancelled"@ != "state"@,
        "their_methods"@ != "state"@,
{
    reveal_strlit("flow_id");
    reveal_strlit("other_user");
    reveal_strlit("we_started");
    reveal_strlit("is_ready");
    reveal_strlit("is_done");
    reveal_strlit("is_passive");
    reveal_strlit("is_cancelled");
    reveal_strlit("their_methods");
    reveal_strlit("state");
    assert("flow_id"@.len() == 7 && "flow_id"@[0] == 'f');
    assert("other_user"@.len() == 10 && "other_user"@[0] == 'o');
    assert("we_started"@.len() == 10 && "we_started"@[0] == 'w');
    assert("is_ready"@.len() == 8);
    assert("is_done"@.len() == 7 && "is_done"@[0] == 'i');
    assert("is_passive"@.len() == 10 && "is_passive"@[0] == 'i');
    assert("is_cancelled"@.len() == 12);
    assert("their_methods"@.len() == 13);
    assert("state"@.len() == 5);
}

/// A verification is shown by what is known of it, under these names and no others.
pub proof fn verification_is_shown(f: FlowState, key: Seq<char>)
    ensures
        ({
            let out = verify::flow_json(f);
            &&& out is Object
            &&& out.get("flow_id"@) == Some(JsonView::Str(f.flow_id@))
            &&& out.get("other_user"@) == Some(JsonView::Str(f.other_user@))
            &&& out.get("we_started"@) == Some(JsonView::Bool(f.we_started))
            &&& out.get("is_ready"@) == Some(JsonView::Bool(f.is_ready))
            &&& out.get("is_done"@) == Some(JsonView::Bool(f.is_done))
            &&& out.get("is_passive"@) == Some(JsonView::Bool(f.is_passive))
            &&& out.get("is_cancelled"@) == Some(JsonView::Bool(f.is_cancelled))
            &&& out.get("their_methods"@) matches Some(v)
            &&& match f.their_methods {
                Some(methods) => lists(v, methods@),
                None => v == JsonView::Null,
            }
            &&& out.get("state"@) == Some(JsonView::Str(f.state@))
            &&& key != "flow_id"@ && key != "other_user"@ && key != "we_started"@ && key
                != "is_ready"@ && key != "is_done"@ && key != "is_passive"@ && key
                != "is_cancelled"@ && key != "their_methods"@ && key != "state"@ ==> out.get(key)
                is None
        }),
{
    lemma_flow_words();
    match f.their_methods {
        Some(methods) => {
            lemma_lists(methods@);
        },
        None => {},
    }
}

proof fn lemma_sas_words()
    ensures
        "symbols"@ != "descriptions"@,
        "symbols"@ != "formatted"@,
        "descriptions"@ != "formatted"@,
        "emoji"@ != "decimals"@,
        "emoji"@ != "is_done"@,
        "emoji"@ != "can_be_presented"@,
        "emoji"@ != "cancel_info"@,
        "decimals"@ != "is_done"@,
        "decimals"@ != "can_be_presented"@,
        "decimals"@ != "cancel_info"@,
        "is_done"@ != "can_be_presented"@,
        "is_done"@ != "cancel_info"@,
        "can_be_presented"@ != "cancel_info"@,
{
    reveal_strlit("symbols");
    reveal_strlit("descriptions");
    reveal_strlit("formatted");
    reveal_strlit("emoji");
    reveal_strlit("decimals");
    reveal_strlit("is_done");
    reveal_strlit("can_be_presented");
    reveal_strlit("cancel_info");
    assert("symbols"@.len() == 7 && "descriptions"@.len() == 12 && "formatted"@.len() == 9);
    assert("emoji"@.len() == 5 && "decimals"@.len() == 8 && "is_done"@.len() == 7);
    assert("can_be_presented"@.len() == 16 && "cancel_info"@.len() == 11);
}

/// Emoji are shown by their symbols, their descriptions and how they are laid out.
pub proof fn emoji_are_shown(e: EmojiState, key: Seq<char>)
    ensures
        ({
            let out = verify::emoji_json(e);
            &&& out is Object
            &&& out.get("symbols"@) matches Some(v) && lists(v, e.symbols@)
            &&& out.get("descriptions"@) matches Some(v) && lists(v, e.descriptions@)
            &&& out.get("formatted"@) == Some(JsonView::Str(e.formatted@))
            &&& key != "symbols"@ && key != "descriptions"@ && key != "formatted"@ ==> out.get(key)
                is None
        }),
{
    lemma_sas_words();
    lemma_lists(e.symbols@);
    lemma_lists(e.descriptions@);
}

/// A comparison is shown by its emoji and its numbers, in their order, and how it stands.
pub proof fn comparison_is_shown(s: SasState, key: Seq<char>)
    ensures
        ({
            let out = verify::sas_json(s);
            &&& out is Object
            &&& out.get("emoji"@) == Some(
                match s.emoji {
                    Some(e) => verify::emoji_json(e),
                    None => JsonView::Null,
                },
            )
            &&& out.get("decimals"@) matches Some(d)
            &&& match s.decimals {
                Some((x, y, z)) => d matches JsonView::Array(items) && items.len() == 3 && items[0]
                    == JsonView::Natural(x as u64) && items[1] == JsonView::Natural(y as u64)
                    && items[2] == JsonView::Natural(z as u64),
                None => d == JsonView::Null,
            }
            &&& out.get("is_done"@) == Some(JsonView::Bool(s.is_done))
            &&& out.get("can_be_presented"@) == Some(JsonView::Bool(s.can_be_presented))
            &&& out.get("cancel_info"@) == Some(
                match s.cancel_code {
                    Some(c) => JsonView::Str(c@),
                    None => JsonView::Null,
                },
            )
            &&& key != "emoji"@ && key != "decimals"@ && key != "is_done"@ && key
                != "can_be_presented"@ && key != "cancel_info"@ ==> out.get(key) is None
        }),
{
    lemma_sas_words();
}

/// All verifications are listed, each in its place.
pub proof fn verifications_are_listed(flows: Seq<FlowState>, key: Seq<char>)
    ensures
        verify::flows_json(flows).get("requests"@) matches Some(JsonView::Array(items))
            && items.len() == flows.len() && forall|i: int|
            0 <= i < flows.len() ==> items[i] == verify::flow_json(#[trigger] flows[i]),
        key != "requests"@ ==> verify::flows_json(flows).get(key) is None,
{
}

} // verus!
