//! What the client gets to see of encrypted events.

use crate::crypto::decrypt;
use crate::crypto::decrypt::{DecryptionView, EventView, RoomPlan, StateView, StepView};
use crate::crypto::media;
use crate::crypto::rooms;
use crate::crypto::rooms::TrackerView;
use crate::ids;
use crate::json;
use crate::json::JsonView;
use crate::json_text;
use crate::laws::json as laws;
use crate::laws::order;
use crate::string_map;
use crate::text;
use vstd::prelude::*;
use vstd::string::*;
use vstd::utf8::*;

verus! {

/// Whether an event says by its type that it is encrypted.
pub open spec fn says_encrypted(event: JsonView) -> bool {
    event.get("type"@) == Some(JsonView::Str("m.room.encrypted"@))
}

/// Whether an event is shown as what the crypto machine decrypted: it is the decrypted
/// event, but for its unsigned part, where what only the envelope has is added, and a note.
pub open spec fn shows_decrypted(
    shown: JsonView,
    envelope: JsonView,
    inner: JsonView,
    encryption_info: JsonView,
) -> bool {
    &&& shown is Object
    &&& forall|k: Seq<char>| k != "unsigned"@ ==> #[trigger] shown.get(k) == inner.get(k)
    &&& (envelope.get("unsigned"@) matches Some(JsonView::Object(_)) && (inner.get("unsigned"@)
        is None || inner.get("unsigned"@)->0 is Object)) ==> {
        &&& forall|k: Seq<char>|
            k != "ement_e2ee"@ ==> #[trigger] shown.get2("unsigned"@, k) == (if inner.get2(
                "unsigned"@,
                k,
            ) is Some {
                inner.get2("unsigned"@, k)
            } else {
                envelope.get2("unsigned"@, k)
            })
        &&& shown.get2("unsigned"@, "ement_e2ee"@) matches Some(note)
        &&& note is Object
        &&& note.get("decrypted"@) == Some(JsonView::Bool(true))
        &&& note.get("encryption_info"@) == Some(encryption_info)
        &&& forall|k: Seq<char>|
            k != "decrypted"@ && k != "encryption_info"@ ==> #[trigger] note.get(k) is None
    }
    &&& !(envelope.get("unsigned"@) matches Some(JsonView::Object(_))) && inner.get("unsigned"@)
        is Some ==> shown.get("unsigned"@) == inner.get("unsigned"@)
    &&& !(envelope.get("unsigned"@) matches Some(JsonView::Object(_))) && inner.get("unsigned"@)
        is None ==> (shown.get("unsigned"@) matches Some(u) && u is Object && forall|k: Seq<char>|
        #[trigger]
        u.get(k) is None)
    &&& (inner.get("unsigned"@) matches Some(u) && !(u is Object)) ==> shown.get("unsigned"@)
        == inner.get("unsigned"@)
}

/// Whether a readable message stands in for an event that could not be decrypted: it says
/// why, and keeps the event's ID, sender, time and room, and what was unsigned in it.
pub open spec fn shows_placeholder(
    shown: JsonView,
    event: JsonView,
    reason: Seq<char>,
    session_id: Option<Seq<char>>,
) -> bool {
    &&& shown.get("type"@) == Some(JsonView::Str("m.room.message"@))
    &&& shown.get2("content"@, "msgtype"@) == Some(JsonView::Str("m.text"@))
    &&& shown.get2("content"@, "body"@) == Some(
        JsonView::Str(
            "🔒 [undecryptable: "@ + reason
                + "] If keys arrive later, close and reopen the room to retry."@,
        ),
    )
    &&& shown.get("event_id"@) == event.get("event_id"@)
    &&& shown.get("sender"@) == event.get("sender"@)
    &&& shown.get("origin_server_ts"@) == event.get("origin_server_ts"@)
    &&& shown.get("room_id"@) == event.get("room_id"@)
    &&& forall|k: Seq<char>|
        k != "ement_e2ee"@ ==> #[trigger] shown.get2("unsigned"@, k) == event.get2("unsigned"@, k)
    &&& shown.get2("unsigned"@, "ement_e2ee"@) matches Some(note)
    &&& note is Object
    &&& note.get("utd"@) == Some(JsonView::Bool(true))
    &&& note.get("session_id"@) == Some(
        match session_id {
            Some(s) => JsonView::Str(s),
            None => JsonView::Null,
        },
    )
    &&& forall|k: Seq<char>| k != "utd"@ && k != "session_id"@ ==> #[trigger] note.get(k) is None
    &&& shown is Object
    &&& forall|k: Seq<char>|
        k != "type"@ && k != "content"@ && k != "event_id"@ && k != "sender"@ && k
            != "origin_server_ts"@ && k != "room_id"@ && k != "unsigned"@ ==> #[trigger] shown.get(
            k,
        ) is None
    &&& forall|k: Seq<char>|
        k != "msgtype"@ && k != "body"@ ==> #[trigger] shown.get2("content"@, k) is None
}

/// Whether what is shown in the place of an event is what its own decryption gives.
pub open spec fn stands_for(
    shown: JsonView,
    event: JsonView,
    outcome: Option<DecryptionView>,
) -> bool {
    if !says_encrypted(event) {
        shown == event
    } else {
        match outcome {
            Some(DecryptionView::Decrypted { event: inner, encryption_info }) => inner is Object
                ==> shows_decrypted(shown, event, inner, encryption_info),
            Some(DecryptionView::UnableToDecrypt { reason, session_id }) => shows_placeholder(
                shown,
                event,
                reason,
                session_id,
            ),
            _ => shown == event,
        }
    }
}

/// The outcome at a place, if there is one.
pub open spec fn outcome_at(outcomes: Seq<DecryptionView>, i: int) -> Option<DecryptionView> {
    if 0 <= i < outcomes.len() {
        Some(outcomes[i])
    } else {
        None
    }
}

/// Whether a list shows the events of another one, each by its own decryption.
pub open spec fn shows_each(
    shown: Seq<JsonView>,
    events: Seq<JsonView>,
    outcomes: Seq<DecryptionView>,
) -> bool {
    &&& shown.len() == events.len()
    &&& forall|i: int|
        0 <= i < events.len() ==> stands_for(
            #[trigger] shown[i],
            events[i],
            outcome_at(outcomes, i),
        )
}

proof fn lemma_names()
    ensures
        "unsigned"@ != "type"@,
        "unsigned"@ != "content"@,
        "unsigned"@ != "event_id"@,
        "unsigned"@ != "sender"@,
        "unsigned"@ != "origin_server_ts"@,
        "unsigned"@ != "room_id"@,
        "type"@ != "content"@,
        "type"@ != "event_id"@,
        "type"@ != "sender"@,
        "type"@ != "origin_server_ts"@,
        "type"@ != "room_id"@,
        "content"@ != "event_id"@,
        "content"@ != "sender"@,
        "content"@ != "origin_server_ts"@,
        "content"@ != "room_id"@,
        "event_id"@ != "sender"@,
        "event_id"@ != "origin_server_ts"@,
        "event_id"@ != "room_id"@,
        "sender"@ != "origin_server_ts"@,
        "sender"@ != "room_id"@,
        "origin_server_ts"@ != "room_id"@,
        "decrypted"@ != "encryption_info"@,
        "utd"@ != "session_id"@,
        "msgtype"@ != "body"@,
        "events"@ != "timeline"@,
        "join"@ != "leave"@,
        "events_before"@ != "events_after"@,
        "events_before"@ != "event"@,
        "events_after"@ != "event"@,
{
    reveal_strlit("unsigned");
    reveal_strlit("type");
    reveal_strlit("content");
    reveal_strlit("event_id");
    reveal_strlit("sender");
    reveal_strlit("origin_server_ts");
    reveal_strlit("room_id");
    reveal_strlit("decrypted");
    reveal_strlit("encryption_info");
    reveal_strlit("utd");
    reveal_strlit("session_id");
    reveal_strlit("msgtype");
    reveal_strlit("body");
    reveal_strlit("events");
    reveal_strlit("timeline");
    reveal_strlit("join");
    reveal_strlit("leave");
    reveal_strlit("events_before");
    reveal_strlit("events_after");
    reveal_strlit("event");
    assert("unsigned"@.len() == 8 && "unsigned"@[0] == 'u');
    assert("type"@.len() == 4 && "type"@[0] == 't');
    assert("content"@.len() == 7 && "content"@[0] == 'c');
    assert("event_id"@.len() == 8 && "event_id"@[0] == 'e');
    assert("sender"@.len() == 6 && "sender"@[0] == 's');
    assert("origin_server_ts"@.len() == 16 && "origin_server_ts"@[0] == 'o');
    assert("room_id"@.len() == 7 && "room_id"@[0] == 'r');
    assert("decrypted"@.len() == 9 && "decrypted"@[0] == 'd');
    assert("encryption_info"@.len() == 15 && "encryption_info"@[0] == 'e');
    assert("utd"@.len() == 3 && "utd"@[0] == 'u');
    assert("session_id"@.len() == 10 && "session_id"@[0] == 's');
    assert("msgtype"@.len() == 7 && "msgtype"@[0] == 'm');
    assert("body"@.len() == 4 && "body"@[0] == 'b');
    assert("events"@.len() == 6 && "events"@[0] == 'e');
    assert("timeline"@.len() == 8 && "timeline"@[0] == 't');
    assert("join"@.len() == 4 && "join"@[0] == 'j');
    assert("leave"@.len() == 5 && "leave"@[0] == 'l');
    assert("events_before"@.len() == 13 && "events_before"@[0] == 'e');
    assert("events_after"@.len() == 12 && "events_after"@[0] == 'e');
    assert("event"@.len() == 5 && "event"@[0] == 'e');
}

/// What is shown in the place of an event is what its own decryption gives.
pub proof fn event_is_shown(event: JsonView, d: DecryptionView)
    ensures
        stands_for(decrypt::client_form(event, d), event, Some(d)),
{
    lemma_names();
    let shown = decrypt::client_form(event, d);
    assert(says_encrypted(event) == (event.get_text("type"@) == Some("m.room.encrypted"@)));
    if says_encrypted(event) {
        match d {
            DecryptionView::Decrypted { event: inner, encryption_info } => {
                if inner is Object {
                    assert(shows_decrypted(shown, event, inner, encryption_info));
                }
            },
            DecryptionView::UnableToDecrypt { reason, session_id } => {
                assert(shows_placeholder(shown, event, reason, session_id));
            },
            DecryptionView::Failed => {},
        }
    }
}

/// Of a list of events, each is shown by its own decryption, in its own place; those that
/// have no decryption stay as they are.
pub proof fn each_event_is_shown(events: Seq<JsonView>, outcomes: Seq<DecryptionView>)
    ensures
        shows_each(decrypt::client_forms(events, outcomes), events, outcomes),
{
    let shown = decrypt::client_forms(events, outcomes);
    assert forall|i: int| 0 <= i < events.len() implies stands_for(
        #[trigger] shown[i],
        events[i],
        outcome_at(outcomes, i),
    ) by {
        if i < outcomes.len() {
            event_is_shown(events[i], outcomes[i]);
        }
    }
}

/// Of a page of history, each event of the chunk is shown by its own decryption, and all
/// else is kept.
pub proof fn messages_are_shown(
    body: JsonView,
    events: Seq<JsonView>,
    outcomes: Seq<DecryptionView>,
    key: Seq<char>,
)
    requires
        body.get("chunk"@) == Some(JsonView::Array(events)),
    ensures
        decrypt::messages_form(body, outcomes).get("chunk"@) matches Some(JsonView::Array(shown))
            && shows_each(shown, events, outcomes),
        key != "chunk"@ ==> decrypt::messages_form(body, outcomes).get(key) == body.get(key),
{
    each_event_is_shown(events, outcomes);
}

/// Of the surroundings of an event, the events before it, those after it and the event
/// itself are each shown by their own decryptions, and all else is kept.
pub proof fn context_is_shown(
    body: JsonView,
    before: Seq<JsonView>,
    after: Seq<JsonView>,
    event: JsonView,
    before_outcomes: Seq<DecryptionView>,
    after_outcomes: Seq<DecryptionView>,
    outcome: DecryptionView,
    key: Seq<char>,
)
    requires
        body.get("events_before"@) == Some(JsonView::Array(before)),
        body.get("events_after"@) == Some(JsonView::Array(after)),
        body.get("event"@) == Some(event),
    ensures
        ({
            let form = decrypt::context_form(body, before_outcomes, after_outcomes, outcome);
            &&& form.get("events_before"@) matches Some(JsonView::Array(shown)) && shows_each(
                shown,
                before,
                before_outcomes,
            )
            &&& form.get("events_after"@) matches Some(JsonView::Array(shown)) && shows_each(
                shown,
                after,
                after_outcomes,
            )
            &&& form.get("event"@) matches Some(shown) && stands_for(shown, event, Some(outcome))
            &&& key != "events_before"@ && key != "events_after"@ && key != "event"@ ==> form.get(
                key,
            ) == body.get(key)
        }),
{
    lemma_names();
    each_event_is_shown(before, before_outcomes);
    each_event_is_shown(after, after_outcomes);
    event_is_shown(event, outcome);
}

/// What a page of history or the surroundings of an event do not hold is not put into them:
/// where there is no list of events, or no event, everything stays as it is.
pub proof fn missing_lists_are_kept(
    body: JsonView,
    before_outcomes: Seq<DecryptionView>,
    after_outcomes: Seq<DecryptionView>,
    outcome: DecryptionView,
)
    ensures
        !(body.get("chunk"@) matches Some(JsonView::Array(_))) ==> decrypt::messages_form(
            body,
            before_outcomes,
        ) == body,
        ({
            let form = decrypt::context_form(body, before_outcomes, after_outcomes, outcome);
            &&& match body.get("events_before"@) {
                Some(JsonView::Array(events)) => form.get("events_before"@) matches Some(
                    JsonView::Array(shown),
                ) && shows_each(shown, events, before_outcomes),
                other => form.get("events_before"@) == other,
            }
            &&& match body.get("events_after"@) {
                Some(JsonView::Array(events)) => form.get("events_after"@) matches Some(
                    JsonView::Array(shown),
                ) && shows_each(shown, events, after_outcomes),
                other => form.get("events_after"@) == other,
            }
            &&& match body.get("event"@) {
                Some(event) => form.get("event"@) matches Some(shown) && stands_for(
                    shown,
                    event,
                    Some(outcome),
                ),
                None => form.get("event"@) is None,
            }
            &&& forall|key: Seq<char>|
                key != "events_before"@ && key != "events_after"@ && key != "event"@
                    ==> #[trigger] form.get(key) == body.get(key)
        }),
{
    lemma_names();
    match body.get("events_before"@) {
        Some(JsonView::Array(events)) => {
            each_event_is_shown(events, before_outcomes);
        },
        _ => {},
    }
    match body.get("events_after"@) {
        Some(JsonView::Array(events)) => {
            each_event_is_shown(events, after_outcomes);
        },
        _ => {},
    }
    match body.get("event"@) {
        Some(event) => {
            event_is_shown(event, outcome);
        },
        None => {},
    }
}

/// A room in a section of a sync response.
pub open spec fn room_in(body: JsonView, section: Seq<char>, room: Seq<char>) -> Option<JsonView> {
    match body.get2("rooms"@, section) {
        Some(rooms) => rooms.get(room),
        None => None,
    }
}

/// The list of events in the timeline of a room.
pub open spec fn timeline_of(room: JsonView) -> Option<JsonView> {
    room.get2("timeline"@, "events"@)
}

/// In a sync response, each event in the timeline of a room is shown by its own
/// decryption: those of joined rooms by the decryptions of joined rooms, those of left
/// rooms by the decryptions of left rooms, and each room by its own.
pub proof fn sync_is_shown(
    body: JsonView,
    joined: Map<Seq<char>, Seq<DecryptionView>>,
    left: Map<Seq<char>, Seq<DecryptionView>>,
    section: Seq<char>,
    room: Seq<char>,
    content: JsonView,
    events: Seq<JsonView>,
)
    requires
        section == "join"@ || section == "leave"@,
        ids::room_id(room),
        section == "join"@ ==> joined.contains_key(room),
        section == "leave"@ ==> left.contains_key(room),
        room_in(body, section, room) == Some(content),
        timeline_of(content) == Some(JsonView::Array(events)),
    ensures
        ({
            let outcomes = if section == "join"@ {
                joined[room]
            } else {
                left[room]
            };
            &&& room_in(decrypt::sync_form(body, joined, left), section, room) matches Some(r)
            &&& timeline_of(r) matches Some(JsonView::Array(shown)) && shows_each(
                shown,
                events,
                outcomes,
            )
        }),
{
    lemma_names();
    if section == "join"@ {
        each_event_is_shown(events, joined[room]);
    } else {
        each_event_is_shown(events, left[room]);
    }
}

/// All else in a sync response is kept: other members of the body and of its rooms, other
/// sections, rooms whose decryptions are not known, and of a room everything but the events
/// in its timeline. No room comes or goes.
pub proof fn sync_keeps_the_rest(
    body: JsonView,
    joined: Map<Seq<char>, Seq<DecryptionView>>,
    left: Map<Seq<char>, Seq<DecryptionView>>,
    section: Seq<char>,
    room: Seq<char>,
    key: Seq<char>,
)
    ensures
        ({
            let form = decrypt::sync_form(body, joined, left);
            let before = room_in(body, section, room);
            let after = room_in(form, section, room);
            &&& key != "rooms"@ ==> form.get(key) == body.get(key)
            &&& key != "join"@ && key != "leave"@ ==> form.get2("rooms"@, key) == body.get2(
                "rooms"@,
                key,
            )
            &&& (before is Some) == (after is Some)
            &&& before matches Some(b) ==> {
                &&& key != "timeline"@ ==> after->0.get(key) == b.get(key)
                &&& key != "events"@ ==> after->0.get2("timeline"@, key) == b.get2("timeline"@, key)
                &&& !ids::room_id(room) || (!joined.contains_key(room) && !left.contains_key(room))
                    ==> after == before
                &&& section == "join"@ && !joined.contains_key(room) ==> after == before
                &&& section == "leave"@ && !left.contains_key(room) ==> after == before
            }
        }),
{
    lemma_names();
}

/// Sections, rooms and timelines that are not what they should be are left alone.
pub proof fn odd_parts_of_a_sync_are_kept(
    body: JsonView,
    joined: Map<Seq<char>, Seq<DecryptionView>>,
    left: Map<Seq<char>, Seq<DecryptionView>>,
    section: Seq<char>,
    room: Seq<char>,
)
    ensures
        ({
            let form = decrypt::sync_form(body, joined, left);
            &&& body.get("rooms"@) is None ==> form == body
            &&& !(body.get2("rooms"@, section) matches Some(JsonView::Object(_))) ==> form.get2(
                "rooms"@,
                section,
            ) == body.get2("rooms"@, section)
            &&& room_in(body, section, room) matches Some(r) ==> {
                &&& !(timeline_of(r) matches Some(JsonView::Array(_))) && r is Object ==> (room_in(
                    form,
                    section,
                    room,
                ) matches Some(s) && timeline_of(s) == timeline_of(r) && s is Object)
                &&& !(r is Object) ==> room_in(form, section, room) == Some(r)
            }
        }),
{
    lemma_names();
}

/// Whether a plan lists the timeline of a room.
pub open spec fn plans(plan: RoomPlan, room: Seq<char>, content: JsonView) -> bool {
    &&& plan.room_id@ == room
    &&& timeline_of(content) matches Some(JsonView::Array(events)) ==> json::array_view(plan.events@)
        == events
    &&& !(timeline_of(content) matches Some(JsonView::Array(_))) ==> plan.events@.len() == 0
    &&& rooms::settings_views(plan.settings@) == rooms::scanned_settings(
        events_in(content, "state"@) + events_in(content, "timeline"@),
    )
}

/// The events under a name in a room of a sync response; none where there is no list.
pub open spec fn events_in(room: JsonView, name: Seq<char>) -> Seq<JsonView> {
    match room.get2(name, "events"@) {
        Some(JsonView::Array(events)) => events,
        _ => Seq::empty(),
    }
}

/// The settings in two lists of events are those in the first and then those in the second.
pub proof fn settings_add_up(first: Seq<JsonView>, second: Seq<JsonView>)
    ensures
        rooms::scanned_settings(first + second) == rooms::scanned_settings(first)
            + rooms::scanned_settings(second),
    decreases second.len(),
{
    if second.len() == 0 {
        assert(first + second =~= first);
        assert(rooms::scanned_settings(first) + rooms::scanned_settings(second)
            =~= rooms::scanned_settings(first));
    } else {
        settings_add_up(first, second.drop_last());
        assert((first + second).drop_last() =~= first + second.drop_last());
        assert(rooms::scanned_settings(first + second) =~= rooms::scanned_settings(first)
            + rooms::scanned_settings(second));
    }
}

/// Looking through two lists of events one after the other is looking through both.
pub proof fn scans_add_up(
    t: TrackerView,
    room: Seq<char>,
    first: Seq<JsonView>,
    second: Seq<JsonView>,
)
    ensures
        rooms::scanned(rooms::scanned(t, room, first), room, second) == rooms::scanned(
            t,
            room,
            first + second,
        ),
    decreases second.len(),
{
    if second.len() == 0 {
        assert(first + second =~= first);
    } else {
        scans_add_up(t, room, first, second.drop_last());
        assert((first + second).drop_last() =~= first + second.drop_last());
    }
}

/// Whether two trackers know the same of a room.
pub open spec fn know_the_same(a: TrackerView, b: TrackerView, room: Seq<char>) -> bool {
    &&& a.visibility_of(room) == b.visibility_of(room)
    &&& forall|now: u64| #[trigger] a.members_of(room, now) == b.members_of(room, now)
    &&& a.unencrypted.contains(room) == b.unencrypted.contains(room)
}

proof fn lemma_scans_agree(
    a: TrackerView,
    b: TrackerView,
    room: Seq<char>,
    events: Seq<JsonView>,
)
    requires
        know_the_same(a, b, room),
    ensures
        know_the_same(
            rooms::scanned(a, room, events),
            rooms::scanned(b, room, events),
            room,
        ),
    decreases events.len(),
{
    if events.len() > 0 {
        lemma_scans_agree(a, b, room, events.drop_last());
        let x = rooms::scanned(a, room, events.drop_last());
        let y = rooms::scanned(b, room, events.drop_last());
        assert forall|now: u64| #[trigger]
            rooms::scanned(a, room, events).members_of(room, now) == rooms::scanned(
                b,
                room,
                events,
            ).members_of(room, now) by {
            assert(x.members_of(room, now) == y.members_of(room, now));
            rooms::members_expire(x, room, Seq::empty(), 0, now);
        }
        assert(x.visibility_of(room) == y.visibility_of(room));
    }
}

/// What is tracked of a room behind a sync response is what its own events say: first its
/// state, and then its timeline. Rooms that are not in it are left alone.
pub proof fn every_room_is_scanned(
    t: TrackerView,
    all: Seq<(Seq<char>, JsonView)>,
    room: Seq<char>,
)
    requires
        forall|i: int, j: int|
            0 <= i < j < all.len() ==> (#[trigger] all[i]).0 != (#[trigger] all[j]).0,
    ensures
        forall|i: int|
            0 <= i < all.len() && (#[trigger] all[i]).0 == room ==> know_the_same(
                decrypt::rooms_scanned(t, all),
                rooms::scanned(
                    t,
                    room,
                    events_in(all[i].1, "state"@) + events_in(all[i].1, "timeline"@),
                ),
                room,
            ),
        (forall|i: int| 0 <= i < all.len() ==> (#[trigger] all[i]).0 != room) ==> know_the_same(
            decrypt::rooms_scanned(t, all),
            t,
            room,
        ),
    decreases all.len(),
{
    if all.len() > 0 {
        let front = all.drop_last();
        let (id, content) = all.last();
        every_room_is_scanned(t, front, room);
        let before = decrypt::rooms_scanned(t, front);
        let state = decrypt::room_events(content, "state"@);
        let timeline = decrypt::room_events(content, "timeline"@);
        assert(state =~= events_in(content, "state"@));
        assert(timeline =~= events_in(content, "timeline"@));
        assert(all[all.len() - 1].0 == id);
        if id == room {
            assert forall|i: int| 0 <= i < front.len() implies (#[trigger] front[i]).0 != room by {
                assert(front[i] == all[i]);
            }
            lemma_scans_agree(before, t, room, state);
            lemma_scans_agree(
                rooms::scanned(before, room, state),
                rooms::scanned(t, room, state),
                room,
                timeline,
            );
            scans_add_up(t, room, state, timeline);
        } else {
            let middle = rooms::scanned(before, id, state);
            assert forall|now: u64| #[trigger]
                rooms::scanned(middle, id, timeline).members_of(room, now) == before.members_of(
                    room,
                    now,
                ) by {
                rooms::scan_leaves_other_rooms(before, id, room, state, now);
                rooms::scan_leaves_other_rooms(middle, id, room, timeline, now);
            }
            rooms::scan_leaves_other_rooms(before, id, room, state, 0);
            rooms::scan_leaves_other_rooms(middle, id, room, timeline, 0);
            assert(know_the_same(decrypt::rooms_scanned(t, all), before, room));
            assert forall|i: int| 0 <= i < all.len() && (#[trigger] all[i]).0 == room implies i
                < front.len() && front[i] == all[i] by {}
            if forall|i: int| 0 <= i < all.len() ==> (#[trigger] all[i]).0 != room {
                assert forall|i: int| 0 <= i < front.len() implies (#[trigger] front[i]).0
                    != room by {
                    assert(front[i] == all[i]);
                }
            }
        }
    }
}

/// How an encrypted event is decrypted: the crypto machine is asked; verifications take note
/// of the plain event; the keys of its files are given out to be stored; and what is handed
/// out is the plain event, with what the machine says of its encryption. No key is asked
/// for.
pub proof fn decryption_goes_through(
    requested: Set<Seq<char>>,
    event: JsonView,
    text: Seq<char>,
    plain: JsonView,
    encryption_info: JsonView,
    file_stored: bool,
    thumbnail_stored: bool,
)
    requires
        says_encrypted(event),
        json_text::parsed(encode_utf8(text)) == Ok::<JsonView, Seq<char>>(plain),
        plain is Object,
    ensures
        ({
            let a = decrypt::decrypt_next(requested, event, StateView::Start, EventView::Begin);
            let b = decrypt::decrypt_next(
                requested,
                event,
                a.0,
                EventView::Decrypted { event_json: text, encryption_info },
            );
            let c = decrypt::decrypt_next(requested, event, b.0, EventView::Noticed);
            let d = decrypt::decrypt_next(
                requested,
                event,
                c.0,
                EventView::Stored { file: file_stored, thumbnail: thumbnail_stored },
            );
            let file = media::harvested_file(plain);
            let thumbnail = media::harvested_thumbnail(plain);
            &&& a.1 is Decrypt
            &&& b.1 is Notice
            &&& c.1 == (StepView::Store { file, thumbnail })
            &&& d.0 is Done
            &&& d.1 matches StepView::Finish { outcome, ask_for }
            &&& ask_for is None
            &&& outcome matches DecryptionView::Decrypted { event: shown, encryption_info: info }
            &&& info == encryption_info
            &&& shown is Object
            &&& forall|key: Seq<char>|
                key != "content"@ ==> #[trigger] shown.get(key) == plain.get(key)
            &&& file is None && thumbnail is None ==> shown == plain
            &&& !file_stored && !thumbnail_stored ==> shown == plain
        }),
{
    match plain.get("content"@) {
        Some(content) => {
            let same = plain.with("content"@, content);
            assert forall|key: Seq<char>| #[trigger] same.get(key) == plain.get(key) by {}
            laws::members_make_the_object(same, plain);
        },
        None => {},
    }
}

/// Where the crypto machine lacks the key, the reason and the session are handed out as they
/// are, and the key is asked for unless it was before; where it fails, or hands out what is
/// no event, the event stays as it is; and so does one that is not encrypted.
pub proof fn undecrypted_events_are_told_apart(
    requested: Set<Seq<char>>,
    event: JsonView,
    reason: Seq<char>,
    session_id: Option<Seq<char>>,
    text: Seq<char>,
    encryption_info: JsonView,
)
    ensures
        ({
            let r = decrypt::decrypt_next(
                requested,
                event,
                StateView::Decrypting,
                EventView::UnableToDecrypt { reason, session_id },
            );
            &&& r.1 matches StepView::Finish { outcome, ask_for }
            &&& outcome == (DecryptionView::UnableToDecrypt { reason, session_id })
            &&& (session_id is Some && !requested.contains(session_id->0)) ==> ask_for == session_id
            &&& (session_id is None || requested.contains(session_id->0)) ==> ask_for is None
        }),
        fails(requested, event, StateView::Decrypting, EventView::Failed),
        !says_encrypted(event) ==> fails(requested, event, StateView::Start, EventView::Begin),
        !(json_text::parsed(encode_utf8(text)) matches Ok(JsonView::Object(_))) ==> fails(
            requested,
            event,
            StateView::Decrypting,
            EventView::Decrypted { event_json: text, encryption_info },
        ),
{
    assert(says_encrypted(event) == (event.get_text("type"@) == Some("m.room.encrypted"@)));
}

/// Whether an event ends a decryption with nothing.
pub open spec fn fails(
    requested: Set<Seq<char>>,
    event: JsonView,
    state: StateView,
    happened: EventView,
) -> bool {
    let r = decrypt::decrypt_next(requested, event, state, happened);
    r.0 is Done && r.1 == (StepView::Finish { outcome: DecryptionView::Failed, ask_for: None })
}

/// What is handed to the crypto machine of a section of a sync response is the timelines of
/// all its rooms, in the order in which they are shown: there is a plan for each room, and
/// each plan is that of a room.
pub proof fn every_timeline_is_planned(
    plan: Seq<RoomPlan>,
    rooms: JsonView,
    section: Map<Seq<char>, JsonView>,
    name: Seq<char>,
)
    requires
        rooms.get(name) == Some(JsonView::Object(section)),
        section.dom().finite(),
        decrypt::plans_section(plan, decrypt::section_rooms(Some(rooms), name)),
    ensures
        forall|i: int|
            0 <= i < plan.len() ==> section.contains_key((#[trigger] plan[i]).room_id@)
                && ids::room_id(plan[i].room_id@) && plans(
                plan[i],
                plan[i].room_id@,
                section[plan[i].room_id@],
            ),
        forall|room: Seq<char>| #[trigger]
            section.contains_key(room) && ids::room_id(room) ==> exists|i: int|
                0 <= i < plan.len() && (#[trigger] plan[i]).room_id@ == room,
        forall|i: int, j: int|
            0 <= i < j < plan.len() ==> (#[trigger] plan[i]).room_id@ != (#[trigger] plan[j]).room_id@,
{
    let all = decrypt::section_rooms(Some(rooms), name);
    let keys = string_map::in_order(section.dom());
    let pred = |k: Seq<char>| ids::room_id(k);
    let kept = keys.filter(pred);
    order::order_lists_all(section.dom());
    order::lemma_filtered(keys, pred);
    order::filter_keeps_the_order(keys, pred);
    assert forall|i: int| 0 <= i < plan.len() implies section.contains_key(
        (#[trigger] plan[i]).room_id@,
    ) && ids::room_id(plan[i].room_id@) && plans(
        plan[i],
        plan[i].room_id@,
        section[plan[i].room_id@],
    ) by {
        assert(decrypt::plans_room(plan[i], all[i].0, all[i].1));
        assert(all[i].0 == kept[i]);
        assert(kept.contains(kept[i]));
        json::lemma_array_view(plan[i].events@);
        let content = section[plan[i].room_id@];
        assert(decrypt::room_events(content, "state"@) =~= events_in(content, "state"@));
        assert(decrypt::room_events(content, "timeline"@) =~= events_in(content, "timeline"@));
        settings_add_up(events_in(content, "state"@), events_in(content, "timeline"@));
    }
    assert forall|room: Seq<char>| #[trigger]
        section.contains_key(room) && ids::room_id(room) implies exists|i: int|
        0 <= i < plan.len() && (#[trigger] plan[i]).room_id@ == room by {
        assert(kept.contains(room));
        let i = choose|i: int| 0 <= i < kept.len() && kept[i] == room;
        assert(all[i].0 == room);
        assert(decrypt::plans_room(plan[i], all[i].0, all[i].1));
        assert(plan[i].room_id@ == room);
    }
    assert forall|i: int, j: int| 0 <= i < j < plan.len() implies (#[trigger] plan[i]).room_id@ != (
    #[trigger] plan[j]).room_id@ by {
        assert(decrypt::plans_room(plan[i], all[i].0, all[i].1));
        assert(decrypt::plans_room(plan[j], all[j].0, all[j].1));
        assert(all[i].0 == kept[i] && all[j].0 == kept[j]);
        assert(text::precedes(kept[i], kept[j]));
        text::lemma_precedes_irreflexive(kept[i]);
    }
}

/// Nothing is done for an event whose decryption has come to its end.
pub proof fn ended_decryptions_stay_ended(
    requested: Set<Seq<char>>,
    event: JsonView,
    happened: EventView,
)
    ensures
        decrypt::decrypt_next(requested, event, StateView::Done, happened) == (
            StateView::Done,
            StepView::Stop,
        ),
        decrypt::requested_next(requested, StateView::Done, happened) == requested,
{
}

/// A session counts as asked for from the moment that an event lacks its key, and nothing
/// else makes one count, or makes one count no more.
pub proof fn sessions_are_asked_for(
    requested: Set<Seq<char>>,
    state: StateView,
    happened: EventView,
    session: Seq<char>,
)
    ensures
        decrypt::requested_next(requested, state, happened).contains(session)
            <==> requested.contains(session) || (state is Decrypting && (
        happened matches EventView::UnableToDecrypt { session_id, .. } && session_id == Some(
            session,
        ))),
{
}

/// The session whose key is missing is the one that the event was encrypted in.
pub proof fn missing_session_is_told(
    reason: Seq<char>,
    session_id: Option<Seq<char>>,
    event: JsonView,
    encryption_info: JsonView,
)
    ensures
        decrypt::missing_session((DecryptionView::UnableToDecrypt { reason, session_id }))
            == session_id,
        decrypt::missing_session((DecryptionView::Decrypted { event, encryption_info })) is None,
        decrypt::missing_session(DecryptionView::Failed) is None,
{
}

} // verus!
