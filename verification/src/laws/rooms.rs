//! Rooms: what state events and replies tell of them, and how long it is remembered.

use crate::crypto::rooms;
use crate::crypto::rooms::{EncryptionStateView, SettingsView, TrackerView};
use crate::failure::Failure;
use crate::ids;
use crate::json::JsonView;
use crate::laws::media as members;
use crate::laws::order;
use crate::percent;
use crate::string_map;
use crate::text;
use crate::wire::Reply;
use vstd::prelude::*;
use vstd::string::*;

verus! {

proof fn lemma_words()
    ensures
        "m.room.encryption"@ != "m.room.history_visibility"@,
        "m.room.encryption"@ != "m.room.member"@,
        "m.room.history_visibility"@ != "m.room.member"@,
{
    reveal_strlit("m.room.encryption");
    reveal_strlit("m.room.history_visibility");
    reveal_strlit("m.room.member");
    assert("m.room.encryption"@.len() == 17);
    assert("m.room.history_visibility"@.len() == 25);
    assert("m.room.member"@.len() == 13);
}

/// The natural number that a member is, if it is one.
pub open spec fn number_in(member: Option<JsonView>) -> Option<u64> {
    match member {
        Some(JsonView::Natural(n)) => Some(n),
        _ => None,
    }
}

/// Whether settings are those that a content gives.
pub open spec fn given_by(s: SettingsView, content: JsonView) -> bool {
    &&& content.get("algorithm"@) == Some(JsonView::Str(s.algorithm))
    &&& !s.only_allow_trusted_devices
    &&& s.session_rotation_period == number_in(content.get("rotation_period_ms"@))
    &&& match number_in(content.get("rotation_period_msgs"@)) {
        Some(n) => s.session_rotation_period_messages == Some(n as usize),
        None => s.session_rotation_period_messages is None,
    }
}

/// The content of an encryption event gives the settings that it names: it does wherever
/// it names an algorithm.
pub proof fn settings_are_read(content: JsonView)
    ensures
        match rooms::settings_of(content) {
            Some(s) => given_by(s, content),
            None => !(content.get("algorithm"@) matches Some(JsonView::Str(_))),
        },
{
}

/// Whether an event is a state event of the given type: it has a state key, which may be
/// empty.
pub open spec fn is_state(event: JsonView, kind: Seq<char>) -> bool {
    &&& event.get("state_key"@) matches Some(JsonView::Str(_))
    &&& event.get("type"@) == Some(JsonView::Str(kind))
}

/// Whether an event encrypts its room.
pub open spec fn encrypts_room(event: JsonView) -> bool {
    is_state(event, "m.room.encryption"@) && (event.get2("content"@, "algorithm"@) matches Some(
        JsonView::Str(_),
    ))
}

/// How many of the first `n` events encrypt their room.
pub open spec fn encrypting_before(events: Seq<JsonView>, n: int) -> nat
    decreases n,
{
    if n <= 0 {
        0
    } else if encrypts_room(events[n - 1]) {
        encrypting_before(events, n - 1) + 1
    } else {
        encrypting_before(events, n - 1)
    }
}

proof fn lemma_encrypting(events: Seq<JsonView>, last: JsonView, n: int)
    requires
        0 <= n <= events.len(),
    ensures
        encrypting_before(events.push(last), n) == encrypting_before(events, n),
    decreases n,
{
    if n > 0 {
        lemma_encrypting(events, last, n - 1);
    }
}

/// Every event that encrypts the room gives settings to store, each in its turn; no other
/// event does.
pub proof fn every_setting_is_stored(events: Seq<JsonView>)
    ensures
        rooms::scanned_settings(events).len() == encrypting_before(events, events.len() as int),
        forall|i: int|
            #![trigger events[i]]
            0 <= i < events.len() && encrypts_room(events[i]) ==> {
                &&& encrypting_before(events, i) < rooms::scanned_settings(events).len()
                &&& given_by(
                    rooms::scanned_settings(events)[encrypting_before(events, i) as int],
                    events[i].get("content"@)->0,
                )
            },
    decreases events.len(),
{
    if events.len() > 0 {
        let front = events.drop_last();
        let last = events.last();
        every_setting_is_stored(front);
        assert(events =~= front.push(last));
        assert(rooms::settings_in(last) is Some <==> encrypts_room(last));
        assert forall|i: int|
            #![trigger events[i]]
            0 <= i < events.len() && encrypts_room(events[i]) implies {
            &&& encrypting_before(events, i) < rooms::scanned_settings(events).len()
            &&& given_by(
                rooms::scanned_settings(events)[encrypting_before(events, i) as int],
                events[i].get("content"@)->0,
            )
        } by {
            lemma_encrypting(front, last, i);
            if i < front.len() {
                assert(front[i] == events[i]);
            }
        }
        lemma_encrypting(front, last, front.len() as int);
    }
}

/// Who can read a room's history, by a state event; none where the event does not say.
pub open spec fn says_visibility(event: JsonView) -> Option<Seq<char>> {
    if is_state(event, "m.room.history_visibility"@) {
        members::text_in(event.get2("content"@, "history_visibility"@))
    } else {
        None
    }
}

proof fn lemma_visibility(t: TrackerView, room: Seq<char>, event: JsonView)
    ensures
        rooms::scanned_event(t, room, event).visibility_of(room) == match says_visibility(event) {
            Some(v) => Some(v),
            None => t.visibility_of(room),
        },
{
    lemma_words();
}

/// The visibility of a room's history is the one that the last event to speak of it gives.
pub proof fn last_visibility_counts(
    t: TrackerView,
    room: Seq<char>,
    events: Seq<JsonView>,
    i: int,
    v: Seq<char>,
)
    requires
        0 <= i < events.len(),
        says_visibility(events[i]) == Some(v),
        forall|j: int| i < j < events.len() ==> says_visibility(#[trigger] events[j]) is None,
    ensures
        rooms::scanned(t, room, events).visibility_of(room) == Some(v),
    decreases events.len(),
{
    let front = events.drop_last();
    let last = events.last();
    lemma_visibility(rooms::scanned(t, room, front), room, last);
    assert(events[events.len() - 1] == last);
    if i < front.len() {
        assert(front[i] == events[i]);
        assert forall|j: int| i < j < front.len() implies says_visibility(#[trigger] front[j])
            is None by {
            assert(front[j] == events[j]);
        }
        last_visibility_counts(t, room, front, i, v);
    }
}

/// Where no event speaks of it, the visibility of a room's history stays as it was.
pub proof fn silence_keeps_the_visibility(t: TrackerView, room: Seq<char>, events: Seq<JsonView>)
    requires
        forall|j: int| 0 <= j < events.len() ==> says_visibility(#[trigger] events[j]) is None,
    ensures
        rooms::scanned(t, room, events).visibility_of(room) == t.visibility_of(room),
    decreases events.len(),
{
    if events.len() > 0 {
        let front = events.drop_last();
        let last = events.last();
        lemma_visibility(rooms::scanned(t, room, front), room, last);
        assert(events[events.len() - 1] == last);
        assert forall|j: int| 0 <= j < front.len() implies says_visibility(#[trigger] front[j])
            is None by {
            assert(front[j] == events[j]);
        }
        silence_keeps_the_visibility(t, room, front);
    }
}

/// A change of membership makes the list of members stale; other events leave it.
pub proof fn membership_changes_count(
    t: TrackerView,
    room: Seq<char>,
    events: Seq<JsonView>,
    now: u64,
)
    ensures
        (exists|i: int|
            0 <= i < events.len() && is_state(#[trigger] events[i], "m.room.member"@))
            ==> rooms::scanned(t, room, events).members_of(room, now) is None,
        (forall|i: int|
            0 <= i < events.len() ==> !is_state(#[trigger] events[i], "m.room.member"@))
            ==> rooms::scanned(t, room, events).members_of(room, now) == t.members_of(room, now),
    decreases events.len(),
{
    lemma_words();
    if events.len() > 0 {
        let front = events.drop_last();
        let last = events.last();
        membership_changes_count(t, room, front, now);
        let before = rooms::scanned(t, room, front);
        let after = rooms::scanned_event(before, room, last);
        assert(is_state(last, "m.room.member"@) ==> after.members_of(room, now) is None);
        assert(!is_state(last, "m.room.member"@) ==> after.members_of(room, now)
            == before.members_of(room, now));
        assert(events[events.len() - 1] == last);
        if exists|i: int|
            0 <= i < events.len() && is_state(#[trigger] events[i], "m.room.member"@) {
            let i = choose|i: int|
                0 <= i < events.len() && is_state(#[trigger] events[i], "m.room.member"@);
            if i < front.len() {
                assert(front[i] == events[i]);
            }
        } else {
            assert forall|i: int| 0 <= i < front.len() implies !is_state(
                #[trigger] front[i],
                "m.room.member"@,
            ) by {
                assert(front[i] == events[i]);
            }
        }
    }
}

/// A room stays known to be unencrypted exactly until an event encrypts it.
pub proof fn encryption_counts(t: TrackerView, room: Seq<char>, events: Seq<JsonView>)
    ensures
        rooms::scanned(t, room, events).unencrypted.contains(room) == (t.unencrypted.contains(room)
            && forall|i: int| 0 <= i < events.len() ==> !encrypts_room(#[trigger] events[i])),
        rooms::scanned(t, room, events).requested == t.requested,
    decreases events.len(),
{
    lemma_words();
    if events.len() > 0 {
        let front = events.drop_last();
        let last = events.last();
        encryption_counts(t, room, front);
        assert(events[events.len() - 1] == last);
        assert(rooms::settings_in(last) is Some <==> encrypts_room(last));
        assert forall|i: int| 0 <= i < front.len() implies front[i] == #[trigger] events[i] by {}
        if forall|i: int| 0 <= i < front.len() ==> !encrypts_room(#[trigger] front[i]) {
            assert forall|i: int| 0 <= i < front.len() implies !encrypts_room(
                #[trigger] events[i],
            ) by {
                assert(front[i] == events[i]);
            }
        } else {
            let i = choose|i: int| 0 <= i < front.len() && encrypts_room(#[trigger] front[i]);
            assert(encrypts_room(events[i]));
        }
    }
}

/// The members of a room are the users that the homeserver lists as joined, each once.
pub proof fn joined_users_are_members(body: JsonView, joined: Map<Seq<char>, JsonView>)
    requires
        body.get("joined"@) == Some(JsonView::Object(joined)),
        joined.dom().finite(),
    ensures
        forall|k: Seq<char>| #[trigger]
            rooms::members_in(body).contains(k) <==> joined.contains_key(k) && ids::user_id(k),
        rooms::members_in(body).no_duplicates(),
{
    order::order_lists_all(joined.dom());
    order::filter_keeps_the_order(
        string_map::in_order(joined.dom()),
        |k: Seq<char>| ids::user_id(k),
    );
    let list = rooms::members_in(body);
    assert forall|i: int, j: int| 0 <= i < list.len() && 0 <= j < list.len() && i != j implies list[i]
        != list[j] by {
        if i < j {
            assert(text::precedes(list[i], list[j]));
        } else {
            assert(text::precedes(list[j], list[i]));
        }
        text::lemma_precedes_irreflexive(list[i]);
    }
    order::lemma_filtered(
        string_map::in_order(joined.dom()),
        |k: Seq<char>| ids::user_id(k),
    );
    assert forall|k: Seq<char>| #[trigger]
        rooms::members_in(body).contains(k) <==> joined.contains_key(k) && ids::user_id(k) by {
        assert(string_map::in_order(joined.dom()).contains(k) <==> joined.dom().contains(k));
    }
}

/// A reply lists the members where it reports success and lists any; else it is a failure.
pub proof fn members_are_listed(room: Seq<char>, status: u16, body: JsonView)
    ensures
        rooms::members_result(room, status, body) matches Ok(m) ==> m == rooms::members_in(body)
            && m.len() > 0 && 200 <= status <= 299,
        200 <= status <= 299 && rooms::members_in(body).len() > 0 ==> rooms::members_result(
            room,
            status,
            body,
        ) is Ok,
        !(body.get("joined"@) matches Some(JsonView::Object(_))) ==> rooms::members_in(body).len()
            == 0,
{
}

/// A room without an encryption event is unencrypted; one with a proper event is encrypted,
/// by its settings; anything else is not known.
pub proof fn encryption_is_asked_for(status: u16, body: JsonView)
    ensures
        match rooms::encryption_state(status, body) {
            EncryptionStateView::Unencrypted => status == 404,
            EncryptionStateView::Encrypted(s) => 200 <= status <= 299 && given_by(s, body),
            EncryptionStateView::Unknown(_) => status != 404 && (status < 200 || status > 299
                || !(body.get("algorithm"@) matches Some(JsonView::Str(_)))),
        },
{
}

/// The visibility of a room's history is the one that the homeserver gives; `shared` where
/// it gives none.
pub proof fn visibility_is_asked_for(reply: Result<Reply, Failure>)
    ensures
        match reply {
            Ok(r) => match r.body@.get("history_visibility"@) {
                Some(JsonView::Str(v)) => 200 <= r.status <= 299 ==> rooms::visibility_in(reply)
                    == v,
                _ => rooms::visibility_in(reply) == "shared"@,
            },
            Err(_) => rooms::visibility_in(reply) == "shared"@,
        },
        (reply matches Ok(r) && (r.status < 200 || r.status > 299)) ==> rooms::visibility_in(reply)
            == "shared"@,
{
}

/// What is asked of the homeserver about a room is asked below the room's own path.
pub proof fn room_is_named_in_paths(room: Seq<char>, piece: Seq<char>)
    ensures
        rooms::room_path(room, piece) == "/_matrix/client/v3/rooms/"@ + percent::encoded_text(room)
            + piece,
{
}

/// What is noted of a room is found again, until it is noted otherwise, and changes nothing
/// that is known of other rooms or of other things. A list of members is good for ten
/// minutes.
pub proof fn tracker_remembers(
    t: TrackerView,
    room: Seq<char>,
    other: Seq<char>,
    visibility: Seq<char>,
    list: Seq<Seq<char>>,
    at: u64,
    now: u64,
)
    ensures
        ({
            let n = t.with_visibility(room, visibility);
            &&& n.visibility_of(room) == Some(visibility)
            &&& other != room ==> n.visibility_of(other) == t.visibility_of(other)
            &&& n.members == t.members && n.unencrypted == t.unencrypted && n.requested
                == t.requested
        }),
        ({
            let n = t.with_members(room, at, list);
            &&& n.members_of(room, now) == if now - at < 10 * 60 * 1000 * 1000 * 1000 {
                Some(list)
            } else {
                None
            }
            &&& other != room ==> n.members_of(other, now) == t.members_of(other, now)
            &&& n.visibility == t.visibility && n.unencrypted == t.unencrypted && n.requested
                == t.requested
        }),
        ({
            let n = t.without_members(room);
            &&& n.members_of(room, now) is None
            &&& other != room ==> n.members_of(other, now) == t.members_of(other, now)
            &&& n.visibility == t.visibility && n.unencrypted == t.unencrypted && n.requested
                == t.requested
        }),
        ({
            let n = t.with_unencrypted(room);
            &&& n.unencrypted.contains(room)
            &&& other != room ==> n.unencrypted.contains(other) == t.unencrypted.contains(other)
            &&& n.visibility == t.visibility && n.members == t.members && n.requested == t.requested
        }),
        ({
            let n = t.without_unencrypted(room);
            &&& !n.unencrypted.contains(room)
            &&& other != room ==> n.unencrypted.contains(other) == t.unencrypted.contains(other)
            &&& n.visibility == t.visibility && n.members == t.members && n.requested == t.requested
        }),
        ({
            let n = t.with_requested(room);
            &&& n.requested.contains(room)
            &&& other != room ==> n.requested.contains(other) == t.requested.contains(other)
            &&& n.visibility == t.visibility && n.members == t.members && n.unencrypted
                == t.unencrypted
        }),
        ({
            let n = t.without_requested(room);
            &&& !n.requested.contains(room)
            &&& other != room ==> n.requested.contains(other) == t.requested.contains(other)
            &&& n.visibility == t.visibility && n.members == t.members && n.unencrypted
                == t.unencrypted
        }),
{
}

/// A tracker knows nothing at first.
pub proof fn tracker_starts_empty(room: Seq<char>, now: u64)
    ensures
        TrackerView::empty().visibility_of(room) is None,
        TrackerView::empty().members_of(room, now) is None,
        !TrackerView::empty().unencrypted.contains(room),
        !TrackerView::empty().requested.contains(room),
{
}

} // verus!
