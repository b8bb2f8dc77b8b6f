//! Decrypting the events of responses on their way to the client.

use crate::crypto::media;
use crate::crypto::media::{
    harvest, harvest_and_rewrite_decrypted, Harvest, MediaRow, RowView,
};
use crate::crypto::rooms;
use crate::crypto::rooms::{scan_state_events, RoomSettings, RoomTracker};
use crate::ids;
use crate::ids::is_room_id;
use crate::json;
use crate::json::{Json, JsonView};
use crate::json_text;
use crate::json_text::parse_json;
use crate::string_map;
use crate::string_map::StringMap;
use crate::text;
use crate::text::same_text;
use vstd::prelude::*;
use vstd::string::*;
use vstd::utf8::*;

verus! {

/// What the crypto machine made of an encrypted event.
pub enum Decryption {
    /// It was decrypted.
    Decrypted { event: Json, encryption_info: Json },
    /// Its key is missing, or does not fit.
    UnableToDecrypt { reason: String, session_id: Option<String> },
    /// The machine failed, and said nothing of the event.
    Failed,
}

/// What a decryption says.
pub enum DecryptionView {
    Decrypted { event: JsonView, encryption_info: JsonView },
    UnableToDecrypt { reason: Seq<char>, session_id: Option<Seq<char>> },
    Failed,
}

impl Decryption {
    pub open spec fn view(&self) -> DecryptionView {
        match self {
            Decryption::Decrypted { event, encryption_info } => DecryptionView::Decrypted {
                event: event@,
                encryption_info: encryption_info@,
            },
            Decryption::UnableToDecrypt { reason, session_id } => DecryptionView::UnableToDecrypt {
                reason: reason@,
                session_id: text::opt_text(*session_id),
            },
            Decryption::Failed => DecryptionView::Failed,
        }
    }
}

/// What some decryptions say.
pub open spec fn decryptions(v: Seq<Decryption>) -> Seq<DecryptionView> {
    v.map_values(|d: Decryption| d@)
}

/// The decryption of an event whose text the crypto machine handed out. A text that is
/// no JSON object is no event, and counts as a failure.
pub fn decrypted_event(event_json: &str, encryption_info: Json) -> (r: Decryption)
    ensures
        r@ == read_event(event_json@, encryption_info@),
{
    match parse_json(event_json.as_bytes()) {
        Ok(event) => if event.is_object() {
            Decryption::Decrypted { event, encryption_info }
        } else {
            Decryption::Failed
        },
        Err(_) => Decryption::Failed,
    }
}

/// Whether an event is encrypted.
pub open spec fn encrypted(event: JsonView) -> bool {
    event.get_text("type"@) == Some("m.room.encrypted"@)
}

/// Whether an event is encrypted.
pub fn is_encrypted(event: &Json) -> (r: bool)
    ensures
        r == encrypted(event@),
{
    match event.get_text("type") {
        Some(t) => same_text(t.as_str(), "m.room.encrypted"),
        None => false,
    }
}

/// The note that a decrypted event carries.
pub open spec fn decrypted_note(encryption_info: JsonView) -> JsonView {
    JsonView::empty_object().with("decrypted"@, JsonView::Bool(true)).with(
        "encryption_info"@,
        encryption_info,
    )
}

/// The unsigned part of a decrypted event: what the envelope has and the decrypted
/// event has not is added, and the note. Where either of the two has no object there,
/// nothing is added.
pub open spec fn merged_unsigned(
    envelope: Option<JsonView>,
    inner: JsonView,
    encryption_info: JsonView,
) -> JsonView {
    match (envelope, inner) {
        (Some(JsonView::Object(outer)), JsonView::Object(own)) => JsonView::Object(
            outer.union_prefer_right(own),
        ).with("ement_e2ee"@, decrypted_note(encryption_info)),
        _ => inner,
    }
}

/// The event that takes the place of an encrypted one.
pub open spec fn decrypted_form(
    envelope: JsonView,
    event: JsonView,
    encryption_info: JsonView,
) -> JsonView {
    let inner = match event.get("unsigned"@) {
        Some(u) => u,
        None => JsonView::empty_object(),
    };
    event.with(
        "unsigned"@,
        merged_unsigned(envelope.get("unsigned"@), inner, encryption_info),
    )
}

/// The note that an undecryptable event carries.
pub open spec fn utd_note(session_id: Option<Seq<char>>) -> JsonView {
    JsonView::empty_object().with("utd"@, JsonView::Bool(true)).with(
        "session_id"@,
        JsonView::opt_str(session_id),
    )
}

/// The object with the member `key` of another one, if that has it.
pub open spec fn with_member_of(j: JsonView, other: JsonView, key: Seq<char>) -> JsonView {
    match other.get(key) {
        Some(v) => j.with(key, v),
        None => j,
    }
}

/// What an undecryptable event says.
pub open spec fn utd_body(reason: Seq<char>) -> Seq<char> {
    "🔒 [undecryptable: "@ + reason
        + "] If keys arrive later, close and reopen the room to retry."@
}

/// The readable message that stands in for an undecryptable event: it keeps the
/// event's ID, sender, time and room, and what was unsigned in it.
pub open spec fn utd_form(
    original: JsonView,
    reason: Seq<char>,
    session_id: Option<Seq<char>>,
) -> JsonView {
    let content = JsonView::empty_object().with("msgtype"@, JsonView::Str("m.text"@)).with(
        "body"@,
        JsonView::Str(utd_body(reason)),
    );
    let p = JsonView::empty_object().with("type"@, JsonView::Str("m.room.message"@)).with(
        "content"@,
        content,
    );
    let p = with_member_of(p, original, "event_id"@);
    let p = with_member_of(p, original, "sender"@);
    let p = with_member_of(p, original, "origin_server_ts"@);
    let p = with_member_of(p, original, "room_id"@);
    let unsigned = match original.get("unsigned"@) {
        Some(JsonView::Object(m)) => JsonView::Object(m),
        _ => JsonView::empty_object(),
    };
    p.with("unsigned"@, unsigned.with("ement_e2ee"@, utd_note(session_id)))
}

/// What the client gets in place of an event. Events that are not encrypted stay as
/// they are.
pub open spec fn client_form(event: JsonView, d: DecryptionView) -> JsonView {
    if encrypted(event) {
        match d {
            DecryptionView::Decrypted { event: inner, encryption_info } => decrypted_form(
                event,
                inner,
                encryption_info,
            ),
            DecryptionView::UnableToDecrypt { reason, session_id } => utd_form(
                event,
                reason,
                session_id,
            ),
            DecryptionView::Failed => event,
        }
    } else {
        event
    }
}

/// Adds to `target` the members of `source` that it does not have.
fn add_missing(target: &mut Json, source: &Json)
    requires
        old(target)@ is Object,
        source@ is Object,
    ensures
        final(target)@ == JsonView::Object(
            source@->Object_0.union_prefer_right(old(target)@->Object_0),
        ),
{
    let ghost own = target@->Object_0;
    match source {
        Json::Object(m) => {
            proof {
                json::lemma_object_view(*m);
            }
            let ghost outer = json::object_view(*m);
            let n: usize = m.len();
            let ghost keys = m.keys();
            let mut i: usize = 0;
            while i < n
                invariant
                    i <= n == keys.len(),
                    keys == m.keys(),
                    outer == json::object_view(*m),
                    outer.dom() == m@.dom(),
                    forall|k: Seq<char>| #[trigger] m@.contains_key(k) ==> outer[k] == m@[k]@,
                    target@ is Object,
                    forall|k: Seq<char>| #[trigger]
                        target@->Object_0.contains_key(k) <==> own.contains_key(k) || keys.take(
                            i as int,
                        ).contains(k),
                    forall|k: Seq<char>| #[trigger]
                        target@->Object_0.contains_key(k) ==> target@->Object_0[k] == (
                        if own.contains_key(k) {
                            own[k]
                        } else {
                            outer[k]
                        }),
                decreases n - i,
            {
                let (k, v) = m.entry_at(i);
                let ghost before = target@->Object_0;
                proof {
                    string_map::lemma_next_prefix(keys, i as int);
                    assert(outer[k@] == v@);
                }
                target.put_default(k.as_str(), v.copy());
                i += 1;
            }
            proof {
                assert(keys.take(n as int) =~= keys);
                let want = outer.union_prefer_right(own);
                assert forall|k: Seq<char>| target@->Object_0.contains_key(k)
                    == want.contains_key(k) by {
                    assert(m@.contains_key(k) == keys.contains(k));
                }
                assert(target@->Object_0 =~= want);
            }
        },
        _ => {},
    }
}

/// The event that takes the place of an encrypted one.
fn merge_decrypted(envelope: &Json, event: &Json, encryption_info: &Json) -> (r: Json)
    ensures
        r@ == decrypted_form(envelope@, event@, encryption_info@),
{
    let mut new_event = event.copy();
    let mut unsigned = match event.get("unsigned") {
        Some(u) => u.copy(),
        None => Json::object(),
    };
    if unsigned.is_object() {
        match envelope.get("unsigned") {
            Some(outer) => if outer.is_object() {
                add_missing(&mut unsigned, outer);
                let mut note = Json::object();
                note.put("decrypted", Json::Bool(true));
                note.put("encryption_info", encryption_info.copy());
                unsigned.put("ement_e2ee", note);
            },
            None => {},
        }
    }
    new_event.put("unsigned", unsigned);
    new_event
}

fn keep_member(target: &mut Json, source: &Json, key: &str)
    ensures
        final(target)@ == with_member_of(old(target)@, source@, key@),
{
    match source.get(key) {
        Some(v) => target.put(key, v.copy()),
        None => {},
    }
}

/// The readable message that stands in for an undecryptable event, which the client
/// would not show at all.
pub fn utd_placeholder(original: &Json, reason: &str, session_id: Option<&str>) -> (r: Json)
    ensures
        r@ == utd_form(original@, reason@, text::opt_str(session_id)),
{
    let mut content = Json::object();
    content.put("msgtype", Json::text("m.text"));
    content.put(
        "body",
        Json::Str(
            "🔒 [undecryptable: ".to_owned().concat(reason).concat(
                "] If keys arrive later, close and reopen the room to retry.",
            ),
        ),
    );
    let mut placeholder = Json::object();
    placeholder.put("type", Json::text("m.room.message"));
    placeholder.put("content", content);
    keep_member(&mut placeholder, original, "event_id");
    keep_member(&mut placeholder, original, "sender");
    keep_member(&mut placeholder, original, "origin_server_ts");
    keep_member(&mut placeholder, original, "room_id");
    let mut unsigned = match original.get("unsigned") {
        Some(u) => if u.is_object() {
            u.copy()
        } else {
            Json::object()
        },
        None => Json::object(),
    };
    let mut note = Json::object();
    note.put("utd", Json::Bool(true));
    note.put("session_id", Json::text_or_null(session_id));
    unsigned.put("ement_e2ee", note);
    placeholder.put("unsigned", unsigned);
    placeholder
}

/// What the client gets in place of an event.
pub fn decrypt_event(event: &Json, outcome: &Decryption) -> (r: Json)
    ensures
        r@ == client_form(event@, outcome@),
{
    if !is_encrypted(event) {
        return event.copy();
    }
    match outcome {
        Decryption::Decrypted { event: inner, encryption_info } => merge_decrypted(
            event,
            inner,
            encryption_info,
        ),
        Decryption::UnableToDecrypt { reason, session_id } => utd_placeholder(
            event,
            reason.as_str(),
            text::borrow_text(session_id),
        ),
        Decryption::Failed => event.copy(),
    }
}

/// What the client gets in place of some events. An event for which there is no
/// decryption stays as it is.
pub open spec fn client_forms(events: Seq<JsonView>, outcomes: Seq<DecryptionView>) -> Seq<
    JsonView,
> {
    Seq::new(
        events.len(),
        |i: int|
            if i < outcomes.len() {
                client_form(events[i], outcomes[i])
            } else {
                events[i]
            },
    )
}

/// What the client gets in place of some events.
pub fn decrypt_events(events: &Vec<Json>, outcomes: &Vec<Decryption>) -> (r: Vec<Json>)
    ensures
        json::array_view(r@) == client_forms(json::array_view(events@), decryptions(outcomes@)),
{
    let mut out: Vec<Json> = Vec::new();
    let mut i: usize = 0;
    let ghost want = client_forms(json::array_view(events@), decryptions(outcomes@));
    while i < events.len()
        invariant
            i <= events@.len(),
            want == client_forms(json::array_view(events@), decryptions(outcomes@)),
            out@.len() == i,
            forall|k: int| 0 <= k < i ==> (#[trigger] out@[k])@ == want[k],
        decreases events@.len() - i,
    {
        proof {
            json::lemma_array_view(events@);
        }
        if i < outcomes.len() {
            out.push(decrypt_event(&events[i], &outcomes[i]));
        } else {
            out.push(events[i].copy());
        }
        i += 1;
    }
    proof {
        json::lemma_array_view(events@);
        json::lemma_array_view(out@);
        assert(json::array_view(out@) =~= want);
    }
    out
}

/// The object with the events under `key` in the form the client gets them.
pub open spec fn with_client_forms(
    j: JsonView,
    key: Seq<char>,
    outcomes: Seq<DecryptionView>,
) -> JsonView {
    match j.get_list(key) {
        Some(events) => j.with(key, JsonView::Array(client_forms(events, outcomes))),
        None => j,
    }
}

fn decrypt_list(j: &mut Json, key: &str, outcomes: &Vec<Decryption>)
    ensures
        final(j)@ == with_client_forms(old(j)@, key@, decryptions(outcomes@)),
{
    let events = match j.get_list(key) {
        Some(events) => decrypt_events(events, outcomes),
        None => {
            return;
        },
    };
    j.put(key, Json::Array(events));
}

/// A room of a sync response in the form the client gets it.
pub open spec fn room_form(room: JsonView, outcomes: Seq<DecryptionView>) -> JsonView {
    match room.get("timeline"@) {
        Some(timeline) => room.with(
            "timeline"@,
            with_client_forms(timeline, "events"@, outcomes),
        ),
        None => room,
    }
}

/// What is known of the timelines of some rooms.
pub open spec fn room_decryptions(m: Map<Seq<char>, Vec<Decryption>>) -> Map<
    Seq<char>,
    Seq<DecryptionView>,
> {
    m.map_values(|v: Vec<Decryption>| decryptions(v@))
}

/// A member of a section of a sync response in the form the client gets it: rooms
/// whose decryptions are known are rewritten.
pub open spec fn section_member(
    key: Seq<char>,
    room: JsonView,
    outcomes: Map<Seq<char>, Seq<DecryptionView>>,
) -> JsonView {
    if ids::room_id(key) && outcomes.contains_key(key) {
        room_form(room, outcomes[key])
    } else {
        room
    }
}

/// A section of a sync response in the form the client gets it.
pub open spec fn section_form(
    section: Map<Seq<char>, JsonView>,
    outcomes: Map<Seq<char>, Seq<DecryptionView>>,
) -> Map<Seq<char>, JsonView> {
    Map::new(
        |k: Seq<char>| section.contains_key(k),
        |k: Seq<char>| section_member(k, section[k], outcomes),
    )
}

/// The rooms of a sync response with one section in the form the client gets it.
pub open spec fn with_section_form(
    rooms: JsonView,
    name: Seq<char>,
    outcomes: Map<Seq<char>, Seq<DecryptionView>>,
) -> JsonView {
    match rooms.get(name) {
        Some(JsonView::Object(section)) => rooms.with(
            name,
            JsonView::Object(section_form(section, outcomes)),
        ),
        _ => rooms,
    }
}

/// A sync response in the form the client gets it: the timelines of joined and left
/// rooms decrypted, and everything else as it was.
pub open spec fn sync_form(
    body: JsonView,
    joined: Map<Seq<char>, Seq<DecryptionView>>,
    left: Map<Seq<char>, Seq<DecryptionView>>,
) -> JsonView {
    match body.get("rooms"@) {
        Some(rooms) => body.with(
            "rooms"@,
            with_section_form(with_section_form(rooms, "join"@, joined), "leave"@, left),
        ),
        None => body,
    }
}

fn rewrite_room(room: &Json, outcomes: &Vec<Decryption>) -> (r: Json)
    ensures
        r@ == room_form(room@, decryptions(outcomes@)),
{
    let mut out = room.copy();
    let timeline = match room.get("timeline") {
        Some(timeline) => {
            let mut timeline = timeline.copy();
            decrypt_list(&mut timeline, "events", outcomes);
            timeline
        },
        None => {
            return out;
        },
    };
    out.put("timeline", timeline);
    out
}

fn rewrite_member(key: &str, room: &Json, outcomes: &StringMap<Vec<Decryption>>) -> (r: Json)
    ensures
        r@ == section_member(key@, room@, room_decryptions(outcomes@)),
{
    if !is_room_id(key) {
        return room.copy();
    }
    match outcomes.get(key) {
        Some(d) => rewrite_room(room, d),
        None => room.copy(),
    }
}

fn rewrite_section(section: &StringMap<Json>, outcomes: &StringMap<Vec<Decryption>>) -> (r: Json)
    ensures
        r@ == JsonView::Object(
            section_form(json::object_view(*section), room_decryptions(outcomes@)),
        ),
{
    let mut out = Json::object();
    proof {
        json::lemma_object_view(*section);
    }
    let ghost all = json::object_view(*section);
    let n: usize = section.len();
    let ghost keys = section.keys();
    let mut i: usize = 0;
    while i < n
        invariant
            i <= n == keys.len(),
            keys == section.keys(),
            all == json::object_view(*section),
            all.dom() == section@.dom(),
            forall|k: Seq<char>| #[trigger] section@.contains_key(k) ==> all[k] == section@[k]@,
            out@ is Object,
            forall|k: Seq<char>| #[trigger]
                out@->Object_0.contains_key(k) <==> keys.take(i as int).contains(k),
            forall|k: Seq<char>| #[trigger]
                out@->Object_0.contains_key(k) ==> out@->Object_0[k] == section_member(
                    k,
                    all[k],
                    room_decryptions(outcomes@),
                ),
        decreases n - i,
    {
        let (k, v) = section.entry_at(i);
        proof {
            string_map::lemma_next_prefix(keys, i as int);
            assert(all[k@] == v@);
        }
        let room = rewrite_member(k.as_str(), v, outcomes);
        let ghost before = out@->Object_0;
        out.put(k.as_str(), room);
        proof {
            let t = keys.take(i as int);
            assert(out@->Object_0 == before.insert(k@, room@));
            assert forall|x: Seq<char>| #[trigger]
                out@->Object_0.contains_key(x) <==> keys.take(i + 1).contains(x) by {
                assert(before.contains_key(x) <==> t.contains(x));
            }
        }
        i += 1;
    }
    proof {
        assert(keys.take(n as int) =~= keys);
        let want = section_form(all, room_decryptions(outcomes@));
        assert forall|k: Seq<char>| out@->Object_0.contains_key(k) == want.contains_key(k) by {
            assert(section@.contains_key(k) == keys.contains(k));
        }
        assert(out@->Object_0 =~= want);
    }
    out
}

fn process_section(rooms: &mut Json, name: &str, outcomes: &StringMap<Vec<Decryption>>)
    ensures
        final(rooms)@ == with_section_form(old(rooms)@, name@, room_decryptions(outcomes@)),
{
    let section = match rooms.get(name) {
        Some(Json::Object(section)) => rewrite_section(section, outcomes),
        _ => {
            return;
        },
    };
    rooms.put(name, section);
}

/// The events of a room in a sync response, and what its state says.
pub struct RoomPlan {
    pub room_id: String,
    /// Encryption settings to store, in order.
    pub settings: Vec<RoomSettings>,
    /// The events of the timeline, to be decrypted.
    pub events: Vec<Json>,
}

/// The list of events under a name in a room of a sync response; empty where there is
/// none.
pub open spec fn room_events(room: JsonView, name: Seq<char>) -> Seq<JsonView> {
    match room.get(name) {
        Some(part) => match part.get_list("events"@) {
            Some(events) => events,
            None => Seq::empty(),
        },
        None => Seq::empty(),
    }
}

/// What is tracked of a room behind a sync response: its state events, and those in
/// its timeline.
pub open spec fn room_scanned(
    t: rooms::TrackerView,
    room_id: Seq<char>,
    room: JsonView,
) -> rooms::TrackerView {
    rooms::scanned(
        rooms::scanned(t, room_id, room_events(room, "state"@)),
        room_id,
        room_events(room, "timeline"@),
    )
}

/// What a plan of a room says.
pub open spec fn plans_room(plan: RoomPlan, room_id: Seq<char>, room: JsonView) -> bool {
    &&& plan.room_id@ == room_id
    &&& rooms::settings_views(plan.settings@) == rooms::scanned_settings(
        room_events(room, "state"@),
    ) + rooms::scanned_settings(room_events(room, "timeline"@))
    &&& json::array_view(plan.events@) == room_events(room, "timeline"@)
}

/// The rooms of a section, in dictionary order; members whose names are no room IDs are
/// left out.
pub open spec fn section_rooms(rooms: Option<JsonView>, name: Seq<char>) -> Seq<
    (Seq<char>, JsonView),
> {
    match rooms {
        Some(rooms) => match rooms.get(name) {
            Some(JsonView::Object(m)) => Seq::new(
                string_map::in_order(m.dom()).filter(|k: Seq<char>| ids::room_id(k)).len(),
                |i: int|
                    {
                        let k = string_map::in_order(m.dom()).filter(
                            |k: Seq<char>| ids::room_id(k),
                        )[i];
                        (k, m[k])
                    },
            ),
            _ => Seq::empty(),
        },
        None => Seq::empty(),
    }
}

/// What is tracked of some rooms behind a sync response.
pub open spec fn rooms_scanned(t: rooms::TrackerView, all: Seq<(Seq<char>, JsonView)>) ->
    rooms::TrackerView
    decreases all.len(),
{
    if all.len() == 0 {
        t
    } else {
        room_scanned(rooms_scanned(t, all.drop_last()), all.last().0, all.last().1)
    }
}

fn events_of(room: &Json, name: &str) -> (r: Vec<Json>)
    ensures
        json::array_view(r@) == room_events(room@, name@),
{
    let found = match room.get(name) {
        Some(part) => part.get_list("events"),
        None => None,
    };
    match found {
        Some(events) => json::copy_list(events),
        None => {
            let none: Vec<Json> = Vec::new();
            proof {
                json::lemma_array_view(none@);
                assert(json::array_view(none@) =~= Seq::empty());
            }
            none
        },
    }
}

fn plan_room(tracker: &mut RoomTracker, room_id: &str, room: &Json) -> (r: RoomPlan)
    ensures
        plans_room(r, room_id@, room@),
        final(tracker)@ == room_scanned(old(tracker)@, room_id@, room@),
{
    let state = events_of(room, "state");
    let events = events_of(room, "timeline");
    let mut settings = scan_state_events(tracker, room_id, &state);
    let mut more = scan_state_events(tracker, room_id, &events);
    let ghost a = settings@;
    let ghost b = more@;
    settings.append(&mut more);
    assert(rooms::settings_views(settings@) =~= rooms::settings_views(a) + rooms::settings_views(
        b,
    ));
    RoomPlan { room_id: room_id.to_owned(), settings, events }
}

/// What the plans of a section say: one plan for each of its rooms, in order.
pub open spec fn plans_section(plans: Seq<RoomPlan>, all: Seq<(Seq<char>, JsonView)>) -> bool {
    &&& plans.len() == all.len()
    &&& forall|i: int|
        0 <= i < plans.len() ==> plans_room(#[trigger] plans[i], all[i].0, all[i].1)
}

fn plan_section(tracker: &mut RoomTracker, rooms: Option<&Json>, name: &str) -> (r: Vec<RoomPlan>)
    ensures
        plans_section(r@, section_rooms(json::opt_json(rooms), name@)),
        final(tracker)@ == rooms_scanned(
            old(tracker)@,
            section_rooms(json::opt_json(rooms), name@),
        ),
{
    let mut out: Vec<RoomPlan> = Vec::new();
    let ghost all = section_rooms(json::opt_json(rooms), name@);
    let ghost start = tracker@;
    let found = match rooms {
        Some(rooms) => rooms.get(name),
        None => None,
    };
    match found {
        Some(Json::Object(m)) => {
            proof {
                json::lemma_object_view(*m);
            }
            let ghost members = json::object_view(*m);
            let n: usize = m.len();
            let mut i: usize = 0;
            let ghost keys = m.keys();
            let ghost pred = |k: Seq<char>| ids::room_id(k);
            let ghost kept = keys.filter(pred);
            reveal(Seq::filter);
            assert(keys.take(0) =~= Seq::<Seq<char>>::empty());
            proof {
                assert(all =~= Seq::new(kept.len(), |j: int| (kept[j], members[kept[j]])));
                assert(all.take(0) =~= Seq::empty());
            }
            while i < n
                invariant
                    i <= n == keys.len(),
                    keys == m.keys(),
                    members == json::object_view(*m),
                    forall|k: Seq<char>| #[trigger] m@.contains_key(k) ==> members[k] == m@[k]@,
                    pred == (|k: Seq<char>| ids::room_id(k)),
                    kept == keys.filter(pred),
                    all == Seq::new(kept.len(), |j: int| (kept[j], members[kept[j]])),
                    out@.len() == keys.take(i as int).filter(pred).len(),
                    out@.len() <= all.len(),
                    plans_section(out@, all.take(out@.len() as int)),
                    tracker@ == rooms_scanned(start, all.take(out@.len() as int)),
                decreases n - i,
            {
                let (k, v) = m.entry_at(i);
                proof {
                    reveal(Seq::filter);
                    assert(keys.take(i + 1).drop_last() =~= keys.take(i as int));
                    assert(keys.take(i + 1).last() == k@);
                    lemma_filter_prefix(keys, pred, i as int);
                }
                if is_room_id(k.as_str()) {
                    let ghost c = out@.len() as int;
                    let ghost before = out@;
                    proof {
                        assert(kept[c] == k@);
                        assert(all[c] == (k@, v@));
                        assert(all.take(c + 1).drop_last() =~= all.take(c));
                    }
                    out.push(plan_room(tracker, k.as_str(), v));
                    proof {
                        assert forall|j: int| 0 <= j < out@.len() implies plans_room(
                            #[trigger] out@[j],
                            all.take(c + 1)[j].0,
                            all.take(c + 1)[j].1,
                        ) by {
                            if j < c {
                                assert(out@[j] == before[j]);
                                assert(all.take(c)[j] == all[j]);
                            }
                        }
                    }
                }
                i += 1;
            }
            assert(keys.take(n as int) =~= keys);
            assert(all.take(all.len() as int) =~= all);
        },
        _ => {},
    }
    out
}

/// Filtering a prefix gives a prefix of the filtered list, and the next item that
/// passes comes right behind it.
proof fn lemma_filter_prefix(s: Seq<Seq<char>>, pred: spec_fn(Seq<char>) -> bool, i: int)
    requires
        0 <= i < s.len(),
    ensures
        s.take(i).filter(pred).len() <= s.filter(pred).len(),
        pred(s[i]) ==> s.take(i).filter(pred).len() < s.filter(pred).len() && s.filter(
            pred,
        )[s.take(i).filter(pred).len() as int] == s[i],
    decreases s.len(),
{
    reveal(Seq::filter);
    if i < s.len() - 1 {
        lemma_filter_prefix(s.drop_last(), pred, i);
        assert(s.drop_last().take(i) =~= s.take(i));
    } else {
        assert(s.take(i) =~= s.drop_last());
    }
}

/// The rooms of a sync response, and what their state says.
pub struct SyncPlan {
    pub joined: Vec<RoomPlan>,
    pub left: Vec<RoomPlan>,
}

/// Takes note of the room state in a sync response, and lists the timelines to decrypt:
/// joined rooms first, then left ones.
pub fn scan_sync_body(tracker: &mut RoomTracker, body: &Json) -> (r: SyncPlan)
    ensures
        plans_section(r.joined@, section_rooms(body@.get("rooms"@), "join"@)),
        plans_section(r.left@, section_rooms(body@.get("rooms"@), "leave"@)),
        final(tracker)@ == rooms_scanned(
            rooms_scanned(old(tracker)@, section_rooms(body@.get("rooms"@), "join"@)),
            section_rooms(body@.get("rooms"@), "leave"@),
        ),
{
    let rooms = body.get("rooms");
    let joined = plan_section(tracker, rooms, "join");
    let left = plan_section(tracker, rooms, "leave");
    SyncPlan { joined, left }
}

/// Rewrites a sync response into the form the client gets.
pub fn process_sync_body(
    body: &mut Json,
    joined: &StringMap<Vec<Decryption>>,
    left: &StringMap<Vec<Decryption>>,
)
    ensures
        final(body)@ == sync_form(
            old(body)@,
            room_decryptions(joined@),
            room_decryptions(left@),
        ),
{
    let mut rooms = match body.get("rooms") {
        Some(rooms) => rooms.copy(),
        None => {
            return;
        },
    };
    process_section(&mut rooms, "join", joined);
    process_section(&mut rooms, "leave", left);
    body.put("rooms", rooms);
}

/// The list under `key`; empty where there is none.
pub open spec fn list_or_empty(j: JsonView, key: Seq<char>) -> Seq<JsonView> {
    match j.get_list(key) {
        Some(events) => events,
        None => Seq::empty(),
    }
}

/// Takes note of the room state that a history response brings along, and hands out the
/// encryption settings to store.
pub fn scan_history_state(tracker: &mut RoomTracker, room_id: &str, body: &Json) -> (r: Vec<
    RoomSettings,
>)
    ensures
        final(tracker)@ == rooms::scanned(old(tracker)@, room_id@, list_or_empty(body@, "state"@)),
        rooms::settings_views(r@) == rooms::scanned_settings(list_or_empty(body@, "state"@)),
{
    match body.get_list("state") {
        Some(events) => scan_state_events(tracker, room_id, events),
        None => {
            let none: Vec<RoomSettings> = Vec::new();
            assert(rooms::settings_views(none@) =~= Seq::empty());
            none
        },
    }
}

/// A page of a room's history in the form the client gets it.
pub open spec fn messages_form(body: JsonView, chunk: Seq<DecryptionView>) -> JsonView {
    with_client_forms(body, "chunk"@, chunk)
}

/// The object with the event under `event` in the form the client gets it.
pub open spec fn with_event_form(body: JsonView, event: DecryptionView) -> JsonView {
    match body.get("event"@) {
        Some(e) => body.with("event"@, client_form(e, event)),
        None => body,
    }
}

/// The surroundings of an event in the form the client gets them.
pub open spec fn context_form(
    body: JsonView,
    before: Seq<DecryptionView>,
    after: Seq<DecryptionView>,
    event: DecryptionView,
) -> JsonView {
    with_event_form(
        with_client_forms(
            with_client_forms(body, "events_before"@, before),
            "events_after"@,
            after,
        ),
        event,
    )
}

/// Rewrites a page of a room's history.
pub fn process_messages_body(body: &mut Json, chunk: &Vec<Decryption>)
    ensures
        final(body)@ == messages_form(old(body)@, decryptions(chunk@)),
{
    decrypt_list(body, "chunk", chunk);
}

/// Rewrites the surroundings of an event.
pub fn process_context_body(
    body: &mut Json,
    before: &Vec<Decryption>,
    after: &Vec<Decryption>,
    event: &Decryption,
)
    ensures
        final(body)@ == context_form(
            old(body)@,
            decryptions(before@),
            decryptions(after@),
            event@,
        ),
{
    decrypt_list(body, "events_before", before);
    decrypt_list(body, "events_after", after);
    let e = match body.get("event") {
        Some(e) => decrypt_event(e, event),
        None => {
            return;
        },
    };
    body.put("event", e);
}

/// Rewrites a response that is an event itself.
pub fn process_event_body(body: &mut Json, event: &Decryption)
    ensures
        final(body)@ == client_form(old(body)@, event@),
{
    let e = decrypt_event(body, event);
    *body = e;
}

/// The session for which a room key is to be asked: that of an undecryptable event,
/// unless it was asked for before. It is claimed by this call.
pub fn maybe_request_room_key(tracker: &mut RoomTracker, outcome: &Decryption) -> (r: Option<
    String,
>)
    ensures
        match missing_session(outcome@) {
            Some(session) => final(tracker)@ == old(tracker)@.with_requested(session)
                && text::opt_text(r) == (if old(tracker)@.requested.contains(session) {
                None
            } else {
                Some(session)
            }),
            None => final(tracker)@ == old(tracker)@ && r is None,
        },
{
    match outcome {
        Decryption::UnableToDecrypt { session_id: Some(session), .. } => {
            if tracker.claim_session(session.as_str()) {
                Some(session.clone())
            } else {
                None
            }
        },
        _ => None,
    }
}

/// The session whose key an undecryptable event lacks.
pub open spec fn missing_session(d: DecryptionView) -> Option<Seq<char>> {
    match d {
        DecryptionView::UnableToDecrypt { session_id, .. } => session_id,
        _ => None,
    }
}

/// Where the decryption of an event stands.
pub enum DecryptState {
    Start,
    /// It waits for the crypto machine.
    Decrypting,
    /// It waits for verifications to take note of the decrypted event.
    Noticing { event: Json, encryption_info: Json },
    /// It waits for the keys of the event's files to be stored.
    Storing { event: Json, encryption_info: Json, found: Harvest },
    /// It has come to an end.
    Done,
}

/// What has come in.
pub enum DecryptEvent {
    Begin,
    /// The crypto machine decrypted the event, and handed out this text.
    Decrypted { event_json: String, encryption_info: Json },
    /// The crypto machine lacks the key.
    UnableToDecrypt { reason: String, session_id: Option<String> },
    /// The crypto machine failed.
    Failed,
    /// Verifications have taken note of the event.
    Noticed,
    /// The key of the file, and that of the thumbnail, were stored, or were not.
    Stored { file: bool, thumbnail: bool },
}

/// What is to be done next.
pub enum DecryptStep {
    /// Have the crypto machine decrypt the event.
    Decrypt,
    /// Let verifications take note of the event, as they take place in encrypted rooms.
    Notice,
    /// Store the keys of the event's files.
    Store { file: Option<MediaRow>, thumbnail: Option<MediaRow> },
    /// Finish, and ask for the key of a session.
    Finish { outcome: Decryption, ask_for: Option<String> },
    /// Nothing.
    Stop,
}

/// Where the decryption of an event stands.
pub enum StateView {
    Start,
    Decrypting,
    Noticing { event: JsonView, encryption_info: JsonView },
    Storing {
        event: JsonView,
        encryption_info: JsonView,
        file: Option<RowView>,
        thumbnail: Option<RowView>,
    },
    Done,
}

/// What has come in.
pub enum EventView {
    Begin,
    Decrypted { event_json: Seq<char>, encryption_info: JsonView },
    UnableToDecrypt { reason: Seq<char>, session_id: Option<Seq<char>> },
    Failed,
    Noticed,
    Stored { file: bool, thumbnail: bool },
}

/// What is to be done next.
pub enum StepView {
    Decrypt,
    Notice,
    Store { file: Option<RowView>, thumbnail: Option<RowView> },
    Finish { outcome: DecryptionView, ask_for: Option<Seq<char>> },
    Stop,
}

impl DecryptState {
    pub open spec fn view(&self) -> StateView {
        match self {
            DecryptState::Start => StateView::Start,
            DecryptState::Decrypting => StateView::Decrypting,
            DecryptState::Noticing { event, encryption_info } => StateView::Noticing {
                event: event@,
                encryption_info: encryption_info@,
            },
            DecryptState::Storing { event, encryption_info, found } => StateView::Storing {
                event: event@,
                encryption_info: encryption_info@,
                file: media::opt_row(found.file),
                thumbnail: media::opt_row(found.thumbnail),
            },
            DecryptState::Done => StateView::Done,
        }
    }
}

impl DecryptEvent {
    pub open spec fn view(&self) -> EventView {
        match self {
            DecryptEvent::Begin => EventView::Begin,
            DecryptEvent::Decrypted { event_json, encryption_info } => EventView::Decrypted {
                event_json: event_json@,
                encryption_info: encryption_info@,
            },
            DecryptEvent::UnableToDecrypt { reason, session_id } => EventView::UnableToDecrypt {
                reason: reason@,
                session_id: text::opt_text(*session_id),
            },
            DecryptEvent::Failed => EventView::Failed,
            DecryptEvent::Noticed => EventView::Noticed,
            DecryptEvent::Stored { file, thumbnail } => EventView::Stored {
                file: *file,
                thumbnail: *thumbnail,
            },
        }
    }
}

impl DecryptStep {
    pub open spec fn view(&self) -> StepView {
        match self {
            DecryptStep::Decrypt => StepView::Decrypt,
            DecryptStep::Notice => StepView::Notice,
            DecryptStep::Store { file, thumbnail } => StepView::Store {
                file: media::opt_row(*file),
                thumbnail: media::opt_row(*thumbnail),
            },
            DecryptStep::Finish { outcome, ask_for } => StepView::Finish {
                outcome: outcome@,
                ask_for: text::opt_text(*ask_for),
            },
            DecryptStep::Stop => StepView::Stop,
        }
    }
}

/// The end, with nothing known of the event.
pub open spec fn gives_up() -> (StateView, StepView) {
    (StateView::Done, StepView::Finish { outcome: DecryptionView::Failed, ask_for: None })
}

/// What becomes of the text of a decrypted event.
pub open spec fn read_event(event_json: Seq<char>, encryption_info: JsonView) -> DecryptionView {
    match json_text::parsed(encode_utf8(event_json)) {
        Ok(event) => if event is Object {
            DecryptionView::Decrypted { event, encryption_info }
        } else {
            DecryptionView::Failed
        },
        Err(_) => DecryptionView::Failed,
    }
}

/// The next state of the decryption of an event, and what is to be done. The sessions that
/// were asked for before are not asked for again.
pub open spec fn decrypt_next(
    requested: Set<Seq<char>>,
    event: JsonView,
    state: StateView,
    happened: EventView,
) -> (StateView, StepView) {
    match (state, happened) {
        (StateView::Start, EventView::Begin) => if encrypted(event) {
            (StateView::Decrypting, StepView::Decrypt)
        } else {
            gives_up()
        },
        (StateView::Decrypting, EventView::Decrypted { event_json, encryption_info }) => {
            match read_event(event_json, encryption_info) {
                DecryptionView::Decrypted { event, encryption_info } => (
                    StateView::Noticing { event, encryption_info },
                    StepView::Notice,
                ),
                _ => gives_up(),
            }
        },
        (StateView::Decrypting, EventView::UnableToDecrypt { reason, session_id }) => (
            StateView::Done,
            StepView::Finish {
                outcome: DecryptionView::UnableToDecrypt { reason, session_id },
                ask_for: match session_id {
                    Some(session) => if requested.contains(session) {
                        None
                    } else {
                        Some(session)
                    },
                    None => None,
                },
            },
        ),
        (StateView::Decrypting, EventView::Failed) => gives_up(),
        (StateView::Noticing { event, encryption_info }, EventView::Noticed) => (
            StateView::Storing {
                event,
                encryption_info,
                file: media::harvested_file(event),
                thumbnail: media::harvested_thumbnail(event),
            },
            StepView::Store {
                file: media::harvested_file(event),
                thumbnail: media::harvested_thumbnail(event),
            },
        ),
        (
            StateView::Storing { event, encryption_info, file: f, thumbnail: t },
            EventView::Stored { file, thumbnail },
        ) => (
            StateView::Done,
            StepView::Finish {
                outcome: DecryptionView::Decrypted {
                    event: media::with_plain_urls(
                        event,
                        media::stored_uri(f, file),
                        media::stored_uri(t, thumbnail),
                    ),
                    encryption_info,
                },
                ask_for: None,
            },
        ),
        _ => (StateView::Done, StepView::Stop),
    }
}

/// The sessions that have been asked for once something has come in.
pub open spec fn requested_next(
    requested: Set<Seq<char>>,
    state: StateView,
    happened: EventView,
) -> Set<Seq<char>> {
    match (state, happened) {
        (
            StateView::Decrypting,
            EventView::UnableToDecrypt { session_id: Some(session), .. },
        ) => requested.insert(session),
        _ => requested,
    }
}

fn give_up() -> (r: (DecryptState, DecryptStep))
    ensures
        (r.0@, r.1@) == gives_up(),
{
    (DecryptState::Done, DecryptStep::Finish { outcome: Decryption::Failed, ask_for: None })
}

fn copy_row(row: &Option<MediaRow>) -> (r: Option<MediaRow>)
    ensures
        media::opt_row(r) == media::opt_row(*row),
{
    match row {
        Some(row) => Some(row.copy()),
        None => None,
    }
}

/// Decrypts an event, one step at a time. Where the crypto machine decrypts it,
/// verifications take note of it, and the keys of its files are stored, before its files
/// are replaced by plain URLs. Where the machine lacks the key, the session is claimed, and
/// the key asked for, unless it was before.
pub fn decrypt_step(
    tracker: &mut RoomTracker,
    event: &Json,
    state: DecryptState,
    happened: DecryptEvent,
) -> (r: (DecryptState, DecryptStep))
    ensures
        (r.0@, r.1@) == decrypt_next(old(tracker)@.requested, event@, state@, happened@),
        final(tracker)@ == (rooms::TrackerView {
            requested: requested_next(old(tracker)@.requested, state@, happened@),
            ..old(tracker)@
        }),
{
    match (state, happened) {
        (DecryptState::Start, DecryptEvent::Begin) => if is_encrypted(event) {
            (DecryptState::Decrypting, DecryptStep::Decrypt)
        } else {
            give_up()
        },
        (DecryptState::Decrypting, DecryptEvent::Decrypted { event_json, encryption_info }) => {
            match decrypted_event(event_json.as_str(), encryption_info) {
                Decryption::Decrypted { event, encryption_info } => (
                    DecryptState::Noticing { event, encryption_info },
                    DecryptStep::Notice,
                ),
                _ => give_up(),
            }
        },
        (DecryptState::Decrypting, DecryptEvent::UnableToDecrypt { reason, session_id }) => {
            let outcome = Decryption::UnableToDecrypt { reason, session_id };
            let ask_for = maybe_request_room_key(tracker, &outcome);
            (DecryptState::Done, DecryptStep::Finish { outcome, ask_for })
        },
        (DecryptState::Decrypting, DecryptEvent::Failed) => give_up(),
        (DecryptState::Noticing { event, encryption_info }, DecryptEvent::Noticed) => {
            let found = harvest(&event);
            let file = copy_row(&found.file);
            let thumbnail = copy_row(&found.thumbnail);
            (
                DecryptState::Storing { event, encryption_info, found },
                DecryptStep::Store { file, thumbnail },
            )
        },
        (
            DecryptState::Storing { event, encryption_info, found },
            DecryptEvent::Stored { file, thumbnail },
        ) => {
            let mut event = event;
            harvest_and_rewrite_decrypted(&mut event, &found, file, thumbnail);
            (
                DecryptState::Done,
                DecryptStep::Finish {
                    outcome: Decryption::Decrypted { event, encryption_info },
                    ask_for: None,
                },
            )
        },
        _ => (DecryptState::Done, DecryptStep::Stop),
    }
}

/// The sessions asked for, and the state, behind some events.
pub open spec fn decryption_after(
    requested: Set<Seq<char>>,
    event: JsonView,
    events: Seq<EventView>,
) -> (Set<Seq<char>>, StateView)
    decreases events.len(),
{
    if events.len() == 0 {
        (requested, StateView::Start)
    } else {
        let before = decryption_after(requested, event, events.drop_last());
        (
            requested_next(before.0, before.1, events.last()),
            decrypt_next(before.0, event, before.1, events.last()).0,
        )
    }
}

/// What is done on the event at place `i`.
pub open spec fn decryption_step(
    requested: Set<Seq<char>>,
    event: JsonView,
    events: Seq<EventView>,
    i: int,
) -> StepView {
    let before = decryption_after(requested, event, events.take(i));
    decrypt_next(before.0, event, before.1, events[i]).1
}

/// Whether the crypto machine handed out a decrypted event at place `i`.
pub open spec fn handed_out(
    events: Seq<EventView>,
    i: int,
    plain: JsonView,
    encryption_info: JsonView,
) -> bool {
    &&& 0 <= i < events.len()
    &&& events[i] matches EventView::Decrypted { event_json, encryption_info: info }
        && read_event(event_json, info) == (DecryptionView::Decrypted {
        event: plain,
        encryption_info,
    })
}

/// A decrypted event is shown only after verifications have taken note of it, and after the
/// keys of its files were stored or refused: in every run that ends in one, the machine was
/// asked for it and handed out some plain event; the keys that this event brings along, and
/// no others, were given out to be stored; and what is shown is the plain event with a URL
/// in place of each file whose key was stored.
pub proof fn shown_after_storing(
    requested: Set<Seq<char>>,
    event: JsonView,
    events: Seq<EventView>,
    i: int,
    shown: JsonView,
    encryption_info: JsonView,
    ask_for: Option<Seq<char>>,
)
    requires
        0 <= i < events.len(),
        decryption_step(requested, event, events, i) == (StepView::Finish {
            outcome: DecryptionView::Decrypted { event: shown, encryption_info },
            ask_for,
        }),
    ensures
        ask_for is None,
        i >= 3,
        decryption_step(requested, event, events, i - 3) == StepView::Decrypt,
        decryption_step(requested, event, events, i - 2) == StepView::Notice,
        events[i - 1] == EventView::Noticed,
        exists|plain: JsonView| #[trigger]
            handed_out(events, i - 2, plain, encryption_info) && decryption_step(
                requested,
                event,
                events,
                i - 1,
            ) == (StepView::Store {
                file: media::harvested_file(plain),
                thumbnail: media::harvested_thumbnail(plain),
            }) && (events[i] matches EventView::Stored { file, thumbnail } && shown
                == media::with_plain_urls(
                plain,
                media::stored_uri(media::harvested_file(plain), file),
                media::stored_uri(media::harvested_thumbnail(plain), thumbnail),
            )),
{
    let e3 = events.take(i);
    assert(decryption_after(requested, event, e3).1 is Storing);
    assert(e3.drop_last() =~= events.take(i - 1) && e3.last() == events[i - 1]);
    let e2 = events.take(i - 1);
    assert(decryption_after(requested, event, e2).1 is Noticing);
    assert(e2.drop_last() =~= events.take(i - 2) && e2.last() == events[i - 2]);
    let e1 = events.take(i - 2);
    assert(decryption_after(requested, event, e1).1 is Decrypting);
    assert(e1.drop_last() =~= events.take(i - 3) && e1.last() == events[i - 3]);
    match decryption_after(requested, event, e2).1 {
        StateView::Noticing { event: plain, encryption_info: info } => {
            assert(handed_out(events, i - 2, plain, encryption_info));
        },
        _ => {},
    }
}

/// An undecryptable event is shown only once its session is claimed: from then on it counts
/// as asked for, and the key is asked for exactly where it had not been before.
pub proof fn undecryptable_is_claimed(
    requested: Set<Seq<char>>,
    event: JsonView,
    state: StateView,
    happened: EventView,
    reason: Seq<char>,
    session: Seq<char>,
    ask_for: Option<Seq<char>>,
)
    requires
        decrypt_next(requested, event, state, happened).1 == (StepView::Finish {
            outcome: DecryptionView::UnableToDecrypt { reason, session_id: Some(session) },
            ask_for,
        }),
    ensures
        requested_next(requested, state, happened) == requested.insert(session),
        ask_for == (if requested.contains(session) {
            None
        } else {
            Some(session)
        }),
{
}

/// Ends a room key request. After a failure the key can be asked for again.
pub fn room_key_requested(tracker: &mut RoomTracker, session: &str, sent: bool)
    ensures
        final(tracker)@ == (if sent {
            old(tracker)@
        } else {
            old(tracker)@.without_requested(session@)
        }),
{
    if !sent {
        tracker.release_session(session);
    }
}

/// Events that are not encrypted reach the client as they are, whatever the crypto
/// machine says; so do encrypted ones on which it failed.
pub proof fn plain_events_are_kept(event: JsonView, d: DecryptionView)
    requires
        !encrypted(event) || d is Failed,
    ensures
        client_form(event, d) == event,
{
}

/// A page of history without encrypted events reaches the client as it is.
pub proof fn plain_history_is_kept(body: JsonView, chunk: Seq<DecryptionView>)
    requires
        forall|i: int|
            0 <= i < list_or_empty(body, "chunk"@).len() ==> !encrypted(
                #[trigger] list_or_empty(body, "chunk"@)[i],
            ),
    ensures
        messages_form(body, chunk) == body,
{
    lemma_plain_list(body, "chunk"@, chunk);
}

proof fn lemma_plain_list(j: JsonView, key: Seq<char>, outcomes: Seq<DecryptionView>)
    requires
        forall|i: int|
            0 <= i < list_or_empty(j, key).len() ==> !encrypted(
                #[trigger] list_or_empty(j, key)[i],
            ),
    ensures
        with_client_forms(j, key, outcomes) == j,
{
    match j.get_list(key) {
        Some(events) => {
            assert(client_forms(events, outcomes) =~= events) by {
                assert forall|i: int| 0 <= i < events.len() implies client_forms(
                    events,
                    outcomes,
                )[i] == events[i] by {
                    assert(!encrypted(list_or_empty(j, key)[i]));
                }
            }
            let m = j->Object_0;
            assert(m.insert(key, m[key]) =~= m);
        },
        None => {},
    }
}

/// The surroundings of an event, without encrypted events in them, reach the client as
/// they are.
pub proof fn plain_context_is_kept(
    body: JsonView,
    before: Seq<DecryptionView>,
    after: Seq<DecryptionView>,
    event: DecryptionView,
)
    requires
        forall|i: int|
            0 <= i < list_or_empty(body, "events_before"@).len() ==> !encrypted(
                #[trigger] list_or_empty(body, "events_before"@)[i],
            ),
        forall|i: int|
            0 <= i < list_or_empty(body, "events_after"@).len() ==> !encrypted(
                #[trigger] list_or_empty(body, "events_after"@)[i],
            ),
        body.get("event"@) matches Some(e) ==> !encrypted(e),
    ensures
        context_form(body, before, after, event) == body,
{
    lemma_plain_list(body, "events_before"@, before);
    lemma_plain_list(body, "events_after"@, after);
    match body.get("event"@) {
        Some(e) => {
            let m = body->Object_0;
            assert(m.insert("event"@, m["event"@]) =~= m);
        },
        None => {},
    }
}

/// A sync response without encrypted events in the timelines of its rooms reaches the
/// client as it is.
pub proof fn plain_sync_is_kept(
    body: JsonView,
    joined: Map<Seq<char>, Seq<DecryptionView>>,
    left: Map<Seq<char>, Seq<DecryptionView>>,
)
    requires
        forall|name: Seq<char>, room: Seq<char>, i: int|
            (name == "join"@ || name == "leave"@) && 0 <= i < #[trigger] sync_timeline(
                body,
                name,
                room,
            ).len() ==> !encrypted(#[trigger] sync_timeline(body, name, room)[i]),
    ensures
        sync_form(body, joined, left) == body,
{
    match body.get("rooms"@) {
        Some(rooms) => {
            lemma_plain_section(body, rooms, "join"@, joined);
            lemma_plain_section(body, rooms, "leave"@, left);
            let m = body->Object_0;
            assert(m.insert("rooms"@, m["rooms"@]) =~= m);
        },
        None => {},
    }
}

/// The timeline of a room in a sync response.
pub open spec fn sync_timeline(body: JsonView, section: Seq<char>, room: Seq<char>) -> Seq<
    JsonView,
> {
    match body.get2("rooms"@, section) {
        Some(rooms) => match rooms.get(room) {
            Some(room) => room_events(room, "timeline"@),
            None => Seq::empty(),
        },
        None => Seq::empty(),
    }
}

proof fn lemma_plain_section(
    body: JsonView,
    rooms: JsonView,
    name: Seq<char>,
    outcomes: Map<Seq<char>, Seq<DecryptionView>>,
)
    requires
        body.get("rooms"@) == Some(rooms),
        forall|room: Seq<char>, i: int|
            0 <= i < #[trigger] sync_timeline(body, name, room).len() ==> !encrypted(
                #[trigger] sync_timeline(body, name, room)[i],
            ),
    ensures
        with_section_form(rooms, name, outcomes) == rooms,
{
    match rooms.get(name) {
        Some(JsonView::Object(section)) => {
            assert forall|k: Seq<char>| section.contains_key(k) implies section_member(
                k,
                section[k],
                outcomes,
            ) == section[k] by {
                let room = section[k];
                if ids::room_id(k) && outcomes.contains_key(k) {
                    match room.get("timeline"@) {
                        Some(timeline) => {
                            match timeline.get_list("events"@) {
                                Some(events) => {
                                    assert(sync_timeline(body, name, k) == events);
                                    assert(client_forms(events, outcomes[k]) =~= events) by {
                                        assert forall|i: int|
                                            0 <= i < events.len() implies client_forms(
                                            events,
                                            outcomes[k],
                                        )[i] == events[i] by {
                                            assert(!encrypted(sync_timeline(body, name, k)[i]));
                                        }
                                    }
                                    let t = timeline->Object_0;
                                    assert(t.insert("events"@, t["events"@]) =~= t);
                                },
                                None => {},
                            }
                            let r = room->Object_0;
                            assert(r.insert("timeline"@, r["timeline"@]) =~= r);
                        },
                        None => {},
                    }
                }
            }
            assert(section_form(section, outcomes) =~= section);
            let m = rooms->Object_0;
            assert(m.insert(name, m[name]) =~= m);
        },
        _ => {},
    }
}

/// What a decrypted event says of itself wins over its envelope, and what only the
/// envelope says (such as the transaction that a client waits for) is kept.
pub proof fn decrypted_event_wins(
    envelope: JsonView,
    event: JsonView,
    info: JsonView,
    key: Seq<char>,
)
    requires
        event is Object,
        key != "ement_e2ee"@,
        envelope.get("unsigned"@) matches Some(JsonView::Object(_)),
        event.get("unsigned"@) matches Some(u) ==> u is Object,
    ensures
        decrypted_form(envelope, event, info).get2("unsigned"@, key) == (if event.get2(
            "unsigned"@,
            key,
        ) is Some {
            event.get2("unsigned"@, key)
        } else {
            envelope.get2("unsigned"@, key)
        }),
        decrypted_form(envelope, event, info).get2("unsigned"@, "ement_e2ee"@) == Some(
            decrypted_note(info),
        ),
{
}

/// Outside its unsigned part, a decrypted event reaches the client as the crypto machine
/// handed it out.
pub proof fn decrypted_event_is_kept(
    envelope: JsonView,
    event: JsonView,
    info: JsonView,
    key: Seq<char>,
)
    requires
        key != "unsigned"@,
    ensures
        decrypted_form(envelope, event, info).get(key) == event.get(key),
{
}

/// A file reaches the client by its plain URL: where the key of a decrypted event's file was
/// stored, the outcome of the decryption, in the place of the encrypted event, has the
/// file's URL in its content, and no `file`, whatever became of a thumbnail.
pub proof fn file_is_shown_by_url(
    envelope: JsonView,
    event: JsonView,
    info: JsonView,
    file: (Seq<char>, media::EntryView),
    thumbnail: Option<Seq<char>>,
)
    requires
        encrypted(envelope),
        event is Object,
        media::file_of_event(event) == Some(file),
    ensures
        ({
            let (url, _) = file;
            let shown = client_form(
                envelope,
                DecryptionView::Decrypted {
                    event: media::with_plain_urls(event, Some(url), thumbnail),
                    encryption_info: info,
                },
            );
            &&& shown.get2_text("content"@, "url"@) == Some(url)
            &&& shown.get2("content"@, "file"@) is None
        }),
{
    reveal_strlit("content");
    reveal_strlit("unsigned");
    reveal_strlit("url");
    reveal_strlit("file");
    reveal_strlit("info");
    assert("content"@[0] == 'c' && "unsigned"@[0] == 'u');
    assert("url"@[0] == 'u' && "file"@[0] == 'f' && "info"@[0] == 'i');
    let content = event.get("content"@)->0;
    assert(content is Object);
}

/// The message that stands in for an undecryptable event keeps its ID, its sender, its
/// time and its room.
pub proof fn placeholder_keeps_identity(
    original: JsonView,
    reason: Seq<char>,
    session: Option<Seq<char>>,
)
    ensures
        ({
            let p = utd_form(original, reason, session);
            &&& p.get("event_id"@) == original.get("event_id"@)
            &&& p.get("sender"@) == original.get("sender"@)
            &&& p.get("origin_server_ts"@) == original.get("origin_server_ts"@)
            &&& p.get("room_id"@) == original.get("room_id"@)
            &&& p.get_text("type"@) == Some("m.room.message"@)
            &&& p.get2_text("content"@, "body"@) == Some(utd_body(reason))
            &&& !encrypted(p)
        }),
{
    reveal_strlit("event_id");
    reveal_strlit("sender");
    reveal_strlit("origin_server_ts");
    reveal_strlit("room_id");
    reveal_strlit("unsigned");
    reveal_strlit("type");
    reveal_strlit("content");
    reveal_strlit("msgtype");
    reveal_strlit("body");
    reveal_strlit("m.room.message");
    reveal_strlit("m.room.encrypted");
    assert("event_id"@[0] == 'e' && "unsigned"@[0] == 'u');
    assert("room_id"@[0] == 'r' && "content"@[0] == 'c');
    assert("event_id"@.len() == 8 && "unsigned"@.len() == 8 && "sender"@.len() == 6
        && "origin_server_ts"@.len() == 16 && "room_id"@.len() == 7 && "type"@.len() == 4
        && "content"@.len() == 7);
    assert("msgtype"@.len() == 7 && "body"@.len() == 4);
    assert("m.room.message"@.len() == 14 && "m.room.encrypted"@.len() == 16);
}

/// What was unsigned in an undecryptable event (such as the transaction that a client waits
/// for) is kept in the message that stands in for it, which says of itself that it is one.
pub proof fn placeholder_keeps_unsigned(
    original: JsonView,
    reason: Seq<char>,
    session: Option<Seq<char>>,
    key: Seq<char>,
)
    requires
        key != "ement_e2ee"@,
    ensures
        utd_form(original, reason, session).get2("unsigned"@, key) == original.get2(
            "unsigned"@,
            key,
        ),
        utd_form(original, reason, session).get2("unsigned"@, "ement_e2ee"@) == Some(
            utd_note(session),
        ),
{
}

/// Decrypting an answer a second time changes nothing: what the client got holds no
/// encrypted event that could be decrypted, unless a decrypted event was encrypted again.
pub proof fn client_form_is_final(event: JsonView, d: DecryptionView, again: DecryptionView)
    requires
        d matches DecryptionView::Decrypted { event: inner, .. } ==> !encrypted(inner),
        encrypted(event) ==> !(d is Failed),
    ensures
        client_form(client_form(event, d), again) == client_form(event, d),
{
    reveal_strlit("type");
    reveal_strlit("unsigned");
    assert("type"@.len() == 4 && "unsigned"@.len() == 8);
    if encrypted(event) {
        match d {
            DecryptionView::UnableToDecrypt { reason, session_id } => {
                placeholder_keeps_identity(event, reason, session_id);
            },
            DecryptionView::Decrypted { event: inner, encryption_info } => {
                decrypted_event_is_kept(event, inner, encryption_info, "type"@);
            },
            DecryptionView::Failed => {},
        }
    }
}

} // verus!
