//! What the proxy knows of rooms: whether they are encrypted, who is in them, and
//! who may read their history.

use crate::failure::Failure;
use crate::ids;
use crate::ids::is_user_id;
use crate::json;
use crate::json::{Json, JsonView};
use crate::json_text;
use crate::json_text::write_json;
use crate::percent;
use crate::percent::enc;
use crate::string_map;
use crate::string_map::StringMap;
use crate::text;
use crate::text::{copy_texts, same_text};
use crate::wire;
use crate::wire::{is_success, reply_failure, HttpRequest, Reply};
use vstd::prelude::*;
use vstd::string::*;

verus! {

/// How long a list of members is good for, in nanoseconds: ten minutes.
pub const MEMBER_CACHE_TTL: u64 = 600_000_000_000;

/// The encryption settings of a room.
pub struct RoomSettings {
    pub algorithm: String,
    pub only_allow_trusted_devices: bool,
    /// How long a session is used, in milliseconds.
    pub session_rotation_period: Option<u64>,
    /// For how many messages a session is used.
    pub session_rotation_period_messages: Option<usize>,
}

/// What settings say.
pub struct SettingsView {
    pub algorithm: Seq<char>,
    pub only_allow_trusted_devices: bool,
    pub session_rotation_period: Option<u64>,
    pub session_rotation_period_messages: Option<usize>,
}

impl RoomSettings {
    pub open spec fn view(&self) -> SettingsView {
        SettingsView {
            algorithm: self.algorithm@,
            only_allow_trusted_devices: self.only_allow_trusted_devices,
            session_rotation_period: self.session_rotation_period,
            session_rotation_period_messages: self.session_rotation_period_messages,
        }
    }
}

/// What some settings say, one after the other.
pub open spec fn settings_views(v: Seq<RoomSettings>) -> Seq<SettingsView> {
    v.map_values(|s: RoomSettings| s@)
}

/// The settings that the content of an encryption event gives. Only the algorithm
/// is required.
pub open spec fn settings_of(content: JsonView) -> Option<SettingsView> {
    match content.get_text("algorithm"@) {
        Some(algorithm) => Some(
            SettingsView {
                algorithm,
                only_allow_trusted_devices: false,
                session_rotation_period: content.get_natural("rotation_period_ms"@),
                session_rotation_period_messages: match content.get_natural(
                    "rotation_period_msgs"@,
                ) {
                    Some(n) => Some(n as usize),
                    None => None,
                },
            },
        ),
        None => None,
    }
}

/// Reads the content of an encryption event.
pub fn room_settings_from_content(content: &Json) -> (r: Option<RoomSettings>)
    ensures
        match r {
            Some(s) => settings_of(content@) == Some(s@),
            None => settings_of(content@) is None,
        },
{
    match content.get_text("algorithm") {
        Some(algorithm) => Some(
            RoomSettings {
                algorithm,
                only_allow_trusted_devices: false,
                session_rotation_period: content.get_natural("rotation_period_ms"),
                session_rotation_period_messages: match content.get_natural(
                    "rotation_period_msgs",
                ) {
                    Some(n) => Some(
                        #[verifier::truncate]
                        (n as usize),
                    ),
                    None => None,
                },
            },
        ),
        None => None,
    }
}

/// A list of members and when it was fetched.
pub struct MemberCache {
    pub at: u64,
    pub members: Vec<String>,
}

/// What a list of members says.
pub struct MembersView {
    pub at: u64,
    pub members: Seq<Seq<char>>,
}

impl MemberCache {
    pub open spec fn view(&self) -> MembersView {
        MembersView { at: self.at, members: text::texts(self.members@) }
    }
}

/// Per-account room metadata that the proxy tracks from the traffic it sees.
pub struct RoomTracker {
    history_visibility: StringMap<String>,
    members: StringMap<MemberCache>,
    /// Rooms that are known to have no encryption state.
    unencrypted: StringMap<()>,
    /// Sessions for which a room key was already asked.
    requested_sessions: StringMap<()>,
}

/// What a tracker knows.
#[verifier::ext_equal]
pub struct TrackerView {
    /// The history visibility of rooms.
    pub visibility: Map<Seq<char>, Seq<char>>,
    /// The members of rooms.
    pub members: Map<Seq<char>, MembersView>,
    /// The rooms that are known to be unencrypted.
    pub unencrypted: Set<Seq<char>>,
    /// The sessions for which a room key was asked.
    pub requested: Set<Seq<char>>,
}

impl TrackerView {
    /// A tracker that knows nothing.
    pub open spec fn empty() -> TrackerView {
        TrackerView {
            visibility: Map::empty(),
            members: Map::empty(),
            unencrypted: Set::empty(),
            requested: Set::empty(),
        }
    }

    /// The tracker with the visibility of a room set.
    pub open spec fn with_visibility(self, room: Seq<char>, v: Seq<char>) -> TrackerView {
        TrackerView { visibility: self.visibility.insert(room, v), ..self }
    }

    /// The tracker with the members of a room set.
    pub open spec fn with_members(
        self,
        room: Seq<char>,
        at: u64,
        members: Seq<Seq<char>>,
    ) -> TrackerView {
        TrackerView { members: self.members.insert(room, MembersView { at, members }), ..self }
    }

    /// The tracker without the members of a room.
    pub open spec fn without_members(self, room: Seq<char>) -> TrackerView {
        TrackerView { members: self.members.remove(room), ..self }
    }

    /// The tracker with a room known to be unencrypted.
    pub open spec fn with_unencrypted(self, room: Seq<char>) -> TrackerView {
        TrackerView { unencrypted: self.unencrypted.insert(room), ..self }
    }

    /// The tracker with a room no longer known to be unencrypted.
    pub open spec fn without_unencrypted(self, room: Seq<char>) -> TrackerView {
        TrackerView { unencrypted: self.unencrypted.remove(room), ..self }
    }

    /// The tracker with a session claimed.
    pub open spec fn with_requested(self, session: Seq<char>) -> TrackerView {
        TrackerView { requested: self.requested.insert(session), ..self }
    }

    /// The tracker with a session released.
    pub open spec fn without_requested(self, session: Seq<char>) -> TrackerView {
        TrackerView { requested: self.requested.remove(session), ..self }
    }

    /// The visibility of a room, if it is known.
    pub open spec fn visibility_of(self, room: Seq<char>) -> Option<Seq<char>> {
        if self.visibility.contains_key(room) {
            Some(self.visibility[room])
        } else {
            None
        }
    }

    /// The members of a room, if a list is there that is less than ten minutes old.
    pub open spec fn members_of(self, room: Seq<char>, now: u64) -> Option<Seq<Seq<char>>> {
        if self.members.contains_key(room) && now - self.members[room].at < MEMBER_CACHE_TTL {
            Some(self.members[room].members)
        } else {
            None
        }
    }
}

/// The views of an optional list of texts.
pub open spec fn opt_texts(v: Option<Vec<String>>) -> Option<Seq<Seq<char>>> {
    match v {
        Some(t) => Some(text::texts(t@)),
        None => None,
    }
}

impl RoomTracker {
    pub closed spec fn view(&self) -> TrackerView {
        TrackerView {
            visibility: self.history_visibility@.map_values(|s: String| s@),
            members: self.members@.map_values(|m: MemberCache| m@),
            unencrypted: self.unencrypted@.dom(),
            requested: self.requested_sessions@.dom(),
        }
    }

    /// A tracker that knows nothing.
    pub fn new() -> (r: RoomTracker)
        ensures
            r@ == TrackerView::empty(),
    {
        let r = RoomTracker {
            history_visibility: StringMap::new(),
            members: StringMap::new(),
            unencrypted: StringMap::new(),
            requested_sessions: StringMap::new(),
        };
        assert(r@ =~= TrackerView::empty());
        r
    }

    /// The history visibility of a room, if it is known.
    pub fn history_visibility(&self, room: &str) -> (r: Option<String>)
        ensures
            text::opt_text(r) == self@.visibility_of(room@),
    {
        match self.history_visibility.get(room) {
            Some(v) => Some(v.clone()),
            None => None,
        }
    }

    /// Sets the history visibility of a room.
    pub fn set_history_visibility(&mut self, room: &str, visibility: &str)
        ensures
            final(self)@ == old(self)@.with_visibility(room@, visibility@),
    {
        self.history_visibility.insert(room.to_owned(), visibility.to_owned());
        assert(self@.visibility =~= old(self)@.visibility.insert(room@, visibility@));
    }

    /// The members of a room at the time `now`, if the list is fresh.
    pub fn cached_members(&self, room: &str, now: u64) -> (r: Option<Vec<String>>)
        ensures
            opt_texts(r) == self@.members_of(room@, now),
    {
        match self.members.get(room) {
            Some(cache) => if now < cache.at || now - cache.at < MEMBER_CACHE_TTL {
                Some(copy_texts(&cache.members))
            } else {
                None
            },
            None => None,
        }
    }

    /// Keeps the members of a room, as fetched at the time `now`.
    pub fn cache_members(&mut self, room: &str, members: Vec<String>, now: u64)
        ensures
            final(self)@ == old(self)@.with_members(room@, now, text::texts(members@)),
    {
        self.members.insert(room.to_owned(), MemberCache { at: now, members });
        assert(self@.members =~= old(self)@.members.insert(
            room@,
            MembersView { at: now, members: text::texts(members@) },
        ));
    }

    /// Forgets the members of a room.
    pub fn invalidate_members(&mut self, room: &str)
        ensures
            final(self)@ == old(self)@.without_members(room@),
    {
        self.members.remove(room);
        assert(self@.members =~= old(self)@.members.remove(room@));
    }

    /// Whether a room is known to be unencrypted.
    pub fn is_known_unencrypted(&self, room: &str) -> (r: bool)
        ensures
            r == self@.unencrypted.contains(room@),
    {
        self.unencrypted.get(room).is_some()
    }

    /// Notes that a room is unencrypted.
    pub fn mark_unencrypted(&mut self, room: &str)
        ensures
            final(self)@ == old(self)@.with_unencrypted(room@),
    {
        self.unencrypted.insert(room.to_owned(), ());
        assert(self@.unencrypted =~= old(self)@.unencrypted.insert(room@));
    }

    /// Notes that a room is encrypted.
    pub fn mark_encrypted(&mut self, room: &str)
        ensures
            final(self)@ == old(self)@.without_unencrypted(room@),
    {
        self.unencrypted.remove(room);
        assert(self@.unencrypted =~= old(self)@.unencrypted.remove(room@));
    }

    /// Claims a session for a room key request, and says whether nobody had before.
    pub fn claim_session(&mut self, session: &str) -> (r: bool)
        ensures
            r == !old(self)@.requested.contains(session@),
            final(self)@ == old(self)@.with_requested(session@),
    {
        let fresh = self.requested_sessions.get(session).is_none();
        self.requested_sessions.insert(session.to_owned(), ());
        assert(self@.requested =~= old(self)@.requested.insert(session@));
        fresh
    }

    /// Releases a session, so that its room key can be asked for again.
    pub fn release_session(&mut self, session: &str)
        ensures
            final(self)@ == old(self)@.without_requested(session@),
    {
        self.requested_sessions.remove(session);
        assert(self@.requested =~= old(self)@.requested.remove(session@));
    }
}

/// The path of a piece of a room's state.
pub open spec fn room_path(room: Seq<char>, piece: Seq<char>) -> Seq<char> {
    "/_matrix/client/v3/rooms/"@ + percent::encoded_text(room) + piece
}

/// The path of a piece of a room's state.
fn path_in_room(room: &str, piece: &str) -> (r: String)
    ensures
        r@ == room_path(room@, piece@),
{
    "/_matrix/client/v3/rooms/".to_owned().concat(enc(room).as_str()).concat(piece)
}

/// How to go on finding out whether a room is encrypted.
pub enum EncryptionCheck {
    /// It is known.
    Answer(bool),
    /// The stored settings of the room have to be looked up.
    LookUpSettings,
    /// The homeserver has to be asked.
    Ask(HttpRequest),
    /// The room is encrypted, with settings that are to be stored.
    Encrypted(RoomSettings),
}

/// Whether a room is encrypted: first of all, whether it is known to be
/// unencrypted.
pub fn is_room_encrypted(tracker: &RoomTracker, room: &str) -> (r: EncryptionCheck)
    ensures
        if tracker@.unencrypted.contains(room@) {
            r == EncryptionCheck::Answer(false)
        } else {
            r is LookUpSettings
        },
{
    if tracker.is_known_unencrypted(room) {
        EncryptionCheck::Answer(false)
    } else {
        EncryptionCheck::LookUpSettings
    }
}

/// Goes on once it is known whether settings of the room are stored. A room with
/// settings is encrypted; of others the homeserver is asked.
pub fn settings_looked_up(room: &str, found: Result<bool, Failure>) -> (r: Result<
    EncryptionCheck,
    Failure,
>)
    ensures
        match found {
            Err(f) => r matches Err(e) && e@ == f@,
            Ok(true) => r matches Ok(EncryptionCheck::Answer(b)) && b,
            Ok(false) => r matches Ok(EncryptionCheck::Ask(req)) && req@ == wire::get_request(
                room_path(room@, "/state/m.room.encryption"@),
            ),
        },
{
    match found {
        Err(f) => Err(f),
        Ok(true) => Ok(EncryptionCheck::Answer(true)),
        Ok(false) => Ok(
            EncryptionCheck::Ask(HttpRequest::get(path_in_room(room, "/state/m.room.encryption"))),
        ),
    }
}

/// What the homeserver's reply says of a room's encryption.
pub enum EncryptionStateView {
    Unencrypted,
    Encrypted(SettingsView),
    Unknown(Seq<char>),
}

/// What the homeserver's reply says of a room's encryption: without the state event
/// the room is unencrypted, with it the room is encrypted, and any other reply says
/// nothing.
pub open spec fn encryption_state(status: u16, body: JsonView) -> EncryptionStateView {
    if status == 404 {
        EncryptionStateView::Unencrypted
    } else if !wire::success(status) {
        EncryptionStateView::Unknown(
            wire::reply_message(
                "failed to fetch m.room.encryption state: "@,
                status,
                " "@,
                body,
            ),
        )
    } else {
        match settings_of(body) {
            Some(settings) => EncryptionStateView::Encrypted(settings),
            None => EncryptionStateView::Unknown(
                "malformed m.room.encryption content: "@ + json_text::json_text(body),
            ),
        }
    }
}

/// Goes on with the homeserver's reply.
pub fn encryption_fetched(
    tracker: &mut RoomTracker,
    room: &str,
    reply: Result<Reply, Failure>,
) -> (r: Result<EncryptionCheck, Failure>)
    ensures
        match reply {
            Err(f) => (r matches Err(e) && e@ == f@) && final(tracker)@ == old(tracker)@,
            Ok(reply) => match encryption_state(reply.status, reply.body@) {
                EncryptionStateView::Unencrypted => r == Ok::<EncryptionCheck, Failure>(
                    EncryptionCheck::Answer(false),
                ) && final(tracker)@ == old(tracker)@.with_unencrypted(room@),
                EncryptionStateView::Encrypted(settings) => (r matches Ok(
                    EncryptionCheck::Encrypted(s),
                ) && s@ == settings) && final(tracker)@ == old(tracker)@.without_unencrypted(
                    room@,
                ),
                EncryptionStateView::Unknown(message) => (r matches Err(e) && e@ == seq![message])
                    && final(tracker)@ == old(tracker)@,
            },
        },
{
    let reply = match reply {
        Err(f) => {
            return Err(f);
        },
        Ok(reply) => reply,
    };
    if reply.status == 404 {
        tracker.mark_unencrypted(room);
        return Ok(EncryptionCheck::Answer(false));
    }
    if !is_success(reply.status) {
        return Err(reply_failure("failed to fetch m.room.encryption state: ", &reply, " "));
    }
    match room_settings_from_content(&reply.body) {
        Some(settings) => {
            tracker.mark_encrypted(room);
            Ok(EncryptionCheck::Encrypted(settings))
        },
        None => {
            let message = "malformed m.room.encryption content: ".to_owned().concat(
                write_json(&reply.body).as_str(),
            );
            Err(Failure::new(message.as_str()))
        },
    }
}

/// The user IDs among the joined members of a room that a reply lists, in
/// dictionary order.
pub open spec fn members_in(body: JsonView) -> Seq<Seq<char>> {
    match body.get("joined"@) {
        Some(JsonView::Object(joined)) => string_map::in_order(joined.dom()).filter(
            |k: Seq<char>| ids::user_id(k),
        ),
        _ => Seq::empty(),
    }
}

/// What a reply says of the members of a room.
pub open spec fn members_result(room: Seq<char>, status: u16, body: JsonView) -> Result<
    Seq<Seq<char>>,
    Seq<char>,
> {
    if !wire::success(status) {
        Err(wire::reply_message("joined_members failed: "@, status, " "@, body))
    } else if members_in(body).len() == 0 {
        Err("joined_members returned no members for "@ + room)
    } else {
        Ok(members_in(body))
    }
}

fn list_members(body: &Json) -> (r: Vec<String>)
    ensures
        text::texts(r@) == members_in(body@),
{
    let mut out: Vec<String> = Vec::new();
    match body.get("joined") {
        Some(Json::Object(joined)) => {
            proof {
                json::lemma_object_view(*joined);
            }
            let n: usize = joined.len();
            let mut i: usize = 0;
            let ghost keys = joined.keys();
            let ghost pred = |k: Seq<char>| ids::user_id(k);
            reveal(Seq::filter);
            assert(keys.take(0) =~= Seq::<Seq<char>>::empty());
            while i < n
                invariant
                    i <= n == keys.len(),
                    keys == joined.keys(),
                    pred == (|k: Seq<char>| ids::user_id(k)),
                    text::texts(out@) =~= keys.take(i as int).filter(pred),
                decreases n - i,
            {
                reveal(Seq::filter);
                let (k, _) = joined.entry_at(i);
                assert(keys.take(i + 1).drop_last() =~= keys.take(i as int));
                assert(keys.take(i + 1).last() == k@);
                if is_user_id(k.as_str()) {
                    let ghost before = out@;
                    out.push(k.clone());
                    assert(text::texts(out@) =~= text::texts(before).push(k@));
                }
                i += 1;
            }
            assert(keys.take(n as int) =~= keys);
        },
        _ => {
            assert(text::texts(out@) =~= Seq::empty());
        },
    }
    out
}

/// How to find the members of a room: a fresh list, or a request.
pub enum MembersCheck {
    Members(Vec<String>),
    Ask(HttpRequest),
}

/// The joined members of a room at the time `now`: from the cache, or else from the
/// homeserver, as a sync does not list all of them.
pub fn joined_members(tracker: &RoomTracker, room: &str, now: u64) -> (r: MembersCheck)
    ensures
        match tracker@.members_of(room@, now) {
            Some(members) => r matches MembersCheck::Members(m) && text::texts(m@) == members,
            None => r matches MembersCheck::Ask(req) && req@ == wire::get_request(
                room_path(room@, "/joined_members"@),
            ),
        },
{
    match tracker.cached_members(room, now) {
        Some(members) => MembersCheck::Members(members),
        None => MembersCheck::Ask(HttpRequest::get(path_in_room(room, "/joined_members"))),
    }
}

/// Goes on with the homeserver's reply. A list that was found is cached.
pub fn members_fetched(
    tracker: &mut RoomTracker,
    room: &str,
    now: u64,
    reply: Result<Reply, Failure>,
) -> (r: Result<Vec<String>, Failure>)
    ensures
        match reply {
            Err(f) => (r matches Err(e) && e@ == f@) && final(tracker)@ == old(tracker)@,
            Ok(reply) => match members_result(room@, reply.status, reply.body@) {
                Ok(members) => (r matches Ok(m) && text::texts(m@) == members) && final(tracker)@
                    == old(tracker)@.with_members(room@, now, members),
                Err(message) => (r matches Err(e) && e@ == seq![message]) && final(tracker)@ == old(
                    tracker,
                )@,
            },
        },
{
    let reply = match reply {
        Err(f) => {
            return Err(f);
        },
        Ok(reply) => reply,
    };
    if !is_success(reply.status) {
        return Err(reply_failure("joined_members failed: ", &reply, " "));
    }
    let members = list_members(&reply.body);
    assert(text::texts(members@).len() == members@.len());
    if members.len() == 0 {
        let message = "joined_members returned no members for ".to_owned().concat(room);
        return Err(Failure::new(message.as_str()));
    }
    tracker.cache_members(room, copy_texts(&members), now);
    Ok(members)
}

/// How to find the history visibility of a room.
pub enum VisibilityCheck {
    Known(String),
    Ask(HttpRequest),
}

/// The history visibility of a room: as tracked, or else from the homeserver.
pub fn history_visibility_or_fetch(tracker: &RoomTracker, room: &str) -> (r: VisibilityCheck)
    ensures
        match tracker@.visibility_of(room@) {
            Some(v) => r matches VisibilityCheck::Known(k) && k@ == v,
            None => r matches VisibilityCheck::Ask(req) && req@ == wire::get_request(
                room_path(room@, "/state/m.room.history_visibility"@),
            ),
        },
{
    match tracker.history_visibility(room) {
        Some(v) => VisibilityCheck::Known(v),
        None => VisibilityCheck::Ask(
            HttpRequest::get(path_in_room(room, "/state/m.room.history_visibility")),
        ),
    }
}

/// The history visibility that a reply gives: `shared` where it gives none.
pub open spec fn visibility_in(reply: Result<Reply, Failure>) -> Seq<char> {
    match reply {
        Ok(reply) => if wire::success(reply.status) {
            match reply.body@.get_text("history_visibility"@) {
                Some(v) => v,
                None => "shared"@,
            }
        } else {
            "shared"@
        },
        Err(_) => "shared"@,
    }
}

/// Goes on with the homeserver's reply, whatever it is: the visibility is tracked
/// from then on.
pub fn visibility_fetched(
    tracker: &mut RoomTracker,
    room: &str,
    reply: Result<Reply, Failure>,
) -> (r: String)
    ensures
        r@ == visibility_in(reply),
        final(tracker)@ == old(tracker)@.with_visibility(room@, r@),
{
    let visibility = match reply {
        Ok(reply) => if is_success(reply.status) {
            match reply.body.get_text("history_visibility") {
                Some(v) => v,
                None => "shared".to_owned(),
            }
        } else {
            "shared".to_owned()
        },
        Err(_) => "shared".to_owned(),
    };
    tracker.set_history_visibility(room, visibility.as_str());
    visibility
}

/// The type of a state event, which carries a state key; other events have none.
pub open spec fn state_type(event: JsonView) -> Option<Seq<char>> {
    if event.get_text("state_key"@) is Some {
        event.get_text("type"@)
    } else {
        None
    }
}

/// The settings that a state event gives a room.
pub open spec fn settings_in(event: JsonView) -> Option<SettingsView> {
    if state_type(event) == Some("m.room.encryption"@) {
        match event.get("content"@) {
            Some(content) => settings_of(content),
            None => None,
        }
    } else {
        None
    }
}

/// What a tracker knows of a room behind a state event.
pub open spec fn scanned_event(t: TrackerView, room: Seq<char>, event: JsonView) -> TrackerView {
    let kind = state_type(event);
    if settings_in(event) is Some {
        t.without_unencrypted(room)
    } else if kind == Some("m.room.history_visibility"@) {
        match event.get2_text("content"@, "history_visibility"@) {
            Some(v) => t.with_visibility(room, v),
            None => t,
        }
    } else if kind == Some("m.room.member"@) {
        t.without_members(room)
    } else {
        t
    }
}

/// What a tracker knows of a room behind some events.
pub open spec fn scanned(t: TrackerView, room: Seq<char>, events: Seq<JsonView>) -> TrackerView
    decreases events.len(),
{
    if events.len() == 0 {
        t
    } else {
        scanned_event(scanned(t, room, events.drop_last()), room, events.last())
    }
}

/// The settings that some events give a room, in order.
pub open spec fn scanned_settings(events: Seq<JsonView>) -> Seq<SettingsView>
    decreases events.len(),
{
    if events.len() == 0 {
        Seq::empty()
    } else {
        match settings_in(events.last()) {
            Some(s) => scanned_settings(events.drop_last()).push(s),
            None => scanned_settings(events.drop_last()),
        }
    }
}

fn scan_event(tracker: &mut RoomTracker, room: &str, event: &Json) -> (r: Option<RoomSettings>)
    ensures
        final(tracker)@ == scanned_event(old(tracker)@, room@, event@),
        match r {
            Some(s) => settings_in(event@) == Some(s@),
            None => settings_in(event@) is None,
        },
{
    proof {
        reveal_strlit("m.room.encryption");
        reveal_strlit("m.room.history_visibility");
        reveal_strlit("m.room.member");
        assert("m.room.encryption"@.len() != "m.room.history_visibility"@.len());
        assert("m.room.encryption"@.len() != "m.room.member"@.len());
        assert("m.room.history_visibility"@.len() != "m.room.member"@.len());
    }
    if event.get_text("state_key").is_none() {
        return None;
    }
    let kind = match event.get_text("type") {
        Some(kind) => kind,
        None => {
            return None;
        },
    };
    if same_text(kind.as_str(), "m.room.encryption") {
        let content = match event.get("content") {
            Some(content) => content,
            None => {
                return None;
            },
        };
        match room_settings_from_content(content) {
            Some(settings) => {
                tracker.mark_encrypted(room);
                Some(settings)
            },
            None => None,
        }
    } else if same_text(kind.as_str(), "m.room.history_visibility") {
        match event.get2_text("content", "history_visibility") {
            Some(v) => {
                tracker.set_history_visibility(room, v.as_str());
            },
            None => {},
        }
        None
    } else if same_text(kind.as_str(), "m.room.member") {
        tracker.invalidate_members(room);
        None
    } else {
        None
    }
}

/// Looks through state events for what the proxy tracks of a room, and hands out the
/// encryption settings to store, in order.
pub fn scan_state_events(tracker: &mut RoomTracker, room: &str, events: &Vec<Json>) -> (r: Vec<
    RoomSettings,
>)
    ensures
        final(tracker)@ == scanned(old(tracker)@, room@, json::array_view(events@)),
        settings_views(r@) == scanned_settings(json::array_view(events@)),
{
    let mut out: Vec<RoomSettings> = Vec::new();
    let ghost all = json::array_view(events@);
    let ghost start = tracker@;
    let mut i: usize = 0;
    proof {
        json::lemma_array_view(events@);
        assert(all.take(0) =~= Seq::<JsonView>::empty());
        assert(settings_views(out@) =~= Seq::empty());
    }
    while i < events.len()
        invariant
            i <= events@.len(),
            all == json::array_view(events@),
            all.len() == events@.len(),
            forall|k: int| 0 <= k < events@.len() ==> #[trigger] all[k] == events@[k]@,
            tracker@ == scanned(start, room@, all.take(i as int)),
            settings_views(out@) == scanned_settings(all.take(i as int)),
        decreases events@.len() - i,
    {
        proof {
            assert(all.take(i + 1).drop_last() =~= all.take(i as int));
            assert(all.take(i + 1).last() == events@[i as int]@);
        }
        match scan_event(tracker, room, &events[i]) {
            Some(settings) => {
                let ghost before = out@;
                out.push(settings);
                assert(settings_views(out@) =~= settings_views(before).push(settings@));
            },
            None => {},
        }
        i += 1;
    }
    assert(all.take(i as int) =~= all);
    out
}

/// Once an encryption event of a room has been seen, the room is no longer taken for
/// unencrypted.
pub proof fn encryption_event_ends_negative_cache(
    t: TrackerView,
    room: Seq<char>,
    events: Seq<JsonView>,
    i: int,
)
    requires
        0 <= i < events.len(),
        settings_in(events[i]) is Some,
    ensures
        !scanned(t, room, events).unencrypted.contains(room),
    decreases events.len(),
{
    if i < events.len() - 1 {
        encryption_event_ends_negative_cache(t, room, events.drop_last(), i);
    }
}

/// Scanning the events of one room leaves what is known of other rooms alone.
pub proof fn scan_leaves_other_rooms(
    t: TrackerView,
    room: Seq<char>,
    other: Seq<char>,
    events: Seq<JsonView>,
    now: u64,
)
    requires
        room != other,
    ensures
        scanned(t, room, events).unencrypted.contains(other) == t.unencrypted.contains(other),
        scanned(t, room, events).visibility_of(other) == t.visibility_of(other),
        scanned(t, room, events).members_of(other, now) == t.members_of(other, now),
        scanned(t, room, events).requested == t.requested,
    decreases events.len(),
{
    if events.len() > 0 {
        scan_leaves_other_rooms(t, room, other, events.drop_last(), now);
    }
}

/// Scanning never makes a room known to be unencrypted: only the homeserver's word
/// does.
pub proof fn scan_adds_no_unencrypted_room(t: TrackerView, room: Seq<char>, events: Seq<JsonView>)
    ensures
        scanned(t, room, events).unencrypted.subset_of(t.unencrypted),
    decreases events.len(),
{
    if events.len() > 0 {
        scan_adds_no_unencrypted_room(t, room, events.drop_last());
    }
}

/// A list of members is given out from the moment it is cached until ten minutes
/// later, and not after.
pub proof fn members_expire(
    t: TrackerView,
    room: Seq<char>,
    members: Seq<Seq<char>>,
    at: u64,
    now: u64,
)
    ensures
        t.with_members(room, at, members).members_of(room, now) == (if now - at < MEMBER_CACHE_TTL {
            Some(members)
        } else {
            None
        }),
        t.with_members(room, at, members).without_members(room).members_of(room, now) is None,
{
}

/// A room key is asked for once per session, until the session is released.
pub proof fn session_claimed_once(t: TrackerView, session: Seq<char>)
    ensures
        t.with_requested(session).requested.contains(session),
        !t.with_requested(session).without_requested(session).requested.contains(session),
{
}

} // verus!
