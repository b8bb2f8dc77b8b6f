//! The server-side backup of room keys: enabling it and restoring from it.

use crate::failure::Failure;
use crate::json;
use crate::json::{Json, JsonView};
use crate::json_text;
use crate::json_text::{from_value, to_value, write_bytes};
use crate::percent;
use crate::percent::enc;
use crate::text;
use crate::text::same_text;
use crate::wire;
use crate::wire::{is_success, reply_failure, HttpRequest, Reply, RequestView};
use ruma::api::IncomingResponse;
use vstd::prelude::*;
use vstd::string::*;
use vstd::utf8::*;

verus! {

/// What came of restoring a backup.
pub struct BackupRestoreReport {
    pub backup_version: Option<String>,
    pub enabled: bool,
    pub total_keys_in_backup: usize,
    pub imported_keys: usize,
}

/// What a report says.
pub struct ReportView {
    pub backup_version: Option<Seq<char>>,
    pub enabled: bool,
    pub total_keys_in_backup: usize,
    pub imported_keys: usize,
}

impl BackupRestoreReport {
    pub open spec fn view(&self) -> ReportView {
        ReportView {
            backup_version: text::opt_text(self.backup_version),
            enabled: self.enabled,
            total_keys_in_backup: self.total_keys_in_backup,
            imported_keys: self.imported_keys,
        }
    }

    /// The report where there is no backup.
    pub fn none() -> (r: BackupRestoreReport)
        ensures
            r@ == no_backup(),
    {
        BackupRestoreReport {
            backup_version: None,
            enabled: false,
            total_keys_in_backup: 0,
            imported_keys: 0,
        }
    }

    /// The report as JSON.
    pub fn to_json(&self) -> (r: Json)
        ensures
            r@ == report_json(self@),
    {
        let mut out = Json::object();
        out.put("backup_version", Json::text_or_null(text::borrow_text(&self.backup_version)));
        out.put("enabled", Json::Bool(self.enabled));
        out.put("total_keys_in_backup", Json::Natural(self.total_keys_in_backup as u64));
        out.put("imported_keys", Json::Natural(self.imported_keys as u64));
        out
    }
}

/// The report where there is no backup.
pub open spec fn no_backup() -> ReportView {
    ReportView {
        backup_version: None,
        enabled: false,
        total_keys_in_backup: 0,
        imported_keys: 0,
    }
}

/// A report as JSON.
pub open spec fn report_json(r: ReportView) -> JsonView {
    JsonView::empty_object().with("backup_version"@, JsonView::opt_str(r.backup_version)).with(
        "enabled"@,
        JsonView::Bool(r.enabled),
    ).with("total_keys_in_backup"@, JsonView::Natural(r.total_keys_in_backup as u64)).with(
        "imported_keys"@,
        JsonView::Natural(r.imported_keys as u64),
    )
}

/// A version of the backup, as the homeserver describes it.
pub struct BackupVersionInfo {
    pub version: String,
    pub algorithm: String,
    pub auth_data: Json,
}

/// What a version says of itself.
pub struct VersionView {
    pub version: Seq<char>,
    pub algorithm: Seq<char>,
    pub auth_data: JsonView,
}

impl BackupVersionInfo {
    pub open spec fn view(&self) -> VersionView {
        VersionView {
            version: self.version@,
            algorithm: self.algorithm@,
            auth_data: self.auth_data@,
        }
    }
}

/// How a key goes with a version of the backup.
pub enum KeyMatch {
    Matches,
    Differs,
    /// The version's description cannot be read.
    Malformed(String),
}

/// How a key goes with a version of the backup.
pub enum MatchView {
    Matches,
    Differs,
    Malformed(Seq<char>),
}

impl KeyMatch {
    pub open spec fn view(&self) -> MatchView {
        match self {
            KeyMatch::Matches => MatchView::Matches,
            KeyMatch::Differs => MatchView::Differs,
            KeyMatch::Malformed(e) => MatchView::Malformed(e@),
        }
    }
}

/// What `BackupDecryptionKey::from_base64` objects to in a text, if anything.
pub uninterp spec fn backup_key_error(secret: Seq<char>) -> Option<Seq<char>>;

/// How `BackupDecryptionKey::backup_key_matches` finds a key, given in base64, to go with a
/// description of a backup. It is not said of texts that are no key.
pub uninterp spec fn backup_match(secret: Seq<char>, info: JsonView) -> MatchView;

/// The room keys that `ruma`'s response to a download of the backup holds: their rooms,
/// their sessions and their data; or the text of the error.
pub uninterp spec fn backed_up_keys(body: Seq<u8>) -> Result<
    Seq<(Seq<char>, Seq<char>, JsonView)>,
    Seq<char>,
>;

/// The room key, in the form of an `ExportedRoomKey`, that
/// `BackupDecryptionKey::decrypt_session_data` finds in the data of a session; none where
/// it finds none.
pub uninterp spec fn decrypted_room_key(
    secret: Seq<char>,
    room: Seq<char>,
    session: Seq<char>,
    data: JsonView,
) -> Option<JsonView>;

/// `matrix_sdk_crypto::store::types::BackupDecryptionKey::from_base64`: what it objects to.
#[verifier::external_body]
fn backup_key_objection(secret: &str) -> (r: Option<String>)
    ensures
        text::opt_text(r) == backup_key_error(secret@),
{
    matrix_sdk_crypto::store::types::BackupDecryptionKey::from_base64(secret).err().map(
        |e| e.to_string(),
    )
}

/// `matrix_sdk_crypto::store::types::BackupDecryptionKey::backup_key_matches`, with the
/// `matrix_sdk_crypto::types::RoomKeyBackupInfo` that a JSON value describes.
#[verifier::external_body]
fn match_backup(secret: &str, info: serde_json::Value) -> (r: KeyMatch)
    ensures
        r@ == backup_match(secret@, json_text::value_json(info)),
{
    let info: matrix_sdk_crypto::types::RoomKeyBackupInfo = match serde_json::from_value(info) {
        Ok(info) => info,
        Err(e) => return KeyMatch::Malformed(e.to_string()),
    };
    match matrix_sdk_crypto::store::types::BackupDecryptionKey::from_base64(secret).map(
        |key| key.backup_key_matches(&info),
    ) {
        Ok(true) => KeyMatch::Matches,
        _ => KeyMatch::Differs,
    }
}

/// `ruma::api::client::backup::get_backup_keys::v3::Response` of a successful reply with the
/// given body.
#[verifier::external_body]
fn read_backup(body: Vec<u8>) -> (r: Result<Vec<(String, String, serde_json::Value)>, String>)
    ensures
        match r {
            Ok(keys) => backed_up_keys(body@) == Ok::<
                Seq<(Seq<char>, Seq<char>, JsonView)>,
                Seq<char>,
            >(backup_keys_view(keys@)),
            Err(e) => backed_up_keys(body@) == Err::<
                Seq<(Seq<char>, Seq<char>, JsonView)>,
                Seq<char>,
            >(e@),
        },
{
    let response = http::Response::builder().status(200).body(body).map_err(|e| e.to_string())?;
    let response = ruma::api::client::backup::get_backup_keys::v3::Response::try_from_http_response(
        response,
    ).map_err(|e| e.to_string())?;
    let rooms = response.rooms.into_iter().flat_map(
        |(room, keys)| keys.sessions.into_iter().map(move |(s, k)| (room.to_string(), s, k)),
    );
    rooms.map(
        |(room, s, k)| k.deserialize_as_unchecked().map(|k| (room, s, k)).map_err(|e| e.to_string()),
    ).collect()
}

/// `matrix_sdk_crypto::store::types::BackupDecryptionKey::decrypt_session_data`, and
/// `matrix_sdk_crypto::olm::ExportedRoomKey::from_backed_up_room_key`.
#[verifier::external_body]
fn decrypt_room_key(secret: &str, room: &str, session: &str, data: serde_json::Value) -> (r: Option<
    serde_json::Value,
>)
    ensures
        match r {
            Some(k) => decrypted_room_key(secret@, room@, session@, json_text::value_json(data))
                == Some(json_text::value_json(k)),
            None => decrypted_room_key(secret@, room@, session@, json_text::value_json(data))
                is None,
        },
{
    let key = matrix_sdk_crypto::store::types::BackupDecryptionKey::from_base64(secret).ok()?;
    let data: ruma::api::client::backup::KeyBackupData = serde_json::from_value(data).ok()?;
    let room_key = key.decrypt_session_data(data.session_data).ok()?;
    let exported = matrix_sdk_crypto::olm::ExportedRoomKey::from_backed_up_room_key(
        ruma::RoomId::parse(room).ok()?,
        session.to_owned(),
        room_key,
    );
    serde_json::to_value(exported).ok()
}

/// The views of some backed-up keys.
pub open spec fn backup_keys_view(v: Seq<(String, String, serde_json::Value)>) -> Seq<
    (Seq<char>, Seq<char>, JsonView),
> {
    v.map_values(|k: (String, String, serde_json::Value)| (k.0@, k.1@, json_text::value_json(k.2)))
}

/// The room keys that can be decrypted, in order.
pub open spec fn room_keys(secret: Seq<char>, keys: Seq<(Seq<char>, Seq<char>, JsonView)>) -> Seq<
    JsonView,
>
    decreases keys.len(),
{
    if keys.len() == 0 {
        Seq::empty()
    } else {
        let k = keys.last();
        match decrypted_room_key(secret, k.0, k.1, k.2) {
            Some(room_key) => room_keys(secret, keys.drop_last()).push(room_key),
            None => room_keys(secret, keys.drop_last()),
        }
    }
}

fn decrypt_room_keys(secret: &str, keys: Vec<(String, String, serde_json::Value)>) -> (r: Vec<Json>)
    ensures
        json::array_view(r@) == room_keys(secret@, backup_keys_view(keys@)),
{
    let ghost all = backup_keys_view(keys@);
    let mut out: Vec<Json> = Vec::new();
    proof {
        json::lemma_array_view(out@);
        assert(all.take(0) =~= Seq::empty());
        assert(json::array_view(out@) =~= room_keys(secret@, all.take(0)));
    }
    let ghost src = keys@;
    for k in it: keys
        invariant
            it.seq() == src,
            all == backup_keys_view(src),
            json::array_view(out@) == room_keys(secret@, all.take(it.index() as int)),
    {
        let ghost i = it.index() as int;
        proof {
            assert(all.take(i + 1).drop_last() =~= all.take(i));
            assert(src[i] == k);
            assert(all.take(i + 1).last() == (k.0@, k.1@, json_text::value_json(k.2)));
        }
        match decrypt_room_key(secret, k.0.as_str(), k.1.as_str(), k.2) {
            Some(room_key) => {
                let ghost before = out@;
                out.push(from_value(room_key));
                proof {
                    json::lemma_array_view(before);
                    json::lemma_array_view(out@);
                    assert(json::array_view(out@) =~= json::array_view(before).push(
                        json_text::value_json(room_key),
                    ));
                }
            },
            None => {},
        }
    }
    assert(all.take(all.len() as int) =~= all);
    out
}

/// Where the restoring of a backup stands.
pub enum RestoreState {
    /// Nothing has been done yet.
    Start,
    /// It waits for the version of the backup.
    Version,
    /// It waits for the version that backups were enabled for before.
    Stored { version: String },
    /// It waits for backups to be enabled.
    Enabling { version: String },
    /// It waits for the room keys.
    Downloading { version: String },
    /// It waits for the room keys to be imported.
    Importing { version: String, total: usize },
    /// It has come to an end.
    Done,
}

/// What has come in.
pub enum RestoreEvent {
    Begin,
    /// The homeserver's reply on the version of the backup.
    Version(Result<Reply, Failure>),
    /// The version that backups were enabled for before, if any.
    Stored(Result<Option<String>, Failure>),
    /// Backups were enabled, or were not.
    Enabled(Result<(), Failure>),
    /// The homeserver's reply to the download.
    Downloaded(Result<Reply, Failure>),
    /// So many room keys were imported.
    Imported(Result<usize, Failure>),
}

/// What is to be done next.
pub enum RestoreStep {
    /// Ask the homeserver for the version of the backup.
    FetchVersion(HttpRequest),
    /// Look up for which version backups were enabled before.
    LoadStored,
    /// Enable backups for this version, in place of any before it.
    Enable(String),
    /// Download all room keys.
    Download(HttpRequest),
    /// Import room keys of this version.
    Import { keys: Vec<Json>, version: String },
    /// Finish.
    Finish(Result<BackupRestoreReport, Failure>),
    /// Nothing.
    Stop,
}

/// Where the restoring of a backup stands.
pub enum StateView {
    Start,
    Version,
    Stored { version: Seq<char> },
    Enabling { version: Seq<char> },
    Downloading { version: Seq<char> },
    Importing { version: Seq<char>, total: usize },
    Done,
}

/// What has come in.
pub enum EventView {
    Begin,
    Version(Result<(u16, JsonView), Seq<Seq<char>>>),
    Stored(Result<Option<Seq<char>>, Seq<Seq<char>>>),
    Enabled(Result<(), Seq<Seq<char>>>),
    Downloaded(Result<(u16, JsonView), Seq<Seq<char>>>),
    Imported(Result<usize, Seq<Seq<char>>>),
}

/// What is to be done next.
pub enum StepView {
    FetchVersion(RequestView),
    LoadStored,
    Enable(Seq<char>),
    Download(RequestView),
    Import { keys: Seq<JsonView>, version: Seq<char> },
    Finish(Result<ReportView, Seq<Seq<char>>>),
    Stop,
}

impl RestoreState {
    pub open spec fn view(&self) -> StateView {
        match self {
            RestoreState::Start => StateView::Start,
            RestoreState::Version => StateView::Version,
            RestoreState::Stored { version } => StateView::Stored { version: version@ },
            RestoreState::Enabling { version } => StateView::Enabling { version: version@ },
            RestoreState::Downloading { version } => StateView::Downloading { version: version@ },
            RestoreState::Importing { version, total } => StateView::Importing {
                version: version@,
                total: *total,
            },
            RestoreState::Done => StateView::Done,
        }
    }
}

impl RestoreEvent {
    pub open spec fn view(&self) -> EventView {
        match self {
            RestoreEvent::Begin => EventView::Begin,
            RestoreEvent::Version(reply) => EventView::Version(
                crate::upstream::reply_result(*reply),
            ),
            RestoreEvent::Stored(r) => EventView::Stored(
                match r {
                    Ok(v) => Ok(text::opt_text(*v)),
                    Err(f) => Err(f@),
                },
            ),
            RestoreEvent::Enabled(r) => EventView::Enabled(
                match r {
                    Ok(_) => Ok(()),
                    Err(f) => Err(f@),
                },
            ),
            RestoreEvent::Downloaded(reply) => EventView::Downloaded(
                crate::upstream::reply_result(*reply),
            ),
            RestoreEvent::Imported(r) => EventView::Imported(
                match r {
                    Ok(n) => Ok(*n),
                    Err(f) => Err(f@),
                },
            ),
        }
    }
}

/// The view of a report, or why there is none.
pub open spec fn report_result(r: Result<BackupRestoreReport, Failure>) -> Result<
    ReportView,
    Seq<Seq<char>>,
> {
    match r {
        Ok(report) => Ok(report@),
        Err(f) => Err(f@),
    }
}

impl RestoreStep {
    pub open spec fn view(&self) -> StepView {
        match self {
            RestoreStep::FetchVersion(r) => StepView::FetchVersion(r@),
            RestoreStep::LoadStored => StepView::LoadStored,
            RestoreStep::Enable(v) => StepView::Enable(v@),
            RestoreStep::Download(r) => StepView::Download(r@),
            RestoreStep::Import { keys, version } => StepView::Import {
                keys: json::array_view(keys@),
                version: version@,
            },
            RestoreStep::Finish(r) => StepView::Finish(report_result(*r)),
            RestoreStep::Stop => StepView::Stop,
        }
    }
}

/// The end, with a failure.
pub open spec fn fails(f: Seq<Seq<char>>) -> (StateView, StepView) {
    (StateView::Done, StepView::Finish(Err(f)))
}

/// The description that a key is held against.
pub open spec fn info_json(v: VersionView) -> JsonView {
    JsonView::empty_object().with("algorithm"@, JsonView::Str(v.algorithm)).with(
        "auth_data"@,
        v.auth_data,
    )
}

/// What is said where a key does not go with the backup.
pub open spec fn mismatch_message(version: Seq<char>) -> Seq<char> {
    "the recovered backup key does not match the active server-side backup (version "@ + version
        + "); was the backup reset after the recovery key was created?"@
}

/// How it goes on with a version of the backup.
pub open spec fn matched_next(version: Seq<char>, m: MatchView) -> (StateView, StepView) {
    match m {
        MatchView::Malformed(e) => fails(seq!["malformed backup auth_data"@, e]),
        MatchView::Differs => fails(seq![mismatch_message(version)]),
        MatchView::Matches => (StateView::Stored { version }, StepView::LoadStored),
    }
}

/// The version of the backup that a body describes, or what is wrong with it.
pub open spec fn version_in(body: JsonView) -> Result<VersionView, Seq<char>> {
    match (body.get_text("version"@), body.get_text("algorithm"@), body.get("auth_data"@)) {
        (Some(version), Some(algorithm), Some(auth_data)) => Ok(
            VersionView { version, algorithm, auth_data },
        ),
        (None, _, _) => Err("there is no text under `version`"@),
        (_, None, _) => Err("there is no text under `algorithm`"@),
        _ => Err("there is no `auth_data`"@),
    }
}

/// The current version of the backup, by the homeserver's reply; none where there is no
/// backup.
pub open spec fn current_version(reply: Result<(u16, JsonView), Seq<Seq<char>>>) -> Result<
    Option<VersionView>,
    Seq<Seq<char>>,
> {
    match reply {
        Err(f) => Err(f),
        Ok((status, body)) => if status == 404 {
            Ok(None)
        } else if !wire::success(status) {
            Err(seq![wire::reply_message("room_keys/version failed: "@, status, " "@, body)])
        } else {
            match version_in(body) {
                Ok(v) => Ok(Some(v)),
                Err(e) => Err(seq!["malformed room_keys/version response"@, e]),
            }
        },
    }
}

/// How it goes on with the homeserver's reply on the version of the backup. Without a
/// backup there is nothing to restore.
pub open spec fn version_next(
    secret: Seq<char>,
    reply: Result<(u16, JsonView), Seq<Seq<char>>>,
) -> (StateView, StepView) {
    match current_version(reply) {
        Err(f) => fails(f),
        Ok(None) => (StateView::Done, StepView::Finish(Ok(no_backup()))),
        Ok(Some(v)) => matched_next(v.version, backup_match(secret, info_json(v))),
    }
}

/// The request that downloads all room keys.
pub open spec fn download_http(version: Seq<char>) -> RequestView {
    wire::get_request(
        "/_matrix/client/v3/room_keys/keys?version="@ + percent::encoded_text(version),
    )
}

/// The download of all room keys.
pub open spec fn downloads(version: Seq<char>) -> (StateView, StepView) {
    (StateView::Downloading { version }, StepView::Download(download_http(version)))
}

/// How it goes on with the room keys of the backup.
pub open spec fn keys_next(
    secret: Seq<char>,
    version: Seq<char>,
    keys: Result<Seq<(Seq<char>, Seq<char>, JsonView)>, Seq<char>>,
) -> (StateView, StepView) {
    match keys {
        Err(e) => fails(seq!["malformed room_keys/keys response"@, e]),
        Ok(keys) => (
            StateView::Importing { version, total: keys.len() as usize },
            StepView::Import { keys: room_keys(secret, keys), version },
        ),
    }
}

/// The next state, and what is to be done. Backups are enabled unless they are enabled for
/// this version already.
pub open spec fn restore_next(secret: Seq<char>, state: StateView, event: EventView) -> (
    StateView,
    StepView,
) {
    match (state, event) {
        (StateView::Start, EventView::Begin) => match backup_key_error(secret) {
            Some(e) => fails(seq!["m.megolm_backup.v1 secret is not a valid backup key"@, e]),
            None => (
                StateView::Version,
                StepView::FetchVersion(
                    wire::get_request("/_matrix/client/v3/room_keys/version"@),
                ),
            ),
        },
        (StateView::Version, EventView::Version(reply)) => version_next(secret, reply),
        (StateView::Stored { version }, EventView::Stored(Ok(stored))) => if stored == Some(
            version,
        ) {
            downloads(version)
        } else {
            (StateView::Enabling { version }, StepView::Enable(version))
        },
        (StateView::Stored { .. }, EventView::Stored(Err(f))) => fails(f),
        (StateView::Enabling { version }, EventView::Enabled(Ok(_))) => downloads(version),
        (StateView::Enabling { .. }, EventView::Enabled(Err(f))) => fails(f),
        (StateView::Downloading { version }, EventView::Downloaded(Ok((status, body)))) => if wire::success(
            status,
        ) {
            keys_next(secret, version, backed_up_keys(encode_utf8(json_text::json_text(body))))
        } else {
            fails(
                seq![wire::reply_message("downloading room keys failed: "@, status, " "@, body)],
            )
        },
        (StateView::Downloading { .. }, EventView::Downloaded(Err(f))) => fails(f),
        (StateView::Importing { version, total }, EventView::Imported(Ok(imported))) => (
            StateView::Done,
            StepView::Finish(
                Ok(
                    ReportView {
                        backup_version: Some(version),
                        enabled: true,
                        total_keys_in_backup: total,
                        imported_keys: imported,
                    },
                ),
            ),
        ),
        (StateView::Importing { .. }, EventView::Imported(Err(f))) => fails(
            seq!["importing room keys failed"@] + f,
        ),
        _ => (StateView::Done, StepView::Stop),
    }
}

fn fail(f: Failure) -> (r: (RestoreState, RestoreStep))
    ensures
        (r.0@, r.1@) == fails(f@),
{
    (RestoreState::Done, RestoreStep::Finish(Err(f)))
}

fn fail_with(context: &str, e: &str) -> (r: (RestoreState, RestoreStep))
    ensures
        (r.0@, r.1@) == fails(seq![context@, e@]),
{
    fail(Failure::caused(context, e))
}

fn download(version: String) -> (r: (RestoreState, RestoreStep))
    ensures
        (r.0@, r.1@) == downloads(version@),
{
    let path = "/_matrix/client/v3/room_keys/keys?version=".to_owned().concat(
        enc(version.as_str()).as_str(),
    );
    (RestoreState::Downloading { version }, RestoreStep::Download(HttpRequest::get(path)))
}

/// Goes on once it is known how the key goes with a version of the backup.
pub fn key_matched(version: String, m: KeyMatch) -> (r: (RestoreState, RestoreStep))
    ensures
        (r.0@, r.1@) == matched_next(version@, m@),
{
    match m {
        KeyMatch::Malformed(e) => fail_with("malformed backup auth_data", e.as_str()),
        KeyMatch::Differs => {
            let message =
                "the recovered backup key does not match the active server-side backup (version ".to_owned().concat(
                version.as_str(),
            ).concat("); was the backup reset after the recovery key was created?");
            fail(Failure::new(message.as_str()))
        },
        KeyMatch::Matches => (RestoreState::Stored { version }, RestoreStep::LoadStored),
    }
}

fn read_version(body: &Json) -> (r: Result<BackupVersionInfo, String>)
    ensures
        match version_in(body@) {
            Ok(v) => r matches Ok(info) && info@ == v,
            Err(e) => r matches Err(why) && why@ == e,
        },
{
    let version = match body.get_text("version") {
        Some(v) => v,
        None => {
            return Err("there is no text under `version`".to_owned());
        },
    };
    let algorithm = match body.get_text("algorithm") {
        Some(a) => a,
        None => {
            return Err("there is no text under `algorithm`".to_owned());
        },
    };
    match body.get("auth_data") {
        Some(auth_data) => Ok(
            BackupVersionInfo { version, algorithm, auth_data: auth_data.copy() },
        ),
        None => Err("there is no `auth_data`".to_owned()),
    }
}

/// The current version of the backup, by the homeserver's reply; none where there is no
/// backup.
pub fn current_backup_version(reply: Result<Reply, Failure>) -> (r: Result<
    Option<BackupVersionInfo>,
    Failure,
>)
    ensures
        match current_version(crate::upstream::reply_result(reply)) {
            Ok(Some(v)) => r matches Ok(Some(info)) && info@ == v,
            Ok(None) => r matches Ok(None),
            Err(f) => r matches Err(why) && why@ == f,
        },
{
    let reply = match reply {
        Ok(reply) => reply,
        Err(f) => {
            return Err(f);
        },
    };
    if reply.status == 404 {
        return Ok(None);
    }
    if !is_success(reply.status) {
        return Err(reply_failure("room_keys/version failed: ", &reply, " "));
    }
    match read_version(&reply.body) {
        Ok(info) => Ok(Some(info)),
        Err(e) => Err(Failure::caused("malformed room_keys/version response", e.as_str())),
    }
}

fn version_step(secret: &str, reply: Result<Reply, Failure>) -> (r: (RestoreState, RestoreStep))
    ensures
        (r.0@, r.1@) == version_next(secret@, crate::upstream::reply_result(reply)),
{
    match current_backup_version(reply) {
        Err(f) => fail(f),
        Ok(None) => (RestoreState::Done, RestoreStep::Finish(Ok(BackupRestoreReport::none()))),
        Ok(Some(v)) => {
            let mut described = Json::object();
            described.put("algorithm", Json::text(v.algorithm.as_str()));
            described.put("auth_data", v.auth_data.copy());
            let m = match_backup(secret, to_value(&described));
            key_matched(v.version, m)
        },
    }
}

fn keys_step(secret: &str, version: String, body: &Json) -> (r: (RestoreState, RestoreStep))
    ensures
        (r.0@, r.1@) == keys_next(
            secret@,
            version@,
            backed_up_keys(encode_utf8(json_text::json_text(body@))),
        ),
{
    match read_backup(write_bytes(body)) {
        Err(e) => fail_with("malformed room_keys/keys response", e.as_str()),
        Ok(keys) => {
            let total: usize = keys.len();
            let ghost all = backup_keys_view(keys@);
            assert(all.len() == total);
            let found = decrypt_room_keys(secret, keys);
            let stored_under = version.clone();
            (
                RestoreState::Importing { version, total },
                RestoreStep::Import { keys: found, version: stored_under },
            )
        },
    }
}

/// Restores room keys from the server-side backup with the backup key, given in base64, one
/// step at a time: the key is held against the backup's version, backups are enabled for
/// that version, and all room keys that can be decrypted are imported.
pub fn restore_from_backup(secret: &str, state: RestoreState, event: RestoreEvent) -> (r: (
    RestoreState,
    RestoreStep,
))
    ensures
        (r.0@, r.1@) == restore_next(secret@, state@, event@),
{
    match (state, event) {
        (RestoreState::Start, RestoreEvent::Begin) => match backup_key_objection(secret) {
            Some(e) => fail_with(
                "m.megolm_backup.v1 secret is not a valid backup key",
                e.as_str(),
            ),
            None => (
                RestoreState::Version,
                RestoreStep::FetchVersion(
                    HttpRequest::get("/_matrix/client/v3/room_keys/version".to_owned()),
                ),
            ),
        },
        (RestoreState::Version, RestoreEvent::Version(reply)) => version_step(secret, reply),
        (RestoreState::Stored { version }, RestoreEvent::Stored(Ok(stored))) => {
            let enabled = match &stored {
                Some(s) => same_text(s.as_str(), version.as_str()),
                None => false,
            };
            if enabled {
                download(version)
            } else {
                let enable = version.clone();
                (RestoreState::Enabling { version }, RestoreStep::Enable(enable))
            }
        },
        (RestoreState::Stored { .. }, RestoreEvent::Stored(Err(f))) => fail(f),
        (RestoreState::Enabling { version }, RestoreEvent::Enabled(Ok(_))) => download(version),
        (RestoreState::Enabling { .. }, RestoreEvent::Enabled(Err(f))) => fail(f),
        (RestoreState::Downloading { version }, RestoreEvent::Downloaded(Ok(reply))) => if is_success(
            reply.status,
        ) {
            keys_step(secret, version, &reply.body)
        } else {
            fail(reply_failure("downloading room keys failed: ", &reply, " "))
        },
        (RestoreState::Downloading { .. }, RestoreEvent::Downloaded(Err(f))) => fail(f),
        (RestoreState::Importing { version, total }, RestoreEvent::Imported(Ok(imported))) => (
            RestoreState::Done,
            RestoreStep::Finish(
                Ok(
                    BackupRestoreReport {
                        backup_version: Some(version),
                        enabled: true,
                        total_keys_in_backup: total,
                        imported_keys: imported,
                    },
                ),
            ),
        ),
        (RestoreState::Importing { .. }, RestoreEvent::Imported(Err(f))) => fail(
            f.context("importing room keys failed"),
        ),
        _ => (RestoreState::Done, RestoreStep::Stop),
    }
}

/// No more room keys are imported than the backup holds.
pub proof fn imports_at_most_all(secret: Seq<char>, keys: Seq<(Seq<char>, Seq<char>, JsonView)>)
    ensures
        room_keys(secret, keys).len() <= keys.len(),
    decreases keys.len(),
{
    if keys.len() > 0 {
        imports_at_most_all(secret, keys.drop_last());
    }
}

/// Backups are never enabled for a version that the key does not go with: that step is
/// only taken from a state which a matching key alone leads to.
pub proof fn only_matching_key_enables(secret: Seq<char>, state: StateView, event: EventView)
    ensures
        restore_next(secret, state, event).1 is Enable ==> state is Stored,
        restore_next(secret, state, event).0 is Stored ==> state is Version && (event matches EventView::Version(
        reply,
    ) && (current_version(reply) matches Ok(Some(v)) && backup_match(secret, info_json(v))
            is Matches)),
{
}

} // verus!
