//! Values and what is said of them: a view tells everything that a value holds.

use crate::admin::ctl::AdminCall;
use crate::crypto::backup::{BackupRestoreReport, BackupVersionInfo};
use crate::crypto::decrypt;
use crate::crypto::decrypt::Decryption;
use crate::crypto::encrypt::{EncryptRequest, EncryptionSettings, SendRequest};
use crate::crypto::media::{MediaEntry, MediaRow};
use crate::crypto::rooms;
use crate::crypto::rooms::RoomSettings;
use crate::crypto::sync;
use crate::json;
use crate::json::{Json, JsonView};
use crate::session::AccountContext;
use crate::text;
use crate::wire;
use crate::wire::{HttpRequest, Response};
use vstd::prelude::*;

verus! {

/// A list is told item by item, in order.
pub proof fn lists_are_told_in_order(
    strings: Seq<String>,
    values: Seq<Json>,
    settings: Seq<RoomSettings>,
    outcomes: Seq<Decryption>,
    headers: Seq<(String, Vec<u8>)>,
    counts: Seq<(String, u64)>,
)
    ensures
        text::texts(strings).len() == strings.len(),
        forall|i: int|
            0 <= i < strings.len() ==> #[trigger] text::texts(strings)[i] == strings[i]@,
        json::array_view(values).len() == values.len(),
        forall|i: int|
            0 <= i < values.len() ==> #[trigger] json::array_view(values)[i] == values[i]@,
        rooms::settings_views(settings).len() == settings.len(),
        forall|i: int|
            0 <= i < settings.len() ==> #[trigger] rooms::settings_views(settings)[i]
                == settings[i]@,
        decrypt::decryptions(outcomes).len() == outcomes.len(),
        forall|i: int|
            0 <= i < outcomes.len() ==> #[trigger] decrypt::decryptions(outcomes)[i]
                == outcomes[i]@,
        wire::headers_view(headers).len() == headers.len(),
        forall|i: int|
            0 <= i < headers.len() ==> #[trigger] wire::headers_view(headers)[i] == (
                headers[i].0@,
                headers[i].1@,
            ),
        sync::counts_view(counts).len() == counts.len(),
        forall|i: int|
            0 <= i < counts.len() ==> #[trigger] sync::counts_view(counts)[i] == (
                counts[i].0@,
                counts[i].1,
            ),
{
    json::lemma_array_view(values);
}

/// What may be missing is told where it is there.
pub proof fn optional_values_are_told(
    string: String,
    value: Json,
    bytes: Vec<u8>,
    strings: Vec<String>,
)
    ensures
        text::opt_text(Some(string)) == Some(string@),
        text::opt_text(None) is None,
        wire::body_view(Some(value)) == Some(value@),
        wire::body_view(None) is None,
        wire::opt_bytes(Some(bytes)) == Some(bytes@),
        wire::opt_bytes(None) is None,
        rooms::opt_texts(Some(strings)) == Some(text::texts(strings@)),
        rooms::opt_texts(None) is None,
{
}

/// A decryption is told by what it gave.
pub proof fn decryptions_are_told(
    event: Json,
    encryption_info: Json,
    reason: String,
    session_id: Option<String>,
)
    ensures
        (Decryption::Decrypted { event, encryption_info })@ == (
        decrypt::DecryptionView::Decrypted { event: event@, encryption_info: encryption_info@ }),
        (Decryption::UnableToDecrypt { reason, session_id })@ == (
        decrypt::DecryptionView::UnableToDecrypt {
            reason: reason@,
            session_id: text::opt_text(session_id),
        }),
        Decryption::Failed@ == decrypt::DecryptionView::Failed,
{
}

/// Messages, requests and responses are told by all their parts.
pub proof fn messages_are_told(
    send: SendRequest,
    encrypt: EncryptRequest,
    request: HttpRequest,
    response: Response,
    call: AdminCall,
)
    ensures
        send@.room_id == send.room_id@ && send@.event_type == send.event_type@ && send@.txn_id
            == send.txn_id@ && send@.path == send.path@,
        encrypt@.room_id == encrypt.room_id@ && encrypt@.event_type == encrypt.event_type@
            && encrypt@.content == encrypt.content@,
        request@.method == request.method@ && request@.path == request.path@ && request@.body
            == wire::body_view(request.body),
        response@.status == response.status && response@.headers == wire::headers_view(
            response.headers@,
        ) && response@.body == response.body@,
        call@.path == call.path@ && call@.body == wire::body_view(call.body),
{
}

/// Attachments, accounts, settings and reports are told by all their parts.
pub proof fn records_are_told(
    entry: MediaEntry,
    row: MediaRow,
    account: AccountContext,
    room: RoomSettings,
    settings: EncryptionSettings,
    report: BackupRestoreReport,
    version: BackupVersionInfo,
)
    ensures
        entry@.info == entry.info@ && entry@.mimetype == text::opt_text(entry.mimetype)
            && entry@.filename == text::opt_text(entry.filename),
        row@.mxc == row.mxc@ && row@.key_json == row.key_json@ && row@.mimetype == text::opt_text(
            row.mimetype,
        ) && row@.filename == text::opt_text(row.filename),
        account@.user_id == account.user_id@ && account@.device_id == account.device_id@
            && account@.token == account.token@,
        room@.algorithm == room.algorithm@ && room@.only_allow_trusted_devices
            == room.only_allow_trusted_devices && room@.session_rotation_period
            == room.session_rotation_period && room@.session_rotation_period_messages
            == room.session_rotation_period_messages,
        settings@.algorithm == settings.algorithm@ && settings@.history_visibility
            == settings.history_visibility@ && settings@.rotation_period
            == settings.rotation_period && settings@.rotation_period_msgs
            == settings.rotation_period_msgs && settings@.sharing_strategy
            == settings.sharing_strategy,
        report@.backup_version == text::opt_text(report.backup_version) && report@.enabled
            == report.enabled && report@.total_keys_in_backup == report.total_keys_in_backup
            && report@.imported_keys == report.imported_keys,
        version@.version == version.version@ && version@.algorithm == version.algorithm@
            && version@.auth_data == version.auth_data@,
{
}

/// JSON is told as what it is.
pub proof fn json_is_told(b: bool, n: u64, s: String, items: Vec<Json>)
    ensures
        Json::Null@ == JsonView::Null,
        Json::Bool(b)@ == JsonView::Bool(b),
        Json::Natural(n)@ == JsonView::Natural(n),
        Json::Str(s)@ == JsonView::Str(s@),
        Json::Array(items)@ == JsonView::Array(json::array_view(items@)),
{
}

} // verus!
