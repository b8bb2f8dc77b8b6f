//! Secrets in the user's account data: opening them with the recovery key, and setting the
//! device up from them.

use crate::crypto::backup;
use crate::crypto::backup::{BackupRestoreReport, ReportView};
use crate::crypto::machine;
use crate::crypto::machine::{accepted, keys_query_objection, readable};
use crate::failure::Failure;
use crate::json;
use crate::json::{Json, JsonView};
use crate::json_text;
use crate::json_text::{from_value, to_value, write_bytes};
use crate::percent;
use crate::percent::enc;
use crate::text;
use crate::text::copy_text;
use crate::wire;
use crate::wire::{is_success, reply_failure, HttpRequest, Reply};
use matrix_sdk_crypto::secret_storage::SecretStorageKey;
use ruma::events::secret::request::SecretName;
use ruma::events::secret_storage::key::{
    SecretStorageEncryptionAlgorithm, SecretStorageKeyEventContent,
    SecretStorageV1AesHmacSha2Properties,
};
use ruma::events::EventContentFromType;
use vstd::prelude::*;
use vstd::string::*;
use vstd::utf8::*;

verus! {

/// What came of setting the device up.
pub struct BootstrapReport {
    pub imported_master_key: bool,
    pub imported_self_signing_key: bool,
    pub imported_user_signing_key: bool,
    pub own_device_signed: bool,
    pub backup: BackupRestoreReport,
}

/// A report as JSON.
pub open spec fn bootstrap_json(r: BootstrapReport) -> JsonView {
    JsonView::empty_object().with("imported_master_key"@, JsonView::Bool(r.imported_master_key)).with(
        "imported_self_signing_key"@,
        JsonView::Bool(r.imported_self_signing_key),
    ).with("imported_user_signing_key"@, JsonView::Bool(r.imported_user_signing_key)).with(
        "own_device_signed"@,
        JsonView::Bool(r.own_device_signed),
    ).with("backup"@, backup::report_json(r.backup@))
}

impl BootstrapReport {
    /// The report as JSON.
    pub fn to_json(&self) -> (r: Json)
        ensures
            r@ == bootstrap_json(*self),
    {
        let mut out = Json::object();
        out.put("imported_master_key", Json::Bool(self.imported_master_key));
        out.put("imported_self_signing_key", Json::Bool(self.imported_self_signing_key));
        out.put("imported_user_signing_key", Json::Bool(self.imported_user_signing_key));
        out.put("own_device_signed", Json::Bool(self.own_device_signed));
        out.put("backup", self.backup.to_json());
        out
    }
}

/// What comes of opening the secret storage.
pub enum StorageKey {
    /// It is open: the key's ID and the key itself, in base58.
    Opened { key_id: String, key: String },
    /// The key's description cannot be read.
    Malformed(String),
    /// The recovery key, or passphrase, is not the right one.
    Wrong(String),
}

/// What comes of opening the secret storage.
pub enum StorageKeyView {
    Opened { key_id: Seq<char>, key: Seq<char> },
    Malformed(Seq<char>),
    Wrong(Seq<char>),
}

impl StorageKey {
    pub open spec fn view(&self) -> StorageKeyView {
        match self {
            StorageKey::Opened { key_id, key } => StorageKeyView::Opened {
                key_id: key_id@,
                key: key@,
            },
            StorageKey::Malformed(e) => StorageKeyView::Malformed(e@),
            StorageKey::Wrong(e) => StorageKeyView::Wrong(e@),
        }
    }
}

/// What comes of decrypting a secret.
pub enum Secret {
    Plain(Vec<u8>),
    /// The encrypted data cannot be read.
    Malformed(String),
    /// The data was not encrypted with the key, or not under this name.
    Forged(String),
}

/// What comes of decrypting a secret.
pub enum SecretView {
    Plain(Seq<u8>),
    Malformed(Seq<char>),
    Forged(Seq<char>),
}

impl Secret {
    pub open spec fn view(&self) -> SecretView {
        match self {
            Secret::Plain(data) => SecretView::Plain(data@),
            Secret::Malformed(e) => SecretView::Malformed(e@),
            Secret::Forged(e) => SecretView::Forged(e@),
        }
    }
}

/// What `SecretStorageKey::from_account_data` makes of a recovery key and the description of
/// a key, which `SecretStorageKeyEventContent::from_parts` reads.
pub uninterp spec fn storage_key(
    recovery_key: Seq<char>,
    event_type: Seq<char>,
    content: JsonView,
) -> StorageKeyView;

/// What `SecretStorageKey::decrypt` makes of encrypted data with a key, given in base58, and
/// the name of the secret.
pub uninterp spec fn secret_data(key: Seq<char>, data: JsonView, name: Seq<char>) -> SecretView;

/// What `serde_json::Value::pointer` finds in a value.
pub uninterp spec fn pointed(v: JsonView, pointer: Seq<char>) -> Option<JsonView>;

/// `matrix_sdk_crypto::secret_storage::SecretStorageKey::from_account_data`, with the
/// description of the key that `ruma`'s `SecretStorageKeyEventContent::from_parts` reads.
#[verifier::external_body]
fn open_key(recovery_key: &str, event_type: &str, content: serde_json::Value) -> (r: StorageKey)
    ensures
        r@ == storage_key(recovery_key@, event_type@, json_text::value_json(content)),
{
    let content = serde_json::value::to_raw_value(&content).and_then(
        |raw| SecretStorageKeyEventContent::from_parts(event_type, &raw),
    );
    let content = match content {
        Ok(content) => content,
        Err(e) => return StorageKey::Malformed(e.to_string()),
    };
    SecretStorageKey::from_account_data(recovery_key, content).map_or_else(
        |e| StorageKey::Wrong(e.to_string()),
        |k| StorageKey::Opened { key_id: k.key_id().to_owned(), key: k.to_base58() },
    )
}

/// `matrix_sdk_crypto::secret_storage::SecretStorageKey::decrypt` of a
/// `matrix_sdk_crypto::secret_storage::AesHmacSha2EncryptedData`, with the key that base58
/// stands for: `from_account_data`, with a description that says nothing of the key.
#[verifier::external_body]
fn decrypt_data(key: &str, data: serde_json::Value, name: &str) -> (r: Secret)
    ensures
        r@ == secret_data(key@, json_text::value_json(data), name@),
{
    let properties = SecretStorageV1AesHmacSha2Properties::new(None, None);
    let about = SecretStorageKeyEventContent::new(
        String::new(),
        SecretStorageEncryptionAlgorithm::V1AesHmacSha2(properties),
    );
    let key = match SecretStorageKey::from_account_data(key, about) {
        Ok(key) => key,
        Err(e) => return Secret::Malformed(e.to_string()),
    };
    match serde_json::from_value(data).map(|d| key.decrypt(&d, &SecretName::from(name))) {
        Ok(Ok(plain)) => Secret::Plain(plain),
        Ok(Err(e)) => Secret::Forged(e.to_string()),
        Err(e) => Secret::Malformed(e.to_string()),
    }
}

/// Whether a text means itself in a JSON pointer.
pub open spec fn plain_token(s: Seq<char>) -> bool {
    !s.contains('/') && !s.contains('~')
}

/// `serde_json::Value::pointer`: what a pointer finds. A pointer to a member of a member,
/// both under names without `/` and `~`, finds that member; nothing more is said of it.
#[verifier::external_body]
fn value_at(v: &serde_json::Value, pointer: &str) -> (r: Option<serde_json::Value>)
    ensures
        opt_value(r) == pointed(json_text::value_json(*v), pointer@),
        forall|outer: Seq<char>, inner: Seq<char>| #[trigger]
            member_pointer(outer, inner) == pointer@ && plain_token(outer) && plain_token(inner)
                && !(json_text::value_json(*v) is Array) && !(json_text::value_json(*v).get(
                outer,
            ) matches Some(JsonView::Array(_))) ==> opt_value(r) == json_text::value_json(*v).get2(
                outer,
                inner,
            ),
{
    v.pointer(pointer).cloned()
}

/// What an optional value holds.
pub open spec fn opt_value(v: Option<serde_json::Value>) -> Option<JsonView> {
    match v {
        Some(v) => Some(json_text::value_json(v)),
        None => None,
    }
}

/// The pointer to a member of a member.
pub open spec fn member_pointer(outer: Seq<char>, inner: Seq<char>) -> Seq<char> {
    "/"@ + outer + "/"@ + inner
}

/// `String::from_utf8`: the text of the bytes, provided that they are UTF-8.
#[verifier::external_body]
fn text_from_utf8(bytes: Vec<u8>) -> (r: Result<String, String>)
    ensures
        match r {
            Ok(s) => valid_utf8(bytes@) && s@ == decode_utf8(bytes@),
            Err(e) => !valid_utf8(bytes@) && e@ == utf8_error(bytes@),
        },
{
    String::from_utf8(bytes).map_err(|e| e.to_string())
}

/// What `String::from_utf8` says of bytes that are no UTF-8.
pub uninterp spec fn utf8_error(bytes: Seq<u8>) -> Seq<char>;

/// The path of a user's account data.
pub open spec fn account_data_url(user_id: Seq<char>, event_type: Seq<char>) -> Seq<char> {
    "/_matrix/client/v3/user/"@ + percent::encoded_text(user_id) + "/account_data/"@
        + percent::encoded_text(event_type)
}

/// The request for a piece of a user's account data.
pub fn account_data_request(user_id: &str, event_type: &str) -> (r: HttpRequest)
    ensures
        r@ == wire::get_request(account_data_url(user_id@, event_type@)),
{
    HttpRequest::get(
        "/_matrix/client/v3/user/".to_owned().concat(enc(user_id).as_str()).concat(
            "/account_data/",
        ).concat(enc(event_type).as_str()),
    )
}

/// The view of an optional value, or why it is not known.
pub open spec fn found_result(r: Result<Option<Json>, Failure>) -> Result<
    Option<JsonView>,
    Seq<Seq<char>>,
> {
    match r {
        Ok(v) => Ok(wire::body_view(v)),
        Err(f) => Err(f@),
    }
}

/// A piece of account data, by the homeserver's reply. There may be none.
pub open spec fn account_data(
    event_type: Seq<char>,
    reply: Result<(u16, JsonView), Seq<Seq<char>>>,
) -> Result<Option<JsonView>, Seq<Seq<char>>> {
    match reply {
        Err(f) => Err(f),
        Ok((status, body)) => if status == 404 {
            Ok(None)
        } else if wire::success(status) {
            Ok(Some(body))
        } else {
            Err(
                seq![
                    wire::reply_message(
                        "fetching account data "@ + event_type + " failed: "@,
                        status,
                        " "@,
                        body,
                    ),
                ],
            )
        },
    }
}

/// A piece of account data, by the homeserver's reply.
pub fn fetch_account_data(event_type: &str, reply: Result<Reply, Failure>) -> (r: Result<
    Option<Json>,
    Failure,
>)
    ensures
        found_result(r) == account_data(event_type@, crate::upstream::reply_result(reply)),
{
    let reply = match reply {
        Ok(reply) => reply,
        Err(f) => {
            return Err(f);
        },
    };
    if reply.status == 404 {
        return Ok(None);
    }
    if !is_success(reply.status) {
        let prefix = "fetching account data ".to_owned().concat(event_type).concat(" failed: ");
        return Err(reply_failure(prefix.as_str(), &reply, " "));
    }
    Ok(Some(reply.body))
}

/// The view of a text, or why there is none.
pub open spec fn text_result(r: Result<String, Failure>) -> Result<Seq<char>, Seq<Seq<char>>> {
    match r {
        Ok(s) => Ok(s@),
        Err(f) => Err(f@),
    }
}

/// The account data that describes the default key.
pub open spec fn default_key_type(default_key: Option<JsonView>) -> Result<
    Seq<char>,
    Seq<Seq<char>>,
> {
    match default_key {
        None => Err(
            seq![
                "no m.secret_storage.default_key account data: secret storage is not set up"@,
            ],
        ),
        Some(content) => match content.get_text("key"@) {
            None => Err(seq!["malformed m.secret_storage.default_key content"@]),
            Some(key_id) => Ok("m.secret_storage.key."@ + key_id),
        },
    }
}

/// The type of the account data that describes the default key.
pub fn key_description_type(default_key: Option<Json>) -> (r: Result<String, Failure>)
    ensures
        text_result(r) == default_key_type(wire::body_view(default_key)),
{
    let content = match default_key {
        Some(content) => content,
        None => {
            return Err(
                Failure::new(
                    "no m.secret_storage.default_key account data: secret storage is not set up",
                ),
            );
        },
    };
    match content.get_text("key") {
        Some(key_id) => Ok("m.secret_storage.key.".to_owned().concat(key_id.as_str())),
        None => Err(Failure::new("malformed m.secret_storage.default_key content")),
    }
}

/// The key that opened the secret storage.
pub struct OpenKey {
    pub key_id: String,
    /// The key itself, in base58.
    pub key: String,
}

/// The view of an open key, or why there is none.
pub open spec fn open_result(r: Result<OpenKey, Failure>) -> Result<
    (Seq<char>, Seq<char>),
    Seq<Seq<char>>,
> {
    match r {
        Ok(k) => Ok((k.key_id@, k.key@)),
        Err(f) => Err(f@),
    }
}

/// What comes of opening the secret storage, as a result.
pub open spec fn opened(k: StorageKeyView) -> Result<(Seq<char>, Seq<char>), Seq<Seq<char>>> {
    match k {
        StorageKeyView::Opened { key_id, key } => Ok((key_id, key)),
        StorageKeyView::Malformed(e) => Err(seq!["malformed secret storage key description"@, e]),
        StorageKeyView::Wrong(e) => Err(
            seq!["recovery key/passphrase does not match the secret storage key"@, e],
        ),
    }
}

/// The key that opened the secret storage, or why it is not open.
pub fn opened_key(k: StorageKey) -> (r: Result<OpenKey, Failure>)
    ensures
        open_result(r) == opened(k@),
{
    match k {
        StorageKey::Opened { key_id, key } => Ok(OpenKey { key_id, key }),
        StorageKey::Malformed(e) => Err(
            Failure::caused("malformed secret storage key description", e.as_str()),
        ),
        StorageKey::Wrong(e) => Err(
            Failure::caused(
                "recovery key/passphrase does not match the secret storage key",
                e.as_str(),
            ),
        ),
    }
}

/// Opens the secret storage with a recovery key or a passphrase, which must go with the
/// description of the default key.
pub fn open_secret_storage_key(recovery_key: &str, event_type: &str, content: Option<Json>) -> (r:
    Result<OpenKey, Failure>)
    ensures
        open_result(r) == match content {
            Some(content) => opened(storage_key(recovery_key@, event_type@, content@)),
            None => Err(seq!["missing account data "@ + event_type@]),
        },
{
    match content {
        Some(content) => opened_key(open_key(recovery_key, event_type, to_value(&content))),
        None => {
            let message = "missing account data ".to_owned().concat(event_type);
            Err(Failure::new(message.as_str()))
        },
    }
}

/// A decrypted secret as a text.
pub open spec fn secret_text(name: Seq<char>, s: SecretView) -> Result<
    Seq<char>,
    Seq<Seq<char>>,
> {
    match s {
        SecretView::Malformed(e) => Err(seq!["malformed encrypted data for "@ + name, e]),
        SecretView::Forged(e) => Err(seq!["MAC check failed decrypting "@ + name, e]),
        SecretView::Plain(bytes) => if valid_utf8(bytes) {
            Ok(decode_utf8(bytes))
        } else {
            Err(seq!["secret "@ + name + " is not valid UTF-8"@, utf8_error(bytes)])
        },
    }
}

/// A decrypted secret as a text.
pub fn read_secret(name: &str, s: Secret) -> (r: Result<String, Failure>)
    ensures
        text_result(r) == secret_text(name@, s@),
{
    match s {
        Secret::Malformed(e) => {
            let context = "malformed encrypted data for ".to_owned().concat(name);
            Err(Failure::caused(context.as_str(), e.as_str()))
        },
        Secret::Forged(e) => {
            let context = "MAC check failed decrypting ".to_owned().concat(name);
            Err(Failure::caused(context.as_str(), e.as_str()))
        },
        Secret::Plain(bytes) => match text_from_utf8(bytes) {
            Ok(s) => Ok(s),
            Err(e) => {
                let context = "secret ".to_owned().concat(name).concat(" is not valid UTF-8");
                Err(Failure::caused(context.as_str(), e.as_str()))
            },
        },
    }
}

/// The view of an optional text, or why it is not known.
pub open spec fn opt_text_result(r: Result<Option<String>, Failure>) -> Result<
    Option<Seq<char>>,
    Seq<Seq<char>>,
> {
    match r {
        Ok(s) => Ok(text::opt_text(s)),
        Err(f) => Err(f@),
    }
}

/// A secret, by the account data that holds it: none where there is none, or none that is
/// encrypted with the key.
pub open spec fn secret_in(
    key_id: Seq<char>,
    key: Seq<char>,
    name: Seq<char>,
    content: Option<JsonView>,
) -> Result<Option<Seq<char>>, Seq<Seq<char>>> {
    match content {
        None => Ok(None),
        Some(content) => match pointed(content, member_pointer("encrypted"@, key_id)) {
            None => Ok(None),
            Some(data) => match secret_text(name, secret_data(key, data, name)) {
                Ok(s) => Ok(Some(s)),
                Err(f) => Err(f),
            },
        },
    }
}

/// Decrypts a secret of the user's account data. Under an ID without `/` and `~`, that is
/// the data under the ID among the encrypted ones.
pub fn get_secret(key: &OpenKey, name: &str, content: Option<Json>) -> (r: Result<
    Option<String>,
    Failure,
>)
    ensures
        opt_text_result(r) == secret_in(key.key_id@, key.key@, name@, wire::body_view(content)),
        content is Some && plain_token(key.key_id@) && !(content->0@ is Array) && !(content->0@.get(
            "encrypted"@,
        ) matches Some(JsonView::Array(_))) ==> opt_text_result(r) == (match content->0@.get2(
            "encrypted"@,
            key.key_id@,
        ) {
            None => Ok(None),
            Some(data) => match secret_text(name@, secret_data(key.key@, data, name@)) {
                Ok(s) => Ok(Some(s)),
                Err(f) => Err(f),
            },
        }),
{
    let content = match content {
        Some(content) => content,
        None => {
            return Ok(None);
        },
    };
    let pointer = "/encrypted/".to_owned().concat(key.key_id.as_str());
    proof {
        reveal_strlit("/encrypted/");
        reveal_strlit("/");
        reveal_strlit("encrypted");
        assert("/encrypted/"@ =~= "/"@ + "encrypted"@ + "/"@);
        assert(pointer@ =~= member_pointer("encrypted"@, key.key_id@));
        assert(plain_token("encrypted"@));
    }
    let data = match value_at(&to_value(&content), pointer.as_str()) {
        Some(data) => data,
        None => {
            return Ok(None);
        },
    };
    match read_secret(name, decrypt_data(key.key.as_str(), data, name)) {
        Ok(s) => Ok(Some(s)),
        Err(f) => Err(f),
    }
}

/// The request that asks the homeserver for keys.
pub fn query_own_keys(device_keys: &Json) -> (r: HttpRequest)
    ensures
        r@ == wire::body_request(
            "POST"@,
            "/_matrix/client/v3/keys/query"@,
            JsonView::empty_object().with("device_keys"@, device_keys@),
        ),
{
    let mut body = Json::object();
    body.put("device_keys", device_keys.copy());
    HttpRequest::with_body("POST", "/_matrix/client/v3/keys/query".to_owned(), body)
}

/// What comes of the reply to a query of the user's own keys.
pub fn own_keys_queried(reply: Result<Reply, Failure>) -> (r: Result<Json, Failure>)
    ensures
        machine::json_result(r) == match machine::accepted_body(
            "keys/query failed: "@,
            " "@,
            reply,
        ) {
            Err(f) => Err(f),
            Ok(body) => machine::read_body(
                body,
                machine::keys_query_error(machine::body_bytes(body)),
            ),
        },
{
    match accepted("keys/query failed: ", " ", reply) {
        Ok(body) => {
            let objection = keys_query_objection(write_bytes(&body));
            readable(body, objection)
        },
        Err(f) => Err(f),
    }
}

/// The request that uploads signatures.
pub fn signature_upload(signed_keys: &Json) -> (r: HttpRequest)
    ensures
        r@ == wire::body_request(
            "POST"@,
            "/_matrix/client/v3/keys/signatures/upload"@,
            signed_keys@,
        ),
{
    HttpRequest::with_body(
        "POST",
        "/_matrix/client/v3/keys/signatures/upload".to_owned(),
        signed_keys.copy(),
    )
}

/// What comes of the reply to an upload of the device's signature.
pub fn signature_uploaded(reply: Result<Reply, Failure>) -> (r: Result<Json, Failure>)
    ensures
        machine::json_result(r) == machine::accepted_body(
            "signature upload failed: "@,
            " "@,
            reply,
        ),
{
    accepted("signature upload failed: ", " ", reply)
}

/// Where the setting up of the device stands.
#[derive(PartialEq, Eq, Structural, Clone, Copy)]
pub enum BootstrapStage {
    /// The secret storage is opened.
    Open,
    /// The master key is fetched.
    MasterKey,
    /// The self-signing key is fetched.
    SelfSigningKey,
    /// The user-signing key is fetched.
    UserSigningKey,
    /// The user's public identity is fetched, against which the keys are checked.
    QueryKeys,
    /// The keys are imported.
    Import,
    /// The device is signed.
    Sign,
    /// The signature is uploaded.
    UploadSignature,
    /// The device's keys are fetched again, with the signature.
    RefreshKeys,
    /// The backup key is fetched.
    BackupKey,
    /// Room keys are restored from the backup.
    Restore,
    /// What is pending is sent.
    Pump,
    /// All is done.
    Finished,
    /// Something failed.
    Failed,
}

/// How far the setting up of the device has come, and what was found.
pub struct Bootstrap {
    pub stage: BootstrapStage,
    pub master_key: Option<String>,
    pub self_signing_key: Option<String>,
    pub user_signing_key: Option<String>,
    pub backup_key: Option<String>,
    pub signed: bool,
    pub backup: Option<BackupRestoreReport>,
}

/// How far the setting up of the device has come, and what was found.
pub struct BootstrapView {
    pub stage: BootstrapStage,
    pub master_key: Option<Seq<char>>,
    pub self_signing_key: Option<Seq<char>>,
    pub user_signing_key: Option<Seq<char>>,
    pub backup_key: Option<Seq<char>>,
    pub signed: bool,
    pub backup: Option<ReportView>,
}

impl Bootstrap {
    pub open spec fn view(&self) -> BootstrapView {
        BootstrapView {
            stage: self.stage,
            master_key: text::opt_text(self.master_key),
            self_signing_key: text::opt_text(self.self_signing_key),
            user_signing_key: text::opt_text(self.user_signing_key),
            backup_key: text::opt_text(self.backup_key),
            signed: self.signed,
            backup: match self.backup {
                Some(report) => Some(report@),
                None => None,
            },
        }
    }
}

/// What came of a stage.
pub enum BootstrapEvent {
    /// It is through.
    Through,
    /// The secret, if it is there.
    Secret(Option<String>),
    /// The keys were imported; with the self-signing key among those that the machine
    /// has, or without.
    Imported { has_self_signing: bool },
    /// Room keys were restored.
    Restored(BackupRestoreReport),
    /// It failed.
    Failed,
}

/// What came of a stage.
pub enum EventView {
    Through,
    Secret(Option<Seq<char>>),
    Imported { has_self_signing: bool },
    Restored(ReportView),
    Failed,
}

impl BootstrapEvent {
    pub open spec fn view(&self) -> EventView {
        match self {
            BootstrapEvent::Through => EventView::Through,
            BootstrapEvent::Secret(found) => EventView::Secret(text::opt_text(*found)),
            BootstrapEvent::Imported { has_self_signing } => EventView::Imported {
                has_self_signing: *has_self_signing,
            },
            BootstrapEvent::Restored(report) => EventView::Restored(report@),
            BootstrapEvent::Failed => EventView::Failed,
        }
    }
}

/// What is to be done at a stage.
pub enum BootstrapStep {
    /// Open the secret storage.
    OpenStorage,
    /// Fetch the secret of this name.
    FetchSecret(String),
    /// Fetch the user's own keys.
    QueryKeys,
    /// Import these cross-signing keys.
    Import {
        master_key: Option<String>,
        self_signing_key: Option<String>,
        user_signing_key: Option<String>,
    },
    /// Sign the device.
    Sign,
    /// Upload the signature.
    UploadSignature,
    /// Restore room keys with this backup key.
    Restore(String),
    /// Send what is pending.
    Pump,
    /// Report.
    Report,
    /// Nothing: something failed.
    Stop,
}

/// What is to be done at a stage.
pub enum StepView {
    OpenStorage,
    FetchSecret(Seq<char>),
    QueryKeys,
    Import {
        master_key: Option<Seq<char>>,
        self_signing_key: Option<Seq<char>>,
        user_signing_key: Option<Seq<char>>,
    },
    Sign,
    UploadSignature,
    Restore(Seq<char>),
    Pump,
    Report,
    Stop,
}

impl BootstrapStep {
    pub open spec fn view(&self) -> StepView {
        match self {
            BootstrapStep::OpenStorage => StepView::OpenStorage,
            BootstrapStep::FetchSecret(name) => StepView::FetchSecret(name@),
            BootstrapStep::QueryKeys => StepView::QueryKeys,
            BootstrapStep::Import { master_key, self_signing_key, user_signing_key } => {
                StepView::Import {
                    master_key: text::opt_text(*master_key),
                    self_signing_key: text::opt_text(*self_signing_key),
                    user_signing_key: text::opt_text(*user_signing_key),
                }
            },
            BootstrapStep::Sign => StepView::Sign,
            BootstrapStep::UploadSignature => StepView::UploadSignature,
            BootstrapStep::Restore(secret) => StepView::Restore(secret@),
            BootstrapStep::Pump => StepView::Pump,
            BootstrapStep::Report => StepView::Report,
            BootstrapStep::Stop => StepView::Stop,
        }
    }
}

/// The start.
pub open spec fn bootstrap_start() -> BootstrapView {
    BootstrapView {
        stage: BootstrapStage::Open,
        master_key: None,
        self_signing_key: None,
        user_signing_key: None,
        backup_key: None,
        signed: false,
        backup: None,
    }
}

/// The next stage of the setting up of the device.
pub open spec fn bootstrap_next(b: BootstrapView, event: EventView) -> BootstrapView {
    match (b.stage, event) {
        (BootstrapStage::Open, EventView::Through) => (BootstrapView {
            stage: BootstrapStage::MasterKey,
            ..b
        }),
        (BootstrapStage::MasterKey, EventView::Secret(found)) => (BootstrapView {
            stage: BootstrapStage::SelfSigningKey,
            master_key: found,
            ..b
        }),
        (BootstrapStage::SelfSigningKey, EventView::Secret(found)) => (BootstrapView {
            stage: BootstrapStage::UserSigningKey,
            self_signing_key: found,
            ..b
        }),
        (BootstrapStage::UserSigningKey, EventView::Secret(found)) => (BootstrapView {
            stage: BootstrapStage::QueryKeys,
            user_signing_key: found,
            ..b
        }),
        (BootstrapStage::QueryKeys, EventView::Through) => (BootstrapView {
            stage: BootstrapStage::Import,
            ..b
        }),
        (BootstrapStage::Import, EventView::Imported { has_self_signing }) => (BootstrapView {
            stage: if has_self_signing {
                BootstrapStage::Sign
            } else {
                BootstrapStage::BackupKey
            },
            ..b
        }),
        (BootstrapStage::Sign, EventView::Through) => (BootstrapView {
            stage: BootstrapStage::UploadSignature,
            ..b
        }),
        (BootstrapStage::UploadSignature, EventView::Through) => (BootstrapView {
            stage: BootstrapStage::RefreshKeys,
            ..b
        }),
        (BootstrapStage::RefreshKeys, EventView::Through) => (BootstrapView {
            stage: BootstrapStage::BackupKey,
            signed: true,
            ..b
        }),
        (BootstrapStage::BackupKey, EventView::Secret(found)) => (BootstrapView {
            stage: if found is Some {
                BootstrapStage::Restore
            } else {
                BootstrapStage::Pump
            },
            backup_key: found,
            ..b
        }),
        (BootstrapStage::Restore, EventView::Restored(report)) => (BootstrapView {
            stage: BootstrapStage::Pump,
            backup: Some(report),
            ..b
        }),
        (BootstrapStage::Pump, EventView::Through) => (BootstrapView {
            stage: BootstrapStage::Finished,
            ..b
        }),
        _ => (BootstrapView { stage: BootstrapStage::Failed, ..b }),
    }
}

/// Starts setting the device up.
pub fn start_bootstrap() -> (r: Bootstrap)
    ensures
        r@ == bootstrap_start(),
{
    Bootstrap {
        stage: BootstrapStage::Open,
        master_key: None,
        self_signing_key: None,
        user_signing_key: None,
        backup_key: None,
        signed: false,
        backup: None,
    }
}

/// The next stage of the setting up of the device: cross-signing keys are fetched from the
/// secret storage, checked against the user's public identity and imported; the device is
/// signed with them; and room keys are restored from the backup.
pub fn bootstrap(b: Bootstrap, event: BootstrapEvent) -> (r: Bootstrap)
    ensures
        r@ == bootstrap_next(b@, event@),
{
    let stage = b.stage;
    let mut next = b;
    match (stage, event) {
        (BootstrapStage::Open, BootstrapEvent::Through) => {
            next.stage = BootstrapStage::MasterKey;
        },
        (BootstrapStage::MasterKey, BootstrapEvent::Secret(found)) => {
            next.stage = BootstrapStage::SelfSigningKey;
            next.master_key = found;
        },
        (BootstrapStage::SelfSigningKey, BootstrapEvent::Secret(found)) => {
            next.stage = BootstrapStage::UserSigningKey;
            next.self_signing_key = found;
        },
        (BootstrapStage::UserSigningKey, BootstrapEvent::Secret(found)) => {
            next.stage = BootstrapStage::QueryKeys;
            next.user_signing_key = found;
        },
        (BootstrapStage::QueryKeys, BootstrapEvent::Through) => {
            next.stage = BootstrapStage::Import;
        },
        (BootstrapStage::Import, BootstrapEvent::Imported { has_self_signing }) => {
            next.stage = if has_self_signing {
                BootstrapStage::Sign
            } else {
                BootstrapStage::BackupKey
            };
        },
        (BootstrapStage::Sign, BootstrapEvent::Through) => {
            next.stage = BootstrapStage::UploadSignature;
        },
        (BootstrapStage::UploadSignature, BootstrapEvent::Through) => {
            next.stage = BootstrapStage::RefreshKeys;
        },
        (BootstrapStage::RefreshKeys, BootstrapEvent::Through) => {
            next.stage = BootstrapStage::BackupKey;
            next.signed = true;
        },
        (BootstrapStage::BackupKey, BootstrapEvent::Secret(found)) => {
            next.stage = if found.is_some() {
                BootstrapStage::Restore
            } else {
                BootstrapStage::Pump
            };
            next.backup_key = found;
        },
        (BootstrapStage::Restore, BootstrapEvent::Restored(report)) => {
            next.stage = BootstrapStage::Pump;
            next.backup = Some(report);
        },
        (BootstrapStage::Pump, BootstrapEvent::Through) => {
            next.stage = BootstrapStage::Finished;
        },
        _ => {
            next.stage = BootstrapStage::Failed;
        },
    }
    next
}

/// The name of the secret that a stage fetches.
pub open spec fn stage_secret(stage: BootstrapStage) -> Option<Seq<char>> {
    match stage {
        BootstrapStage::MasterKey => Some("m.cross_signing.master"@),
        BootstrapStage::SelfSigningKey => Some("m.cross_signing.self_signing"@),
        BootstrapStage::UserSigningKey => Some("m.cross_signing.user_signing"@),
        BootstrapStage::BackupKey => Some("m.megolm_backup.v1"@),
        _ => None,
    }
}

/// The name of the secret that a stage fetches.
pub fn secret_name(stage: BootstrapStage) -> (r: Option<String>)
    ensures
        text::opt_text(r) == stage_secret(stage),
{
    match stage {
        BootstrapStage::MasterKey => Some("m.cross_signing.master".to_owned()),
        BootstrapStage::SelfSigningKey => Some("m.cross_signing.self_signing".to_owned()),
        BootstrapStage::UserSigningKey => Some("m.cross_signing.user_signing".to_owned()),
        BootstrapStage::BackupKey => Some("m.megolm_backup.v1".to_owned()),
        _ => None,
    }
}

/// What is to be done, by how far it has come.
pub open spec fn step_of(b: BootstrapView) -> StepView {
    match (b.stage, stage_secret(b.stage), b.backup_key) {
        (_, Some(name), _) => StepView::FetchSecret(name),
        (BootstrapStage::Open, _, _) => StepView::OpenStorage,
        (BootstrapStage::QueryKeys, _, _) => StepView::QueryKeys,
        (BootstrapStage::RefreshKeys, _, _) => StepView::QueryKeys,
        (BootstrapStage::Import, _, _) => StepView::Import {
            master_key: b.master_key,
            self_signing_key: b.self_signing_key,
            user_signing_key: b.user_signing_key,
        },
        (BootstrapStage::Sign, _, _) => StepView::Sign,
        (BootstrapStage::UploadSignature, _, _) => StepView::UploadSignature,
        (BootstrapStage::Restore, _, Some(secret)) => StepView::Restore(secret),
        (BootstrapStage::Pump, _, _) => StepView::Pump,
        (BootstrapStage::Finished, _, _) => StepView::Report,
        _ => StepView::Stop,
    }
}

/// What is to be done, by how far it has come.
pub fn bootstrap_step(b: &Bootstrap) -> (r: BootstrapStep)
    ensures
        r@ == step_of(b@),
{
    match secret_name(b.stage) {
        Some(name) => {
            return BootstrapStep::FetchSecret(name);
        },
        None => {},
    }
    match b.stage {
        BootstrapStage::Open => BootstrapStep::OpenStorage,
        BootstrapStage::QueryKeys => BootstrapStep::QueryKeys,
        BootstrapStage::RefreshKeys => BootstrapStep::QueryKeys,
        BootstrapStage::Import => BootstrapStep::Import {
            master_key: copy_text(&b.master_key),
            self_signing_key: copy_text(&b.self_signing_key),
            user_signing_key: copy_text(&b.user_signing_key),
        },
        BootstrapStage::Sign => BootstrapStep::Sign,
        BootstrapStage::UploadSignature => BootstrapStep::UploadSignature,
        BootstrapStage::Restore => match &b.backup_key {
            Some(secret) => BootstrapStep::Restore(secret.clone()),
            None => BootstrapStep::Stop,
        },
        BootstrapStage::Pump => BootstrapStep::Pump,
        BootstrapStage::Finished => BootstrapStep::Report,
        _ => BootstrapStep::Stop,
    }
}

/// A failure at a stage, with what is said of it. Most stages say it themselves.
pub fn stage_failure(stage: BootstrapStage, f: Failure) -> (r: Failure)
    ensures
        r@ == match stage {
            BootstrapStage::Import => seq![
                "importing cross-signing keys failed (do they match the server identity?)"@,
            ] + f@,
            BootstrapStage::Sign => seq!["self-signing device failed"@] + f@,
            _ => f@,
        },
{
    match stage {
        BootstrapStage::Import => f.context(
            "importing cross-signing keys failed (do they match the server identity?)",
        ),
        BootstrapStage::Sign => f.context("self-signing device failed"),
        _ => f,
    }
}

/// The report on the setting up of the device. Where there is no backup key, nothing was
/// restored.
pub fn bootstrap_report(b: Bootstrap) -> (r: BootstrapReport)
    ensures
        r.imported_master_key == (b@.master_key is Some),
        r.imported_self_signing_key == (b@.self_signing_key is Some),
        r.imported_user_signing_key == (b@.user_signing_key is Some),
        r.own_device_signed == b@.signed,
        r.backup@ == match b@.backup {
            Some(report) => report,
            None => backup::no_backup(),
        },
{
    BootstrapReport {
        imported_master_key: b.master_key.is_some(),
        imported_self_signing_key: b.self_signing_key.is_some(),
        imported_user_signing_key: b.user_signing_key.is_some(),
        own_device_signed: b.signed,
        backup: match b.backup {
            Some(report) => report,
            None => BackupRestoreReport::none(),
        },
    }
}

/// The state behind some events.
pub open spec fn bootstrap_after(events: Seq<EventView>) -> BootstrapView
    decreases events.len(),
{
    if events.len() == 0 {
        bootstrap_start()
    } else {
        bootstrap_next(bootstrap_after(events.drop_last()), events.last())
    }
}

/// What the event at place `i` came of.
pub open spec fn step_before(events: Seq<EventView>, i: int) -> StepView {
    step_of(bootstrap_after(events.take(i)))
}

/// The keys are imported only once the user's public identity was fetched, against which
/// they are checked.
pub proof fn imports_after_query(b: BootstrapView, event: EventView)
    requires
        step_of(bootstrap_next(b, event)) is Import,
    ensures
        step_of(b) == StepView::QueryKeys,
        event == EventView::Through,
{
}

/// The stages in which the device is signed.
pub open spec fn signing(stage: BootstrapStage) -> bool {
    ||| stage == BootstrapStage::Sign
    ||| stage == BootstrapStage::UploadSignature
    ||| stage == BootstrapStage::RefreshKeys
}

/// Whether an import that left the machine with the self-signing key is among the events.
pub open spec fn imported_self_signing(events: Seq<EventView>) -> bool {
    events.contains(EventView::Imported { has_self_signing: true })
}

/// The device is reported as signed only after keys were imported that can sign it; it is
/// neither reported as signed nor signed before.
pub proof fn signed_after_import(events: Seq<EventView>)
    ensures
        bootstrap_after(events).signed || signing(bootstrap_after(events).stage)
            ==> imported_self_signing(events),
    decreases events.len(),
{
    if events.len() > 0 {
        let front = events.drop_last();
        signed_after_import(front);
        if imported_self_signing(front) {
            let i = choose|i: int|
                0 <= i < front.len() && front[i] == (EventView::Imported {
                    has_self_signing: true,
                });
            assert(events[i] == (EventView::Imported { has_self_signing: true }));
        }
        if events.last() == (EventView::Imported { has_self_signing: true }) {
            assert(events[events.len() - 1] == (EventView::Imported { has_self_signing: true }));
        }
    }
}

/// Whether the event at place `i` brought the secret of a name.
pub open spec fn brought(
    events: Seq<EventView>,
    i: int,
    name: Seq<char>,
    found: Option<Seq<char>>,
) -> bool {
    &&& 0 <= i < events.len()
    &&& step_before(events, i) == StepView::FetchSecret(name)
    &&& events[i] == EventView::Secret(found)
}

proof fn lemma_brought(
    front: Seq<EventView>,
    last: EventView,
    i: int,
    name: Seq<char>,
    found: Option<Seq<char>>,
)
    requires
        brought(front, i, name, found),
    ensures
        brought(front.push(last), i, name, found),
{
    assert(front.push(last).take(i) =~= front.take(i));
}

/// The keys that are held at a stage behind their fetching are the secrets of their names.
proof fn lemma_held_keys(events: Seq<EventView>)
    ensures
        ({
            let b = bootstrap_after(events);
            &&& b.master_key matches Some(_) ==> brought(
                events,
                1,
                "m.cross_signing.master"@,
                b.master_key,
            )
            &&& b.self_signing_key matches Some(_) ==> brought(
                events,
                2,
                "m.cross_signing.self_signing"@,
                b.self_signing_key,
            )
            &&& b.user_signing_key matches Some(_) ==> brought(
                events,
                3,
                "m.cross_signing.user_signing"@,
                b.user_signing_key,
            )
            &&& b.stage == BootstrapStage::Open ==> events.len() == 0
            &&& b.stage == BootstrapStage::MasterKey ==> events.len() == 1
            &&& b.stage == BootstrapStage::SelfSigningKey ==> events.len() == 2
            &&& b.stage == BootstrapStage::UserSigningKey ==> events.len() == 3
        }),
    decreases events.len(),
{
    if events.len() > 0 {
        let front = events.drop_last();
        lemma_held_keys(front);
        let a = bootstrap_after(front);
        let n = front.len() as int;
        assert(front.push(events.last()) =~= events);
        assert(events.take(n) =~= front);
        if a.master_key is Some {
            lemma_brought(front, events.last(), 1, "m.cross_signing.master"@, a.master_key);
        }
        if a.self_signing_key is Some {
            lemma_brought(
                front,
                events.last(),
                2,
                "m.cross_signing.self_signing"@,
                a.self_signing_key,
            );
        }
        if a.user_signing_key is Some {
            lemma_brought(
                front,
                events.last(),
                3,
                "m.cross_signing.user_signing"@,
                a.user_signing_key,
            );
        }
    }
}

/// Each key is imported as what it is: what the import hands out as the master key, the
/// self-signing key and the user-signing key was found in the secret storage under the
/// name of that key. The report says of the same keys that they were imported.
pub proof fn keys_are_imported_by_name(events: Seq<EventView>)
    ensures
        ({
            let b = bootstrap_after(events);
            &&& step_of(b) matches StepView::Import { master_key, self_signing_key, user_signing_key }
                ==> master_key == b.master_key && self_signing_key == b.self_signing_key
                && user_signing_key == b.user_signing_key
            &&& b.master_key is Some ==> brought(
                events,
                1,
                "m.cross_signing.master"@,
                b.master_key,
            )
            &&& b.self_signing_key is Some ==> brought(
                events,
                2,
                "m.cross_signing.self_signing"@,
                b.self_signing_key,
            )
            &&& b.user_signing_key is Some ==> brought(
                events,
                3,
                "m.cross_signing.user_signing"@,
                b.user_signing_key,
            )
        }),
{
    lemma_held_keys(events);
}

/// Room keys are restored with the secret that was found under the name of the backup key,
/// just before.
pub proof fn backup_is_restored_by_name(events: Seq<EventView>, secret: Seq<char>)
    requires
        step_of(bootstrap_after(events)) == StepView::Restore(secret),
    ensures
        brought(events, events.len() - 1, "m.megolm_backup.v1"@, Some(secret)),
{
    let front = events.drop_last();
    assert(events.take(events.len() - 1) =~= front);
}

/// The keys that are reported as imported are those that were found in the secret storage:
/// a run that got as far as the query of the user's keys fetched them one after the other,
/// and holds what was found.
pub proof fn report_tells_what_was_found(events: Seq<EventView>)
    requires
        bootstrap_after(events).stage == BootstrapStage::QueryKeys,
    ensures
        events.len() == 4,
        events[1] == EventView::Secret(bootstrap_after(events).master_key),
        events[2] == EventView::Secret(bootstrap_after(events).self_signing_key),
        events[3] == EventView::Secret(bootstrap_after(events).user_signing_key),
{
    let e3 = events.drop_last();
    let e2 = e3.drop_last();
    let e1 = e2.drop_last();
    assert(bootstrap_after(e3).stage == BootstrapStage::UserSigningKey);
    assert(bootstrap_after(e2).stage == BootstrapStage::SelfSigningKey);
    assert(bootstrap_after(e1).stage == BootstrapStage::MasterKey);
    lemma_held_keys(e1);
}

/// A failure at any stage ends it.
pub proof fn failure_ends_bootstrap(b: BootstrapView, event: EventView)
    requires
        event == EventView::Failed || b.stage == BootstrapStage::Failed,
    ensures
        bootstrap_next(b, event).stage == BootstrapStage::Failed,
        step_of(bootstrap_next(b, event)) == StepView::Stop,
{
}

} // verus!
