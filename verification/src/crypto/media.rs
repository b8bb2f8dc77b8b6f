//! Encrypted attachments: every upload is encrypted, downloads are decrypted, and
//! message contents point to the one or the other.

use crate::error::{ProxyError, ProxyErrorView};
use crate::failure::Failure;
use crate::json::{Json, JsonView};
use crate::json_text;
use crate::json_text::{from_value, parse_json, to_value, write_json};
use crate::percent;
use crate::percent::{dec, enc};
use crate::proxy;
use crate::proxy::intercept;
use crate::proxy::intercept::raw_response;
use crate::proxy::value_in_query;
use crate::text;
use crate::text::{copy_text, split_once, strip_prefix};
use crate::wire;
use crate::wire::{
    header_text, header_value, is_success, json_content_type, Response, ResponseView,
};
use std::io::Read;
use vstd::prelude::*;
use vstd::string::*;
use vstd::utf8::*;

verus! {

/// How many bytes an upload may have.
pub const MAX_UPLOAD_BYTES: usize = 536_870_912;

/// How an attachment was encrypted, and what kind of file it is.
pub struct MediaEntry {
    /// The key, the initialization vector and the hashes, as JSON.
    pub info: Json,
    pub mimetype: Option<String>,
    pub filename: Option<String>,
}

/// What an entry says.
pub struct EntryView {
    pub info: JsonView,
    pub mimetype: Option<Seq<char>>,
    pub filename: Option<Seq<char>>,
}

impl MediaEntry {
    pub open spec fn view(&self) -> EntryView {
        EntryView {
            info: self.info@,
            mimetype: text::opt_text(self.mimetype),
            filename: text::opt_text(self.filename),
        }
    }
}

/// What an optional entry says.
pub open spec fn opt_entry(e: Option<MediaEntry>) -> Option<EntryView> {
    match e {
        Some(e) => Some(e@),
        None => None,
    }
}

/// A row of the table of attachment keys.
pub struct MediaRow {
    pub mxc: String,
    pub key_json: String,
    pub mimetype: Option<String>,
    pub filename: Option<String>,
}

/// What a row says.
pub struct RowView {
    pub mxc: Seq<char>,
    pub key_json: Seq<char>,
    pub mimetype: Option<Seq<char>>,
    pub filename: Option<Seq<char>>,
}

impl MediaRow {
    pub open spec fn view(&self) -> RowView {
        RowView {
            mxc: self.mxc@,
            key_json: self.key_json@,
            mimetype: text::opt_text(self.mimetype),
            filename: text::opt_text(self.filename),
        }
    }

    /// The same row once more.
    pub fn copy(&self) -> (r: MediaRow)
        ensures
            r@ == self@,
    {
        MediaRow {
            mxc: self.mxc.clone(),
            key_json: self.key_json.clone(),
            mimetype: copy_text(&self.mimetype),
            filename: copy_text(&self.filename),
        }
    }
}

/// What an optional row says.
pub open spec fn opt_row(r: Option<MediaRow>) -> Option<RowView> {
    match r {
        Some(r) => Some(r@),
        None => None,
    }
}

/// The row that keeps an entry.
pub open spec fn row_of(mxc: Seq<char>, entry: EntryView) -> RowView {
    RowView {
        mxc,
        key_json: json_text::json_text(entry.info),
        mimetype: entry.mimetype,
        filename: entry.filename,
    }
}

/// What comes of decrypting an attachment.
pub enum Attachment {
    Plain(Vec<u8>),
    /// The encryption info is of no use.
    BadInfo(String),
    /// The data does not go with the encryption info.
    Damaged(String),
}

/// What comes of decrypting an attachment.
pub enum AttachmentView {
    Plain(Seq<u8>),
    BadInfo(Seq<char>),
    Damaged(Seq<char>),
}

impl Attachment {
    pub open spec fn view(&self) -> AttachmentView {
        match self {
            Attachment::Plain(data) => AttachmentView::Plain(data@),
            Attachment::BadInfo(e) => AttachmentView::BadInfo(e@),
            Attachment::Damaged(e) => AttachmentView::Damaged(e@),
        }
    }
}

/// What `matrix_sdk_crypto::AttachmentDecryptor` makes of data and encryption info.
pub uninterp spec fn attachment(data: Seq<u8>, info: JsonView) -> AttachmentView;

/// What `serde_json` reads from the text of a `matrix_sdk_crypto::MediaEncryptionInfo`,
/// as JSON again.
pub uninterp spec fn stored_info(key_json: Seq<char>) -> Option<JsonView>;

/// What `ruma`'s `EncryptedFile` reads from a JSON value: the URL of the file, and its
/// encryption info as JSON again.
pub uninterp spec fn encrypted_file(file: JsonView) -> Option<(Seq<char>, JsonView)>;

/// Whether encryption info is of the second version of the protocol, the one in use.
pub open spec fn is_v2(info: JsonView) -> bool {
    info.get_text("v"@) == Some("v2"@)
}

/// Whether `serde_json` reads a value back from its text as it was, at most so many levels
/// deep: it holds no number that is not natural, and no member by which `serde_json` marks
/// text that it parses once more.
pub open spec fn rereadable(j: JsonView, depth: nat) -> bool
    decreases depth,
{
    match j {
        JsonView::Number(_) => false,
        JsonView::Array(items) => depth > 0 && forall|i: int|
            0 <= i < items.len() ==> rereadable(#[trigger] items[i], (depth - 1) as nat),
        JsonView::Object(members) => depth > 0 && !members.contains_key(
            "$serde_json::private::RawValue"@,
        ) && forall|k: Seq<char>| #[trigger]
            members.contains_key(k) ==> rereadable(members[k], (depth - 1) as nat),
        _ => true,
    }
}

/// Whether encryption info is kept as it is by those that read and write it: that of the
/// second version is, and so is that of any other version which can be read back and does
/// not hold a `url` of its own.
pub open spec fn keepable(info: JsonView) -> bool {
    is_v2(info) || (rereadable(info, 100) && info.get("url"@) is None)
}

/// Whether encryption info can be stored, and sent as part of a file, and read back.
pub open spec fn lasting_info(info: JsonView) -> bool {
    &&& info is Object
    &&& stored_info(json_text::json_text(info)) == Some(info)
    &&& forall|url: Seq<char>| #[trigger]
        encrypted_file(info.with("url"@, JsonView::Str(url))) == Some((url, info))
}

/// `matrix_sdk_crypto::AttachmentEncryptor`, read to its end, and its `finish`. The key
/// is chosen at random. It succeeds: it fails only where the reader under it does, and that
/// is a slice in memory. What comes out decrypts to what went in. Its encryption info is of
/// the second version, and can be read back from its text, and from an `EncryptedFile` that
/// has a URL besides.
#[verifier::external_body]
fn encryptor(data: &[u8]) -> (r: Result<(Vec<u8>, serde_json::Value), String>)
    ensures
        match r {
            Ok((encrypted, info)) => attachment(encrypted@, json_text::value_json(info))
                == AttachmentView::Plain(data@) && is_v2(json_text::value_json(info))
                && lasting_info(json_text::value_json(info)),
            Err(_) => false,
        },
{
    let mut cursor = std::io::Cursor::new(data);
    let mut encryptor = matrix_sdk_crypto::AttachmentEncryptor::new(&mut cursor);
    let mut encrypted = Vec::with_capacity(data.len());
    encryptor.read_to_end(&mut encrypted).map_err(|e| e.to_string())?;
    let info = serde_json::to_value(encryptor.finish()).map_err(|e| e.to_string())?;
    Ok((encrypted, info))
}

/// `matrix_sdk_crypto::AttachmentDecryptor`, made for the encryption info and read to its
/// end.
#[verifier::external_body]
fn decryptor(data: &[u8], info: serde_json::Value) -> (r: Attachment)
    ensures
        r@ == attachment(data@, json_text::value_json(info)),
{
    let info: matrix_sdk_crypto::MediaEncryptionInfo = match serde_json::from_value(info) {
        Ok(info) => info,
        Err(e) => return Attachment::BadInfo(e.to_string()),
    };
    let mut cursor = std::io::Cursor::new(data);
    match matrix_sdk_crypto::AttachmentDecryptor::new(&mut cursor, info) {
        Ok(mut decryptor) => {
            let mut plain = Vec::with_capacity(data.len());
            let read = decryptor.read_to_end(&mut plain);
            read.map_or_else(|e| Attachment::Damaged(e.to_string()), |_| Attachment::Plain(plain))
        }
        Err(e) => Attachment::BadInfo(e.to_string()),
    }
}

/// `serde_json::from_str` of a `matrix_sdk_crypto::MediaEncryptionInfo`, as JSON again.
/// Info of the second version is written in one form only, and read back from it; of other
/// versions all members are kept.
#[verifier::external_body]
fn info_from_text(key_json: &str) -> (r: Option<serde_json::Value>)
    ensures
        match r {
            Some(v) => stored_info(key_json@) == Some(json_text::value_json(v)) && (keepable(
                json_text::value_json(v),
            ) ==> lasting_info(json_text::value_json(v))),
            None => stored_info(key_json@) is None,
        },
{
    let info: matrix_sdk_crypto::MediaEncryptionInfo = serde_json::from_str(key_json).ok()?;
    serde_json::to_value(info).ok()
}

/// `serde_json::from_value` of a `ruma::events::room::EncryptedFile`: its URL, and its
/// encryption info as JSON again. Info of the second version is written in one form only,
/// and read back from it; of other versions all members are kept.
#[verifier::external_body]
fn file_from_value(file: serde_json::Value) -> (r: Option<(String, serde_json::Value)>)
    ensures
        match r {
            Some((url, info)) => encrypted_file(json_text::value_json(file)) == Some(
                (url@, json_text::value_json(info)),
            ) && (keepable(json_text::value_json(info)) ==> lasting_info(
                json_text::value_json(info),
            )),
            None => encrypted_file(json_text::value_json(file)) is None,
        },
{
    let file: ruma::events::room::EncryptedFile = serde_json::from_value(file).ok()?;
    let url = file.url.to_string();
    let info = matrix_sdk_crypto::MediaEncryptionInfo::from(file);
    Some((url, serde_json::to_value(info).ok()?))
}

/// Encrypts an attachment. What comes out is decrypted by `decrypt_attachment` to what
/// went in, with encryption info that survives being stored and being sent.
pub fn encrypt_attachment(data: &[u8]) -> (r: Result<(Vec<u8>, Json), Failure>)
    ensures
        r matches Ok((encrypted, info)) && attachment(encrypted@, info@) == AttachmentView::Plain(
            data@,
        ) && is_v2(info@) && lasting_info(info@),
{
    match encryptor(data) {
        Ok((encrypted, info)) => Ok((encrypted, from_value(info))),
        Err(e) => Err(Failure::new(e.as_str())),
    }
}

/// What comes of a decryption, as a result.
pub open spec fn plaintext(a: AttachmentView) -> Result<Seq<u8>, Seq<Seq<char>>> {
    match a {
        AttachmentView::Plain(data) => Ok(data),
        AttachmentView::BadInfo(e) => Err(seq!["bad media encryption info"@, e]),
        AttachmentView::Damaged(e) => Err(seq!["media decryption failed (hash mismatch?)"@, e]),
    }
}

/// The view of a result that is bytes.
pub open spec fn bytes_result(r: Result<Vec<u8>, Failure>) -> Result<Seq<u8>, Seq<Seq<char>>> {
    match r {
        Ok(data) => Ok(data@),
        Err(f) => Err(f@),
    }
}

/// The data of a decrypted attachment, or why there is none.
pub fn attachment_data(a: Attachment) -> (r: Result<Vec<u8>, Failure>)
    ensures
        bytes_result(r) == plaintext(a@),
{
    match a {
        Attachment::Plain(data) => Ok(data),
        Attachment::BadInfo(e) => {
            let f = Failure::caused("bad media encryption info", e.as_str());
            Err(f)
        },
        Attachment::Damaged(e) => {
            let f = Failure::caused("media decryption failed (hash mismatch?)", e.as_str());
            Err(f)
        },
    }
}

/// Decrypts an attachment.
pub fn decrypt_attachment(data: &[u8], info: &Json) -> (r: Result<Vec<u8>, Failure>)
    ensures
        bytes_result(r) == plaintext(attachment(data@, info@)),
{
    attachment_data(decryptor(data, to_value(info)))
}

/// The row that keeps an entry under the URI of its attachment.
pub fn media_row(mxc: &str, entry: &MediaEntry) -> (r: MediaRow)
    ensures
        r@ == row_of(mxc@, entry@),
        lasting_info(entry.info@) ==> entry_of(r@) == Some(entry@),
{
    MediaRow {
        mxc: mxc.to_owned(),
        key_json: write_json(&entry.info),
        mimetype: copy_text(&entry.mimetype),
        filename: copy_text(&entry.filename),
    }
}

/// The entry that a row keeps.
pub open spec fn entry_of(row: RowView) -> Option<EntryView> {
    match stored_info(row.key_json) {
        Some(info) => Some(
            EntryView { info, mimetype: row.mimetype, filename: row.filename },
        ),
        None => None,
    }
}

/// The entry that a row keeps; none where its key cannot be read. What was read can be
/// stored, and sent, again.
pub fn media_entry(row: MediaRow) -> (r: Option<MediaEntry>)
    ensures
        opt_entry(r) == entry_of(row@),
        r matches Some(e) ==> (keepable(e.info@) ==> lasting_info(e.info@)),
{
    match info_from_text(row.key_json.as_str()) {
        Some(info) => Some(
            MediaEntry {
                info: from_value(info),
                mimetype: row.mimetype,
                filename: row.filename,
            },
        ),
        None => None,
    }
}

/// A file that goes to the homeserver's media store.
pub struct RawUpload {
    pub path: String,
    pub content_type: String,
    pub body: Vec<u8>,
    /// The name that the file is stored under, if any.
    pub filename: Option<String>,
}

/// An encrypted upload on its way: the file, and the entry to keep.
pub struct Upload {
    pub file: RawUpload,
    pub entry: MediaEntry,
}

/// The name of a file that an upload's query gives.
pub open spec fn upload_filename(query: Option<Seq<char>>) -> Option<Seq<char>> {
    match proxy::query_value(query, "filename="@) {
        Some(name) => Some(percent::decoded_text(name)),
        None => None,
    }
}

/// The type of a file that an upload's header gives.
pub open spec fn upload_type(content_type: Option<Seq<u8>>) -> Option<Seq<char>> {
    match content_type {
        Some(bytes) => wire::header_string(bytes),
        None => None,
    }
}

/// The upload made of an encrypted attachment, or why there is none. The homeserver gets
/// the ciphertext without the file's type and name; these are kept with the key.
pub fn encrypted_upload(
    query: Option<&str>,
    content_type: Option<&[u8]>,
    encrypted: Result<(Vec<u8>, Json), Failure>,
) -> (r: Result<Upload, ProxyError>)
    ensures
        match encrypted {
            Ok((bytes, info)) => {
                &&& r matches Ok(upload)
                &&& upload.file.path@ == "/_matrix/media/v3/upload"@
                &&& upload.file.content_type@ == "application/octet-stream"@
                &&& upload.file.filename is None
                &&& upload.file.body@ == bytes@
                &&& upload.entry.info@ == info@
                &&& text::opt_text(upload.entry.filename) == upload_filename(text::opt_str(query))
                &&& text::opt_text(upload.entry.mimetype) == upload_type(
                    proxy::opt_slice(content_type),
                )
            },
            Err(f) => r matches Err(e) && e@ == ProxyErrorView::Internal(f@),
        },
{
    let filename = match value_in_query(query, "filename=") {
        Some(name) => Some(dec(name.as_str())),
        None => None,
    };
    let mimetype = match content_type {
        Some(bytes) => header_text(bytes),
        None => None,
    };
    match encrypted {
        Ok((body, info)) => Ok(
            Upload {
                file: RawUpload {
                    path: "/_matrix/media/v3/upload".to_owned(),
                    content_type: "application/octet-stream".to_owned(),
                    body,
                    filename: None,
                },
                entry: MediaEntry { info, mimetype, filename },
            },
        ),
        Err(f) => Err(ProxyError::Internal(f)),
    }
}

/// Encrypts an upload. The key is chosen at random; what goes to the homeserver decrypts to
/// the body with the key that is kept.
pub fn handle_upload(
    query: Option<&str>,
    content_type: Option<&[u8]>,
    body: Result<Vec<u8>, String>,
) -> (r: Result<Upload, ProxyError>)
    ensures
        match body {
            Ok(data) => {
                &&& r matches Ok(upload)
                &&& upload.file.path@ == "/_matrix/media/v3/upload"@
                &&& upload.file.content_type@ == "application/octet-stream"@
                &&& upload.file.filename is None
                &&& attachment(upload.file.body@, upload.entry.info@) == AttachmentView::Plain(data@)
                &&& is_v2(upload.entry.info@)
                &&& lasting_info(upload.entry.info@)
                &&& text::opt_text(upload.entry.filename) == upload_filename(text::opt_str(query))
                &&& text::opt_text(upload.entry.mimetype) == upload_type(
                    proxy::opt_slice(content_type),
                )
            },
            Err(why) => r matches Err(e) && e@ == ProxyErrorView::BadRequest(
                "failed to read upload: "@ + why@,
            ),
        },
{
    match body {
        Ok(body) => encrypted_upload(query, content_type, encrypt_attachment(body.as_slice())),
        Err(e) => Err(
            ProxyError::BadRequest("failed to read upload: ".to_owned().concat(e.as_str())),
        ),
    }
}

/// The URI that the homeserver gave an upload.
pub open spec fn content_uri(status: u16, bytes: Seq<u8>) -> Option<Seq<char>> {
    if wire::success(status) {
        match json_text::parsed(bytes) {
            Ok(body) => body.get_text("content_uri"@),
            Err(_) => None,
        }
    } else {
        None
    }
}

/// The row to store once the homeserver has replied to an upload.
pub fn upload_row(entry: &MediaEntry, status: u16, bytes: &[u8]) -> (r: Option<MediaRow>)
    ensures
        opt_row(r) == match content_uri(status, bytes@) {
            Some(mxc) => Some(row_of(mxc, entry@)),
            None => None,
        },
{
    if !is_success(status) {
        return None;
    }
    match parse_json(bytes) {
        Ok(body) => match body.get_text("content_uri") {
            Some(mxc) => Some(media_row(mxc.as_str(), entry)),
            None => None,
        },
        Err(_) => None,
    }
}

/// The client's response to an upload: the homeserver's, unless the key could not be
/// stored.
pub fn upload_response(status: u16, bytes: Vec<u8>, stored: Result<(), Failure>) -> (r: Result<
    Response,
    ProxyError,
>)
    ensures
        intercept::outcome(r) == match stored {
            Ok(_) => intercept::raw(status, Some(wire::json_type()), bytes@),
            Err(f) => Err(ProxyErrorView::Internal(f@)),
        },
{
    match stored {
        Ok(_) => raw_response(status, Some(json_content_type()), bytes),
        Err(f) => Err(ProxyError::Internal(f)),
    }
}

/// The URI of an attachment.
pub open spec fn mxc_uri(server: Seq<char>, media_id: Seq<char>) -> Seq<char> {
    "mxc://"@ + server + "/"@ + media_id
}

/// The path that an attachment is downloaded from. It is the authenticated one, as it
/// serves encrypted and other media alike, and requests that came without a token.
pub open spec fn download_url(server: Seq<char>, media_id: Seq<char>) -> Seq<char> {
    "/_matrix/client/v1/media/download/"@ + percent::encoded_text(server) + "/"@
        + percent::encoded_text(media_id)
}

/// The URI of an attachment.
pub fn media_uri(server: &str, media_id: &str) -> (r: String)
    ensures
        r@ == mxc_uri(server@, media_id@),
{
    "mxc://".to_owned().concat(server).concat("/").concat(media_id)
}

/// The path that an attachment is downloaded from.
pub fn download_path(server: &str, media_id: &str) -> (r: String)
    ensures
        r@ == download_url(server@, media_id@),
{
    "/_matrix/client/v1/media/download/".to_owned().concat(enc(server).as_str()).concat(
        "/",
    ).concat(enc(media_id).as_str())
}

/// The type that a decrypted attachment is served with.
pub open spec fn served_type(mimetype: Option<Seq<char>>) -> Seq<u8> {
    match mimetype {
        Some(m) => if wire::valid_header(m) {
            encode_utf8(m)
        } else {
            encode_utf8("application/octet-stream"@)
        },
        None => encode_utf8("application/octet-stream"@),
    }
}

/// The disposition that a file of the given name is served with.
pub open spec fn disposition(filename: Seq<char>) -> Seq<char> {
    "inline; filename=\""@ + filename + "\""@
}

/// The headers that a decrypted attachment is served with.
pub open spec fn served_headers(entry: EntryView) -> Seq<(Seq<char>, Seq<u8>)> {
    let first = ("content-type"@, served_type(entry.mimetype));
    match entry.filename {
        Some(name) => if wire::valid_header(disposition(name)) {
            seq![first, ("content-disposition"@, encode_utf8(disposition(name)))]
        } else {
            seq![first]
        },
        None => seq![first],
    }
}

/// What becomes of a download: attachments with an entry are decrypted, others, and
/// refusals, are handed on as they are.
pub open spec fn downloaded(
    entry: Option<EntryView>,
    status: u16,
    content_type: Option<Seq<u8>>,
    bytes: Seq<u8>,
) -> Result<ResponseView, ProxyErrorView> {
    match entry {
        Some(entry) => if wire::success(status) {
            decrypted_response(entry, attachment(bytes, entry.info))
        } else {
            intercept::raw(status, content_type, bytes)
        },
        None => intercept::raw(status, content_type, bytes),
    }
}

/// The response made of a decrypted attachment.
pub open spec fn decrypted_response(entry: EntryView, a: AttachmentView) -> Result<
    ResponseView,
    ProxyErrorView,
> {
    match plaintext(a) {
        Ok(data) => Ok(
            ResponseView { status: 200, headers: served_headers(entry), body: data },
        ),
        Err(f) => Err(ProxyErrorView::Internal(f)),
    }
}

/// The response made of a decrypted attachment.
pub fn attachment_response(entry: &MediaEntry, a: Attachment) -> (r: Result<Response, ProxyError>)
    ensures
        intercept::outcome(r) == decrypted_response(entry@, a@),
{
    let data = match attachment_data(a) {
        Ok(data) => data,
        Err(f) => {
            return Err(ProxyError::Internal(f));
        },
    };
    let fallback = "application/octet-stream";
    let content_type = match &entry.mimetype {
        Some(m) => match header_value(m.as_str()) {
            Some(v) => v,
            None => fallback.as_bytes_vec(),
        },
        None => fallback.as_bytes_vec(),
    };
    let mut headers: Vec<(String, Vec<u8>)> = Vec::new();
    headers.push(("content-type".to_owned(), content_type));
    let ghost first = ("content-type"@, content_type@);
    assert(wire::headers_view(headers@) =~= seq![first]);
    match &entry.filename {
        Some(name) => {
            let value = "inline; filename=\"".to_owned().concat(name.as_str()).concat("\"");
            match header_value(value.as_str()) {
                Some(v) => {
                    headers.push(("content-disposition".to_owned(), v));
                    assert(wire::headers_view(headers@) =~= seq![
                        first,
                        ("content-disposition"@, v@),
                    ]);
                },
                None => {},
            }
        },
        None => {},
    }
    Ok(Response { status: 200, headers, body: data })
}

/// The client's response to a download.
pub fn handle_download(
    entry: Option<MediaEntry>,
    status: u16,
    content_type: Option<Vec<u8>>,
    bytes: Vec<u8>,
) -> (r: Result<Response, ProxyError>)
    ensures
        intercept::outcome(r) == downloaded(
            opt_entry(entry),
            status,
            wire::opt_bytes(content_type),
            bytes@,
        ),
{
    let entry = match entry {
        Some(entry) => entry,
        None => {
            return raw_response(status, content_type, bytes);
        },
    };
    if !is_success(status) {
        return raw_response(status, content_type, bytes);
    }
    let a = decryptor(bytes.as_slice(), to_value(&entry.info));
    attachment_response(&entry, a)
}

/// The URI of the attachment that a message content points to.
pub fn attachment_uri(content: &Json) -> (r: Option<String>)
    ensures
        text::opt_text(r) == content@.get_text("url"@),
{
    content.get_text("url")
}

/// The object with the file type noted in its info, unless one is noted there.
pub open spec fn with_mimetype(content: JsonView, mimetype: Option<Seq<char>>) -> JsonView {
    match mimetype {
        Some(m) => {
            let info = match content.get("info"@) {
                Some(info) => info,
                None => JsonView::empty_object(),
            };
            content.with("info"@, info.with_default("mimetype"@, JsonView::Str(m)))
        },
        None => content,
    }
}

/// A content for an encrypted room: the URL of an attachment whose key is known moves
/// into a `file` with the key, so that recipients can decrypt it.
pub open spec fn for_encrypted_room(content: JsonView, entry: Option<EntryView>) -> JsonView {
    match (content.get_text("url"@), entry) {
        (Some(mxc), Some(entry)) => with_mimetype(
            content.without("url"@).with("file"@, entry.info.with("url"@, JsonView::Str(mxc))),
            entry.mimetype,
        ),
        _ => content,
    }
}

/// Rewrites a content for an encrypted room, given the entry of the attachment that it
/// points to. One without an entry was uploaded in plain, and stays as it is.
pub fn rewrite_content_for_encrypted_room(content: &mut Json, entry: Option<&MediaEntry>)
    ensures
        final(content)@ == for_encrypted_room(
            old(content)@,
            match entry {
                Some(e) => Some(e@),
                None => None,
            },
        ),
{
    let mxc = match content.get_text("url") {
        Some(mxc) => mxc,
        None => {
            return;
        },
    };
    let entry = match entry {
        Some(entry) => entry,
        None => {
            return;
        },
    };
    let mut file = entry.info.copy();
    file.put("url", Json::Str(mxc));
    content.take_out("url");
    content.put("file", file);
    match &entry.mimetype {
        Some(m) => {
            let mut info = match content.get("info") {
                Some(info) => info.copy(),
                None => Json::object(),
            };
            info.put_default("mimetype", Json::text(m.as_str()));
            content.put("info", info);
        },
        None => {},
    }
}

/// The keys that a decrypted event brings along.
pub struct Harvest {
    pub file: Option<MediaRow>,
    pub thumbnail: Option<MediaRow>,
}

/// The URL and the entry of a `file`, with what is known of its type and name.
pub open spec fn file_entry(
    file: Option<JsonView>,
    mimetype: Option<Seq<char>>,
    filename: Option<Seq<char>>,
) -> Option<(Seq<char>, EntryView)> {
    match file {
        Some(f) => match encrypted_file(f) {
            Some((url, info)) => Some((url, EntryView { info, mimetype, filename })),
            None => None,
        },
        None => None,
    }
}

/// The row that keeps a file.
pub open spec fn file_row(file: Option<(Seq<char>, EntryView)>) -> Option<RowView> {
    match file {
        Some((url, entry)) => Some(row_of(url, entry)),
        None => None,
    }
}

/// Whether the row of a file gives the file's key back, where that can be kept.
pub open spec fn reads_back(row: Option<MediaRow>, file: Option<(Seq<char>, EntryView)>) -> bool {
    match (row, file) {
        (Some(r), Some((_, entry))) => keepable(entry.info) ==> entry_of(r@) == Some(entry)
            && lasting_info(entry.info),
        _ => true,
    }
}

/// The URL and the entry of the file that an event brings along.
pub open spec fn file_of_event(event: JsonView) -> Option<(Seq<char>, EntryView)> {
    match event.get("content"@) {
        Some(content) => file_entry(
            content.get("file"@),
            content.get2_text("info"@, "mimetype"@),
            content.get_text("body"@),
        ),
        None => None,
    }
}

/// The URL and the entry of the thumbnail that an event brings along.
pub open spec fn thumbnail_of_event(event: JsonView) -> Option<(Seq<char>, EntryView)> {
    match event.get2("content"@, "info"@) {
        Some(info) => file_entry(
            info.get("thumbnail_file"@),
            info.get2_text("thumbnail_info"@, "mimetype"@),
            None,
        ),
        None => None,
    }
}

/// The row of the file that an event brings along.
pub open spec fn harvested_file(event: JsonView) -> Option<RowView> {
    file_row(file_of_event(event))
}

/// The row of the thumbnail that an event brings along.
pub open spec fn harvested_thumbnail(event: JsonView) -> Option<RowView> {
    file_row(thumbnail_of_event(event))
}

fn harvest_file(file: Option<&Json>, mimetype: Option<String>, filename: Option<String>) -> (r:
    Option<MediaRow>)
    ensures
        ({
            let found = file_entry(
                crate::json::opt_json(file),
                text::opt_text(mimetype),
                text::opt_text(filename),
            );
            opt_row(r) == file_row(found) && reads_back(r, found)
        }),
{
    let file = match file {
        Some(file) => file,
        None => {
            return None;
        },
    };
    match file_from_value(to_value(file)) {
        Some((url, info)) => Some(
            media_row(url.as_str(), &MediaEntry { info: from_value(info), mimetype, filename }),
        ),
        None => None,
    }
}

/// The keys that a decrypted event brings along, to be stored. The rows give them back.
pub fn harvest(event: &Json) -> (r: Harvest)
    ensures
        opt_row(r.file) == harvested_file(event@),
        opt_row(r.thumbnail) == harvested_thumbnail(event@),
        reads_back(r.file, file_of_event(event@)),
        reads_back(r.thumbnail, thumbnail_of_event(event@)),
{
    let content = match event.get("content") {
        Some(content) => content,
        None => {
            return Harvest { file: None, thumbnail: None };
        },
    };
    let file = harvest_file(
        content.get("file"),
        content.get2_text("info", "mimetype"),
        content.get_text("body"),
    );
    let thumbnail = match content.get("info") {
        Some(info) => harvest_file(
            info.get("thumbnail_file"),
            info.get2_text("thumbnail_info", "mimetype"),
            None,
        ),
        None => None,
    };
    Harvest { file, thumbnail }
}

/// A content with the URL of its file in place of the file.
pub open spec fn with_plain_url(content: JsonView, url: Option<Seq<char>>) -> JsonView {
    match url {
        Some(u) => content.without("file"@).with("url"@, JsonView::Str(u)),
        None => content,
    }
}

/// A content with the URL of its thumbnail in place of the thumbnail's file.
pub open spec fn with_thumbnail_url(content: JsonView, url: Option<Seq<char>>) -> JsonView {
    match (url, content.get("info"@)) {
        (Some(u), Some(info)) => content.with(
            "info"@,
            info.without("thumbnail_file"@).with("thumbnail_url"@, JsonView::Str(u)),
        ),
        _ => content,
    }
}

/// An event with plain URLs in place of its files, so that a client which knows
/// nothing of encrypted files can show them.
pub open spec fn with_plain_urls(
    event: JsonView,
    file: Option<Seq<char>>,
    thumbnail: Option<Seq<char>>,
) -> JsonView {
    match event.get("content"@) {
        Some(content) => event.with(
            "content"@,
            with_thumbnail_url(with_plain_url(content, file), thumbnail),
        ),
        None => event,
    }
}

/// The URI of a row that was stored.
pub open spec fn stored_uri(row: Option<RowView>, stored: bool) -> Option<Seq<char>> {
    match row {
        Some(row) => if stored {
            Some(row.mxc)
        } else {
            None
        },
        None => None,
    }
}

/// Puts plain URLs in place of the files of a decrypted event whose keys were stored.
/// Files whose keys could not be stored stay as they are.
pub fn harvest_and_rewrite_decrypted(
    event: &mut Json,
    harvest: &Harvest,
    file_stored: bool,
    thumbnail_stored: bool,
)
    ensures
        final(event)@ == with_plain_urls(
            old(event)@,
            stored_uri(opt_row(harvest.file), file_stored),
            stored_uri(opt_row(harvest.thumbnail), thumbnail_stored),
        ),
{
    let mut content = match event.get("content") {
        Some(content) => content.copy(),
        None => {
            return;
        },
    };
    match &harvest.file {
        Some(row) => if file_stored {
            content.take_out("file");
            content.put("url", Json::text(row.mxc.as_str()));
        },
        None => {},
    }
    match &harvest.thumbnail {
        Some(row) => if thumbnail_stored {
            let info = match content.get("info") {
                Some(info) => Some(info.copy()),
                None => None,
            };
            match info {
                Some(mut info) => {
                    info.take_out("thumbnail_file");
                    info.put("thumbnail_url", Json::text(row.mxc.as_str()));
                    content.put("info", info);
                },
                None => {},
            }
        },
        None => {},
    }
    event.put("content", content);
}

/// How a message content with an attachment is made fit for an unencrypted room.
pub enum Reupload {
    /// Nothing has to be done.
    Nothing,
    /// The attachment at this path has to be downloaded.
    Download(String),
}

/// The server and the ID of an attachment.
pub open spec fn mxc_parts(mxc: Seq<char>) -> Option<(Seq<char>, Seq<char>)> {
    match text::behind(mxc, "mxc://"@) {
        Some(rest) => text::parted(rest, '/'),
        None => None,
    }
}

/// Media was encrypted when it was uploaded: before it goes to an unencrypted room, it
/// is downloaded, decrypted and uploaded again in plain.
pub fn reupload_plaintext_if_needed(content: &Json, entry: Option<&MediaEntry>) -> (r: Result<
    Reupload,
    Failure,
>)
    ensures
        match (content@.get_text("url"@), entry) {
            (Some(mxc), Some(_)) => match mxc_parts(mxc) {
                Some((server, media_id)) => r matches Ok(Reupload::Download(path)) && path@
                    == download_url(server, media_id),
                None => r matches Err(f) && f@ == seq!["malformed mxc URI"@],
            },
            _ => r matches Ok(Reupload::Nothing),
        },
{
    let mxc = match content.get_text("url") {
        Some(mxc) => mxc,
        None => {
            return Ok(Reupload::Nothing);
        },
    };
    if entry.is_none() {
        return Ok(Reupload::Nothing);
    }
    let rest = match strip_prefix(mxc.as_str(), "mxc://") {
        Some(rest) => rest,
        None => {
            return Err(Failure::new("malformed mxc URI"));
        },
    };
    match split_once(rest.as_str(), '/') {
        Some((server, media_id)) => Ok(
            Reupload::Download(download_path(server.as_str(), media_id.as_str())),
        ),
        None => Err(Failure::new("malformed mxc URI")),
    }
}

/// The plain upload made of an encrypted attachment.
pub open spec fn plain_upload(status: u16, a: AttachmentView) -> Result<
    Seq<u8>,
    Seq<Seq<char>>,
> {
    if wire::success(status) {
        plaintext(a)
    } else {
        Err(seq!["download for re-upload failed"@])
    }
}

/// Goes on with the downloaded attachment: it is uploaded again in plain, under its
/// name and with its type.
pub fn reupload_downloaded(entry: &MediaEntry, status: u16, bytes: &[u8]) -> (r: Result<
    RawUpload,
    Failure,
>)
    ensures
        match plain_upload(status, attachment(bytes@, entry.info@)) {
            Ok(data) => r matches Ok(upload) && upload.body@ == data && upload.path@
                == "/_matrix/media/v3/upload"@ && text::opt_text(upload.filename)
                == entry@.filename && upload.content_type@ == (match entry@.mimetype {
                Some(m) => m,
                None => "application/octet-stream"@,
            }),
            Err(f) => r matches Err(e) && e@ == f,
        },
{
    if !is_success(status) {
        return Err(Failure::new("download for re-upload failed"));
    }
    let data = match decrypt_attachment(bytes, &entry.info) {
        Ok(data) => data,
        Err(f) => {
            return Err(f);
        },
    };
    Ok(
        RawUpload {
            path: "/_matrix/media/v3/upload".to_owned(),
            content_type: match &entry.mimetype {
                Some(m) => m.clone(),
                None => "application/octet-stream".to_owned(),
            },
            body: data,
            filename: copy_text(&entry.filename),
        },
    )
}

/// The URI of the plain upload that the homeserver's reply gives.
pub open spec fn reuploaded_uri(status: u16, bytes: Seq<u8>) -> Result<Seq<char>, Seq<Seq<char>>> {
    if !wire::success(status) {
        Err(seq!["plaintext re-upload failed"@])
    } else {
        match json_text::parsed(bytes) {
            Ok(body) => match body.get_text("content_uri"@) {
                Some(mxc) => Ok(mxc),
                None => Err(seq!["upload response missing content_uri"@]),
            },
            Err(e) => Err(seq![e]),
        }
    }
}

/// Goes on with the homeserver's reply: the content points to the plain upload.
pub fn reuploaded(content: &mut Json, status: u16, bytes: &[u8]) -> (r: Result<(), Failure>)
    ensures
        match reuploaded_uri(status, bytes@) {
            Ok(mxc) => r is Ok && final(content)@ == old(content)@.with("url"@, JsonView::Str(mxc)),
            Err(f) => (r matches Err(e) && e@ == f) && final(content)@ == old(content)@,
        },
{
    if !is_success(status) {
        return Err(Failure::new("plaintext re-upload failed"));
    }
    match parse_json(bytes) {
        Ok(body) => match body.get_text("content_uri") {
            Some(mxc) => {
                content.put("url", Json::Str(mxc));
                Ok(())
            },
            None => Err(Failure::new("upload response missing content_uri")),
        },
        Err(e) => Err(Failure::new(e.as_str())),
    }
}

/// An upload can be downloaded again: what `handle_upload` keeps in the table, and what
/// it sends to the homeserver, give back the uploaded data, type and name. So does what
/// another client has sent, and `harvest` has found the key of.
pub proof fn upload_comes_back(
    data: Seq<u8>,
    encrypted: Seq<u8>,
    entry: EntryView,
    mxc: Seq<char>,
    status: u16,
    content_type: Option<Seq<u8>>,
)
    requires
        attachment(encrypted, entry.info) == AttachmentView::Plain(data),
        lasting_info(entry.info),
        wire::success(status),
    ensures
        entry_of(row_of(mxc, entry)) == Some(entry),
        downloaded(entry_of(row_of(mxc, entry)), status, content_type, encrypted) == Ok::<
            ResponseView,
            ProxyErrorView,
        >(ResponseView { status: 200, headers: served_headers(entry), body: data }),
{
}

/// The table of keys gives back what it was given: the row of an entry stands under the URI
/// of its attachment, and holds that entry. Info that lasts is what `encrypt_attachment`
/// makes, and what `harvest` finds and `media_entry` reads where it is `keepable`.
pub proof fn stored_key_reads_back(mxc: Seq<char>, entry: EntryView)
    requires
        lasting_info(entry.info),
    ensures
        entry_of(row_of(mxc, entry)) == Some(entry),
        row_of(mxc, entry).mxc == mxc,
{
}

/// What is sent to an encrypted room comes back as it was: the URL is gone from the
/// content that is sent, but a recipient that harvests that content finds the same URL and
/// the same key, which can be read back, and has the URL in the content again.
pub proof fn sent_file_is_harvested(event: JsonView, content: JsonView, mxc: Seq<char>, entry:
    EntryView)
    requires
        event is Object,
        content is Object,
        content.get_text("url"@) == Some(mxc),
        content.get("file"@) is None,
        lasting_info(entry.info),
    ensures
        ({
            let sent = event.with("content"@, for_encrypted_room(content, Some(entry)));
            &&& sent.get2("content"@, "url"@) is None
            &&& harvested_file(sent) matches Some(row)
            &&& row.mxc == mxc
            &&& row.key_json == json_text::json_text(entry.info)
            &&& entry_of(row) matches Some(found) && found.info == entry.info
            &&& with_plain_urls(sent, Some(row.mxc), None).get("content"@) == Some(
                with_mimetype(content, entry.mimetype),
            )
        }),
{
    reveal_strlit("url");
    reveal_strlit("file");
    reveal_strlit("info");
    reveal_strlit("content");
    assert("url"@.len() == 3 && "file"@.len() == 4 && "info"@.len() == 4);
    assert("file"@[0] == 'f' && "info"@[0] == 'i');
    let file = entry.info.with("url"@, JsonView::Str(mxc));
    let moved = content.without("url"@).with("file"@, file);
    let rewritten = for_encrypted_room(content, Some(entry));
    assert(rewritten == with_mimetype(moved, entry.mimetype));
    assert(rewritten.get("file"@) == Some(file));
    let back = with_plain_url(rewritten, Some(mxc));
    let want = with_mimetype(content, entry.mimetype);
    assert(moved.get("info"@) == content.get("info"@));
    assert(back->Object_0 =~= want->Object_0);
}

/// The URI of an attachment names its server and its ID: taken apart, it gives both
/// back. No server's name holds a `/`.
pub proof fn uri_names_attachment(server: Seq<char>, media_id: Seq<char>)
    requires
        !server.contains('/'),
    ensures
        mxc_parts(mxc_uri(server, media_id)) == Some((server, media_id)),
{
    reveal_strlit("mxc://");
    reveal_strlit("/");
    let rest = server + "/"@ + media_id;
    let uri = mxc_uri(server, media_id);
    assert(uri =~= "mxc://"@ + rest);
    assert("mxc://"@.is_prefix_of(uri));
    assert(uri.skip("mxc://"@.len() as int) =~= rest);
    let n = server.len() as int;
    assert(rest[n] == '/');
    assert(rest.contains('/'));
    rest.index_of_first_ensures('/');
    let i = rest.index_of_first('/')->0;
    assert(i == n) by {
        if i < n {
            assert(server[i] == '/');
        }
    }
    assert(rest.take(n) =~= server);
    assert(rest.skip(n + 1) =~= media_id);
}

/// A content without a URL, and one whose attachment has no key, go to an encrypted room
/// as they are.
pub proof fn other_content_is_kept(content: JsonView, entry: Option<EntryView>)
    requires
        content.get_text("url"@) is None || entry is None,
    ensures
        for_encrypted_room(content, entry) == content,
{
}

} // verus!
