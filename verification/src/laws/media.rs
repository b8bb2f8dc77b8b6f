//! Attachments: what a message and its attachment become on their way out and back.

use crate::crypto::media;
use crate::crypto::media::{AttachmentView, EntryView, RowView};
use crate::error::ProxyErrorView;
use crate::json::JsonView;
use crate::json_text;
use crate::laws::text as texts;
use crate::percent;
use crate::text;
use crate::wire;
use vstd::prelude::*;
use vstd::string::*;
use vstd::utf8::*;

verus! {

proof fn lemma_words()
    ensures
        "url"@ != "file"@,
        "url"@ != "info"@,
        "file"@ != "info"@,
        "thumbnail_file"@ != "thumbnail_url"@,
{
    reveal_strlit("url");
    reveal_strlit("file");
    reveal_strlit("info");
    reveal_strlit("thumbnail_file");
    reveal_strlit("thumbnail_url");
    assert("url"@.len() == 3 && "file"@.len() == 4 && "info"@.len() == 4);
    assert("file"@[0] == 'f' && "info"@[0] == 'i');
    assert("thumbnail_file"@.len() == 14 && "thumbnail_url"@.len() == 13);
}

/// A content with an attachment whose key is known goes to an encrypted room with a `file`
/// in place of its URL. The file is the key, and that URL. Whatever the content's `info`
/// held is kept; the attachment's type is added where it held none. Every other member is
/// as it was.
pub proof fn encrypted_content_keeps_its_members(
    content: JsonView,
    mxc: Seq<char>,
    entry: EntryView,
    key: Seq<char>,
)
    requires
        content is Object,
        content.get("url"@) == Some(JsonView::Str(mxc)),
    ensures
        ({
            let sent = media::for_encrypted_room(content, Some(entry));
            &&& sent is Object
            &&& key != "url"@ && key != "file"@ && key != "info"@ ==> sent.get(key) == content.get(
                key,
            )
            &&& sent.get("url"@) is None
            &&& content.get2("info"@, key) matches Some(v) ==> sent.get2("info"@, key) == Some(v)
            &&& key != "mimetype"@ ==> sent.get2("info"@, key) == content.get2("info"@, key)
            &&& entry.mimetype is None ==> sent.get("info"@) == content.get("info"@)
            &&& entry.mimetype matches Some(m) ==> match content.get("info"@) {
                None => (sent.get("info"@) matches Some(i) && i is Object) && sent.get2(
                    "info"@,
                    "mimetype"@,
                ) == Some(JsonView::Str(m)),
                Some(JsonView::Object(_)) => (sent.get("info"@) matches Some(i) && i is Object)
                    && sent.get2("info"@, "mimetype"@) == Some(
                    match content.get2("info"@, "mimetype"@) {
                        Some(v) => v,
                        None => JsonView::Str(m),
                    },
                ),
                Some(other) => sent.get("info"@) == Some(other),
            }
            &&& sent.get("file"@) matches Some(file)
            &&& entry.info is Object ==> file is Object && file.get("url"@) == Some(
                JsonView::Str(mxc),
            ) && (key != "url"@ ==> file.get(key) == entry.info.get(key))
        }),
{
    lemma_words();
}

/// A content without the URL of an attachment, or whose attachment's key is not known, goes
/// to an encrypted room as it is.
pub proof fn plain_content_is_kept(content: JsonView, entry: Option<EntryView>)
    ensures
        !(content.get("url"@) matches Some(JsonView::Str(_))) ==> media::for_encrypted_room(
            content,
            entry,
        ) == content,
        media::for_encrypted_room(content, None) == content,
{
}

/// The client gets a URL in place of a file whose key was stored, and one in place of a
/// thumbnail whose key was. All else is as it was.
pub proof fn shown_event_keeps_its_members(
    event: JsonView,
    content: JsonView,
    file: Option<RowView>,
    thumbnail: Option<RowView>,
    file_stored: bool,
    thumbnail_stored: bool,
    key: Seq<char>,
)
    requires
        event.get("content"@) == Some(content),
        content is Object,
    ensures
        ({
            let shown = media::with_plain_urls(
                event,
                media::stored_uri(file, file_stored),
                media::stored_uri(thumbnail, thumbnail_stored),
            );
            let file_gone = file is Some && file_stored;
            let thumbnail_gone = thumbnail is Some && thumbnail_stored;
            &&& shown is Object
            &&& key != "content"@ ==> shown.get(key) == event.get(key)
            &&& shown.get("content"@) matches Some(c)
            &&& c is Object
            &&& key != "url"@ && key != "file"@ && key != "info"@ ==> c.get(key) == content.get(key)
            &&& file_gone ==> c.get("url"@) == Some(JsonView::Str((file->0).mxc)) && c.get(
                "file"@,
            ) is None
            &&& !file_gone ==> c.get("url"@) == content.get("url"@) && c.get("file"@)
                == content.get("file"@)
            &&& !thumbnail_gone ==> c.get("info"@) == content.get("info"@)
            &&& thumbnail_gone ==> match content.get("info"@) {
                Some(JsonView::Object(_)) => {
                    &&& c.get("info"@) matches Some(i) && i is Object
                    &&& c.get2("info"@, "thumbnail_url"@) == Some(
                        JsonView::Str((thumbnail->0).mxc),
                    )
                    &&& c.get2("info"@, "thumbnail_file"@) is None
                    &&& key != "thumbnail_url"@ && key != "thumbnail_file"@ ==> c.get2("info"@, key)
                        == content.get2("info"@, key)
                },
                other => c.get("info"@) == other,
            }
        }),
{
    lemma_words();
    assert(event is Object);
}

/// An event without content is shown as it is.
pub proof fn contentless_event_is_kept(
    event: JsonView,
    file: Option<Seq<char>>,
    thumbnail: Option<Seq<char>>,
)
    requires
        event.get("content"@) is None,
    ensures
        media::with_plain_urls(event, file, thumbnail) == event,
{
}

/// The text that a member is, if it is one.
pub open spec fn text_in(member: Option<JsonView>) -> Option<Seq<char>> {
    match member {
        Some(JsonView::Str(s)) => Some(s),
        _ => None,
    }
}

/// The key of a file is stored under the file's URL, with the type that the content's
/// `info` gives and the content's body as its name; that of a thumbnail with the type that
/// its own info gives and without a name.
pub proof fn keys_are_harvested(event: JsonView, content: JsonView)
    requires
        event.get("content"@) == Some(content),
    ensures
        media::harvested_file(event) == match content.get("file"@) {
            Some(file) => match media::encrypted_file(file) {
                Some((url, info)) => Some(
                    RowView {
                        mxc: url,
                        key_json: json_text::json_text(info),
                        mimetype: text_in(content.get2("info"@, "mimetype"@)),
                        filename: text_in(content.get("body"@)),
                    },
                ),
                None => None,
            },
            None => None,
        },
        media::harvested_thumbnail(event) == match content.get2("info"@, "thumbnail_file"@) {
            Some(file) => match media::encrypted_file(file) {
                Some((url, info)) => Some(
                    RowView {
                        mxc: url,
                        key_json: json_text::json_text(info),
                        mimetype: match content.get2("info"@, "thumbnail_info"@) {
                            Some(i) => text_in(i.get("mimetype"@)),
                            None => None,
                        },
                        filename: None,
                    },
                ),
                None => None,
            },
            None => None,
        },
{
}

/// An event without content brings no keys along.
pub proof fn contentless_event_has_no_keys(event: JsonView)
    requires
        event.get("content"@) is None,
    ensures
        media::harvested_file(event) is None,
        media::harvested_thumbnail(event) is None,
{
}

/// A row keeps the key of an attachment, its type and its name, under its URI; they are
/// read from it again.
pub proof fn row_keeps_the_entry(mxc: Seq<char>, entry: EntryView, row: RowView)
    ensures
        media::row_of(mxc, entry).mxc == mxc,
        media::row_of(mxc, entry).key_json == json_text::json_text(entry.info),
        media::row_of(mxc, entry).mimetype == entry.mimetype,
        media::row_of(mxc, entry).filename == entry.filename,
        match media::stored_info(row.key_json) {
            Some(info) => media::entry_of(row) == Some(
                EntryView { info, mimetype: row.mimetype, filename: row.filename },
            ),
            None => media::entry_of(row) is None,
        },
{
}

/// An attachment whose key is known is served decrypted, with the type and the name that
/// were kept with the key; one that cannot be decrypted is not served at all.
pub proof fn download_is_served_decrypted(
    entry: EntryView,
    status: u16,
    content_type: Option<Seq<u8>>,
    bytes: Seq<u8>,
)
    requires
        200 <= status <= 299,
    ensures
        match media::attachment(bytes, entry.info) {
            AttachmentView::Plain(data) => {
                &&& media::downloaded(Some(entry), status, content_type, bytes) matches Ok(r)
                &&& r.status == 200
                &&& r.body == data
                &&& r.headers.len() >= 1
                &&& r.headers[0].0 == "content-type"@
                &&& r.headers[0].1 == match entry.mimetype {
                    Some(m) => if wire::valid_header(m) {
                        encode_utf8(m)
                    } else {
                        encode_utf8("application/octet-stream"@)
                    },
                    None => encode_utf8("application/octet-stream"@),
                }
                &&& match entry.filename {
                    Some(name) => {
                        let value = "inline; filename=\""@ + name + "\""@;
                        if wire::valid_header(value) {
                            r.headers.len() == 2 && r.headers[1] == (
                                "content-disposition"@,
                                encode_utf8(value),
                            )
                        } else {
                            r.headers.len() == 1
                        }
                    },
                    None => r.headers.len() == 1,
                }
            },
            AttachmentView::BadInfo(e) => media::downloaded(
                Some(entry),
                status,
                content_type,
                bytes,
            ) matches Err(ProxyErrorView::Internal(f)) && f.len() == 2 && f[1] == e,
            AttachmentView::Damaged(e) => media::downloaded(
                Some(entry),
                status,
                content_type,
                bytes,
            ) matches Err(ProxyErrorView::Internal(f)) && f.len() == 2 && f[1] == e,
        },
{
}

/// An attachment without a known key, and a refusal, are handed on byte by byte, with the
/// type that they came with.
pub proof fn other_downloads_are_handed_on(
    entry: Option<EntryView>,
    status: u16,
    content_type: Option<Seq<u8>>,
    bytes: Seq<u8>,
)
    requires
        100 <= status <= 999,
        entry is None || status < 200 || status > 299,
    ensures
        media::downloaded(entry, status, content_type, bytes) matches Ok(r) && r.status == status
            && r.body == bytes && match content_type {
            Some(ct) => r.headers == seq![("content-type"@, ct)],
            None => r.headers == Seq::<(Seq<char>, Seq<u8>)>::empty(),
        },
{
}

/// The URI that the homeserver gave an upload is read from a successful reply, as it is.
pub proof fn uploads_uri_is_read(status: u16, bytes: Seq<u8>, body: JsonView, mxc: Seq<char>)
    requires
        json_text::parsed(bytes) == Ok::<JsonView, Seq<char>>(body),
        body.get("content_uri"@) == Some(JsonView::Str(mxc)),
    ensures
        200 <= status <= 299 ==> media::content_uri(status, bytes) == Some(mxc)
            && media::reuploaded_uri(status, bytes) == Ok::<Seq<char>, Seq<Seq<char>>>(mxc),
        status < 200 || status > 299 ==> media::content_uri(status, bytes) is None
            && media::reuploaded_uri(status, bytes) is Err,
{
}

/// A reply that holds no URI gives none.
pub proof fn reply_without_uri_gives_none(status: u16, bytes: Seq<u8>)
    requires
        match json_text::parsed(bytes) {
            Ok(body) => !(body.get("content_uri"@) matches Some(JsonView::Str(_))),
            Err(_) => true,
        },
    ensures
        media::content_uri(status, bytes) is None,
        media::reuploaded_uri(status, bytes) is Err,
{
}

/// What is uploaded again in plain is what the attachment decrypts to, where it could be
/// downloaded and decrypted; else nothing is.
pub proof fn plain_upload_is_the_plaintext(status: u16, a: AttachmentView)
    ensures
        match a {
            AttachmentView::Plain(data) => 200 <= status <= 299 ==> media::plain_upload(status, a)
                == Ok::<Seq<u8>, Seq<Seq<char>>>(data),
            _ => media::plain_upload(status, a) is Err,
        },
        status < 200 || status > 299 ==> media::plain_upload(status, a) is Err,
{
}

/// The name of an uploaded file is the one that the query gives, with its escapes undone.
/// It may stand behind other parameters.
pub proof fn upload_names_its_file(name: Seq<char>, other: Seq<char>)
    requires
        !other.contains('&'),
        !"filename="@.is_prefix_of(other),
    ensures
        media::upload_filename(Some("filename="@ + percent::encoded_text(name))) == Some(name),
        media::upload_filename(Some(other)) is None,
        media::upload_filename(
            Some(other + seq!['&'] + ("filename="@ + percent::encoded_text(name))),
        ) == Some(name),
        media::upload_filename(None) is None,
{
    percent::dec_of_enc(name);
    let encoded = percent::encoded_text(name);
    let named = "filename="@ + encoded;
    percent::enc_is_one_segment(name);
    reveal_strlit("filename=");
    assert(!"filename="@.contains('&'));
    assert(!named.contains('&')) by {
        if named.contains('&') {
            let i = choose|i: int| 0 <= i < named.len() && named[i] == '&';
            if i < "filename="@.len() {
                assert("filename="@.contains(named[i]));
            } else {
                assert(encoded[i - "filename="@.len()] == '&');
            }
        }
    }
    text::lemma_split_one(named, '&');
    text::lemma_split_one(other, '&');
    text::lemma_split_join(other, named, '&');
    texts::prefix_is_stripped(named, "filename="@, encoded);
    texts::prefix_is_stripped(other, "filename="@, Seq::empty());
    let both = seq![other, named];
    assert(seq![other] + seq![named] =~= both);
    assert(both.skip(1) =~= seq![named]);
    assert(seq![named].skip(1) =~= Seq::empty());
    assert(seq![other].skip(1) =~= Seq::empty());
    assert(text::first_behind(seq![named], "filename="@) == Some(encoded));
    assert(text::first_behind(seq![other], "filename="@) == text::first_behind(
        seq![other].skip(1),
        "filename="@,
    ));
    assert(text::first_behind(both, "filename="@) == text::first_behind(
        both.skip(1),
        "filename="@,
    ));
    assert(text::split(other + seq!['&'] + named, '&') == both);
}

/// The type of an uploaded file is the one that its header gives, where that is text.
pub proof fn upload_has_its_type(bytes: Seq<u8>)
    ensures
        media::upload_type(None) is None,
        match media::upload_type(Some(bytes)) {
            Some(t) => t.len() == bytes.len() && forall|i: int|
                0 <= i < bytes.len() ==> #[trigger] t[i] == bytes[i] as char && (bytes[i] == 9
                    || 32 <= bytes[i] < 127),
            None => exists|i: int|
                0 <= i < bytes.len() && !(#[trigger] bytes[i] == 9 || 32 <= bytes[i] < 127),
        },
{
}

/// The URI of an attachment, and the path that it is downloaded from, name its server and
/// its ID.
pub proof fn attachments_are_named(server: Seq<char>, media_id: Seq<char>)
    ensures
        media::mxc_uri(server, media_id) == "mxc://"@ + server + "/"@ + media_id,
        media::download_url(server, media_id) == "/_matrix/client/v1/media/download/"@
            + percent::encoded_text(server) + "/"@ + percent::encoded_text(media_id),
        !server.contains('/') ==> media::mxc_parts("mxc://"@ + server + "/"@ + media_id) == Some(
            (server, media_id),
        ),
{
    if !server.contains('/') {
        media::uri_names_attachment(server, media_id);
    }
}

/// A text that does not begin as a URI of an attachment does, or that has no ID, is none.
pub proof fn other_texts_are_no_attachments(s: Seq<char>)
    ensures
        !"mxc://"@.is_prefix_of(s) ==> media::mxc_parts(s) is None,
        media::mxc_parts(s) matches Some((server, media_id)) ==> s =~= "mxc://"@ + server + seq!['/']
            + media_id && !server.contains('/'),
{
    texts::prefix_is_stripped(s, "mxc://"@, Seq::empty());
    match text::behind(s, "mxc://"@) {
        Some(rest) => {
            assert(s =~= "mxc://"@ + rest);
            texts::parts_make_the_text(rest, '/');
        },
        None => {},
    }
}

/// The data that an attachment decrypts to is the data that is served; what cannot be
/// decrypted is a failure that says why.
pub proof fn plaintext_is_what_was_decrypted(data: Seq<u8>, e: Seq<char>)
    ensures
        media::plaintext(AttachmentView::Plain(data)) == Ok::<Seq<u8>, Seq<Seq<char>>>(data),
        media::plaintext(AttachmentView::BadInfo(e)) matches Err(f) && f.len() == 2 && f[1] == e,
        media::plaintext(AttachmentView::Damaged(e)) matches Err(f) && f.len() == 2 && f[1] == e,
{
}

/// Content that is no object is shown as it is.
pub proof fn odd_content_is_kept(
    event: JsonView,
    content: JsonView,
    file: Option<Seq<char>>,
    thumbnail: Option<Seq<char>>,
)
    requires
        event.get("content"@) == Some(content),
        !(content is Object),
    ensures
        media::with_plain_urls(event, file, thumbnail).get("content"@) == Some(content),
{
}

} // verus!
