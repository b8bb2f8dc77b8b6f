use ement_e2ee::crypto::media::{
    attachment_uri, decrypt_attachment, download_path, encrypt_attachment, encrypted_upload, handle_download,
    handle_upload, harvest, harvest_and_rewrite_decrypted, media_entry, media_row, media_uri,
    reupload_downloaded, reupload_plaintext_if_needed, reuploaded,
    rewrite_content_for_encrypted_room, upload_response, upload_row, MediaEntry, MediaRow,
    Reupload,
};
use ement_e2ee::error::ProxyError;
use ement_e2ee::failure::Failure;
use ement_e2ee::json::Json;
use ement_e2ee::json_text::{parse_json, write_json};

const KEY: &str = r#"{"v":"v2","key":{"kty":"oct","alg":"A256CTR","ext":true,"k":"Voq2nkPme_x8no5-Tjq_laDAdxE6iDbxnlQXxwFPgE4","key_ops":["decrypt","encrypt"]},"iv":"i0DovxYdJEcAAAAAAAAAAA","hashes":{"sha256":"ANdt819a8bZl4jKy3Z+jcqtiNICa2y0AW4BBJ/iQRAU"}}"#;

const DATA: &[u8] = &[
    179, 154, 118, 127, 186, 127, 110, 33, 203, 33, 33, 134, 67, 100, 173, 46, 235, 27, 215, 172,
    36, 26, 75, 47, 33, 160,
];

fn json(text: &str) -> Json {
    match parse_json(text.as_bytes()) {
        Ok(j) => j,
        Err(e) => panic!("{e}"),
    }
}

fn entry(mimetype: Option<&str>, filename: Option<&str>) -> MediaEntry {
    MediaEntry {
        info: json(KEY),
        mimetype: mimetype.map(str::to_owned),
        filename: filename.map(str::to_owned),
    }
}

#[test]
fn attachments_are_encrypted_and_decrypted() {
    let (encrypted, info) = encrypt_attachment(b"Hello world").ok().unwrap();
    assert_ne!(encrypted, b"Hello world");
    assert_eq!(decrypt_attachment(&encrypted, &info).ok().unwrap(), b"Hello world");
    assert_eq!(decrypt_attachment(DATA, &json(KEY)).ok().unwrap(), b"It's a secret to everybody");
    // Damaged data.
    let f = decrypt_attachment(b"garbage", &info).err().unwrap();
    assert_eq!(
        f.chain_text(),
        "media decryption failed (hash mismatch?): Hash mismatch while decrypting"
    );
    // Useless info.
    let f = decrypt_attachment(&encrypted, &json(r#"{"v":"v9","hashes":{}}"#)).err().unwrap();
    assert_eq!(f.message(), "bad media encryption info");
}

#[test]
fn entries_survive_being_stored() {
    let (encrypted, info) = encrypt_attachment(b"data").ok().unwrap();
    let e = MediaEntry { info, mimetype: Some("image/png".to_owned()), filename: None };
    let row = media_row("mxc://x/y", &e);
    assert_eq!(row.mxc, "mxc://x/y");
    let back = media_entry(row).unwrap();
    assert_eq!(write_json(&back.info), write_json(&e.info));
    assert_eq!(back.mimetype, e.mimetype);
    assert_eq!(decrypt_attachment(&encrypted, &back.info).ok().unwrap(), b"data");
    let bad = MediaRow {
        mxc: "mxc://x/y".to_owned(),
        key_json: "{}".to_owned(),
        mimetype: None,
        filename: None,
    };
    assert!(media_entry(bad).is_none());
}

#[test]
fn uploads_come_back_as_downloads() {
    let upload = handle_upload(
        Some("x=1&filename=my%20cat.png"),
        Some(b"image/png"),
        Ok(b"picture".to_vec()),
    )
    .ok()
    .unwrap();
    assert_eq!(upload.file.path, "/_matrix/media/v3/upload");
    assert_eq!(upload.file.content_type, "application/octet-stream");
    assert_eq!(upload.file.filename, None);
    assert_ne!(upload.file.body, b"picture");
    assert_eq!(upload.entry.filename, Some("my cat.png".to_owned()));
    let row = upload_row(&upload.entry, 200, br#"{"content_uri":"mxc://x/y"}"#).unwrap();
    assert_eq!(row.mxc, "mxc://x/y");
    assert!(upload_row(&upload.entry, 413, br#"{"content_uri":"mxc://x/y"}"#).is_none());
    assert!(upload_row(&upload.entry, 200, b"no json").is_none());
    let r = handle_download(
        media_entry(row),
        200,
        Some(b"application/octet-stream".to_vec()),
        upload.file.body,
    )
    .ok()
    .unwrap();
    assert_eq!(r.status, 200);
    assert_eq!(r.body, b"picture");
    assert_eq!(
        r.headers,
        vec![
            ("content-type".to_owned(), b"image/png".to_vec()),
            ("content-disposition".to_owned(), b"inline; filename=\"my cat.png\"".to_vec()),
        ]
    );
    match handle_upload(None, None, Err("too long".to_owned())) {
        Err(ProxyError::BadRequest(m)) => assert_eq!(m, "failed to read upload: too long"),
        _ => panic!("uploaded"),
    }
    let r = upload_response(200, b"{}".to_vec(), Ok(())).ok().unwrap();
    assert_eq!(r.body, b"{}");
    assert!(matches!(
        upload_response(200, b"{}".to_vec(), Err(Failure::new("disk"))),
        Err(ProxyError::Internal(_))
    ));
}

#[test]
fn other_downloads_are_handed_on() {
    let r = handle_download(None, 200, Some(b"text/plain".to_vec()), b"x".to_vec()).ok().unwrap();
    assert_eq!((r.status, r.body), (200, b"x".to_vec()));
    let r = handle_download(Some(entry(None, None)), 404, None, b"gone".to_vec()).ok().unwrap();
    assert_eq!((r.status, r.body), (404, b"gone".to_vec()));
    // A type or a name that cannot be a header is left out.
    let r = handle_download(Some(entry(Some("a\nb"), Some("c\nd"))), 200, None, DATA.to_vec())
        .ok()
        .unwrap();
    assert_eq!(
        r.headers,
        vec![("content-type".to_owned(), b"application/octet-stream".to_vec())]
    );
    assert!(matches!(
        handle_download(Some(entry(None, None)), 200, None, b"bad".to_vec()),
        Err(ProxyError::Internal(_))
    ));
    assert_eq!(media_uri("x.org", "abc"), "mxc://x.org/abc");
    assert_eq!(download_path("x.org", "a/b"), "/_matrix/client/v1/media/download/x.org/a%2Fb");
}

#[test]
fn contents_are_rewritten_and_harvested() {
    let mut content = json(r#"{"msgtype":"m.image","body":"cat","url":"mxc://x/y"}"#);
    assert_eq!(attachment_uri(&content), Some("mxc://x/y".to_owned()));
    rewrite_content_for_encrypted_room(&mut content, Some(&entry(Some("image/png"), None)));
    assert!(content.get("url").is_none());
    assert_eq!(content.get2_text("file", "url"), Some("mxc://x/y".to_owned()));
    assert_eq!(content.get2_text("file", "iv"), Some("i0DovxYdJEcAAAAAAAAAAA".to_owned()));
    assert_eq!(content.get2_text("info", "mimetype"), Some("image/png".to_owned()));

    let mut event = Json::object();
    event.put("content", content);
    let h = harvest(&event);
    let row = h.file.as_ref().unwrap();
    assert_eq!(row.mxc, "mxc://x/y");
    assert_eq!(row.mimetype, Some("image/png".to_owned()));
    assert_eq!(row.filename, Some("cat".to_owned()));
    assert!(h.thumbnail.is_none());
    harvest_and_rewrite_decrypted(&mut event, &h, true, false);
    assert_eq!(
        write_json(&event),
        r#"{"content":{"body":"cat","info":{"mimetype":"image/png"},"msgtype":"m.image","url":"mxc://x/y"}}"#
    );
}

#[test]
fn thumbnails_are_harvested() {
    let mut file = json(KEY);
    file.put("url", Json::text("mxc://x/t"));
    let mut info = json(r#"{"thumbnail_info":{"mimetype":"image/jpeg"}}"#);
    info.put("thumbnail_file", file);
    let mut content = Json::object();
    content.put("info", info);
    let mut event = Json::object();
    event.put("content", content);
    let h = harvest(&event);
    assert_eq!(h.thumbnail.as_ref().unwrap().mimetype, Some("image/jpeg".to_owned()));
    let before = write_json(&event);
    harvest_and_rewrite_decrypted(&mut event, &h, true, false);
    assert_eq!(write_json(&event), before);
    harvest_and_rewrite_decrypted(&mut event, &h, true, true);
    assert_eq!(
        write_json(&event),
        r#"{"content":{"info":{"thumbnail_info":{"mimetype":"image/jpeg"},"thumbnail_url":"mxc://x/t"}}}"#
    );
}

#[test]
fn contents_without_keys_are_kept() {
    let mut content = json(r#"{"url":"mxc://x/y"}"#);
    rewrite_content_for_encrypted_room(&mut content, None);
    assert_eq!(write_json(&content), r#"{"url":"mxc://x/y"}"#);
    let mut content = json(r#"{"body":"hi"}"#);
    rewrite_content_for_encrypted_room(&mut content, Some(&entry(None, None)));
    assert_eq!(write_json(&content), r#"{"body":"hi"}"#);
    let h = harvest(&json(r#"{"content":{"file":{"url":"mxc://x/y"}}}"#));
    assert!(h.file.is_none());
}

#[test]
fn media_is_uploaded_again_in_plain() {
    let e = entry(Some("image/png"), Some("cat.png"));
    let mut content = json(r#"{"url":"mxc://x.org/y"}"#);
    match reupload_plaintext_if_needed(&content, Some(&e)) {
        Ok(Reupload::Download(path)) => {
            assert_eq!(path, "/_matrix/client/v1/media/download/x.org/y")
        }
        _ => panic!("no download"),
    }
    assert!(matches!(reupload_plaintext_if_needed(&content, None), Ok(Reupload::Nothing)));
    assert!(matches!(reupload_plaintext_if_needed(&Json::object(), Some(&e)), Ok(Reupload::Nothing)));
    let bad = json(r#"{"url":"http://x"}"#);
    assert_eq!(
        reupload_plaintext_if_needed(&bad, Some(&e)).err().unwrap().message(),
        "malformed mxc URI"
    );
    let upload = reupload_downloaded(&e, 200, DATA).ok().unwrap();
    assert_eq!(upload.body, b"It's a secret to everybody");
    assert_eq!(upload.content_type, "image/png");
    assert_eq!(upload.filename, Some("cat.png".to_owned()));
    assert_eq!(
        reupload_downloaded(&e, 502, DATA).err().unwrap().message(),
        "download for re-upload failed"
    );
    assert!(reuploaded(&mut content, 200, br#"{"content_uri":"mxc://x/z"}"#).is_ok());
    assert_eq!(write_json(&content), r#"{"url":"mxc://x/z"}"#);
    assert_eq!(
        reuploaded(&mut content, 500, b"").err().unwrap().message(),
        "plaintext re-upload failed"
    );
    assert_eq!(
        reuploaded(&mut content, 200, b"{}").err().unwrap().message(),
        "upload response missing content_uri"
    );
    assert_eq!(write_json(&content), r#"{"url":"mxc://x/z"}"#);
}

#[test]
fn uploads_are_made_of_the_ciphertext() {
    let upload = encrypted_upload(
        Some("filename=a.txt"),
        Some(b"text/plain"),
        Ok((b"cipher".to_vec(), json(KEY))),
    )
    .ok()
    .unwrap();
    assert_eq!(upload.file.body, b"cipher");
    assert_eq!(upload.file.content_type, "application/octet-stream");
    assert_eq!(upload.entry.mimetype, Some("text/plain".to_owned()));
    assert_eq!(upload.entry.filename, Some("a.txt".to_owned()));
    assert_eq!(write_json(&upload.entry.info), write_json(&json(KEY)));
    match encrypted_upload(None, None, Err(Failure::new("no randomness"))) {
        Err(ProxyError::Internal(f)) => assert_eq!(f.message(), "no randomness"),
        _ => panic!("uploaded"),
    }
}

#[test]
fn uris_name_attachments() {
    let mut content = Json::object();
    content.put("url", Json::text(&media_uri("x.org", "abc")));
    match reupload_plaintext_if_needed(&content, Some(&entry(None, None))) {
        Ok(Reupload::Download(path)) => assert_eq!(path, download_path("x.org", "abc")),
        _ => panic!("no download"),
    }
}

#[test]
fn keys_of_received_files_read_back() {
    // A key of another client: in another order, and with more in it.
    let mut file = json(
        r#"{"extra":1,"hashes":{"sha256":"ANdt819a8bZl4jKy3Z+jcqtiNICa2y0AW4BBJ/iQRAU"},"iv":"i0DovxYdJEcAAAAAAAAAAA","key":{"alg":"A256CTR","ext":true,"k":"Voq2nkPme_x8no5-Tjq_laDAdxE6iDbxnlQXxwFPgE4","key_ops":["encrypt","decrypt","x"],"kty":"oct"},"v":"v2"}"#,
    );
    file.put("url", Json::text("mxc://x/y"));
    let mut content = json(r#"{"body":"secret.txt","info":{"mimetype":"text/plain"}}"#);
    content.put("file", file);
    let mut event = Json::object();
    event.put("content", content);
    let row = harvest(&event).file.unwrap();
    let key_json = row.key_json.clone();
    let e = media_entry(row).unwrap();
    assert_eq!(e.mimetype, Some("text/plain".to_owned()));
    assert_eq!(decrypt_attachment(DATA, &e.info).ok().unwrap(), b"It's a secret to everybody");
    // Stored and sent again it stays the same.
    assert_eq!(media_row("mxc://x/y", &e).key_json, key_json);
    let mut content = json(r#"{"body":"b","url":"mxc://x/y"}"#);
    rewrite_content_for_encrypted_room(&mut content, Some(&e));
    let mut event = Json::object();
    event.put("content", content);
    let h = harvest(&event);
    assert_eq!(h.file.as_ref().unwrap().key_json, key_json);
    harvest_and_rewrite_decrypted(&mut event, &h, true, false);
    assert_eq!(
        write_json(&event),
        r#"{"content":{"body":"b","info":{"mimetype":"text/plain"},"url":"mxc://x/y"}}"#
    );
}

#[test]
fn every_attachment_is_encrypted() {
    for n in [0, 1, 15, 16, 17, 31, 32, 33, 1000, 70_000] {
        let data = vec![7u8; n];
        let (encrypted, info) = encrypt_attachment(&data).ok().unwrap();
        assert_eq!(info.get_text("v"), Some("v2".to_owned()));
        assert_eq!(decrypt_attachment(&encrypted, &info).ok().unwrap(), data);
        assert!(handle_upload(None, None, Ok(data)).is_ok());
    }
}

#[test]
fn keys_of_other_versions_are_kept() {
    let file = json(
        r#"{"a":[1,{"b":null},"c"],"hashes":{"md5":"AAAA"},"key":{"k":true},"url":"mxc://x/y","v":"v9"}"#,
    );
    let mut content = Json::object();
    content.put("file", file);
    let mut event = Json::object();
    event.put("content", content);
    let row = harvest(&event).file.unwrap();
    assert_eq!(row.mxc, "mxc://x/y");
    let key_json = row.key_json.clone();
    let e = media_entry(row).unwrap();
    assert_eq!(
        write_json(&e.info),
        r#"{"a":[1,{"b":null},"c"],"hashes":{"md5":"AAAA"},"key":{"k":true},"v":"v9"}"#
    );
    assert_eq!(media_row("mxc://x/y", &e).key_json, key_json);
    let mut content = json(r#"{"url":"mxc://x/z"}"#);
    rewrite_content_for_encrypted_room(&mut content, Some(&e));
    let mut event = Json::object();
    event.put("content", content);
    let row = harvest(&event).file.unwrap();
    assert_eq!((row.mxc.as_str(), row.key_json), ("mxc://x/z", key_json));
    assert!(decrypt_attachment(DATA, &e.info).is_err());
}
