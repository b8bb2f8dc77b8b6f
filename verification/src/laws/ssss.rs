//! Secret storage: which secrets are fetched, and what is done with them.

use crate::crypto::backup;
use crate::crypto::backup::ReportView;
use crate::crypto::ssss;
use crate::crypto::ssss::{
    BootstrapReport, BootstrapStage, BootstrapView, EventView, SecretView, StepView,
    StorageKeyView,
};
use crate::json::JsonView;
use crate::percent;
use vstd::prelude::*;
use vstd::string::*;
use vstd::utf8::*;

verus! {

/// How a recovery goes: the storage is opened; the three cross-signing keys are fetched,
/// each under its own name; the user's identity is queried, and then the keys that were
/// found are imported; the device is signed, and the signature uploaded, where there is a
/// self-signing key; the backup key is fetched, and room keys are restored with it, where it
/// is there; and what is pending is sent.
pub proof fn recovery_goes_through(
    master: Option<Seq<char>>,
    self_signing: Option<Seq<char>>,
    user_signing: Option<Seq<char>>,
    signs: bool,
    backup_key: Option<Seq<char>>,
    report: ReportView,
)
    ensures
        ({
            let a = ssss::bootstrap_start();
            let b = ssss::bootstrap_next(a, EventView::Through);
            let c = ssss::bootstrap_next(b, EventView::Secret(master));
            let d = ssss::bootstrap_next(c, EventView::Secret(self_signing));
            let e = ssss::bootstrap_next(d, EventView::Secret(user_signing));
            let f = ssss::bootstrap_next(e, EventView::Through);
            let g = ssss::bootstrap_next(f, EventView::Imported { has_self_signing: signs });
            let h = ssss::bootstrap_next(g, EventView::Through);
            let i = ssss::bootstrap_next(h, EventView::Through);
            let j = if signs {
                ssss::bootstrap_next(i, EventView::Through)
            } else {
                g
            };
            let k = ssss::bootstrap_next(j, EventView::Secret(backup_key));
            let l = if backup_key is Some {
                ssss::bootstrap_next(k, EventView::Restored(report))
            } else {
                k
            };
            let m = ssss::bootstrap_next(l, EventView::Through);
            &&& ssss::step_of(a) is OpenStorage
            &&& ssss::step_of(b) == StepView::FetchSecret("m.cross_signing.master"@)
            &&& ssss::step_of(c) == StepView::FetchSecret("m.cross_signing.self_signing"@)
            &&& ssss::step_of(d) == StepView::FetchSecret("m.cross_signing.user_signing"@)
            &&& ssss::step_of(e) is QueryKeys
            &&& ssss::step_of(f) == (StepView::Import {
                master_key: master,
                self_signing_key: self_signing,
                user_signing_key: user_signing,
            })
            &&& signs ==> ssss::step_of(g) is Sign && ssss::step_of(h) is UploadSignature
                && ssss::step_of(i) is QueryKeys
            &&& ssss::step_of(j) == StepView::FetchSecret("m.megolm_backup.v1"@)
            &&& backup_key matches Some(s) ==> ssss::step_of(k) == StepView::Restore(s)
            &&& ssss::step_of(l) is Pump
            &&& ssss::step_of(m) is Report
            &&& m.stage == BootstrapStage::Finished
            &&& m.master_key == master
            &&& m.self_signing_key == self_signing
            &&& m.user_signing_key == user_signing
            &&& m.signed == signs
            &&& m.backup == if backup_key is Some {
                Some(report)
            } else {
                None
            }
        }),
{
}

/// What comes in at the wrong moment ends a recovery, and so does a failure; nothing is done
/// after that.
pub proof fn recovery_fails_for_good(b: BootstrapView, event: EventView, later: EventView)
    requires
        event is Failed || (b.stage == BootstrapStage::Import && !(event is Imported)) || (b.stage
            == BootstrapStage::Restore && !(event is Restored)),
    ensures
        ssss::step_of(ssss::bootstrap_next(b, event)) is Stop,
        ssss::step_of(ssss::bootstrap_next(ssss::bootstrap_next(b, event), later)) is Stop,
{
}

/// Account data is fetched from the user's own, by its type.
pub proof fn account_data_is_named(user: Seq<char>, kind: Seq<char>)
    ensures
        ssss::account_data_url(user, kind) == "/_matrix/client/v3/user/"@ + percent::encoded_text(
            user,
        ) + "/account_data/"@ + percent::encoded_text(kind),
{
}

/// Account data is what a successful reply holds; where there is none, that is no failure;
/// any other reply is one.
pub proof fn account_data_is_read(
    kind: Seq<char>,
    status: u16,
    body: JsonView,
    failure: Seq<Seq<char>>,
)
    ensures
        ssss::account_data(kind, Ok((status, body))) == Ok::<Option<JsonView>, Seq<Seq<char>>>(
            Some(body),
        ) <==> 200 <= status <= 299,
        ssss::account_data(kind, Ok((status, body))) == Ok::<Option<JsonView>, Seq<Seq<char>>>(None)
            <==> status == 404,
        ssss::account_data(kind, Ok((status, body))) is Err <==> status != 404 && (status < 200
            || status > 299),
        ssss::account_data(kind, Err(failure)) == Err::<Option<JsonView>, Seq<Seq<char>>>(failure),
{
}

/// The description of the storage key is found under the ID of the default key.
pub proof fn default_key_is_named(content: JsonView)
    ensures
        ssss::default_key_type(None) is Err,
        match content.get("key"@) {
            Some(JsonView::Str(id)) => ssss::default_key_type(Some(content)) == Ok::<
                Seq<char>,
                Seq<Seq<char>>,
            >("m.secret_storage.key."@ + id),
            _ => ssss::default_key_type(Some(content)) is Err,
        },
{
}

/// The storage is open with the key that was found, and with no other; otherwise it is told
/// why not.
pub proof fn storage_opens_with_its_key(k: StorageKeyView)
    ensures
        match k {
            StorageKeyView::Opened { key_id, key } => ssss::opened(k) == Ok::<
                (Seq<char>, Seq<char>),
                Seq<Seq<char>>,
            >((key_id, key)),
            StorageKeyView::Malformed(e) => ssss::opened(k) matches Err(f) && f.len() == 2 && f[1]
                == e,
            StorageKeyView::Wrong(e) => ssss::opened(k) matches Err(f) && f.len() == 2 && f[1] == e,
        },
{
}

/// A secret is the text that was encrypted; data that is forged, or that is no text, gives
/// none.
pub proof fn secret_is_its_text(name: Seq<char>, text: Seq<char>, bytes: Seq<u8>, e: Seq<char>)
    ensures
        ssss::secret_text(name, SecretView::Plain(encode_utf8(text))) == Ok::<
            Seq<char>,
            Seq<Seq<char>>,
        >(text),
        !valid_utf8(bytes) ==> ssss::secret_text(name, SecretView::Plain(bytes)) is Err,
        ssss::secret_text(name, SecretView::Malformed(e)) matches Err(f) && f.len() == 2 && f[1]
            == e,
        ssss::secret_text(name, SecretView::Forged(e)) matches Err(f) && f.len() == 2 && f[1] == e,
{
    encode_utf8_valid_utf8(text);
    encode_utf8_decode_utf8(text);
}

/// A secret is decrypted with the key that the storage was opened with, from the data that
/// was encrypted for the key's ID, under the secret's own name. Where there is none for that
/// key, there is no secret, which is no failure.
pub proof fn secret_is_found(
    key_id: Seq<char>,
    key: Seq<char>,
    name: Seq<char>,
    content: JsonView,
)
    ensures
        ssss::secret_in(key_id, key, name, None) == Ok::<Option<Seq<char>>, Seq<Seq<char>>>(None),
        match ssss::pointed(content, "/"@ + "encrypted"@ + "/"@ + key_id) {
            None => ssss::secret_in(key_id, key, name, Some(content)) == Ok::<
                Option<Seq<char>>,
                Seq<Seq<char>>,
            >(None),
            Some(data) => match ssss::secret_data(key, data, name) {
                SecretView::Plain(bytes) => valid_utf8(bytes) ==> ssss::secret_in(
                    key_id,
                    key,
                    name,
                    Some(content),
                ) == Ok::<Option<Seq<char>>, Seq<Seq<char>>>(Some(decode_utf8(bytes))),
                _ => ssss::secret_in(key_id, key, name, Some(content)) is Err,
            },
        },
{
}

proof fn lemma_words()
    ensures
        "imported_master_key"@ != "imported_self_signing_key"@,
        "imported_master_key"@ != "imported_user_signing_key"@,
        "imported_master_key"@ != "own_device_signed"@,
        "imported_master_key"@ != "backup"@,
        "imported_self_signing_key"@ != "imported_user_signing_key"@,
        "imported_self_signing_key"@ != "own_device_signed"@,
        "imported_self_signing_key"@ != "backup"@,
        "imported_user_signing_key"@ != "own_device_signed"@,
        "imported_user_signing_key"@ != "backup"@,
        "own_device_signed"@ != "backup"@,
{
    reveal_strlit("imported_master_key");
    reveal_strlit("imported_self_signing_key");
    reveal_strlit("imported_user_signing_key");
    reveal_strlit("own_device_signed");
    reveal_strlit("backup");
    assert("imported_master_key"@.len() == 19);
    assert("imported_self_signing_key"@.len() == 25);
    assert("imported_user_signing_key"@.len() == 25);
    assert("imported_self_signing_key"@[9] == 's' && "imported_user_signing_key"@[9] == 'u');
    assert("own_device_signed"@.len() == 17);
    assert("backup"@.len() == 6);
}

/// A report as JSON says what the report says, under these names and no others.
pub proof fn recovery_report_is_written_out(r: BootstrapReport, key: Seq<char>)
    ensures
        ({
            let out = ssss::bootstrap_json(r);
            &&& out is Object
            &&& out.get("imported_master_key"@) == Some(JsonView::Bool(r.imported_master_key))
            &&& out.get("imported_self_signing_key"@) == Some(
                JsonView::Bool(r.imported_self_signing_key),
            )
            &&& out.get("imported_user_signing_key"@) == Some(
                JsonView::Bool(r.imported_user_signing_key),
            )
            &&& out.get("own_device_signed"@) == Some(JsonView::Bool(r.own_device_signed))
            &&& out.get("backup"@) == Some(backup::report_json(r.backup@))
            &&& key != "imported_master_key"@ && key != "imported_self_signing_key"@ && key
                != "imported_user_signing_key"@ && key != "own_device_signed"@ && key != "backup"@
                ==> out.get(key) is None
        }),
{
    lemma_words();
}

} // verus!
