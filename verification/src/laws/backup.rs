//! Restoring the backup of room keys: which keys are imported, and how a restoring goes
//! from its start to its report.

use crate::crypto::backup;
use crate::crypto::backup::{EventView, MatchView, ReportView, StateView, StepView};
use crate::json::JsonView;
use crate::json_text;
use crate::laws::json as laws;
use crate::percent;
use crate::wire;
use crate::wire::RequestView;
use vstd::prelude::*;
use vstd::string::*;
use vstd::utf8::*;

verus! {

/// What a backed-up key is decrypted to, if it can be.
pub open spec fn readable(secret: Seq<char>, key: (Seq<char>, Seq<char>, JsonView)) -> Option<
    JsonView,
> {
    backup::decrypted_room_key(secret, key.0, key.1, key.2)
}

/// How many of the first `n` backed-up keys can be decrypted.
pub open spec fn readable_before(
    secret: Seq<char>,
    keys: Seq<(Seq<char>, Seq<char>, JsonView)>,
    n: int,
) -> nat
    decreases n,
{
    if n <= 0 {
        0
    } else if readable(secret, keys[n - 1]) is Some {
        readable_before(secret, keys, n - 1) + 1
    } else {
        readable_before(secret, keys, n - 1)
    }
}

proof fn lemma_readable(
    secret: Seq<char>,
    keys: Seq<(Seq<char>, Seq<char>, JsonView)>,
    more: Seq<(Seq<char>, Seq<char>, JsonView)>,
    n: int,
)
    requires
        0 <= n <= keys.len(),
    ensures
        readable_before(secret, keys + more, n) == readable_before(secret, keys, n),
    decreases n,
{
    if n > 0 {
        lemma_readable(secret, keys, more, n - 1);
        assert((keys + more)[n - 1] == keys[n - 1]);
    }
}

proof fn lemma_room_keys(secret: Seq<char>, keys: Seq<(Seq<char>, Seq<char>, JsonView)>)
    ensures
        backup::room_keys(secret, keys).len() == readable_before(secret, keys, keys.len() as int),
        forall|i: int|
            #![trigger keys[i]]
            0 <= i < keys.len() && readable(secret, keys[i]) is Some ==> {
                &&& readable_before(secret, keys, i) < backup::room_keys(secret, keys).len()
                &&& backup::room_keys(secret, keys)[readable_before(secret, keys, i) as int]
                    == readable(secret, keys[i])->0
            },
    decreases keys.len(),
{
    if keys.len() > 0 {
        let front = keys.drop_last();
        lemma_room_keys(secret, front);
        assert(keys =~= front + seq![keys.last()]);
        assert forall|i: int|
            #![trigger keys[i]]
            0 <= i < keys.len() && readable(secret, keys[i]) is Some implies {
            &&& readable_before(secret, keys, i) < backup::room_keys(secret, keys).len()
            &&& backup::room_keys(secret, keys)[readable_before(secret, keys, i) as int]
                == readable(secret, keys[i])->0
        } by {
            lemma_readable(secret, front, seq![keys.last()], i);
            if i < front.len() {
                assert(front[i] == keys[i]);
            }
        }
        lemma_readable(secret, front, seq![keys.last()], front.len() as int);
    }
}

/// Every backed-up key that can be decrypted is imported, once and in its place; and
/// nothing else is. The report's total counts all of them.
pub proof fn every_readable_key_is_imported(
    secret: Seq<char>,
    version: Seq<char>,
    status: u16,
    body: JsonView,
    keys: Seq<(Seq<char>, Seq<char>, JsonView)>,
)
    requires
        200 <= status <= 299,
        backup::backed_up_keys(encode_utf8(json_text::json_text(body))) == Ok::<
            Seq<(Seq<char>, Seq<char>, JsonView)>,
            Seq<char>,
        >(keys),
        keys.len() <= usize::MAX,
    ensures
        match backup::restore_next(
            secret,
            StateView::Downloading { version },
            EventView::Downloaded(Ok((status, body))),
        ) {
            (
                StateView::Importing { version: v, total },
                StepView::Import { keys: imported, version: w },
            ) => {
                &&& v == version
                &&& w == version
                &&& total == keys.len()
                &&& imported.len() == readable_before(secret, keys, keys.len() as int)
                &&& forall|i: int|
                    #![trigger keys[i]]
                    0 <= i < keys.len() ==> match readable(secret, keys[i]) {
                        Some(k) => readable_before(secret, keys, i) < imported.len()
                            && imported[readable_before(secret, keys, i) as int] == k
                            && imported.contains(k),
                        None => true,
                    }
            },
            _ => false,
        },
{
    lemma_room_keys(secret, keys);
    let imported = backup::room_keys(secret, keys);
    assert forall|i: int|
        #![trigger keys[i]]
        0 <= i < keys.len() implies match readable(secret, keys[i]) {
        Some(k) => imported.contains(k),
        None => true,
    } by {
        if readable(secret, keys[i]) is Some {
            assert(imported[readable_before(secret, keys, i) as int] == readable(
                secret,
                keys[i],
            )->0);
        }
    }
}

proof fn lemma_words()
    ensures
        "version"@ != "algorithm"@,
        "version"@ != "auth_data"@,
        "algorithm"@ != "auth_data"@,
        "backup_version"@ != "enabled"@,
        "backup_version"@ != "total_keys_in_backup"@,
        "backup_version"@ != "imported_keys"@,
        "enabled"@ != "total_keys_in_backup"@,
        "enabled"@ != "imported_keys"@,
        "total_keys_in_backup"@ != "imported_keys"@,
{
    reveal_strlit("version");
    reveal_strlit("algorithm");
    reveal_strlit("auth_data");
    reveal_strlit("backup_version");
    reveal_strlit("enabled");
    reveal_strlit("total_keys_in_backup");
    reveal_strlit("imported_keys");
    assert("version"@.len() == 7 && "algorithm"@.len() == 9 && "auth_data"@.len() == 9);
    assert("algorithm"@[1] == 'l' && "auth_data"@[1] == 'u');
    assert("backup_version"@.len() == 14 && "enabled"@.len() == 7);
    assert("total_keys_in_backup"@.len() == 20 && "imported_keys"@.len() == 13);
}

/// What a backup says of itself: its algorithm and its authentication data, as the
/// homeserver gave them, and nothing else.
pub open spec fn describes(info: JsonView, algorithm: Seq<char>, auth_data: JsonView) -> bool {
    &&& info.get("algorithm"@) == Some(JsonView::Str(algorithm))
    &&& info.get("auth_data"@) == Some(auth_data)
    &&& forall|key: Seq<char>|
        key != "algorithm"@ && key != "auth_data"@ ==> #[trigger] info.get(key) is None
}

/// How a restoring goes, with a valid key that matches the homeserver's backup: the version
/// is asked for; backups are enabled for it, unless they were before; all keys are
/// downloaded; those that can be decrypted are imported; and the report says which
/// version it was, how many keys it holds and how many were imported.
pub proof fn restoring_reaches_its_report(
    secret: Seq<char>,
    info: JsonView,
    version: Seq<char>,
    algorithm: Seq<char>,
    auth_data: JsonView,
    described: JsonView,
    stored: Option<Seq<char>>,
    body: JsonView,
    keys: Seq<(Seq<char>, Seq<char>, JsonView)>,
    imported: usize,
    statuses: (u16, u16),
)
    requires
        200 <= statuses.0 <= 299,
        200 <= statuses.1 <= 299,
        backup::backup_key_error(secret) is None,
        info.get("version"@) == Some(JsonView::Str(version)),
        info.get("algorithm"@) == Some(JsonView::Str(algorithm)),
        info.get("auth_data"@) == Some(auth_data),
        described is Object,
        describes(described, algorithm, auth_data),
        backup::backup_match(secret, described) is Matches,
        backup::backed_up_keys(encode_utf8(json_text::json_text(body))) == Ok::<
            Seq<(Seq<char>, Seq<char>, JsonView)>,
            Seq<char>,
        >(keys),
        keys.len() <= usize::MAX,
    ensures
        ({
            let a = backup::restore_next(secret, StateView::Start, EventView::Begin);
            let b = backup::restore_next(secret, a.0, EventView::Version(Ok((statuses.0, info))));
            let c = backup::restore_next(secret, b.0, EventView::Stored(Ok(stored)));
            let d = if stored == Some(version) {
                c
            } else {
                backup::restore_next(secret, c.0, EventView::Enabled(Ok(())))
            };
            let e = backup::restore_next(
                secret,
                d.0,
                EventView::Downloaded(Ok((statuses.1, body))),
            );
            let f = backup::restore_next(secret, e.0, EventView::Imported(Ok(imported)));
            &&& a.1 == StepView::FetchVersion(
                (RequestView {
                    method: "GET"@,
                    path: "/_matrix/client/v3/room_keys/version"@,
                    body: None,
                }),
            )
            &&& b.1 is LoadStored
            &&& stored != Some(version) ==> c.1 == StepView::Enable(version)
            &&& d.1 == StepView::Download(
                (RequestView {
                    method: "GET"@,
                    path: "/_matrix/client/v3/room_keys/keys?version="@ + percent::encoded_text(
                        version,
                    ),
                    body: None,
                }),
            )
            &&& e.1 is Import
            &&& f.0 is Done
            &&& f.1 == StepView::Finish(
                Ok(
                    ReportView {
                        backup_version: Some(version),
                        enabled: true,
                        total_keys_in_backup: keys.len() as usize,
                        imported_keys: imported,
                    },
                ),
            )
        }),
{
    lemma_words();
    let v = backup::VersionView { version, algorithm, auth_data };
    lemma_described(described, v);
}

proof fn lemma_described(described: JsonView, v: backup::VersionView)
    requires
        described is Object,
        describes(described, v.algorithm, v.auth_data),
    ensures
        backup::info_json(v) == described,
{
    lemma_words();
    let info = backup::info_json(v);
    assert forall|key: Seq<char>| #[trigger] described.get(key) == info.get(key) by {
        if key != "algorithm"@ && key != "auth_data"@ {
            assert(described.get(key) is None);
        }
    }
    laws::members_make_the_object(described, info);
}

/// A key that does not match the backup, or that is none, restores nothing: nothing is
/// enabled and nothing is downloaded.
pub proof fn other_keys_restore_nothing(
    secret: Seq<char>,
    status: u16,
    info: JsonView,
    version: Seq<char>,
    algorithm: Seq<char>,
    auth_data: JsonView,
    described: JsonView,
)
    requires
        200 <= status <= 299,
        info.get("version"@) == Some(JsonView::Str(version)),
        info.get("algorithm"@) == Some(JsonView::Str(algorithm)),
        info.get("auth_data"@) == Some(auth_data),
        described is Object,
        describes(described, algorithm, auth_data),
        !(backup::backup_match(secret, described) is Matches),
    ensures
        ({
            let b = backup::restore_next(
                secret,
                StateView::Version,
                EventView::Version(Ok((status, info))),
            );
            b.0 is Done && (b.1 matches StepView::Finish(Err(_)))
        }),
        backup::backup_key_error(secret) is Some ==> ({
            let a = backup::restore_next(secret, StateView::Start, EventView::Begin);
            a.0 is Done && (a.1 matches StepView::Finish(Err(_)))
        }),
{
    lemma_described(described, backup::VersionView { version, algorithm, auth_data });
}

/// Without a backup there is nothing to restore, and that is no failure; any other
/// unsuccessful reply is one. A description that lacks a part is a failure too.
pub proof fn replies_on_the_version(secret: Seq<char>, status: u16, info: JsonView)
    ensures
        ({
            let b = backup::restore_next(
                secret,
                StateView::Version,
                EventView::Version(Ok((status, info))),
            );
            &&& status == 404 ==> b.0 is Done && b.1 == StepView::Finish(
                Ok(
                    ReportView {
                        backup_version: None,
                        enabled: false,
                        total_keys_in_backup: 0,
                        imported_keys: 0,
                    },
                ),
            )
            &&& status != 404 && (status < 200 || status > 299) ==> b.0 is Done && (
            b.1 matches StepView::Finish(Err(_)))
            &&& 200 <= status <= 299 && (!(info.get("version"@) matches Some(JsonView::Str(_)))
                || !(info.get("algorithm"@) matches Some(JsonView::Str(_))) || info.get(
                "auth_data"@,
            ) is None) ==> b.0 is Done && (b.1 matches StepView::Finish(Err(_)))
        }),
{
}

/// A failure on the way ends the restoring with that failure; nothing is done after the
/// end.
pub proof fn failures_end_the_restoring(
    secret: Seq<char>,
    version: Seq<char>,
    total: usize,
    failure: Seq<Seq<char>>,
    event: EventView,
)
    ensures
        backup::restore_next(secret, StateView::Version, EventView::Version(Err(failure))) == (
            StateView::Done,
            StepView::Finish(Err(failure)),
        ),
        backup::restore_next(
            secret,
            StateView::Stored { version },
            EventView::Stored(Err(failure)),
        ) == (StateView::Done, StepView::Finish(Err(failure))),
        backup::restore_next(
            secret,
            StateView::Enabling { version },
            EventView::Enabled(Err(failure)),
        ) == (StateView::Done, StepView::Finish(Err(failure))),
        backup::restore_next(
            secret,
            StateView::Downloading { version },
            EventView::Downloaded(Err(failure)),
        ) == (StateView::Done, StepView::Finish(Err(failure))),
        ({
            let r = backup::restore_next(
                secret,
                StateView::Importing { version, total },
                EventView::Imported(Err(failure)),
            );
            r.0 is Done && (r.1 matches StepView::Finish(Err(f)) && f.len() == failure.len() + 1
                && f.skip(1) == failure)
        }),
        backup::restore_next(secret, StateView::Done, event) == (StateView::Done, StepView::Stop),
{
    let f = seq!["importing room keys failed"@] + failure;
    assert(f.skip(1) =~= failure);
}

/// A download that the homeserver refuses, or that cannot be read, imports nothing.
pub proof fn unread_backup_imports_nothing(
    secret: Seq<char>,
    version: Seq<char>,
    status: u16,
    body: JsonView,
)
    requires
        status < 200 || status > 299 || backup::backed_up_keys(
            encode_utf8(json_text::json_text(body)),
        ) is Err,
    ensures
        ({
            let r = backup::restore_next(
                secret,
                StateView::Downloading { version },
                EventView::Downloaded(Ok((status, body))),
            );
            r.0 is Done && (r.1 matches StepView::Finish(Err(_)))
        }),
{
}

/// A report as JSON says what the report says, under these names and no others.
pub proof fn report_is_written_out(r: ReportView, key: Seq<char>)
    ensures
        ({
            let out = backup::report_json(r);
            &&& out is Object
            &&& out.get("backup_version"@) == Some(
                match r.backup_version {
                    Some(v) => JsonView::Str(v),
                    None => JsonView::Null,
                },
            )
            &&& out.get("enabled"@) == Some(JsonView::Bool(r.enabled))
            &&& out.get("total_keys_in_backup"@) == Some(
                JsonView::Natural(r.total_keys_in_backup as u64),
            )
            &&& out.get("imported_keys"@) == Some(JsonView::Natural(r.imported_keys as u64))
            &&& key != "backup_version"@ && key != "enabled"@ && key != "total_keys_in_backup"@
                && key != "imported_keys"@ ==> out.get(key) is None
        }),
{
    lemma_words();
}

/// Failures say why: what is wrong with the key, with the version's description, or with the
/// room keys; which version the key does not match; and what the homeserver replied.
pub proof fn restoring_says_why_it_failed(
    secret: Seq<char>,
    version: Seq<char>,
    status: u16,
    body: JsonView,
)
    ensures
        backup::backup_key_error(secret) matches Some(e) ==> says(
            backup::restore_next(secret, StateView::Start, EventView::Begin),
            e,
        ),
        200 <= status <= 299 ==> (backup::backed_up_keys(
            encode_utf8(json_text::json_text(body)),
        ) matches Err(e) ==> says(
            backup::restore_next(
                secret,
                StateView::Downloading { version },
                EventView::Downloaded(Ok((status, body))),
            ),
            e,
        )),
        status < 200 || status > 299 ==> says(
            backup::restore_next(
                secret,
                StateView::Downloading { version },
                EventView::Downloaded(Ok((status, body))),
            ),
            wire::status_line(status) + " "@ + json_text::json_text(body),
        ),
        status != 404 && (status < 200 || status > 299) ==> says(
            backup::restore_next(
                secret,
                StateView::Version,
                EventView::Version(Ok((status, body))),
            ),
            wire::status_line(status) + " "@ + json_text::json_text(body),
        ),
        backup::matched_next(version, MatchView::Differs) matches (
            StateView::Done,
            StepView::Finish(Err(f)),
        ) && f.len() == 1 && exists|before: Seq<char>, after: Seq<char>|
            f[0] == #[trigger] (before + version + after),
        backup::matched_next(version, MatchView::Matches) == (
            (StateView::Stored { version }),
            StepView::LoadStored,
        ),
{
    let told = wire::status_line(status) + " "@ + json_text::json_text(body);
    let a = "downloading room keys failed: "@ + wire::status_line(status) + " "@
        + json_text::json_text(body);
    let b = "room_keys/version failed: "@ + wire::status_line(status) + " "@
        + json_text::json_text(body);
    assert(a.skip(a.len() - told.len()) =~= told);
    assert(b.skip(b.len() - told.len()) =~= told);
    assert(backup::mismatch_message(version)
        == "the recovered backup key does not match the active server-side backup (version "@
        + version + "); was the backup reset after the recovery key was created?"@);
}

/// Whether a restoring ends with a failure whose innermost message ends with a text.
pub open spec fn says(next: (StateView, StepView), text: Seq<char>) -> bool {
    next.0 is Done && (next.1 matches StepView::Finish(Err(f)) && f.len() > 0 && text.is_suffix_of(
        f.last(),
    ))
}

} // verus!
