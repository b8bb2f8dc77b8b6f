# ement-e2ee

A local proxy that gives Emacs' Matrix client [ement.el](https://github.com/alphapapa/ement.el)
end-to-end encryption. The client talks plain Matrix to the proxy; the proxy decrypts what
comes from the homeserver and encrypts what goes to encrypted rooms.

## Layout

- `src/` is the library: the rules of the proxy, verified with [Verus](https://github.com/verus-lang/verus).
  - `proxy/`: which requests are intercepted, whose session they belong to, what is handed on.
  - `crypto/`: sending, syncing, decrypting, attachments, room settings, the machine's
    requests, key backup, secret storage, verification. Work that alternates between
    decisions and the network is a function from a state and an event to the next state and
    the next step.
  - `admin/`: the control API, and the commands that call it.
  - `session`, `config`, `upstream`, `error`, `failure`: accounts, settings, the homeserver's
    URLs and replies, and errors.
  - `json`, `json_text`, `percent`, `wire`, `ids`, `string_map`, `text`: the data that the
    rest is stated over.
- `app/` is the program: sockets, storage, the crypto machine, and the loops that perform the
  steps that the library names.
- `tests/` runs the library on concrete values.

## What is proved

Every function of `src/` states in its contract what it returns. Public proof functions state
what holds across functions, among them:

- a message to a room is sent in plain only where the room is known to be unencrypted, and
  refused where that cannot be found out (`crypto::encrypt::send_fails_closed`,
  `unknown_room_is_refused`);
- a room key is shared with all members of the room, on all their devices, before a message
  is encrypted (`crypto::encrypt::shares_with_members`, `encrypts_after_sharing`);
- the machine has taken in a sync's keys before its events are decrypted
  (`crypto::sync::machine_is_fed_first`);
- an uploaded file comes back as it was (`crypto::media::upload_comes_back`);
- the keys of received files can be read back from the table that keeps them
  (`crypto::media::stored_key_reads_back`);
- events that are not encrypted reach the client as they came (`crypto::decrypt`);
- a request of the crypto machine is marked as sent only with a response of its own kind
  (`crypto::machine::only_answered_requests_are_marked`);
- each device has a store of its own (`session::stores_are_apart`), and a logout evicts its
  session (`proxy::logout_evicts`).

What outside crates compute (JSON text, URLs, identifiers, ciphers) is named or described by
small wrappers, each marked `external_body` or `assume_specification` with a note on what is
taken for granted.
