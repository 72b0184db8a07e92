# wa_core

Protocol logic of a WhatsApp multi-device client, written in Verus with
machine-checked contracts.

- `src/` is the verified library: binary stanza nodes and JIDs; inbound
  acknowledgements, receipts, notifications and message metadata; receipts,
  call rejection, media re-upload requests and message ids; media kinds,
  upload paths and URLs, the media connection, the upload cache and the
  retry coordinator (both over one verified recency map), the storage format
  of pending retries; link preview extraction from HTML; WMex query framing
  and response checks over a plain JSON model; history-sync kinds and the
  parts of a payload each reads, limits, LID mappings, call-log and sticker
  ids, the media a sync notification points at, and bounded inflation; and
  the processing of a decoded history payload (held as plain values) into
  chat, contact, message, update, reaction, call, group and account-settings
  records, each exactly as a spec function over the payload states it.
- Most contracts state a refusal down to its text: the text of the first
  broken rule.
- `tests/` exercises the library on concrete values.
- `app/` is the runtime around it: JSON parsing with serde_json, HTTP with
  reqwest, files with tokio, the wall clock, randomness and locks.
