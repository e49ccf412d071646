# ContextSend

ContextSend shares chat-AI conversation context between devices on a LAN:
it reads conversations out of local chat applications (Jan, ChatBox),
matches a copied snippet back to its whole conversation, pairs two devices
with a 6-digit code (X25519 + HKDF-SHA256) and pushes the conversation over
AES-256-GCM frames.

Layout:

- `src/` — the verified library (Verus): the conversation model, a JSON
  document model, the OpenAI request-body and wire message forms, the Jan
  and ChatBox formats, snippet matching, adapter
  configuration, key agreement and session encryption, framing, the pairing
  decisions, mDNS record handling, the device and pending-pairing tables, and
  the texts of the desktop shell. Calls into the cryptography, UUID and random
  crates go through small trusted wrappers whose contracts are documented
  where they stand.
- `tests/` — tests of the library.
- `app/` — the desktop application around it: file and network I/O, the
  DevTools client for ChatBox, mDNS, the TCP service, JSON text and serde
  forms of the library's types, and the Tauri shell.
