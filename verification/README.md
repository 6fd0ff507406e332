# secret-hub-core

A local-first secret manager for developers: TOTP seeds, API keys, account
passwords, tokens and `.env` profiles, kept in one encrypted vault file.

`src/` is the library, each function with a proved contract:

- `envfile` – `.env` parsing and rendering; parsing what was rendered gives
  the same variables back.
- `totp` – TOTP codes (RFC 6238 over HMAC-SHA1) and secret normalization.
- `crypto` – Argon2id key derivation, XChaCha20-Poly1305 sealing, base64 text
  forms of keys, salts and payloads.
- `model` – secret entries, `.env` profiles and the vault data.
- `store`, `paths` – the vault's files: the caller reads them into a
  `VaultFiles` snapshot, and the library answers with `FileEffect`s to carry
  out.
- `vault` – `SecretHub`: creating, unlocking, logging in and out, switching
  between password and no-password mode, and adding, finding, listing and
  deleting entries. Each step that draws random keys, salts or nonces, or
  reads the clock, has a twin that takes those values as arguments and whose
  contract pins down the result.
- `interface` – small rules shared by front ends (masking, requests to add a
  secret and their required fields).
- `text` – character-level helpers.

`app/` is the `shub` command line: argument parsing, prompts, the clipboard,
JSON files on disk and the conversions between the library's types and their
JSON forms.

`tests/` exercise the library on concrete values.
