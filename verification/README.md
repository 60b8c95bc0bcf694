# ekstre-core

The verified core of Ekstre, a desktop reminder for Turkish credit-card
statements: it reads statement e-mails (body text or PDF attachment) with
per-bank patterns, keeps the statements in a local store, and reminds before
each due date.

## Layout

- `src/` — the library, written in Verus and proved:
  - `text` — character sequences, integer reading and writing, ordering;
  - `calendar` — day numbers of civil dates, the IMAP `SINCE` token, days left;
  - `amount` — Turkish and US amount writings in kuruş, and their formatting;
  - `pattern`, `matcher` — the `regex` calls, header matching, HTML stripping;
  - `banks`, `parser` — bank definitions and reading a statement from text;
  - `store` — the store's rules: natural key, backfill suppression, reminder
    eligibility, newest statement per card;
  - `format`, `dashboard` — reminder texts, dashboard cards, file names;
  - `config`, `mail`, `pdf`, `poll` — settings, reading a message with
    `mail-parser`, the text of PDF attachments through `pdfium-render`, and the
    decisions of a poll and of the reminder pass.
- `tests/` — the library on concrete values.
- `app/` — the desktop application around the library: SQLite, binding the
  pdfium library, the IMAP session, the keychain, the bank pack file and the Tauri shell.
