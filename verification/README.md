# ffw-slot-selector

QR-code based time-slot booking: participants open the link on their QR code,
enter name and e-mail and pick a time slot; an admin page manages users and
slots.

The logic is a Verus library (`src/`), each function with its contract:

- `db` — the stored records; the participant's booking and the admin's
  change of a user as state machines that decide from their statements'
  answers whether a user exists and a slot still has room, with a model of
  the tables and the proofs of what each does and that neither books a slot
  beyond its maximum; the first-start admin setup.
- `api` — the request handlers as a state machine: each request alternates
  calls (made by the server) and decisions (made here), up to its answer;
  input checks; the refusal messages; proofs that unconfirmed admins are
  refused, bad forms never reach the booking, and every request is answered.
- `email` — the confirmation mail's subject, HTML body and plain text from
  the templates, with HTML escaping and the proofs that it can be undone and
  that a name adds no markup; the check of the mail addresses (lettre).
- `token` — tokens: UUID bytes, their hyphenated text (uuid crate) and their
  unpadded base64url link form (base64 crate), with the proof that a link
  names its token.
- `pages` — which token a page address carries, and the links between pages.
- `views` — what the view, edit and admin pages show and how they react: the
  slot cards (with the proof that one card ends up selected), the edit form's
  outcomes, the admin tables, confirmations and inline editing, the CSV
  export and the QR code dialog (qrcode crate).
- `text` — character-level string operations with their specifications.

`app/` is the server around it: command line, SQLite through sqlx, SMTP
through lettre, HTTP through axum, and the loops that run the library's state
machines. `serde` is used there only, for the JSON bodies.

The browser side (a WebAssembly page that builds the document and calls the
API) is not included: it is a crate of its own, built for the browser, and
its API client is generated from an OpenAPI description that this tree does
not hold. Everything that page decides is in `pages` and `views`; what is left is
putting those values into the document. The mail templates and the coat of
arms are not in this tree either, so the server reads them from
`TEMPLATE_DIR` and `STATIC_DIR` when it sends a mail.
