# mail_admin

The verified core of an HTTP API through which an organisation administers
its mail domains, email identities, mailboxes and departments.

- `src/` — the library, verified with Verus:
  - `error` — the errors reported to clients;
  - `pagination` — query parameter validation and page arithmetic;
  - `session` — permission checks, API-key parsing, and the admission
    protocol over the session cache and the database;
  - `password` — the password policy and the bcrypt / salted SHA-1 hashes;
  - `identity`, `mailbox` — validation of identity and mailbox requests;
  - `lifecycle` — the transaction steps that create and delete identities
    while keeping the organisation's identity count;
  - `access` — domain access and "row not found" checks shared by endpoints;
  - `update` — the identity and mailbox update endpoints as steps: permission
    and request checks, then the domain check, then the write;
  - `settings` — configuration parsed from environment values;
  - `text`, `codec`, `crypto` — character classes, Base64, SHA-1, bcrypt and
    randomness, each behind a small contract.
- `app/` — the actix-web service: routes, middleware, PostgreSQL queries and
  environment reading. The library takes the admission, identity creation and
  deletion, and update decisions step by step; the read-only endpoints call
  its permission and query checks in sequence.
- `tests/` — tests of the library on concrete values.
