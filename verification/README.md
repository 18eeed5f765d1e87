# open_public

The request logic of the open-public server — a public record of political
data with anonymous poll participation — as a library verified with Verus,
and the program that serves it.

## Layout

- `src/` — the verified library. Functions state in `requires`/`ensures`
  what they return, over mathematical models (`Seq`, `Map`, `int`); where a
  result comes from an outside crate (a hash, a decoded image), it is stated
  over a named result of that crate, and where it rests on chance or the
  machine, only what holds of every outcome is stated. The promises that span
  functions are proved as `law_*` proof functions.
  - `text`, `num` — characters, trimming, splitting, hex and decimal text.
  - `i18n` — languages, locale resolution, the `.po` catalog parser.
  - `auth`, `crypto`, `captcha` — hashing, sessions, the proof-of-work
    captcha; `crypto` holds the calls into the hashing, password, randomness
    and base64 crates.
  - `config` — configuration from named variables.
  - `email`, `mail` — address checks, lookups in a disposable-domain list
    (the list itself is a data file the server supplies), the DNS
    deliverability decisions, and transactional mail texts.
  - `media`, `raster` — upload checks, decoding and re-encoding through the
    `image` crate, asset names and access.
  - the automated pre-screen of submitted polls, in a module of its own.
  - `content`, `fmt`, `site`, `error`, `api`, `admin_account` — translation
    overlays, dates, the language switch, error pages, the ingest API's
    checks, and the first administrator.
  - `pages/` — the pages' request logic: form parsing, ballots, the compass,
    submissions, sign-in decisions, the data dump, robots and sitemap, and
    the figures the country, party, person and poll pages derive from what
    the store lists (seat totals, runs of alliance rows, current roles,
    open and closed polls).
- `tests/` — tests of the library, run with the real outside crates.
- `app/` — the server around the library: configuration from the
  environment, the HTTP routes that need no database, SMTP delivery, the
  screening API client, and DNS lookups.
