# library_core

The verified core of a personal ebook inventory: books owned on Humble Bundle,
Packt, Manning, Kindle (CSV import) and entered by hand, kept in one local
database so that a purchase can be checked against what is already owned.

## Layout

- `src/` -- the library, written in Verus. Verus proves every function's
  contract except those of the thin trusted wrappers (marked
  `#[verifier::external_body]`) around the outside calls it rests on: the
  regex, scraper, csv, chrono and URL crates and a few std string functions;
  their contracts restate what those crates document.
  - `model` -- sources, books, and their mathematical views.
  - `text`, `pattern`, `html` -- character-level string operations (with the
    std calls they rest on), compiled regular expressions, and reading HTML.
  - `dedup` -- title and ISBN normalisation, the tiered duplicate screening
    (ISBN, exact title, fuzzy verdict) and the cross-source marks.
  - `enrich` -- what to look up on Open Library for a book and what to write
    back (never overwriting existing data).
  - `sources/` -- interpreting each storefront's responses (`humble`,
    `packt`, `manning`, `kindle`, `manual`) and the interactive credential
    capture (`capture`).
  - `storage` -- the row layout of a book and reading a row back.
  - `config` -- credentials and the bundle exclude list.
  - `cli`, `desktop` -- the front ends' decisions and the text they print.
- `tests/` -- tests of the library on concrete values.
- `app/` -- the `library` program: argument parsing, the settings file, the
  SQLite database, HTTP requests and the floating-point title similarity.

The `law_*` proof functions state the properties that hold across calls,
such as what reading a stored row gives back and that enrichment only fills
gaps.
