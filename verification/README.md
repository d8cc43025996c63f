# judgeapp

A rules companion for Magic: The Gathering and Riftbound judges: it parses the
rules documents (comprehensive rules, tournament rules, infraction procedure
guide, Judging at Regular), plans the card and rule searches, decides which
data updates to offer, compiles Scryfall's card data into a compact form and
keeps a round timer.

- `src/` is the library, verified with Verus: parsers, search planning,
  update decisions, card compilation, the timer and their laws. Calls into
  outside crates (regex, base64, rand) stand behind small trusted wrappers
  whose contracts say what the library relies on.
- `app/` is the program around it: the command line, the SQLite database,
  HTTP downloads, PDF text extraction (on a thread of its own, since the
  extractor can panic on a malformed document) and the two web services.
- `tests/` runs the library on concrete inputs.
