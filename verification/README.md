# fin

Classifies bank transactions into categories by rules and prepares
transactions read from bank exports for storage.

- `src/` is the verified library:
  - `classify.rs`: matching one rule (`STRING_MATCH`, case-insensitive
    substring; `REGEX`, through the `regex` crate) and classifying by the
    first matching rule, and the rules that fail on the way (reported by
    `app/`);
  - `service/classify.rs`: the same, leaving out transactions whose category
    does not change; `service/create.rs`: the stored form of a new
    transaction;
  - `repository.rs`: updates and the results of storing transactions;
  - `date.rs`, `text.rs`, `regex_match.rs`: dates (through `chrono`), string
    search, regex matching.
- `app/` is the command-line program: the database (sea-orm), the CSV
  exports, and the command line.
