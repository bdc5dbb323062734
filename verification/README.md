# suplex

The core of Suplex, a personal pro wrestling tracker that reads promotion
and title pages from cagematch.net, written in Verus and proved against its
contracts.

- `src/` is the verified library:
  - `text`: trimming, substring search, decimal formatting and parsing over characters;
  - `html`, `pattern`, `calendar`: the HTML parser (`scraper`), regular
    expressions (`regex`) and calendar dates (`chrono`) that the logic relies on,
    behind small trusted wrappers;
  - `cagematch`: page addresses, response checks, the rate-limit pause, and the
    reading of promotion pages and titles pages;
  - `scrape`: what a scrape writes, counts, logs and reports;
  - `settings`: adding a promotion and editing its settings;
  - `config`: the configuration read from environment values.
- `app/` is the server around it: HTTP client, database, migrations and the
  GraphQL API.
- `tests/` runs the library on concrete pages and values.
