# all_in_one_news

The verified core of a daily-news aggregator that gathers the rebase
"geek daily" feed and the rustcc daily, stores the items and serves them.

- `src/` — the library, verified with Verus: the feed records and their
  notion export (`rebase`), the stored record and its fingerprint (`aion`),
  reading section pages and article pages and exporting their items
  (`rustcc`), tag keywords
  (`tag`), splitting fetch work among workers (`tasks`), the endpoint
  computations (`routes`, `web`), and exact text operations (`text`).
  Calls into `scraper`, `sha256`, `chrono` and `regex` stand behind small
  trusted wrappers (`scrape`, `digest`, `clock`, `pattern`).
- `tests/` — tests of the library on concrete inputs.
- `app/` — the server program: HTTP fetching, the database, the actix-web
  endpoints and the OpenAI keyword calls.
