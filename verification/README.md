# Mercury core

The verified core of Mercury, a local-first RSS reader with AI summaries,
translations and tag suggestions. The library in `src/` holds the reader's logic
with its contracts, proved by Verus; `app/` is the Tauri desktop shell around it
(database, network, files, user interface).

- `agent/`: the task-slot runtime, prompt templates, chat-completion messages,
  tag parsing, summary and translation runs, and API-key obfuscation.
- `reader/`: the reader pipeline (which stored layer a page is rebuilt from, the
  fallback page), themes, and the Markdown and HTML conversions.
- `db/`: the data model and the statements whose text depends on the request
  (entry listings, read marks), tag names, usage windows, schema versions.
- `feed/`: OPML import and export, feed parsing (RSS, Atom, JSON Feed through
  feed-rs), synchronisation results.
- `commands/`: the decisions behind the commands (task types, model choice).
- `digest.rs`: digest data, its JSON form, and rendering it with Handlebars.
- `text.rs`, `decimal.rs`: character-level text and decimal number utilities.
