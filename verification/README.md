# zoro_desktop

The verified core of the Zoro desktop application, a reference manager for research
papers. The library (`src/`) holds the application's logic with Verus contracts and
proofs; `app/` is the thin layer around it that touches the file system, databases,
processes and PDF files.

## Layout

- `src/text.rs`, `src/html.rs`, `src/paths.rs`: text primitives, HTML escaping and tag
  stripping, Zotero note conversion, file-name stems and extensions.
- `src/zotero.rs`, `src/zotero_items.rs`, `src/collections_import.rs`: importing a Zotero
  library (creators, item types, arXiv ids, duplicates, attachments, notes, annotations,
  and the order in which collections are created).
- `src/library.rs`: papers, collections, tags and attachments of the library.
- `src/chat.rs`, `src/paper_context.rs`, `src/ai_settings.rs`, `src/plugins.rs`: the AI
  chat and its tools, the paper context given to it, the AI settings and plugin access.
- `src/translation.rs`, `src/html_translation.rs`: field, HTML and PDF translation.
- `src/feeds.rs`: subscriptions, papers.cool, watch lists and their caches.
- `src/annotate.rs`, `src/html_export.rs`, `src/pdf_export.rs`: exporting annotations.
- `src/citation.rs`, `src/services.rs`, `src/records.rs`, `src/clock.rs`: citations, the
  side services (MCP server, connector, CLI, logs, updater, sync, the embedded browser,
  agent chat sessions), the terminals, the free-model lab and agent proxy, and the
  settings records.
- `tests/`: tests on concrete values.
- `src/json.rs`: the JSON fields the library reads from stored and received JSON text.
- `app/`: Zotero database reading, file scans, helper processes, file exports, the
  serialisable copies of library types, and the loops of the long-running commands
  (Zotero and local imports, the chat, metadata refresh, feed and watch-list additions,
  PDF caching, HTML translation) with their storage and network sides handed in.
