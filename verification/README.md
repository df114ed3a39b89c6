# hal

A retrieval-augmented-generation toolkit: a web crawler, a Markdown
chunker, an index of chunks and their embeddings, search with answers from
Gemini, a terminal Markdown renderer, and the decisions behind a set of
file and shell tools for coding agents.

## Layout

- `src/` is the library, verified with Verus. It holds the logic: chunking
  (`processor`), rendering (`markdown`), request pacing and retries
  (`gemini::http`), session permissions and tool decisions (`mcp`), the
  agent-run state machine (`coder`), page storage paths and metadata
  (`crawler`), and the index's decisions (`index`, `search`).
- `app/` is the command-line program. It does the I/O: HTTP requests,
  crawling, the database, the models, the file system and processes. Each
  of its modules asks the library what to do and performs it.
- `tests/` runs the library on concrete values.

## What is trusted

Calls into other crates stand behind small wrappers in `src/` whose
contracts Verus takes on trust: the Markdown parser (`md`), URL parsing
(`urls`), base64 (`encoding`), path splitting (`paths`), HTML selection
(`crawler::content_extraction`), regular expressions
(`mcp::regex_search`, `crawler::spider_integration`), JSON
(`coder::executor`), and a few `std` functions (`text`,
`crawler::storage`, `crawler::config`). Where a crate's result takes
pages to describe, its contract names the result with a function without
a body, and the library's contracts speak of that name.
