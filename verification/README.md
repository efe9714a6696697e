# swiftide_integrations

Integrations for an LLM indexing and query toolkit, written in Verus: the logic is verified
against `requires`/`ensures` contracts, and the few calls into outside crates (tree-sitter,
regex, url, tiktoken, htmd, lopdf) sit behind small trusted wrappers whose contracts say what those crates
document.

## Layout

- `src/` — the verified library.
  - Code: `supported_languages`, `syntax_tree` (tree-sitter parse into a plain, well-formed
    tree), `splitter` (chunking code along its syntax tree), `outliner`, `code_tree` and
    `queries` (definitions and references), `definitions` (the definitions a Rust file makes), `sorted`, `refs_defs`, `transformers`.
  - Documents and stores: `pdf` (pages of a PDF document, page text to Markdown), `parquet`, `pgvector` (table layout and
    SQL), `qdrant` (collection settings and named vectors), `scraping` (which hosts are local, Spider Cloud settings),
    `html_markdown` (scraped HTML to Markdown), `tokenizer` (token estimates).
  - Language models: `options`, `requests` (what requests start from), `qwen` (models, options, connection settings), `chat`, `chat_completion`, `responses`,
    `responses_input`, `responses_output` (Responses API requests, answers and streamed
    events), `provider_error`, `reasoning_effort`, `overflow` (fitting a prompt into a token
    budget), `tool_schema`.
  - Tracing: `langfuse` (span bookkeeping, observations built from span fields, event batches,
    settings).
  - `text`: character-level helpers shared by the rest.
- `tests/` — tests of the library on concrete values.
- `app/` — ordinary Rust around the library: reading files, parsing JSON with serde, reading
  settings from the environment, and the loop that asks a token estimator while the overflow
  strategy decides.
