# octoweb

The logic of a keyboard-first macOS browser with an MCP control server, as a
Verus-verified library.

## Layout

- `src/` — the verified library.
  - `sanitize` — URL query scrubbing, sensitive-page detection, card-number
    redaction (Luhn and issuer prefixes).
  - `page_index` — the in-memory inverted index of visited pages: indexing
    with a page cap, prefix search, snippets.
  - `learning` — the context handed to the background learning agent, within
    its byte budget.
  - `mcp`, `tools`, `form_fill` — what the MCP tools decide: DOM-script
    results, effect reports, the untrusted-content fence, parameter clamps,
    replies, and the form-filling state machine.
  - `tokens`, `server` — workspace tokens and request scoping; port and
    allowed origins of the endpoint.
  - `native_input` — key names to macOS key codes, characters and modifier
    flags.
  - `json` — a plain model of JSON values and the `serde_json` calls on it.
  - `nav_error_patch`, `quickslots`, `browser` — small tables and records.
  - `*_html`, `*_js` — the built-in pages and page scripts, the pages assembled around the
    theme and icons they are given.
  - `text` — character-level helpers shared by the above.
- `tests/` — tests of the library.
- `app/` — the program around it: the MCP server on `rmcp`/`axum`, stores on
  disk, and the AppKit/WebKit calls (screenshots, native input, WebView
  hooks).
