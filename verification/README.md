# audiobookshelf_mcp

An MCP server for [Audiobookshelf](https://www.audiobookshelf.org/): it exposes
library browsing, progress, bookmark and metadata tools to MCP clients over
stdio or HTTP.

The logic lives in `src/` and is verified with Verus:

- `json` — JSON documents (`JsonValue`) and their model (`Json`), member
  lookup and insertion with the map laws that they obey.
- `metadata` — which metadata fields an item lacks, item titles, the items of
  a listing, and the summary of a scanned page.
- `payload` — the bodies of the quick-match and metadata update requests.
- `tools` — the API request that each tool sends.
- `registry` — the tool registry, the options that enable and disable tools,
  and the `--list-tools` table.
- `client` — base URL, authorization header, status messages and hints.
- `access` — the bearer-token check and the exposure rules of the HTTP transport.
- `text` — string helpers (decimal notation, trimming, padding).

`app/` holds the program around it: argument parsing, the HTTP client, the
MCP server and its transports, and the conversions between `serde_json`
values and `JsonValue`.
