# cnblogs-lib

Verified core of a cnblogs (博客园) news and blog-post client and MCP server.

- `src/` is the library, verified with Verus:
  - `text`: whitespace (Unicode `White_Space`), trimming, substring
    replacement, decimal rendering and parsing, over `Seq<char>` models.
  - `style`: terminal colours (through `owo_colors`).
  - `models`: news items, search hits and news details, their renderings,
    HTML clean-up (through `regex`) and Markdown (through `html2md`).
  - `mcp`: tool parameters and their checks, search-hit ordering, and the
    news-id-by-title lookup as a state machine.
  - `logic`: decisions of the `news` command (output form, id input, single
    or batch, batch ordering, hot-news dates).
  - `api`: checks on a news-detail answer and its error messages.
  - `dates`: calendar dates and publish times (through `chrono`).
  - `context`: the login cache and its location.
- `app/` is the `cnb-mcp` program: HTTP requests, JSON, files, the MCP
  server and the terminal, around the library.
- `tests/` runs the library on concrete values.
