# all_cli

Two small command-line tools that share one library crate whose rules are
verified with Verus:

- `playctl` starts, stops and reports a local HTTP server that serves HTML
  playgrounds from `<project>/.playgrounds/<slug>/`, keeps an index of them,
  and prints the template guides.
- `sub2api-image` sends image generation and edit requests to a gateway
  compatible with `gpt-image-2` and writes the returned image to disk.

## Layout

- `src/` is the verified library.
  - `text.rs`: searching, trimming, decimal numbers, Unix paths, UTF-8 lengths.
  - `playctl/`: exit codes, slugs, templates and the page scaffold, HTML title
    and description extraction, the index and its rebuild, the server handle
    files, project root detection and `.gitignore`, the server's page
    rendering and routing, and the decisions of `start`, `stop`, `status`,
    `new`, `list` and `open`.
  - `sub2api_image/`: exit codes, command-line checks, configuration path and
    contents, endpoint URLs, request bodies, answer decoding, log lines and
    image extraction.
- `app/` is one executable for both tools (chosen by the name it is run
  under). It parses the command line, reads and writes files, talks HTTP and
  manages processes, and hands everything else to the library.
- `tests/` runs the library on concrete values.
