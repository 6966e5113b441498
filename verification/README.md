# bo

Stash web pages as local markdown.

```
bo seed <output-dir>   # Initialise a stash
bo collect <url>       # Fetch a URL and stash it
bo raze                # Delete all bo-managed files and config
```

## Layout

- `src/` — the verified library (Verus). The decisions of each command are
  here, with their contracts:
  - `text` — character helpers (trim, split, substring search, decimals);
  - `paths` — Unix path joining and component-wise prefix tests;
  - `markdown` — the document with its YAML frontmatter;
  - `ledger` — duplicate detection, ledger lines, skipping malformed lines,
    and JSON entry lines;
  - `fetch` — what an HTTP response means and the retry/backoff policy;
  - `config` — configuration paths, errors and the `seed` decision;
  - `pipeline` — the stash run: duplicate check, fetch time, document, file,
    ledger entry;
  - `raze` — the raze run: which files go, in which order, what each outcome means.
- `app/` — the program: command line, files, network, sleeping.
- `tests/` — tests of the library.

This build has no content extractor or file-name (slug) generator, so
`bo collect` stops with an extraction error before anything is written, and
there is no `bo compile` command.
