# doiget_core

The core of doiget, a tool that turns DOIs and arXiv ids into local papers
through official, open-access-first interfaces. The library decides; the
`app/` directory performs what was decided.

- `src/` holds the library: references and their keys, capability profiles,
  credentials, allowlists and redirects, retries, the discovery search, the
  citation graph, submissions and their files, and the orchestration of a
  fetch. It is written in Verus, and each function states what it returns.
- `app/` holds the requests, the files, the clock and the environment.
- `tests/` runs the library on concrete values.

What the library takes from other crates (URLs, JSON, gzip, tar, dates,
digests) stands behind small functions whose contracts say what is relied on.

Public functions whose names begin with `law_` state what holds of the library
as a whole.
