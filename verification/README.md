# alfred_tailwindcss_docs

An Alfred workflow that searches the Tailwind CSS documentation through the
Algolia index of the official site.

- `src/` is the verified library (Verus): command-line parsing, query
  normalization, result levels and breadcrumbs, HTML reference decoding,
  Alfred items, settings and cache decisions, the Algolia configuration,
  read hosts, endpoints, request fields, response classification and host
  failover.
- `app/` is the binary: environment and `.env` reading, HTTP through
  `ureq`, JSON through `serde`, and output through `alfred_workflow_rs`.
- `tests/` runs the library on concrete inputs.
