# oab_providers

Adapters that read usage, quota and balance figures of AI service accounts.

- `src/` is the verified library: reading documents, classifying failures,
  building requests, and the decisions behind retries, redirects, child
  processes, database snapshots and each provider's sign-in and fetch. Every
  function states its behaviour in `requires` and `ensures`.
- `app/` is the runtime around it: HTTP, processes, files, floating-point
  percentages and wire types. It asks the library what to do next and does it.
- `tests/` runs the library on concrete values.

What the library takes from other crates stands behind small trusted functions.
Each of them names the outside function and what is claimed of it.
