# brewlog

The request-handling rules of brewlog, a self-hosted coffee journal, as a
library verified with Verus.

- `src/` is the verified library: listing queries and pagination
  (`listing`, `query`), error responses (`errors`), form and query
  validation (`submissions`, `bags`, `brew_form`, `api`), bag-scan
  extraction (`extraction`), number and date formatting (`formatting`),
  headers, image paths and CLI callbacks (`web`), timeline grouping, rebuild
  batches and cascades (`timeline`), the brew timeline event (`events`), the storage workflows of the services
  and of the timeline rebuild (`workflow`), the page views (`account`,
  `admin`, `stats`, `data`, `add`), and text helpers (`text`). Each public
  function states its result in its contract; the `law_` proof functions
  state what holds across functions.
- `tests/` runs the library on concrete values.
- `app/` is the HTTP side: serde types, extractors, error responses, the
  services and background tasks that drive the library's workflows against
  storage, and the checks on floating-point measures.
