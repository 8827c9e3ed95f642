# vigilant_waddle

Bookkeeping for a personal portfolio, verified with Verus.

- `src/` is the verified library: reading the semicolon-separated
  transaction log (`transactions`), folding it into net holdings and valuing
  them against quotes (`portfolio`), the stooq quote answer (`stooq`), the
  paths and URLs of the stooq data store (`paths`, `hivepart`,
  `stooq_download`, `raw`), and the decisions of the transaction web service
  (`service`). Decimal arithmetic, CSV reading, URL building, path joining and
  time formatting are delegated to `rust_decimal`, `csv`, `url`, `std` and
  `chrono` through small trusted wrappers whose contracts are stated next to
  them. `laws` collects properties that span several operations.
- `app/` is the program around it: the command line, the downloads, the
  polars data frame view and the axum web service.
- `tests/` runs the library on concrete inputs.
