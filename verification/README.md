# japanx

The typed layer for Bank of Japan source facts, verified with Verus.

It holds the twelve declared `JP.*` metric codes and their canonical shape
`JP.<category>.<indicator>[.<sub-dimension>]`, calendar dates, periods (with
the ten-day period) and frequencies, the source unit kept verbatim, the checks
applied to offline data point documents (JSON) and source definitions (TOML),
three fail-closed cross-source guards, and a fail-closed authorization
decision that is always `Denied` for this source.

Error details name the problem in Simplified Chinese and never repeat the
caller's text. It collects nothing over the network, converts no unit, derives no indicator
and transcodes nothing.

## Layout

- `src/` — the library. Every function carries a `requires` / `ensures`
  contract that Verus proves; the laws (key and ISO round trips, fail-closed
  authorization, what an accepted document or source definition holds) are
  public proof functions.
  - `error.rs` — error kinds and the error type.
  - `text.rs` — characters, Unicode whitespace and trimming, UTF-8 bytes,
    decimal digits.
  - `value/` — dates, periods and frequencies, metric codes and guards, data
    points.
  - `authz.rs`, `pit.rs` — the authorization decision and publication
    semantics.
  - `parse/` — the rules applied to a data point document or a source
    definition once read, and the errors for text that could not be read.
- `app/` — the text entry points `parse_japanx_data_points` and
  `parse_japanx_source_definition`, which read JSON and TOML with serde and
  hand what they read to the library, and an error type with `Display`.
- `tests/` — the test suites.

Numbers are carried as the bit patterns of binary64 values (`f64::to_bits`),
so the library checks them without floating-point arithmetic.
