# toy_df

A small columnar query engine in the style of Apache Arrow and DataFusion,
written in Verus.

`src/` is the verified library:

- `bytes`, `buffer/` — shared byte allocations, immutable buffers with
  zero-copy slicing, growable buffers, typed value buffers, bit-packed
  boolean buffers and validity bitmaps with a cached null count.
- `bit_util` — LSB-first bit packing and reading.
- `schema/`, `native`, `data`, `array/` — logical types, fields, primitive
  type markers, the little-endian encoding of native values, and primitive
  arrays.
- `expr/`, `common/` — expressions, scalar values, and the `Debug` text of
  expressions that plan descriptions print.
- `logical_plan/`, `physical_plan/`, `datasource/` — logical plans, the
  planner that turns them into physical plans, and table sources.
- `session` — sessions holding named tables and data frames over plans.

`app/` prints plans and query results and holds two walkthroughs.
`tests/` exercises the library with concrete values.
