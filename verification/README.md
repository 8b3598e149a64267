# raiden_derive

The planning logic behind the `Raiden`, `RaidenIndex` and `RaidenDocument`
derives of the raiden DynamoDB library, verified with Verus.

A derive reads the attributes and fields of a struct and decides every name
and choice of the client code it emits: the stored attribute name of each
field under `rename` and `rename_all`, the table's partition and sort keys,
the fields a put input takes and requires, the index-selection methods, the
typed key-condition chains of global and local secondary indexes, the
projection items of indexes that some field is left out of, the names a
`RaidenDocument` stores its fields under, and the reason an input is
refused.

## Layout

- `src/` — the verified library. `model` holds the plain view of a derive
  input; `finder` looks up `#[raiden(...)]` and `#[serde(...)]` arguments;
  `rename`, `case` and `naming` compute stored names, casings and generated
  item names; `key`, `fields`, `gsi`, `index` and `resolve` plan keys,
  fields, index methods and projections; `derive` assembles the plan of each
  derive with its refusals; `laws` states the properties that span them.
- `tests/` — tests of the library on concrete models.
- `app/` — the derive expansions: `syn` input is read into the model, the
  plan is requested, and the client code is emitted with `quote`.
