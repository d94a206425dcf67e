# zavora_xlsx

A library for reading, writing and editing spreadsheet packages (`.xlsx`), whose core is
written in Verus: every function under `src/` carries a `requires`/`ensures` contract that
Verus proves, and the properties that span several calls stand as public proof functions
(`lemma_*`).

## Layout

- `src/` — the verified library.
  - Parsers for the package parts (`sheet_reader`, `streaming_reader`, `sst_parser`,
    `style_sheet`, `xlsx_reader`, `comments`, `conditional`, `validation`, `sparklines`,
    `slicers`, `tables`, `properties`, `rels`): each states what it reads as a spec function
    over the XML events of the part.
  - Writers (`workbook_xml`, `package_xml`, `properties`, `streaming`, `writer`): each states
    the text it produces.
  - In-memory models (`sheet`, `sheet_ops`, `shared_strings`, `style_registry`, `outline`):
    cell maps, row and column insertion and removal, interning of strings and formats.
  - `xml` and `numbers` hold the few trusted items: the calls into `quick_xml` and
    `atoi_simd`, each with a contract stated from that crate's source.
- `tests/` — tests run against the compiled library.
- `app/` — the unverified edge: file access, and the conversions of decimal texts to `f64`.

## Checking

Verus verifies `src/` as one crate; the tests run with the outside crates linked.
