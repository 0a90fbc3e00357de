# uncad-model

The neutral entity model for 2D CAD drawings: what a drawing *is* once it has
been taken out of its file format, with a reference ID, a provenance and a
confidence on every entity.

## Layout

- `src/` is the verified library (Verus). It holds everything in the model
  that needs no floating point, each function with a contract and the
  properties the model promises proved as lemmas:
  - `color` -- the ACI palette;
  - `confidence`, `model` -- confidence as a total order, three-state
    references, reference IDs, provenance, entity kinds and their DXF names,
    and the codes the format stores (transparency, hatch style, 3DFACE edge
    flags, justification, ...);
  - `tables` -- the layer record and the table enums;
  - `text`, `text::tokens` -- undoing `\U+`, `\M+` and caret escapes, and
    splitting TEXT and MTEXT strings into their codes;
  - `bulge`, `curve`, `units` -- which vertices a polyline's segments join,
    whether a NURBS definition's counts add up, and the names of the
    `$INSUNITS` codes;
  - `golden` -- the plain-data side of the synthetic test drawings: code
    pages and the bytes a string and a group are written as, a writer that
    appends whole records and issues each handle once, the names of
    dimension blocks, and what a reader must get back for layers,
    dimension texts, style references, justification and mesh edges.
- `app/` is ordinary Rust around it: the floating-point geometry and entity
  structs, with the `serde` derives, and conversions to and from the
  library's types.
- `tests/` exercises the library from outside.
