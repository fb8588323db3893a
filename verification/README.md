# powerusd

The core of PowerUSD, a USD asset browser, viewer and stage assembler,
written in Verus: each function states what it does in `requires` /
`ensures` over mathematical models, and Verus proves it.

## Layout

- `src/` — the verified library.
  - `stager.rs`, `asset.rs` — the stage assembler: asset trees, selection,
    grouping, duplication, instancing, transforms and the undo/redo
    history, with its laws (`law_*`).
  - `render.rs` — the USDA text of an assembled stage, optionally injected
    into a base layer.
  - `writer.rs` — the USDA writer for a layer read from a file: value
    spelling, metadata, properties and the prim tree.
  - `import.rs`, `formats.rs`, `kinds.rs` — reading a parsed stage back into
    assets; file formats, up axes, kinds and specifiers.
  - `mesh.rs` — fan triangulation, face-varying expansion plans and the
    split by material subsets.
  - `materialx.rs`, `shading.rs` — MaterialX surfaces (read through
    quick-xml) and shader classification.
  - `library.rs`, `thumbs.rs` — the asset library: filtering, listing order,
    configured paths, thumbnail lookup and the thumbnail load tracker.
  - `shell.rs` — the Windows shell extension's registry plan and the
    arguments it hands to the viewer.
  - `paths.rs`, `text.rs`, `ids.rs`, `func.rs` — path components, text
    helpers and identifiers.
- `tests/` — tests on concrete values.
- `app/` — the command-line program around the library: file I/O, the
  USD reader, and the floating-point transform arithmetic.
