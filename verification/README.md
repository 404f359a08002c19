# rhwp — verified HWPX serialization

`rhwp` turns a word-processor document model (sections, paragraphs with
character-shape runs, tabs and line breaks, inline tables and pictures,
fonts and character shapes) into an HWPX package: a ZIP archive of OWPML
XML files. The library is written in Verus; every writer states in its
contract the exact text it produces, and the package as a whole is
described by the list of its entries.

Layout:

- `src/model.rs` — the document model.
- `src/text.rs`, `src/utils.rs` — decimal and colour notation, XML
  escaping, OWPML names, XML events through quick-xml.
- `src/header.rs` — `Contents/header.xml`.
- `src/section.rs`, `src/table.rs`, `src/picture.rs`, `src/shape.rs` —
  `Contents/section{N}.xml`: runs split by character shape, line segments,
  tables and pictures.
- `src/content.rs`, `src/static_assets.rs` — the package manifest and the
  fixed files.
- `src/zip_writer.rs` — the ZIP container (the `zip` crate).
- `src/hwpx.rs` — the whole package, image collection, and the laws of the
  package (entry order, compression, distinct paths, images once).
- `src/error.rs` — error types.
- `app/` — a printable copy of the engine's error type.
- `tests/` — scenario tests over the produced archives.
