# abolishpdfs

Converts PDF documents to HTML that keeps the document's text as native,
selectable text. Text that cannot be shown faithfully as native text is
painted by a raster background of the page instead, and the conversion
refuses to write a document whose text failed.

## Layout

- `src/` is the verified library (Verus):
  - `fonts/mapping.rs` reads an embedded font's `cmap` table and decides
    whether every character the document uses maps to a glyph;
  - `fonts/worker.rs` holds the decisions around a FontForge job: which fonts
    may be sent, what is asked, when to stop waiting, which answers are
    accepted;
  - `model/` is the document model without its page geometry: fonts,
    navigation, text decisions, diagnostics and the text integrity check;
  - `output/` renders the document (index page, stylesheet, assets) from
    markup whose numbers are already CSS numbers;
  - `pdfium/` holds the decisions made while a document is read from PDFium,
    the PNG image of a page background, the lookup of the PDFium library,
    and the capability probe's record;
  - `text/` groups glyphs into runs and applies the visibility policy.
- `app/` is the command: argument parsing, PDFium and FontForge I/O, the
  floating-point page geometry, JSON output and file writing.
- `tests/` exercises the library from outside.
