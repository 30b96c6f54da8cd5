# genpdf page model

A verified page model for rendering PDF documents, with a printpdf backend.

## Layout

- `src/` — the library, verified with Verus.
  - `geometry.rs`: lengths (`Mm`, integer micrometres), positions, sizes, margins.
  - `style.rs`: colours, line styles, font metrics.
  - `error.rs`: the error type.
  - `decimal.rs`: decimal notation of integers (used for layer names).
  - `render.rs`: `Renderer` (pages), `Page` (layers), `Layer`, `Area`
    (shrinking, splitting, coordinate transforms, lines), and the laws that
    relate these operations.
  - `split.rs`: the arithmetic of splitting a width by weights, with its bounds.
  - `text.rs`: `TextSection` and the text operations it emits; the
    Windows-1252 check for built-in fonts, which encodes through lopdf.
- `tests/` — tests of the library on concrete values.
- `app/` — the printpdf backend (`PdfRenderer`): it creates the PDF document,
  pages and layers that the model describes, converts lengths to printpdf's
  floating-point millimetres, and carries out lines and text operations.

## Design

All lengths are integers (micrometres), so that every geometric operation is
exact and its contract is proved, including overflow freedom.  printpdf takes
floating-point lengths, so every call into it sits in `app/`, which converts at
its edge.  The library decides what is drawn and where; the backend draws it.
