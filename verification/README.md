# stegs

Generative SVG glyphs ("stegs"): a short message is encoded as a radial path,
either a spiral or a fingerprint-like maze.

Layout:

- `src/` — the verified library (Verus): the symbol encoder, message
  normalisation and SVG escaping, the ring of sections and its height
  profile, and the integer plans of both path shapes. A plan names every
  path command by sections and layers; its contract states it exactly.
- `app/` — the SVG front end: options, the conversion of plans into
  floating-point coordinates, SVG assembly, plane geometry helpers and the
  WebAssembly entry point.
- `tests/` — tests of the library.
