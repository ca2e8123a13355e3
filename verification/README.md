# runebender

The editing logic of a font editor, verified with Verus: contour points and
their segments, point deletion and tangent handles, selections and their
deletion, the select tool's response to a press, undo stacks, a
mouse-gesture state machine, saving and reading back hyperbezier and cubic
contours, splitting drawn path elements into contours, glyph-name lookups in the Adobe Glyph List
for New Fonts, the theme file format, the Glyphs clipboard node format, a
path cache with component invalidation, and the `cmap`, `hhea`, `hmtx` and
`kern` tables of the editor's in-memory fonts.

- `src/` is the verified library; every public function carries its
  contract, and the laws that relate several functions are public proof
  functions beside them.
- `tests/` runs the library on concrete values.
- `app/` holds what stays outside the verifier: the GUI toolkit's events
  and theme environment, reading UFO fonts and the libs of their points, and
floating-point geometry.
