# usvg_text

Flattens laid out text into the nodes that it is drawn from: paths for outlines
and decorations, and groups for `COLR`, SVG and bitmap glyphs.

- `hinting`: the hinting configuration, and what it means to skrifa
- `float_bits`: whole numbers among single precision bits, since font sizes are
  kept as bits
- `tree`: the parts of a document tree that text is made of
- `pixels`, `bitmap`: bitmap strikes, from coverage masks and premultiplied BGRA
  to PNG images, and the choice between a strike and the outline
- `face`: what skrifa reads from a font face
- `svg`, `colr`: SVG documents of glyphs, and those that `COLR` glyphs are painted
  into
- `path`: outlines, as tiny-skia keeps them
- `database`: glyphs of the faces of a fontdb database
- `resolve`: what a glyph is drawn from, and with which hinting
- `flatten`, `flatten_laws`: the nodes of a text element, and what holds of them

What `src` does itself is verified with Verus. What it rests on are the contracts
of functions of fontdb, skrifa, png, tiny-skia-path and xmlwriter, which are
trusted: each stands beside the function that makes the call, with a comment that
says what it claims. `app` draws outlines and ties the
library to a document tree; it is ordinary Rust, since it deals in floating point
numbers and in the traits of other crates.
