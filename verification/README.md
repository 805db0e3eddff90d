# docx_core — drawings

The drawing element of a word-processing document (`w:drawing`): a picture
or a text box, placed in line with the text or anchored on the page, and the
markup that describes it. The library is verified with Verus.

- `src/decimal.rs` — decimal notation of integers.
- `src/xml.rs` — a markup tree, how it is written (empty-element tags for
  elements without children, escaping of text and attribute values), the
  element trees that programs build (a text box's paragraphs and tables),
  and writers proved to append exactly that.
- `src/position.rs` — positioning kinds, references and alignments.
- `src/placement.rs` — the `wp:inline` / `wp:anchor` frame shared by pictures
  and text boxes.
- `src/pic.rs`, `src/text_box.rs` — pictures and text boxes.
- `src/drawing.rs` — `Drawing`, `DrawingData`, the markup of a drawing
  (`Drawing::build`) and the laws that hold of it.
- `app/lib.rs` — serde serialization of drawings and writing the markup to a
  byte stream.
