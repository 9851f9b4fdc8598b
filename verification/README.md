# docx-rs reader core

The reading side of a WordprocessingML (`.docx`) library, verified with Verus.

- `src/xml_parser.rs` — the XML event types the element readers consume, and
  the decisions of the event reader: raw tokenizer events go in, and a run of
  character data (text chunks and general references) comes out as one
  `Characters` or `Whitespace` event, empty elements as a start and an end
  event, and the end of input as `EndDocument`.
- `src/reader_laws.rs` — properties of the reader over several steps and
  over the whole stream of events: no two runs of text in a row, start and
  end events in the order and with the names of the tags, and the end of the
  document handed out again by every read after it.
- `src/codec.rs` — the calls into `quick_xml` (decoding, unescaping) and into
  `std` (lossy UTF-8), with the contracts the proofs rely on.
- `src/reader.rs` — what the element readers share: `w:val`, on/off values,
  numeric attributes and decimal numbers.
- `src/alt_chunk.rs`, `src/run_fonts.rs` — the `w:altChunk` and `w:rFonts`
  readers.
- `src/styles.rs`, `src/numberings.rs`, `src/level.rs`,
  `src/run_property.rs` — the decisions of the readers of a styles part, a
  numbering part, a numbering level and run properties, one event at a time.
  Each decides what to keep of the event and which nested element, if any,
  is to be read next; the nested elements (styles, document defaults,
  paragraph properties, indentation, level overrides, shading, borders,
  positional tabs, revisions, vertical alignment) are read by code of their
  own, which this crate does not hold.
- `app/` — the I/O side: `quick_xml` tokenizes a byte source, and its events
  are handed to the library; loops that run the element readers' decisions
  with the nested readers passed in; and the serde form of `AltChunk`.
