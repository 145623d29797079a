# hwpx

Reading and writing HWPX documents (the zipped OWPML format of the Hangul
word processor) to and from a small document model: sections of headings,
paragraphs with formatted runs, tables, lists, block quotes, code blocks,
footnotes, images, equations, page setup, headers and footers.

The library is written in Verus. Every function in `src/` carries a
contract that Verus proves: the writer's output is stated as the exact
sequence of XML events it emits, the reader as a fold of per-event handlers
over the tokens of a section, and the archive layout, base64 decoding,
heading detection and reference tables each against a specification.
Properties that span several functions are stated as proof functions whose
names begin with `law_`, for example that a written header and section
(page setup, paragraphs and headings with their run formatting and fonts)
read back as written,
that paragraph IDs run consecutively, or that base64 decoding gives
back what the standard encoding encoded.

## Layout

- `src/ir.rs`: the document model and its views.
- `src/writer*.rs`, `src/package.rs`: the reference tables, the XML events
  of `header.xml`, each section, the manifest files, and the archive
  entries.
- `src/context.rs`, `src/handlers.rs`, `src/flush.rs`, `src/reader.rs`: the
  section reader (parse context, event handlers, paragraph flushing) and the
  whole-document reader.
- `src/readback.rs`: what the reader makes of the writer's events.
- `src/para_ids.rs`: the IDs of the paragraphs the writer emits.
- `src/xml.rs`: the XML tokenizer and writer, over `quick-xml`.
- `src/text.rs`, `src/attrs.rs`, `src/limits.rs`: text helpers, attribute
  lookup, and the size limits the writer needs.
- `app/`: reading and writing `.hwpx` files on disk (ZIP I/O).
- `tests/`: the test suite.
