# tzif_codec

A reader, writer and validator for the Time Zone Information Format (TZif,
RFC 9636), written in Verus: every function of the library carries a contract
that the verifier proves.

## Layout

- `src/model.rs` — the data model (`TzifFile`, `DataBlock`, …) and its views.
- `src/common.rs`, `src/encoding.rs` — header counts, big-endian fields and the
  byte encoding of files as specification functions.
- `src/parse.rs`, `src/write.rs` — parsing and serialising, each proved to do
  exactly what the encoding specifies.
- `src/validate.rs`, `src/leap.rs`, `src/footer.rs`, `src/calendar.rs` — the
  structural rules, leap-second tables, the POSIX TZ footer grammar and the
  check of a footer against the last transition.
- `src/builder.rs` — builders for fixed-offset zones and explicit transitions,
  with POSIX TZ footers written from structured rules.
- `src/interop.rs` — the interoperability warnings of RFC 9636 Appendix A,
  sorted and without repeats.
- `src/tzdist.rs` — TZDIST media types, capability lists and truncation
  checks.
- `src/message.rs` — the text of each error.
- `src/laws.rs`, `src/footer_text.rs` — properties across functions: encoding
  then parsing gives the file back, parsing then encoding gives the bytes back,
  parsed files are valid, fixed-offset builds are valid, and more.
- `app/lib.rs` — copies of the error types with `std::error::Error` and
  `Display` (through `thiserror`), convertible to and from the library's.
