# byteserde

Byte-level serialization of numerics, strings and ascii types, verified with
Verus.

- `src/ser_stack.rs`, `src/ser_heap.rs`: serializers into a fixed-capacity
  inline buffer and into a growable `bytes::BytesMut`.
- `src/des_slice.rs`, `src/des_bytes.rs`: cursors that read values back from a
  byte slice or from a `bytes::Bytes`.
- `src/utils/numerics`: big-, little- and native-endian images of the
  fixed-width integers, over a model of digits in base 256.
- `src/utils/strings/utf8`: `String` (eight-byte big-endian length, then UTF-8)
  and `char` (one length byte, then UTF-8).
- `src/types/strings/ascii.rs`: fixed-length padded ascii strings,
  variable-length ascii strings, ascii characters and constant characters.
- `src/codegen`: the decisions of the derive macros, on a plain description
  of a struct or enum: how each field's type is classified, how
  `#[byteserde(..)]` arguments are read, the source text generated for each
  field or variant, the whole impls assembled from them, the `From` impls of
  bound enums, and which definitions are refused.
- `src/buffers.rs`: the contracts that the library relies on for the `bytes`
  crate.
- `app/lib.rs`: standard formatting and serde support, on thin copies of the
  library types; `app/derive_input.rs` turns a `syn::DeriveInput` into the
  description that `src/codegen` works on, and generated text into tokens.

Every public function states in its contract what it returns or changes; the
laws that relate several functions (what a read gives back of a write) are
public proof functions named `law_*`.
