# xtypes

DDS-XTypes type identifiers, type information and complete type objects,
with their binary encoding, verified with Verus.

- `src/wire.rs`: byte order, read errors, integers, 14-byte hashes,
  NUL-terminated length-prefixed strings, count-prefixed runs, and the
  `WireFormat` trait. Each type states its encoding as `spec_read` and
  `spec_write` over its view, implements them as `read_from` and `write_to`,
  and proves `lemma_write_read`: a lossless value's encoding reads back as
  the value, whatever follows it.
- `src/type_identifier.rs`: `TypeIdentifier` and the types built on it, up to
  `TypeInformation`, with size computations and the laws on length headers
  and member order.
- `src/type_object.rs`: `TypeObject` and the complete type descriptions.

Multi-byte integers are decoded by `speedy`'s `Endianness`; strings are
checked for UTF-8 by `core::str::from_utf8`.
