//! XTypes type identifiers and type objects (DDS-XTypes v1.3) with their
//! wire encoding: every type reads itself from and writes itself to a byte
//! buffer in a chosen byte order, and what is written reads back as itself.
pub mod wire;
pub mod type_identifier;
pub mod type_object;
