//! Binary object notation: a compact, self-describing binary encoding with a
//! write sink, a read cursor and an order-preserving comparison of encoded
//! values.
//!
//! [`WriteBuffer`] encodes values into a growing byte buffer, [`ReadBuffer`]
//! decodes them from a byte slice, and [`partial_cmp`] orders two encoded
//! values by their bytes.  The module [`wire`] states the format, and the
//! module [`laws`] what holds of writing, reading and comparing together.

pub mod codec;
pub mod endian;
pub mod error;
pub mod ieee;
pub mod integer;
pub mod laws;
pub mod order;
pub mod outside;
pub mod rank;
pub mod read;
pub mod value;
pub mod wire;
pub mod write;

pub use crate::codec::Decode;
pub use crate::codec::Encode;
pub use crate::error::ReadBonErr;
pub use crate::order::base_type_len;
pub use crate::order::partial_cmp;
pub use crate::read::ReadBuffer;
pub use crate::value::EnumType;
pub use crate::value::EnumValue;
pub use crate::value::FieldValue;
pub use crate::value::StructValue;
pub use crate::write::WriteBuffer;
