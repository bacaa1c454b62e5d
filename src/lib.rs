//! Consensus core of a client-side-validated smart-contract protocol:
//! canonical encodings, schema type algebra, state primitives, anchors,
//! the consignment access API and validation status.

pub mod anchor;
pub mod anchor_encoding;
pub mod codec;
pub mod consignment;
pub mod data;
pub mod ids;
pub mod operation;
pub mod schema;
pub mod status;
pub mod validation;

pub use codec::DecodeError;
pub use schema::{
    Bits, DigestAlgorithm, EllipticCurve, Number, Occurences, OccurrencesError,
    PointSerialization, SignatureAlgorithm, UnsignedInteger,
};
