//! Encoding and decoding of values to and from a generic document tree, through
//! keyed, sequence and scalar containers, with a JSON-shaped tree as backend.

pub mod coding_path;
pub mod dec;
pub mod decimal;
pub mod derive;
pub mod enc;
pub mod value;

pub use coding_path::{CodingKey, CodingPath, CodingPathIter, ToCodingKey};
pub use dec::{Decode, JsonDecoder};
pub use enc::{Encode, JsonEncoder};
pub use value::{from_value, to_value, ObjectMap, Value};
