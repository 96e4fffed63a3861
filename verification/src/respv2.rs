pub mod parser;
pub mod primitives;
pub mod roundtrip;
pub mod serializer;

pub use primitives::RESPv2Error;
pub use primitives::RESPv2Errors;
pub use primitives::RESPv2Type;
pub use primitives::RESPv2Types;
pub use serializer::Serialize;
pub use serializer::SerializeBulk;
pub use serializer::SerializeError;
pub use parser::ParseOutcome;
pub use parser::Parser;
pub use parser::RESPv2Parser;
