//! Wire schema and the length-prefixed framing of protocol messages.
pub mod codec;
pub mod types;
pub mod messages;
pub mod params;
