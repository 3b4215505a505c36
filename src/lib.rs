//! Client side of the Minecraft "Server List Ping" status protocol: VarInt
//! codec, packet framing, response-header parsing and decoding of the JSON
//! status payload.
pub mod json;
pub mod packet;
pub mod response;
pub mod status;
pub mod varint;

pub use packet::Header;
pub use response::{
    decode_description, decode_payload, decode_status, Description, Players, Sample,
    StatusResponse, TextDescription, Version,
};
pub use status::{QueryState, ServerStatus, StatusError, DEFAULT_MAX_SIZE, DEFAULT_TIMEOUT_MS};
pub use varint::{decode_varint, VarIntRead};
