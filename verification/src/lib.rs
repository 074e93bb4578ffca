//! Computation of the Minecraft "server hash": SHA-1 over a server id, a
//! shared secret and a public key, rendered as the hexadecimal form of the
//! digest read as a signed big-endian two's-complement integer.

pub mod hex;
pub mod model;
pub mod payload;
pub mod sha;

pub use hex::format_signed_hex;
pub use model::ClientLoginResponse;
pub use model::ProfileProperty;
pub use model::ServerAuthResponse;
pub use model::User;
pub use model::Uuid;
pub use payload::join_payload;
pub use payload::login_payload;
pub use sha::hexdigest;
pub use sha::server_hash;
