//! A bidirectional codec for the classic UDP NAT-discovery binding protocol.
//!
//! The crate turns raw datagrams into typed protocol messages and typed
//! outgoing requests back into raw datagrams: a fixed 20-byte header
//! (message type, body length, 128-bit transaction identifier) followed by a
//! stream of tag-length-value attributes.  Every encode and decode path is
//! specified against a mathematical model of the wire format and verified.

pub mod addr;
pub mod attr;
pub mod bytes;
pub mod err;
pub mod integrity;
pub mod msg;

pub use addr::SocketAddr;
pub use attr::Attribute;
pub use attr::ChangeRequest;
pub use err::DecodeError;
pub use err::MandatoryField;
pub use msg::BindRequest;
pub use msg::BindResponse;
pub use msg::Request;
pub use msg::Response;
pub use msg::StunCodec;
