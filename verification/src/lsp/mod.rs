//! The language-server protocol side: values on the wire, the client's state,
//! and the framing of messages.

pub mod actions;
pub mod call;
pub mod capabilities;
pub mod client;
pub mod completion;
pub mod decode;
pub mod features;
pub mod read;
pub mod recent;
pub mod server;
pub mod sync;
pub mod tokens;
pub mod transport;
pub mod types;
pub mod uris;
pub mod wire;
