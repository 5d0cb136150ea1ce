//! Diameter: the wire format, the requests that scripts originate, and the
//! requests that scripts serve.

pub mod codec;
pub mod decode;
pub mod dictionary;
pub mod glob;
pub mod rx;
pub mod generic;
pub mod charging;
pub mod server;
pub mod client;
