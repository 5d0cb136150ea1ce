//! What the library does, stated over its functions' arguments and results.
//!
//! Each law takes runs of the functions it speaks of, as `call_ensures` gives
//! them, and says how what came out relates to what was handed in.

pub mod ipsec;
pub mod digest;
pub mod call;
pub mod diameter;
pub mod rx;
pub mod call_state;
pub mod pyvalue;
pub mod auth;
pub mod gateway;
pub mod lcr;
pub mod records;
pub mod services;
pub mod charging;
pub mod client;
pub mod numbers;
pub mod codec;
pub mod sec_agree;
pub mod identity;
pub mod dictionary;
pub mod text;
pub mod message;
pub mod net;
pub mod fetched;
pub mod association;
pub mod answers;
pub mod kept;
pub mod registry;
pub mod edits;
pub mod patterns;
pub mod shown;
pub mod decoded;
pub mod subscriber;
pub mod arguments;
pub mod refusals;
