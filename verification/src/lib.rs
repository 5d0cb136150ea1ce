//! Verified decision logic behind the SIP scripting interface.

pub mod text;
pub mod base64;
pub mod hex;
pub mod timed_map;
pub mod vectors;
pub mod digest;
pub mod hash;
pub mod sip;
pub mod error;
pub mod request;
pub mod auth;
pub mod net;
pub mod bytes;
pub mod sec_agree;
pub mod ipsec;
pub mod pyvalue;
pub mod diameter;
pub mod lcr;
pub mod numbers;
pub mod gateway;
pub mod call;
pub mod b2bua;
pub mod cache;
pub mod isc;
pub mod cdr;
pub mod li;
pub mod metrics;
pub mod namespaces;
pub mod laws;
