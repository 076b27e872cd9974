//! Reconstruction of logical gRPC calls from gRPC binary-log dumps.
//!
//! A dump is a buffer of length-prefixed records ([`frames`]); each record is
//! one log entry ([`binarylog`], normalised by [`entry`]); entries are folded,
//! per call id, into [`call::Call`] records ([`calls`]), decoding application
//! payloads by method name ([`methods`]). The order in which a directory
//! tree is searched for dumps is kept by [`paths`].

pub mod binarylog;
pub mod buffer;
pub mod call;
pub mod calls;
pub mod dump;
pub mod entry;
pub mod error;
pub mod frames;
pub mod headers;
pub mod methods;
pub mod paths;
pub mod text;
pub mod timestamp;
