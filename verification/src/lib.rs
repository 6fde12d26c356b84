//! A service that encodes audio with EnCodec: what it understands of a request, how it hands
//! work from an ingress to a worker, and what it answers.

pub mod artifacts;
pub mod config;
pub mod digest;
pub mod error;
pub mod events;
pub mod form;
pub mod headers;
pub mod ingress;
pub mod json;
pub mod options;
pub mod picture;
pub mod prepared;
pub mod protocol;
pub mod relay;
pub mod request;
pub mod response;
pub mod router;
pub mod samples;
pub mod seconds;
pub mod session;
pub mod text;
pub mod upload;
pub mod worker;
