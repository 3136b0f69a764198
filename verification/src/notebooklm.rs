//! The NotebookLM session (cookies and tokens), the batchexecute request
//! encoding and response decoding, and the client's call parameters, answer
//! readers and waiting decisions.

pub mod auth;
pub mod client;
pub mod rpc;
