//! Streaming chat completion for a text editor: the selection in a document
//! becomes a prompt, the reply arrives as a stream of newline-delimited frames,
//! and each text fragment in it is inserted at a fixed place in the document.
//!
//! The functions here are verified against their contracts. Reading the
//! network, serialising the request and editing the host's buffer are left to
//! the caller. One module, `source_header`, calls the `url` crate; what is taken
//! on trust of that crate is marked there.

pub mod decoder;
pub mod error;
pub mod framing;
pub mod message;
pub mod sink;
pub mod source_header;
pub mod transport;
