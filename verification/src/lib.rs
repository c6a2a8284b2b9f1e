//! Verified core of a chat bot that runs user-submitted code snippets in a
//! remote sandbox: it extracts a snippet and its compiler options from chat
//! markup, wraps the snippet into a complete program when needed, builds the
//! sandbox request, scrubs sandbox-internal artifacts from the output, and
//! renders the result as an inline message or a file attachment. The chat
//! connection and all network calls live outside this crate.
pub mod fence;
pub mod filter;
pub mod harness;
pub mod render;
pub mod sandbox;
pub mod text;
pub mod trans;
