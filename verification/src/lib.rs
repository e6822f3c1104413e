//! Verified core of two command-line tools: `playctl`, a controller for a local
//! HTML playground server, and `sub2api-image`, a client for an image
//! generation gateway.  Input, output and process handling live in the
//! application crate; this library holds their rules and text processing.
pub mod playctl;
pub mod sub2api_image;
pub mod text;
