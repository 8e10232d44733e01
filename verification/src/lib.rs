//! The logic of an MCP server for Audiobookshelf: the requests that its
//! tools send, the bodies that they post, the summary of items that miss
//! metadata, the tool registry and the options that enable tools, and the
//! checks that guard the HTTP transport.  Documents are held as `JsonValue`
//! and specified over their model `Json`.

pub mod access;
pub mod client;
pub mod json;
pub mod metadata;
pub mod payload;
pub mod registry;
pub mod text;
pub mod tools;
