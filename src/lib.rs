//! A tabbed terminal viewer for markdown documents.
//!
//! The library holds the verified core: the renderer that turns markdown text
//! into styled lines, the session controller that keeps the open documents and
//! the focus consistent under keyboard and file-system commands, and the rules
//! that turn raw input into commands.
pub mod channel;
pub mod input;
pub mod markdown;
pub mod session;
