//! Dispatch of file operations to registered file-name handlers.
//!
//! A registry associates patterns with handlers. Given the positions at which
//! the patterns match a file name, the library selects the handler that is
//! responsible for an operation on that name: the first entry that reaches the
//! highest position among those whose handler supports the operation and is
//! not inhibited for it.
pub mod model;
pub mod selection;
pub mod resolver;
pub mod laws;
pub mod names;
