//! Local tools for an MCP server: a patch format and its application to text,
//! shell command results, image data URLs, and the server's tool table.
pub mod text;
pub mod patch;
pub mod update;
pub mod tools;
pub mod exec_command;
pub mod shell_command;
pub mod apply_patch;
pub mod view_image;
