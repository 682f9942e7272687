pub mod cache;
pub mod edit;
pub mod edit_laws;
pub mod export;
pub mod ffmpeg;
pub mod import;
pub mod json;
pub mod mcp;
pub mod media;
pub mod json_props;
pub mod outside;
pub mod preview;
pub mod project;
pub mod state;
pub mod text;
pub mod tool_laws;
pub mod tools;
