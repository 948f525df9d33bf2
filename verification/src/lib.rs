//! The logic of Juno, a chat agent over a local Ollama server: the
//! conversation's turns, the tool registry and what each tool call comes to,
//! the workspace folders and the chat context built from their files, the
//! Ollama and MCP messages, and the bitmap and keystroke encodings of the
//! computer-use tools.

pub mod chat;
pub mod computer_use;
pub mod json;
pub mod mcp;
pub mod models;
pub mod ollama;
pub mod text;
pub mod tool_reports;
pub mod tools;
pub mod workspace;
