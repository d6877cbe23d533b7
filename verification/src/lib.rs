//! Verified core of an emulator-control bridge.
pub mod encoding;
pub mod gdb;
pub mod json;
pub mod live;
pub mod m3u;
pub mod m3u_laws;
pub mod mcp_result;
pub mod mcp_stdio;
pub mod media_graph;
pub mod media_graph_laws;
pub mod n64;
pub mod nds;
pub mod neogeo;
pub mod path_safety;
pub mod text;
pub mod text_laws;
