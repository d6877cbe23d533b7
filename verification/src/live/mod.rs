//! The live link to an emulator: operation budgets, requests and responses, and the tools on top.

pub mod capture;
pub mod cleanup;
pub mod dump;
pub mod exchange;
pub mod frozen;
pub mod gesture_laws;
pub mod link;
pub mod pointer;
pub mod probe;
pub mod probe_laws;
pub mod protocol;
pub mod reattach;
pub mod receipt;
pub mod restart;
pub mod session;
pub mod temporal;
pub mod tool_laws;
pub mod tools;
