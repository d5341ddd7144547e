//! Verified core of a grid-of-workspaces-per-activity manager for a
//! tiling compositor. The library holds the coordinate model, the
//! workspace-name grammar, the session state, and the planning logic
//! behind every daemon command; the surrounding process (sockets,
//! compositor calls, timers) lives outside and exchanges plain values
//! with it.
pub mod command;
pub mod config;
pub mod digits;
pub mod events;
pub mod grid;
pub mod info;
pub mod ipc;
pub mod state;
