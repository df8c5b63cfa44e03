//! Polygone: ephemeral post-quantum transit network — the verified core.

pub mod text;
pub mod numfmt;
pub mod relay;
pub mod clock;
pub mod compute;
pub mod mesh;
pub mod digest;
pub mod mailbox;
pub mod error;
pub mod symmetric;
pub mod shamir;
pub mod message;
pub mod installer;
pub mod drive;
pub mod allocator;
pub mod cpu;
pub mod glow_up;
pub mod resources;
pub mod nodeos;
pub mod tui;
pub mod protocol;
pub mod compute_daemon;
pub mod ipc;
pub mod petals;
pub mod vllm;
pub mod ollama;
pub mod models;
pub mod discovery;
pub mod brain;
pub mod search;
pub mod proxy;
pub mod sign;
pub mod gpu;
pub mod socket;
pub mod bandwidth;
pub mod procfs;
pub mod macos;
