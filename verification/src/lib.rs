//! Host-side helper for touch control of a modular-synth rack: the scene
//! cache that maps module, parameter and jack ids to screen positions, the
//! client protocol (intents, acks and errors), the bridge protocol (snapshots,
//! panel assets, module actions) and the planning of synthesized input.

pub mod json;
pub mod text;
pub mod scene;
pub mod server;
pub mod injector;
pub mod bridge;
