//! Recording, encoding and validation of render passes.
pub mod bytes;
pub mod cache;
pub mod codec;
pub mod executor;
pub mod global;
pub mod instance;
pub mod model;
pub mod pass;
pub mod raw_pass;
pub mod render_ffi;
pub mod resources;
pub mod slots;
pub mod state;
pub mod targets;
pub mod tracker;
pub mod types;
