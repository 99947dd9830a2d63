//! A small real-time rendering front end.
//!
//! Scene logic describes a frame as a stream of draw requests. The library
//! validates them against its pools of meshes and textures, groups them so
//! that every `(texture, mesh)` pair is drawn by exactly one instanced call,
//! lays out the bytes of every buffer, and emits the command list of the
//! render pass. Performing those commands on a device is left to the caller.
//!
//! Matrices and vertex attributes are kept as IEEE-754 binary32 bit patterns,
//! so that every function here works on integers only.

pub mod batch;
pub mod buffers;
pub mod bytes;
pub mod context;
pub mod events;
pub mod frame;
pub mod matrix;
pub mod pass;
pub mod pipeline;
pub mod registry;
pub mod scene;
pub mod texture;
