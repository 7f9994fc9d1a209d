//! A realtime audio host core: a mixing graph of tracks and plugin chains
//! driven by an audio callback, fed by a non-realtime controller through a
//! single-producer single-consumer command queue.
//!
//! The audio side lives in [`processor`]: per buffer it zeroes the stereo
//! outputs, drives every track's plugin chain, and mixes each track in with
//! gain `track volume · master volume`. The control side lives in
//! [`controller`]: it owns the user-visible track and plugin-instance
//! metadata, builds realtime plugin objects through the [`plugin_factory`],
//! and hands them to the audio thread through the [`command_queue`] —
//! ownership moves, the audio thread never allocates or locks. [`api`]
//! holds the decisions of the REST control surface; the HTTP server around
//! it, and everything else that cannot be verified, stays outside this
//! crate.
//!
//! Audio samples are IEEE 754 binary32 bit patterns (see [`sample`]), so
//! every structural property of the engine is verified while the
//! floating-point arithmetic itself is delegated to a software float
//! library behind two trusted wrappers.
pub mod api;
pub mod command_queue;
pub mod controller;
pub mod midi;
pub mod plugin;
pub mod plugin_factory;
pub mod plugin_registry;
pub mod processor;
pub mod sample;
