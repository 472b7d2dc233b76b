//! The resource and synchronization core of a real-time renderer.
//!
//! The library decides what is asked of the graphics device and keeps
//! the books; it never talks to the device itself. Every function that
//! needs the device adds requests to a [`context::Context`], in the
//! order in which they are to be carried out, and enters the objects
//! that these requests create or destroy into the context's ledger.
//! The program around the library takes the requests with
//! [`context::Context::take_calls`], carries them out, and hands back
//! what the device answered where the library has to decide on it
//! (see [`render::Renderer`]).
//!
//! Handles are the ledger's own: an object's handle is its position
//! in the order of creation. The numbers that stand for formats,
//! layouts, usages and the like are the device's, taken from `ash`.
use vstd::prelude::*;

pub mod buffer;
pub mod call;
mod codes;
pub mod common;
pub mod context;
pub mod descriptors;
pub mod features;
pub mod frame;
pub mod image;
pub mod ledger;
pub mod pass;
pub mod render;
pub mod sampler;
pub mod scene;
pub mod scope;
pub mod swapchain;
pub mod sync_state;
pub mod tonemap;
pub mod uniforms;

verus! {

} // verus!
