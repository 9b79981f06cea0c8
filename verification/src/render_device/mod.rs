//! Render-device logic: shader variants, vertex layouts, pipeline state and
//! the per-frame bookkeeping of the GPU device.
//!
//! - [`types`]: shader ids, state words and the engine's lookup tables.
//! - [`shader_defines`]: shader id to WGSL define set.
//! - [`wgpu_device`]: the device's resources and frame state.
//! - [`rings`]: per-draw uniform slots; [`streams`]: appended geometry.
//! - [`sampler`]: sampler state.
//! - [`pipeline`]: pipeline state keyed on shader, render state and format.
//! - [`vertex_layout`]: vertex attributes and stride of a vertex format.
//! - [`shader_preproc`]: minimal `#ifdef` stripper for the WGSL template.

pub mod pipeline;
pub mod rings;
pub mod sampler;
pub mod shader_defines;
pub mod shader_preproc;
pub mod streams;
pub mod types;
pub mod vertex_layout;
pub mod wgpu_device;

pub use wgpu_device::WgpuRenderDevice;
