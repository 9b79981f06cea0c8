//! Bridge between the Noesis UI engine and Bevy: render-device bookkeeping,
//! shader selection, scene lifecycle and the per-element property bridges.
//!
//! Every decision the bridge takes lives here as a verified function over
//! plain values; the engine, GPU and ECS calls are made by the application
//! layer that drives it.

pub mod assigned;
pub mod keyed;
pub mod order;
pub mod queue;
pub mod readbacks;
pub mod render;
pub mod render_device;
pub mod resources;
pub mod routed_events;
pub mod scalar;
pub mod scope;
pub mod shapes;
pub mod snapshots;
pub mod strings;
pub mod styles;
pub mod svg;
pub mod text;
pub mod theme;
pub mod transforms;
pub mod transforms3d;
pub mod typography;
pub mod ui;
pub mod values;
pub mod viewmodel;
pub mod visibility;
pub mod visual_state;
pub mod watches;
pub mod widen;
pub mod window_compat;
pub mod xaml;
