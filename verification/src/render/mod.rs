//! Scene lifecycle, the per-entity tables, input routing and compositing.
//!
//! - [`view`]: configuration of a view.
//! - [`state`]: the tables of everything owned on behalf of an entity.
//! - [`hosts`]: objects that stand as a `DataContext`.
//! - [`bindings`]: bound collections and property bindings.
//! - [`subscriptions`]: clicks, keys, routed events and key bindings.
//! - [`panels`]: fragments mounted into a view.
//! - [`input`]: which view an input event goes to.
//! - [`frame`]: scenes over a frame and published intermediates.
//! - [`fonts`]: faces to register and the fallback chain.
//! - [`bake`]: labels rendered offscreen.
//! - [`blit`]: compositing onto a camera's target.
//! - [`app_resources`]: the process-wide resource dictionary.
//! - [`scene`]: when a scene is built, rebuilt, resized or torn down.

pub mod app_resources;
pub mod bake;
pub mod bindings;
pub mod blit;
pub mod fonts;
pub mod frame;
pub mod hosts;
pub mod input;
pub mod panels;
pub mod scene;
pub mod state;
pub mod subscriptions;
pub mod view;
