//! Verified core of the Maple 3D game engine: mesh topology, render scheduling,
//! texture conversion, input mapping and the small state machines that drive them.
pub mod environment;
pub mod grid;
pub mod primitives;
pub mod render_order;
pub mod textures;
pub mod lights;
pub mod render_passes;
pub mod material;
pub mod material_properties;
pub mod mesh_collection;
pub mod egui_input;
pub mod egui_render;
pub mod audio;
pub mod app;
pub mod camera;
pub mod scene;
