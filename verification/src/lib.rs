//! Core logic of an interactive 3D scene: scene descriptions, model names,
//! mesh topology, object synchronisation, input handling, hot-reload planning,
//! frame statistics and Radiance HDR encoding.

pub mod model_name;
pub mod scene_desc;
pub mod mesh;
pub mod hdr;
pub mod sync;
pub mod input;
pub mod reload;
pub mod stats;
pub mod hud;
