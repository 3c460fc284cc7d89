//! The GPU-free core of a WebGPU scene renderer, each part with its
//! contract proved: texture descriptions (2-D, cube, depth and volume
//! textures) and render targets with their attachments, the scene walk and
//! the painter's order of the draw lists, what is kept of an uploaded
//! geometry, the identity rules of the per-draw binding caches, a batched
//! mesh's packed ranges and draw list, the renderer's frame counts and pass
//! decisions, the row layout of a texture read-back, the choice of GPU
//! adapter, occlusion-query bookkeeping, PMREM sizing, the supersampling
//! schedule, and the film-strip compositor with its PNG encoding.

pub mod adapter;
pub mod batched;
pub mod bindings;
pub mod depth;
pub mod encoding;
pub mod frame;
pub mod geometry;
pub mod info;
pub mod objects;
pub mod occlusion;
pub mod pmrem;
pub mod readback;
pub mod render_list;
pub mod ssaa;
pub mod strip;
pub mod targets;
pub mod texture;
pub mod text;
pub mod textures;
pub mod volume;
