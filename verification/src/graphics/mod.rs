//! Graphics resources as the renderer tracks them: textures, buffers,
//! shaders and the fixed-function state of materials.
//!
//! The GPU objects themselves are created and driven by the caller; these
//! types hold their handles and derive the values handed to the GPU.
pub mod texture;
pub mod buffer;
pub mod shader;
pub mod material;
