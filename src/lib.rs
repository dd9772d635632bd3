//! Building blocks of a mesh-shading renderer: a greedy meshlet builder with
//! its packed GPU buffer, bookkeeping of GPU timing sections, shader-source
//! imports, and the GL values that the renderer decides on.

pub mod gl;
pub mod layout;
pub mod mesh;
pub mod model;
pub mod packed;
pub mod perf;
pub mod shader;
