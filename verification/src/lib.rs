//! A software triangle rasterizer in whole numbers.
//!
//! A mesh holds its triangles at rest, in fixed-point coordinates, with the
//! rotation that has been asked of it. For every frame the renderer brings
//! each triangle into camera space, finds the light that falls on it,
//! culls it where it shows its back, projects it onto the screen, sorts its
//! corners and scan-converts it with two edge walkers in lock-step; every
//! covered pixel is shaded from exact barycentric weights and written
//! through a depth test into the frame buffer.

pub mod arith;
pub mod assemble;
pub mod buffer;
pub mod color;
pub mod control;
pub mod edge;
pub mod geometry;
pub mod inside;
pub mod life;
pub mod light;
pub mod line;
pub mod math;
pub mod raster;
pub mod renderer;
pub mod scan;
pub mod texture;
pub mod transform;
pub mod utility;

pub use assemble::Corner;
pub use buffer::{Buffer, Fragment, Grid, BACKGROUND, FAR};
pub use color::{color_tag, Color, FULL_LIGHT, LIGHT_FLOOR};
pub use control::{
    handle_camera_input, handle_mouse_input, handle_mutation_input, handle_renderer_input, tilt,
    Keys, TILT_LIMIT, UNIT,
};
pub use edge::{EdgeTracer, Walk};
pub use geometry::{Barycentric, Camera, Mesh, RefFrame, Tri, Vec3w, Vert, Weights};
pub use life::{Board, Cell, World};
pub use math::{Int, Vec2i, Vec2u, Vec3i};
pub use light::{isqrt, lambert};
pub use renderer::{Face, Lens, Renderer, Scene, Stage};
pub use scan::ScanBuffer;
pub use texture::{Texture, TextureGrid, TEX_ONE};
pub use transform::{Turn, Turns, TRIG_ONE};
pub use utility::{dump, idx_usize_isize, intchr};
