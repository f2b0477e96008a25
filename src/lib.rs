//! Verified core of a console viewer for triangulated 3D meshes: the shading
//! palette, the square character canvas with its depth test and its text
//! frame, and the small decisions around them (file kinds, mesh checks,
//! terminal sizing, key commands).

pub mod canvas;
pub mod console;
pub mod error;
pub mod input;
pub mod mesh;
pub mod shading;
pub mod text;

pub use canvas::{get_asc_range, is_valid_cols, RasterTriangle, SquaredCanvas};
pub use console::{action_for, canvas_cols, Action, Axis, Console, KeyPress};
pub use error::Sx3dError;
pub use input::{get_file_type, FileType};
pub use mesh::{check_mesh, IndexedMesh3D, IndexedTriangle3D, MeshError, Triangle3D};
pub use shading::{grayscale_lut, shade_level_to_char, SHADE_STEPS};
