//! A retained-mode compositor for camera-driven 2D drawing.
//!
//! A [`Registry`] holds renderers under handles. Each [`Renderer`] belongs
//! to one drawing surface and owns cameras, buckets of draw commands under
//! tags, and the images and font faces that the commands refer to. It
//! returns the frames that the surface is to draw: for each camera in
//! drawing order, the buckets that the camera names, under the camera's
//! view matrix.

pub mod affine;
pub mod camera;
pub mod cameras;
pub mod commands;
pub mod error;
pub mod frame;
pub mod handle;
pub mod instruction;
pub mod laws;
pub mod registry;
pub mod renderer;
pub mod resources;
pub mod table;
pub mod text;

pub use affine::{Projection, ViewSize};
pub use camera::Camera;
pub use commands::RenderCommands;
pub use error::{Access, Error, ErrorKind};
pub use instruction::Instruction;
pub use registry::{
    add_fontface_resource, add_image_resource, camera_create, camera_destroy,
    camera_screen_to_world_space, camera_set, camera_state, camera_world_to_screen_space,
    remove_fontface_resource, remove_image_resource, render_commands, render_state,
    renderer_create, renderer_destroy, renderer_insert, renderer_refresh, Registry,
};
pub use renderer::Renderer;
pub use resources::Resources;
