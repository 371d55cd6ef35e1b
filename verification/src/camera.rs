//! A camera: where the viewer stands in the world, and what it draws.

use crate::affine::{
    default_placement, fits_as_inverse, identity, image, image_of, invert_or_identity,
    view_matrix, Projection, ViewSize,
};
use oxygengine_composite_renderer::component::CompositeTransform;
use oxygengine_composite_renderer::math::{Mat2d, Vec2};
use vstd::prelude::*;

verus! {

/// A camera of a renderer.
///
/// `order`, `projection`, `transform` and `tags` are its settings. The two
/// matrices are a cache: they hold the view matrix and its inverse as of the
/// renderer's last render, and are stale after a change of the settings
/// until the next one.
#[derive(Debug)]
pub struct Camera {
    /// The drawing priority: cameras draw in ascending order of it.
    pub order: i64,
    /// The zoom and anchor configuration.
    pub projection: Projection,
    /// The camera's placement in world space.
    pub transform: CompositeTransform,
    /// The command buckets that the camera draws, in drawing order; none
    /// stands for all of them.
    pub tags: Vec<String>,
    /// World to screen, as of the last render.
    pub world_transform: Mat2d,
    /// Screen to world, as of the last render.
    pub world_inverse_transform: Mat2d,
}

/// The settings of a camera: all of it but the cache.
pub struct Settings {
    /// The drawing priority.
    pub order: i64,
    /// The zoom and anchor configuration.
    pub projection: Projection,
    /// The placement in world space.
    pub transform: CompositeTransform,
    /// The command buckets that the camera draws.
    pub tags: Vec<String>,
}

impl Camera {
    /// The tags as character sequences.
    pub open spec fn tag_names(&self) -> Seq<Seq<char>> {
        self.tags@.map_values(|tag: String| tag@)
    }

    /// The camera's settings.
    pub open spec fn settings(&self) -> Settings {
        Settings {
            order: self.order,
            projection: self.projection,
            transform: self.transform,
            tags: self.tags,
        }
    }

    /// Whether two cameras have the same settings, whatever their caches.
    pub open spec fn same_settings(&self, other: &Camera) -> bool {
        self.settings() == other.settings()
    }

    /// Whether two cameras have the same cache, whatever their settings.
    pub open spec fn same_cache(&self, other: &Camera) -> bool {
        &&& self.world_transform == other.world_transform
        &&& self.world_inverse_transform == other.world_inverse_transform
    }

    /// Whether the cached inverse belongs to the cached view matrix: it is
    /// that matrix's inverse wherever it has one.
    pub open spec fn cache_fits(&self) -> bool {
        fits_as_inverse(self.world_transform, self.world_inverse_transform)
    }

    /// A camera with the given settings and a cache that is yet to be
    /// filled: both matrices are the identity.
    pub fn new(
        order: i64,
        projection: Projection,
        transform: CompositeTransform,
        tags: Vec<String>,
    ) -> (r: Camera)
        ensures
            r.order == order,
            r.projection == projection,
            r.transform == transform,
            r.tags == tags,
            r.world_inverse_transform == r.world_transform,
    {
        let unit = identity();
        Camera {
            order,
            projection,
            transform,
            tags,
            world_transform: unit,
            world_inverse_transform: unit,
        }
    }

    /// The matrix that maps world coordinates to the coordinates of a
    /// surface of the given size, from the settings as they are now.
    pub fn view_matrix(&self, view_size: ViewSize) -> Mat2d {
        view_matrix(&self.projection, &self.transform, view_size)
    }

    /// Puts a view matrix into the cache, with what stands for its inverse.
    pub fn cache(&mut self, matrix: Mat2d)
        ensures
            final(self).same_settings(old(self)),
            final(self).world_transform == matrix,
            final(self).cache_fits(),
    {
        self.world_inverse_transform = invert_or_identity(&matrix);
        self.world_transform = matrix;
    }

    /// Fills the cache from the settings, for a surface of the given size.
    pub fn refresh_cache(&mut self, view_size: ViewSize)
        ensures
            final(self).same_settings(old(self)),
            final(self).cache_fits(),
    {
        let matrix = self.view_matrix(view_size);
        self.cache(matrix);
    }

    /// The world point that the cache puts under a point of the screen.
    pub fn screen_to_world_space(&self, point: Vec2) -> (r: Vec2)
        ensures
            r == image_of(self.world_inverse_transform, point),
    {
        image(&self.world_inverse_transform, point)
    }

    /// The screen point at which the cache puts a point of the world.
    pub fn world_to_screen_space(&self, point: Vec2) -> (r: Vec2)
        ensures
            r == image_of(self.world_transform, point),
    {
        image(&self.world_transform, point)
    }
}

impl Default for Camera {
    /// The camera that stands in where a caller gives none: order 0, the
    /// default projection and placement, no tags.
    fn default() -> (r: Camera)
        ensures
            r.order == 0,
            r.tags@.len() == 0,
            r.world_inverse_transform == r.world_transform,
    {
        Camera::new(0, Projection::default(), default_placement(), Vec::new())
    }
}

} // verus!
