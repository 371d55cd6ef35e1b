//! Affine transforms of the plane.
//!
//! The matrices, points and camera settings are those of
//! `oxygengine_composite_renderer`, which also does the arithmetic on them.
//! This module makes the types known and gives the operations that the
//! compositor needs a contract. Those contracts are taken on trust: each
//! says in its comment what it takes the outside function to do.

use oxygengine_composite_renderer::component::{
    CompositeCamera, CompositeScalingMode, CompositeScalingTarget, CompositeTransform,
};
use oxygengine_composite_renderer::math::{Mat2d, Vec2};
use vstd::prelude::*;

verus! {

/// A 2D affine matrix of six scalars `(a, b, c, d, e, f)`.
#[verifier::external_type_specification]
#[verifier::external_body]
pub struct ExMat2d(oxygengine_composite_renderer::math::Mat2d);

/// A point or a vector of the plane.
#[verifier::external_type_specification]
#[verifier::external_body]
pub struct ExVec2(oxygengine_composite_renderer::math::Vec2);

/// An RGBA colour.
#[verifier::external_type_specification]
#[verifier::external_body]
pub struct ExColor(oxygengine_composite_renderer::math::Color);

/// Position, rotation and scale of a camera in world space.
#[verifier::external_type_specification]
#[verifier::external_body]
pub struct ExCompositeTransform(oxygengine_composite_renderer::component::CompositeTransform);

/// How a camera anchors and scales the world on the viewport.
#[verifier::external_type_specification]
#[verifier::external_body]
pub struct ExCompositeScalingMode(oxygengine_composite_renderer::component::CompositeScalingMode);

/// The viewport dimension that a camera's zoom is measured against.
#[verifier::external_type_specification]
#[verifier::external_body]
pub struct ExCompositeScalingTarget(
    oxygengine_composite_renderer::component::CompositeScalingTarget,
);

/// The size of a drawing surface in whole pixels.
#[derive(Clone, Copy, Debug, PartialEq, Eq, Structural)]
pub struct ViewSize {
    /// The width in pixels.
    pub width: u32,
    /// The height in pixels.
    pub height: u32,
}

/// The zoom and anchor configuration of a camera.
#[derive(Clone, Copy, Debug)]
pub struct Projection {
    /// Whether the camera is anchored at the middle of the viewport, and
    /// whether it zooms with the viewport.
    pub scaling: CompositeScalingMode,
    /// The dimension of the viewport that the zoom is measured against.
    pub scaling_target: CompositeScalingTarget,
}

/// What `Mat2d::inverse` returns for a matrix.
pub uninterp spec fn inverse_of(matrix: Mat2d) -> Option<Mat2d>;

/// What the product of a matrix and a point is.
pub uninterp spec fn image_of(matrix: Mat2d, point: Vec2) -> Vec2;

/// Calls `Mat2d::inverse`, which divides by the determinant and returns
/// `None` where the determinant is zero. The result is taken to depend on
/// the matrix alone.
#[verifier::external_body]
pub(crate) fn inverse(matrix: &Mat2d) -> (r: Option<Mat2d>)
    ensures
        r == inverse_of(*matrix),
{
    matrix.inverse()
}

/// Calls `Mat2d::default`, the identity matrix. Nothing is claimed of it.
#[verifier::external_body]
pub(crate) fn identity() -> Mat2d {
    Mat2d::default()
}

/// Calls the `Mul<Vec2>` of `Mat2d`, which applies the matrix to a point.
/// The result is taken to depend on the matrix and the point alone.
#[verifier::external_body]
pub(crate) fn image(matrix: &Mat2d, point: Vec2) -> (r: Vec2)
    ensures
        r == image_of(*matrix, point),
{
    *matrix * point
}

/// Calls `CompositeCamera::view_matrix` on a camera with the given
/// projection, for a surface of the given size. The matrix maps world
/// coordinates to surface coordinates. It involves a sine and a cosine,
/// whose last bit is not settled, so nothing is claimed of its value.
#[verifier::external_body]
pub(crate) fn view_matrix(
    projection: &Projection,
    placement: &CompositeTransform,
    size: ViewSize,
) -> Mat2d {
    CompositeCamera::with_scaling_target(projection.scaling, projection.scaling_target)
        .view_matrix(placement, Vec2::new(size.width as _, size.height as _))
}

/// Calls the `Default` of `CompositeScalingMode`: neither anchoring nor
/// zoom. Nothing is claimed of it.
#[verifier::external_body]
pub(crate) fn default_scaling() -> CompositeScalingMode {
    CompositeScalingMode::default()
}

/// Calls the `Default` of `CompositeScalingTarget`: zoom measured against
/// both dimensions. Nothing is claimed of it.
#[verifier::external_body]
pub(crate) fn default_scaling_target() -> CompositeScalingTarget {
    CompositeScalingTarget::default()
}

/// Calls `CompositeTransform::default`: no translation, no rotation, unit
/// scale. Nothing is claimed of it.
#[verifier::external_body]
pub(crate) fn default_placement() -> CompositeTransform {
    CompositeTransform::default()
}

impl Default for Projection {
    /// The projection of a camera that was given none.
    fn default() -> Projection {
        Projection { scaling: default_scaling(), scaling_target: default_scaling_target() }
    }
}

/// Whether `inverse` can stand for the inverse of `matrix`: it is the
/// matrix's inverse where the matrix has one.
pub open spec fn fits_as_inverse(matrix: Mat2d, inverse: Mat2d) -> bool {
    inverse_of(matrix) matches Some(inverted) ==> inverse == inverted
}

/// The matrix that an attempt to invert has given, or the identity where
/// it has given none.
pub fn or_identity(inverted: Option<Mat2d>) -> (r: Mat2d)
    ensures
        inverted matches Some(matrix) ==> r == matrix,
{
    match inverted {
        Some(matrix) => matrix,
        None => identity(),
    }
}

/// The inverse of a matrix, or the identity where it has none: a camera
/// whose view cannot be inverted still answers coordinate queries.
pub fn invert_or_identity(matrix: &Mat2d) -> (r: Mat2d)
    ensures
        fits_as_inverse(*matrix, r),
{
    or_identity(inverse(matrix))
}

} // verus!
