use ignite_composite_renderer::{Camera, Projection, ViewSize};
use oxygengine_composite_renderer::component::{
    CompositeScalingMode, CompositeScalingTarget, CompositeTransform,
};
use oxygengine_composite_renderer::math::{Mat2d, Vec2};

fn close(a: f32, b: f32) -> bool {
    (a - b).abs() <= 1e-3 * (1.0 + a.abs().max(b.abs()))
}

fn points_close(a: Vec2, b: Vec2) -> bool {
    close(a.x, b.x) && close(a.y, b.y)
}

fn camera(
    scaling: CompositeScalingMode,
    target: CompositeScalingTarget,
    transform: CompositeTransform,
) -> Camera {
    Camera::new(0, Projection { scaling, scaling_target: target }, transform, vec![])
}

#[test]
fn default_camera_has_order_zero_and_no_tags() {
    let camera = Camera::default();
    assert_eq!(camera.order, 0);
    assert!(camera.tags.is_empty());
    assert_eq!(camera.projection.scaling, CompositeScalingMode::None);
    assert_eq!(camera.projection.scaling_target, CompositeScalingTarget::Both);
    assert_eq!(camera.transform, CompositeTransform::default());
    assert_eq!(camera.world_transform, Mat2d::default());
    assert_eq!(camera.world_inverse_transform, Mat2d::default());
}

#[test]
fn new_camera_keeps_its_settings() {
    let transform = CompositeTransform::new(Vec2::new(1.0, 2.0), 0.5, Vec2::new(3.0, 4.0));
    let made = Camera::new(
        7,
        Projection {
            scaling: CompositeScalingMode::CenterAspect,
            scaling_target: CompositeScalingTarget::Width,
        },
        transform.clone(),
        vec!["a".to_string(), "b".to_string()],
    );
    assert_eq!(made.order, 7);
    assert_eq!(made.projection.scaling, CompositeScalingMode::CenterAspect);
    assert_eq!(made.projection.scaling_target, CompositeScalingTarget::Width);
    assert_eq!(made.transform, transform);
    assert_eq!(made.tags, vec!["a", "b"]);
}

#[test]
fn coordinate_queries_use_the_cache_and_not_the_settings() {
    let mut moved = camera(
        CompositeScalingMode::None,
        CompositeScalingTarget::Both,
        CompositeTransform::translation(Vec2::new(10.0, 20.0)),
    );
    let point = Vec2::new(3.0, 4.0);
    assert!(points_close(moved.world_to_screen_space(point), point));
    assert!(points_close(moved.screen_to_world_space(point), point));
    moved.refresh_cache(ViewSize { width: 800, height: 600 });
    assert!(points_close(moved.world_to_screen_space(point), Vec2::new(-7.0, -16.0)));
    assert!(points_close(moved.screen_to_world_space(point), Vec2::new(13.0, 24.0)));
    moved.transform = CompositeTransform::default();
    assert!(points_close(moved.world_to_screen_space(point), Vec2::new(-7.0, -16.0)));
}

#[test]
fn refresh_cache_keeps_the_settings() {
    let transform = CompositeTransform::new(Vec2::new(1.0, 2.0), 0.5, Vec2::new(3.0, 4.0));
    let mut made = Camera::new(
        -3,
        Projection {
            scaling: CompositeScalingMode::Center,
            scaling_target: CompositeScalingTarget::Height,
        },
        transform.clone(),
        vec!["hud".to_string()],
    );
    made.refresh_cache(ViewSize { width: 640, height: 480 });
    assert_eq!(made.order, -3);
    assert_eq!(made.projection.scaling, CompositeScalingMode::Center);
    assert_eq!(made.projection.scaling_target, CompositeScalingTarget::Height);
    assert_eq!(made.transform, transform);
    assert_eq!(made.tags, vec!["hud"]);
    assert_eq!(made.world_transform, made.view_matrix(ViewSize { width: 640, height: 480 }));
}

#[test]
fn screen_to_world_undoes_world_to_screen_after_a_refresh() {
    let modes = [
        CompositeScalingMode::None,
        CompositeScalingMode::Center,
        CompositeScalingMode::Aspect,
        CompositeScalingMode::CenterAspect,
    ];
    let targets = [
        CompositeScalingTarget::Width,
        CompositeScalingTarget::Height,
        CompositeScalingTarget::Both,
        CompositeScalingTarget::BothMinimum,
        CompositeScalingTarget::Cover(320.0, 240.0),
    ];
    let placements = [
        CompositeTransform::default(),
        CompositeTransform::new(Vec2::new(12.0, -7.0), 0.0, Vec2::new(1.0, 1.0)),
        CompositeTransform::new(Vec2::new(-40.0, 25.0), 0.7, Vec2::new(2.0, 0.5)),
        CompositeTransform::new(Vec2::new(3.5, 9.25), -2.1, Vec2::new(0.25, 4.0)),
    ];
    let points = [
        Vec2::new(0.0, 0.0),
        Vec2::new(1.0, 1.0),
        Vec2::new(-13.0, 57.5),
        Vec2::new(250.0, -125.0),
    ];
    for mode in modes.iter() {
        for target in targets.iter() {
            for placement in placements.iter() {
                let mut made = camera(*mode, *target, placement.clone());
                made.refresh_cache(ViewSize { width: 800, height: 600 });
                for point in points.iter() {
                    let screen = made.world_to_screen_space(*point);
                    let back = made.screen_to_world_space(screen);
                    assert!(points_close(back, *point));
                }
            }
        }
    }
}

#[test]
fn camera_that_cannot_be_inverted_answers_with_the_identity() {
    let mut flat = camera(
        CompositeScalingMode::Aspect,
        CompositeScalingTarget::Both,
        CompositeTransform::default(),
    );
    flat.refresh_cache(ViewSize { width: 0, height: 600 });
    assert_eq!(flat.world_inverse_transform, Mat2d::default());
    let point = Vec2::new(5.0, 6.0);
    assert!(points_close(flat.screen_to_world_space(point), point));
}

#[test]
fn cache_takes_a_view_matrix_and_its_inverse() {
    let mut made = Camera::default();
    made.cache(Mat2d([2.0, 0.0, 0.0, 2.0, 10.0, 20.0]));
    assert_eq!(made.world_transform.0, [2.0, 0.0, 0.0, 2.0, 10.0, 20.0]);
    assert_eq!(made.world_inverse_transform.0, [0.5, 0.0, 0.0, 0.5, -5.0, -10.0]);
    made.cache(Mat2d([0.0; 6]));
    assert_eq!(made.world_transform.0, [0.0; 6]);
    assert_eq!(made.world_inverse_transform, Mat2d::default());
    assert_eq!(made.order, 0);
    assert!(made.tags.is_empty());
}
