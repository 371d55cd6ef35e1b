use ignite_composite_renderer::{
    add_fontface_resource, add_image_resource, camera_create, camera_destroy,
    camera_screen_to_world_space, camera_set, camera_state, camera_world_to_screen_space,
    remove_fontface_resource, remove_image_resource, render_commands, render_state,
    renderer_create, renderer_destroy, renderer_insert, renderer_refresh, Camera, Error,
    ErrorKind, Instruction, Projection, Registry, ViewSize,
};
use oxygengine_composite_renderer::component::{
    CompositeScalingMode, CompositeScalingTarget, CompositeTransform,
};
use oxygengine_composite_renderer::composite_renderer::Command;
use oxygengine_composite_renderer::math::{Color, Vec2};

const SIZE: ViewSize = ViewSize { width: 800, height: 600 };
const UNKNOWN: &str = "3f2b0c1e-0000-4000-8000-00000000dead";

type Renderers = Registry<String, u32>;

fn alpha(value: f32) -> Command<'static> {
    Command::Alpha(value)
}

fn show(frame: &Vec<Vec<Instruction>>) -> Vec<Vec<String>> {
    frame
        .iter()
        .map(|batch| {
            batch
                .iter()
                .map(|instruction| match instruction {
                    Instruction::Clear(color) => {
                        format!("clear {} {} {} {}", color.r, color.g, color.b, color.a)
                    }
                    Instruction::Store => "store".to_string(),
                    Instruction::Transform(matrix) => {
                        format!("transform {} {}", matrix.0[4], matrix.0[5])
                    }
                    Instruction::Draw(command) => format!("draw {:?}", command),
                    Instruction::Restore => "restore".to_string(),
                })
                .collect()
        })
        .collect()
}

fn camera(order: i64, shift: f32, tags: &[&str]) -> Camera {
    Camera::new(
        order,
        Projection {
            scaling: CompositeScalingMode::None,
            scaling_target: CompositeScalingTarget::Both,
        },
        CompositeTransform::translation(Vec2::new(-shift, 0.0)),
        tags.iter().map(|tag| tag.to_string()).collect(),
    )
}

fn layer(shift: f32, draws: &[&str]) -> Vec<String> {
    let mut batch = vec!["store".to_string(), format!("transform {} 0", shift)];
    batch.extend(draws.iter().map(|draw| format!("draw {}", draw)));
    batch.push("restore".to_string());
    batch
}

fn renderer_missing(handle: &str) -> Error {
    Error::RendererNotFound { renderer: handle.to_string() }
}

fn camera_missing(renderer: &str, camera: &str) -> Error {
    Error::CameraNotFound { renderer: renderer.to_string(), camera: camera.to_string() }
}

#[test]
fn new_registry_is_empty() {
    let renderers = Renderers::new();
    assert_eq!(renderers.len(), 0);
    assert!(renderers.get(UNKNOWN).is_none());
}

#[test]
fn renderer_create_registers_a_renderer_and_draws_the_clear() {
    let mut renderers = Renderers::new();
    let (handle, frame) = renderer_create(&mut renderers, Some(Color::rgb(1, 2, 3)), SIZE);
    assert_eq!(show(&frame), vec![vec!["clear 1 2 3 255"]]);
    assert_eq!(renderers.len(), 1);
    let made = renderers.get(&handle).unwrap();
    assert_eq!(made.clear_color(), Some(Color::rgb(1, 2, 3)));
    assert_eq!(made.view_size(), SIZE);
    assert_eq!(made.cameras().len(), 0);
    assert_eq!(made.commands().len(), 0);
}

#[test]
fn renderer_create_without_clear_colour_draws_an_empty_frame() {
    let mut renderers = Renderers::new();
    let (_, frame) = renderer_create(&mut renderers, None, SIZE);
    assert!(frame.is_empty());
}

#[test]
fn renderer_create_gives_each_renderer_a_handle_of_its_own() {
    let mut renderers = Renderers::new();
    let (first, _) = renderer_create(&mut renderers, None, SIZE);
    let (second, _) = renderer_create(&mut renderers, None, SIZE);
    assert_ne!(first, second);
    assert_eq!(first.len(), 36);
    assert_eq!(renderers.len(), 2);
}

#[test]
fn refresh_after_create_draws_only_for_another_size() {
    let mut renderers = Renderers::new();
    let (handle, _) = renderer_create(&mut renderers, None, SIZE);
    assert_eq!(renderer_refresh(&mut renderers, &handle, false, SIZE).unwrap().is_some(), false);
    let other = ViewSize { width: 801, height: 600 };
    assert_eq!(renderer_refresh(&mut renderers, &handle, false, other).unwrap().is_some(), true);
    assert_eq!(renderer_refresh(&mut renderers, &handle, false, other).unwrap().is_some(), false);
}

#[test]
fn forced_refresh_always_draws() {
    let mut renderers = Renderers::new();
    let (handle, _) = renderer_create(&mut renderers, Some(Color::rgb(0, 0, 0)), SIZE);
    for _ in 0..3 {
        let frame = renderer_refresh(&mut renderers, &handle, true, SIZE).unwrap().unwrap();
        assert_eq!(show(&frame), vec![vec!["clear 0 0 0 255"]]);
    }
}

#[test]
fn renderer_refresh_of_an_unknown_renderer_is_not_found() {
    let mut renderers = Renderers::new();
    renderer_create(&mut renderers, None, SIZE);
    let refused = renderer_refresh(&mut renderers, UNKNOWN, true, SIZE).unwrap_err();
    assert_eq!(refused, renderer_missing(UNKNOWN));
    assert_eq!(refused.kind(), ErrorKind::NotFound);
    assert_eq!(refused.message(), format!("Renderer does not exists: {}", UNKNOWN));
}

#[test]
fn renderer_insert_replaces_what_was_under_the_handle() {
    let mut renderers = Renderers::new();
    renderer_insert(&mut renderers, "r".to_string(), Some(Color::rgb(1, 1, 1)), SIZE);
    camera_create(&mut renderers, "r", None).unwrap();
    renderer_insert(&mut renderers, "r".to_string(), None, SIZE);
    assert_eq!(renderers.len(), 1);
    assert_eq!(renderers.get("r").unwrap().cameras().len(), 0);
    assert_eq!(renderers.get("r").unwrap().clear_color(), None);
}

#[test]
fn renderer_destroy_removes_the_renderer_with_all_it_holds() {
    let mut renderers = Renderers::new();
    let (kept, _) = renderer_create(&mut renderers, None, SIZE);
    let (gone, _) = renderer_create(&mut renderers, None, SIZE);
    let (lens, _) = camera_create(&mut renderers, &gone, None).unwrap();
    let image = add_image_resource(&mut renderers, &gone, "logo", Some("pixels".to_string())).unwrap();
    let font = add_fontface_resource(&mut renderers, &gone, "sans", Some(12)).unwrap();
    assert_eq!(renderer_destroy(&mut renderers, &gone), Ok(()));
    assert_eq!(renderers.len(), 1);
    assert!(renderers.get(&gone).is_none());
    assert!(renderers.get(&kept).is_some());

    let missing = renderer_missing(&gone);
    assert_eq!(renderer_destroy(&mut renderers, &gone), Err(renderer_missing(&gone)));
    assert_eq!(renderer_refresh(&mut renderers, &gone, true, SIZE).unwrap_err(), missing);
    assert_eq!(camera_create(&mut renderers, &gone, None).unwrap_err(), missing);
    assert_eq!(camera_set(&mut renderers, &gone, &lens, None).unwrap_err(), missing);
    assert_eq!(camera_destroy(&mut renderers, &gone, &lens).unwrap_err(), missing);
    assert_eq!(camera_state(&renderers, &gone, &lens).unwrap_err(), missing);
    assert_eq!(
        camera_screen_to_world_space(&renderers, &gone, &lens, Vec2::new(1.0, 2.0)).unwrap_err(),
        missing
    );
    assert_eq!(
        camera_world_to_screen_space(&renderers, &gone, &lens, Vec2::new(1.0, 2.0)).unwrap_err(),
        missing
    );
    assert_eq!(render_commands(&mut renderers, &gone, Some(vec![])).unwrap_err(), missing);
    assert_eq!(render_commands(&mut renderers, &gone, None).unwrap_err(), missing);
    assert_eq!(add_image_resource(&mut renderers, &gone, "logo", None).unwrap_err(), missing);
    assert_eq!(remove_image_resource(&mut renderers, &gone, "logo").unwrap_err(), missing);
    assert_eq!(render_state(&renderers, &gone).unwrap_err(), missing);
    assert_eq!(
        add_image_resource(&mut renderers, &gone, "logo", Some("pixels".to_string())).unwrap_err(),
        missing
    );
    assert_eq!(remove_image_resource(&mut renderers, &gone, &image).unwrap_err(), missing);
    assert_eq!(add_fontface_resource(&mut renderers, &gone, "sans", Some(1)).unwrap_err(), missing);
    assert_eq!(remove_fontface_resource(&mut renderers, &gone, &font).unwrap_err(), missing);

    assert_eq!(camera_state(&renderers, &kept, &lens).unwrap_err(), camera_missing(&kept, &lens));
    assert_eq!(
        remove_image_resource(&mut renderers, &kept, &image).unwrap_err(),
        Error::ResourceNotFound { handle: image.clone() }
    );
}

#[test]
fn camera_create_adds_a_camera_and_draws() {
    let mut renderers = Renderers::new();
    let (renderer, _) = renderer_create(&mut renderers, None, SIZE);
    render_commands(&mut renderers, &renderer, Some(vec![("a".to_string(), vec![alpha(0.5)])]))
        .unwrap();
    let (lens, frame) = camera_create(&mut renderers, &renderer, Some(camera(1, 3.0, &[]))).unwrap();
    assert_eq!(show(&frame), vec![layer(3.0, &["Alpha(0.5)"])]);
    let state = camera_state(&renderers, &renderer, &lens).unwrap();
    assert_eq!(state.order, 1);
    assert_eq!(state.world_transform.0[4], 3.0);
}

#[test]
fn camera_create_without_a_camera_makes_the_default_camera() {
    let mut renderers = Renderers::new();
    let (renderer, _) = renderer_create(&mut renderers, None, SIZE);
    let (lens, frame) = camera_create(&mut renderers, &renderer, None).unwrap();
    assert_eq!(show(&frame), vec![layer(0.0, &[])]);
    let state = camera_state(&renderers, &renderer, &lens).unwrap();
    assert_eq!(state.order, 0);
    assert!(state.tags.is_empty());
    assert_eq!(state.transform, CompositeTransform::default());
}

#[test]
fn camera_set_replaces_the_camera_and_draws_nothing() {
    let mut renderers = Renderers::new();
    let (renderer, _) = renderer_create(&mut renderers, None, SIZE);
    let (lens, _) = camera_create(&mut renderers, &renderer, Some(camera(1, 3.0, &["a"]))).unwrap();
    assert_eq!(camera_set(&mut renderers, &renderer, &lens, Some(camera(2, 9.0, &["b"]))), Ok(()));
    let state = camera_state(&renderers, &renderer, &lens).unwrap();
    assert_eq!(state.order, 2);
    assert_eq!(state.tags, vec!["b"]);
    assert_eq!(state.world_transform.0[4], 3.0);
    assert_eq!(state.world_inverse_transform.0[4], -3.0);
    renderer_refresh(&mut renderers, &renderer, true, SIZE).unwrap();
    let state = camera_state(&renderers, &renderer, &lens).unwrap();
    assert_eq!(state.world_transform.0[4], 9.0);
}

#[test]
fn camera_operations_on_an_unknown_camera_are_not_found() {
    let mut renderers = Renderers::new();
    let (renderer, _) = renderer_create(&mut renderers, None, SIZE);
    camera_create(&mut renderers, &renderer, None).unwrap();
    let missing = camera_missing(&renderer, UNKNOWN);
    assert_eq!(camera_set(&mut renderers, &renderer, UNKNOWN, None).unwrap_err(), missing);
    assert_eq!(camera_destroy(&mut renderers, &renderer, UNKNOWN).unwrap_err(), missing);
    assert_eq!(camera_state(&renderers, &renderer, UNKNOWN).unwrap_err(), missing);
    assert_eq!(
        camera_screen_to_world_space(&renderers, &renderer, UNKNOWN, Vec2::new(0.0, 0.0))
            .unwrap_err(),
        missing
    );
    assert_eq!(
        camera_world_to_screen_space(&renderers, &renderer, UNKNOWN, Vec2::new(0.0, 0.0))
            .unwrap_err(),
        missing
    );
    assert_eq!(missing.kind(), ErrorKind::NotFound);
    assert_eq!(
        missing.message(),
        format!("Renderer {} does not have camera: {}", renderer, UNKNOWN)
    );
    assert_eq!(renderers.get(&renderer).unwrap().cameras().len(), 1);
}

#[test]
fn camera_destroy_removes_one_camera_and_draws() {
    let mut renderers = Renderers::new();
    let (renderer, _) = renderer_create(&mut renderers, None, SIZE);
    let (first, _) = camera_create(&mut renderers, &renderer, Some(camera(1, 1.0, &[]))).unwrap();
    let (second, _) = camera_create(&mut renderers, &renderer, Some(camera(2, 2.0, &[]))).unwrap();
    let frame = camera_destroy(&mut renderers, &renderer, &first).unwrap();
    assert_eq!(show(&frame), vec![layer(2.0, &[])]);
    assert_eq!(
        camera_state(&renderers, &renderer, &first).unwrap_err(),
        camera_missing(&renderer, &first)
    );
    assert_eq!(
        camera_destroy(&mut renderers, &renderer, &first).unwrap_err(),
        camera_missing(&renderer, &first)
    );
    assert_eq!(camera_state(&renderers, &renderer, &second).unwrap().order, 2);
}

#[test]
fn cameras_belong_to_their_renderer() {
    let mut renderers = Renderers::new();
    let (first, _) = renderer_create(&mut renderers, None, SIZE);
    let (second, _) = renderer_create(&mut renderers, None, SIZE);
    let (lens, _) = camera_create(&mut renderers, &first, None).unwrap();
    assert!(camera_state(&renderers, &first, &lens).is_ok());
    assert_eq!(
        camera_state(&renderers, &second, &lens).unwrap_err(),
        camera_missing(&second, &lens)
    );
}

#[test]
fn coordinate_queries_answer_from_the_last_render() {
    let mut renderers = Renderers::new();
    let (renderer, _) = renderer_create(&mut renderers, None, SIZE);
    let (lens, _) = camera_create(&mut renderers, &renderer, Some(camera(0, 10.0, &[]))).unwrap();
    let point = Vec2::new(1.0, 2.0);
    let screen = camera_world_to_screen_space(&renderers, &renderer, &lens, point).unwrap();
    assert_eq!((screen.x, screen.y), (11.0, 2.0));
    let world = camera_screen_to_world_space(&renderers, &renderer, &lens, screen).unwrap();
    assert_eq!((world.x, world.y), (1.0, 2.0));

    camera_set(&mut renderers, &renderer, &lens, Some(camera(0, 20.0, &[]))).unwrap();
    let stale = camera_world_to_screen_space(&renderers, &renderer, &lens, point).unwrap();
    assert_eq!((stale.x, stale.y), (11.0, 2.0));
    let stale = camera_screen_to_world_space(&renderers, &renderer, &lens, screen).unwrap();
    assert_eq!((stale.x, stale.y), (1.0, 2.0));
    renderer_refresh(&mut renderers, &renderer, true, SIZE).unwrap();
    let fresh = camera_world_to_screen_space(&renderers, &renderer, &lens, point).unwrap();
    assert_eq!((fresh.x, fresh.y), (21.0, 2.0));
    let back = camera_screen_to_world_space(&renderers, &renderer, &lens, fresh).unwrap();
    assert_eq!((back.x, back.y), (1.0, 2.0));
}

#[test]
fn render_commands_sets_the_buckets_and_draws_once() {
    let mut renderers = Renderers::new();
    let (renderer, _) = renderer_create(&mut renderers, None, SIZE);
    camera_create(&mut renderers, &renderer, None).unwrap();
    let frame = render_commands(
        &mut renderers,
        &renderer,
        Some(vec![
            ("a".to_string(), vec![alpha(0.1)]),
            ("b".to_string(), vec![alpha(0.2)]),
        ]),
    )
    .unwrap()
    .unwrap();
    assert_eq!(show(&frame), vec![layer(0.0, &["Alpha(0.1)", "Alpha(0.2)"])]);
    let state = render_state(&renderers, &renderer).unwrap();
    assert_eq!(state.len(), 2);
    assert_eq!(format!("{:?}", state.get("a").unwrap()), "[Alpha(0.1)]");
    assert_eq!(format!("{:?}", state.get("b").unwrap()), "[Alpha(0.2)]");
}

#[test]
fn render_commands_with_an_empty_bucket_removes_the_tag() {
    let mut renderers = Renderers::new();
    let (renderer, _) = renderer_create(&mut renderers, None, SIZE);
    render_commands(
        &mut renderers,
        &renderer,
        Some(vec![
            ("a".to_string(), vec![alpha(0.1)]),
            ("b".to_string(), vec![alpha(0.2)]),
        ]),
    )
    .unwrap();
    render_commands(&mut renderers, &renderer, Some(vec![("a".to_string(), vec![])])).unwrap();
    let state = render_state(&renderers, &renderer).unwrap();
    assert!(state.get("a").is_none());
    assert_eq!(state.len(), 1);
    assert_eq!(state.tag_at(0), "b");
}

#[test]
fn render_commands_without_a_payload_does_nothing() {
    let mut renderers = Renderers::new();
    let (renderer, _) = renderer_create(&mut renderers, Some(Color::rgb(1, 1, 1)), SIZE);
    render_commands(&mut renderers, &renderer, Some(vec![("a".to_string(), vec![alpha(0.1)])]))
        .unwrap();
    assert!(render_commands(&mut renderers, &renderer, None).unwrap().is_none());
    assert_eq!(render_state(&renderers, &renderer).unwrap().len(), 1);
    let frame = render_commands(&mut renderers, &renderer, Some(vec![])).unwrap().unwrap();
    assert_eq!(show(&frame), vec![vec!["clear 1 1 1 255"]]);
    assert_eq!(
        render_commands(&mut renderers, UNKNOWN, None).unwrap_err(),
        renderer_missing(UNKNOWN)
    );
    assert_eq!(
        render_commands(&mut renderers, UNKNOWN, Some(vec![])).unwrap_err(),
        renderer_missing(UNKNOWN)
    );
}

#[test]
fn handles_are_in_the_form_that_is_read_back() {
    let mut renderers = Renderers::new();
    let (renderer, _) = renderer_create(&mut renderers, None, SIZE);
    let (lens, _) = camera_create(&mut renderers, &renderer, None).unwrap();
    let font = add_fontface_resource(&mut renderers, &renderer, "sans", Some(1)).unwrap();
    let image =
        add_image_resource(&mut renderers, &renderer, "logo", Some("pixels".to_string())).unwrap();
    for handle in [renderer.clone(), lens, font] {
        assert_eq!(handle.len(), 36);
        assert_eq!(
            remove_image_resource(&mut renderers, &renderer, &handle),
            Err(Error::ResourceNotFound { handle: handle.clone() })
        );
    }
    assert_eq!(image.len(), 36);
    assert_eq!(remove_image_resource(&mut renderers, &renderer, &image), Ok("pixels".to_string()));
}

#[test]
fn image_that_was_added_comes_back_on_removal() {
    let mut renderers = Renderers::new();
    let (renderer, _) = renderer_create(&mut renderers, None, SIZE);
    let handle =
        add_image_resource(&mut renderers, &renderer, "logo", Some("pixels".to_string())).unwrap();
    assert_eq!(renderers.get(&renderer).unwrap().images().len(), 1);
    assert_eq!(
        remove_image_resource(&mut renderers, &renderer, &handle),
        Ok("pixels".to_string())
    );
    let again = remove_image_resource(&mut renderers, &renderer, &handle).unwrap_err();
    assert_eq!(again, Error::ResourceNotFound { handle: handle.clone() });
    assert_eq!(again.kind(), ErrorKind::NotFound);
    assert_eq!(renderers.get(&renderer).unwrap().images().len(), 0);
}

#[test]
fn fontface_that_was_added_comes_back_on_removal() {
    let mut renderers = Renderers::new();
    let (renderer, _) = renderer_create(&mut renderers, None, SIZE);
    let handle = add_fontface_resource(&mut renderers, &renderer, "sans", Some(12)).unwrap();
    assert_eq!(renderers.get(&renderer).unwrap().fontfaces().len(), 1);
    assert_eq!(remove_fontface_resource(&mut renderers, &renderer, &handle), Ok(12));
    assert_eq!(
        remove_fontface_resource(&mut renderers, &renderer, &handle),
        Err(Error::ResourceNotFound { handle: handle.clone() })
    );
}

#[test]
fn images_and_fontfaces_are_held_apart() {
    let mut renderers = Renderers::new();
    let (renderer, _) = renderer_create(&mut renderers, None, SIZE);
    let image =
        add_image_resource(&mut renderers, &renderer, "logo", Some("pixels".to_string())).unwrap();
    assert_eq!(
        remove_fontface_resource(&mut renderers, &renderer, &image),
        Err(Error::ResourceNotFound { handle: image.clone() })
    );
    assert_eq!(remove_image_resource(&mut renderers, &renderer, &image), Ok("pixels".to_string()));
}

#[test]
fn resource_that_is_none_is_refused() {
    let mut renderers = Renderers::new();
    let (renderer, _) = renderer_create(&mut renderers, None, SIZE);
    let refused = add_image_resource(&mut renderers, &renderer, "logo", None).unwrap_err();
    assert_eq!(refused, Error::InvalidResource);
    assert_eq!(refused.kind(), ErrorKind::InvalidResource);
    assert_eq!(
        add_fontface_resource(&mut renderers, &renderer, "sans", None),
        Err(Error::InvalidResource)
    );
    assert_eq!(
        add_image_resource(&mut renderers, UNKNOWN, "logo", None),
        Err(renderer_missing(UNKNOWN))
    );
    assert_eq!(
        add_fontface_resource(&mut renderers, UNKNOWN, "sans", None),
        Err(renderer_missing(UNKNOWN))
    );
    assert_eq!(renderers.get(&renderer).unwrap().images().len(), 0);
    assert_eq!(renderers.get(&renderer).unwrap().fontfaces().len(), 0);
}

#[test]
fn malformed_resource_handle_is_refused_after_the_renderer_is_looked_up() {
    let mut renderers = Renderers::new();
    let (renderer, _) = renderer_create(&mut renderers, None, SIZE);
    add_image_resource(&mut renderers, &renderer, "logo", Some("pixels".to_string())).unwrap();
    let refused = remove_image_resource(&mut renderers, &renderer, "logo").unwrap_err();
    assert_eq!(refused, Error::MalformedHandle { handle: "logo".to_string() });
    assert_eq!(refused.kind(), ErrorKind::MalformedHandle);
    assert_eq!(
        remove_fontface_resource(&mut renderers, &renderer, "sans"),
        Err(Error::MalformedHandle { handle: "sans".to_string() })
    );
    assert_eq!(
        remove_image_resource(&mut renderers, UNKNOWN, "logo"),
        Err(renderer_missing(UNKNOWN))
    );
    assert_eq!(renderers.get(&renderer).unwrap().images().len(), 1);
}

#[test]
fn operations_on_one_renderer_leave_the_others_alone() {
    let mut renderers = Renderers::new();
    let (first, _) = renderer_create(&mut renderers, Some(Color::rgb(1, 1, 1)), SIZE);
    let (second, _) = renderer_create(&mut renderers, Some(Color::rgb(2, 2, 2)), SIZE);
    camera_create(&mut renderers, &first, None).unwrap();
    render_commands(&mut renderers, &first, Some(vec![("a".to_string(), vec![alpha(0.1)])]))
        .unwrap();
    add_image_resource(&mut renderers, &first, "logo", Some("pixels".to_string())).unwrap();
    renderer_refresh(&mut renderers, &first, false, ViewSize { width: 1, height: 1 }).unwrap();
    let untouched = renderers.get(&second).unwrap();
    assert_eq!(untouched.cameras().len(), 0);
    assert_eq!(untouched.commands().len(), 0);
    assert_eq!(untouched.images().len(), 0);
    assert_eq!(untouched.view_size(), SIZE);
    assert_eq!(untouched.clear_color(), Some(Color::rgb(2, 2, 2)));
}

#[test]
fn registry_insert_replace_and_remove() {
    let mut renderers = Renderers::new();
    renderers.insert("a".to_string(), ignite_composite_renderer::Renderer::new(None));
    renderers.insert(
        "b".to_string(),
        ignite_composite_renderer::Renderer::new(Some(Color::rgb(1, 1, 1))),
    );
    assert_eq!(renderers.len(), 2);
    assert_eq!(renderers.get("b").unwrap().clear_color(), Some(Color::rgb(1, 1, 1)));
    renderers.insert("b".to_string(), ignite_composite_renderer::Renderer::new(None));
    assert_eq!(renderers.len(), 2);
    assert_eq!(renderers.get("b").unwrap().clear_color(), None);
    assert!(renderers.remove("a").is_some());
    assert!(renderers.remove("a").is_none());
    assert!(renderers.get("a").is_none());
    assert_eq!(renderers.len(), 1);
}
