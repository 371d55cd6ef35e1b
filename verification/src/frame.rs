//! The frame that a renderer draws: which batches, in which order.
//!
//! A frame starts with a clear of the whole viewport where the renderer has
//! a clear colour. Then each camera draws, in drawing order, under its
//! cached view matrix. A camera without tags draws every bucket in one
//! batch. A camera with tags draws one batch for each of its tags that has a
//! bucket, in the order of its tags; a bucket that no camera names is not
//! drawn.

use crate::camera::Camera;
use crate::cameras::Cameras;
use crate::commands::{flatten, RenderCommands};
use crate::instruction::{batches, layer, make_layer, Instruction};
use crate::table::lookup;
use oxygengine_composite_renderer::composite_renderer::Command;
use oxygengine_composite_renderer::math::{Color, Mat2d};
use vstd::prelude::*;

verus! {

/// The batches of the tags that have a bucket, in the order of the tags.
pub open spec fn tagged_layers(
    transform: Mat2d,
    tags: Seq<Seq<char>>,
    buckets: Seq<(Seq<char>, Vec<Command<'static>>)>,
) -> Seq<Seq<Instruction>>
    decreases tags.len(),
{
    if tags.len() == 0 {
        Seq::empty()
    } else {
        let earlier = tagged_layers(transform, tags.drop_last(), buckets);
        match lookup(buckets, tags.last()) {
            Some(commands) => earlier.push(layer(transform, commands@)),
            None => earlier,
        }
    }
}

/// The batches of one camera.
pub open spec fn camera_layers(
    camera: Camera,
    buckets: Seq<(Seq<char>, Vec<Command<'static>>)>,
) -> Seq<Seq<Instruction>> {
    if camera.tags@.len() == 0 {
        seq![layer(camera.world_transform, flatten(buckets))]
    } else {
        tagged_layers(camera.world_transform, camera.tag_names(), buckets)
    }
}

/// The batches of the cameras, one camera after another.
pub open spec fn cameras_layers(
    cameras: Seq<(Seq<char>, Camera)>,
    buckets: Seq<(Seq<char>, Vec<Command<'static>>)>,
) -> Seq<Seq<Instruction>>
    decreases cameras.len(),
{
    if cameras.len() == 0 {
        Seq::empty()
    } else {
        cameras_layers(cameras.drop_last(), buckets) + camera_layers(cameras.last().1, buckets)
    }
}

/// The batch that clears the viewport, where there is a clear colour.
pub open spec fn clearing(clear_color: Option<Color>) -> Seq<Seq<Instruction>> {
    match clear_color {
        Some(color) => seq![seq![Instruction::Clear(color)]],
        None => Seq::empty(),
    }
}

/// The whole frame: the clear, then the cameras' batches.
pub open spec fn frame_of(
    clear_color: Option<Color>,
    cameras: Seq<(Seq<char>, Camera)>,
    buckets: Seq<(Seq<char>, Vec<Command<'static>>)>,
) -> Seq<Seq<Instruction>> {
    clearing(clear_color) + cameras_layers(cameras, buckets)
}

/// Whether a frame counts as drawn, given for each of its batches whether
/// the surface took it: a frame without batches does, and so does one of
/// which at least one batch was taken. A batch that the surface refused is
/// skipped; it does not stop the ones after it.
pub open spec fn frame_issued(taken: Seq<bool>) -> bool {
    taken.len() == 0 || exists|i: int| 0 <= i < taken.len() && taken[i]
}

/// Tells whether a frame counts as drawn, given for each of its batches
/// whether the surface took it.
pub fn issued(taken: &Vec<bool>) -> (r: bool)
    ensures
        r == frame_issued(taken@),
{
    if taken.len() == 0 {
        return true;
    }
    let mut i: usize = 0;
    while i < taken.len()
        invariant
            i <= taken.len(),
            forall|k: int| 0 <= k < i ==> !taken@[k],
        decreases taken.len() - i,
    {
        if taken[i] {
            return true;
        }
        i += 1;
    }
    false
}

/// Adds one camera's batches to a frame.
pub fn push_camera_layers(
    frame: &mut Vec<Vec<Instruction>>,
    camera: &Camera,
    commands: &RenderCommands,
)
    requires
        commands.wf(),
    ensures
        batches(*final(frame)) == batches(*old(frame)) + camera_layers(
            *camera,
            commands.buckets(),
        ),
{
    let ghost before = batches(*frame);
    if camera.tags.len() == 0 {
        let all = commands.flattened();
        frame.push(make_layer(camera.world_transform, &all));
        assert(batches(*frame) =~= before + camera_layers(*camera, commands.buckets()));
    } else {
        let mut i: usize = 0;
        while i < camera.tags.len()
            invariant
                commands.wf(),
                i <= camera.tags@.len(),
                batches(*frame) == before + tagged_layers(
                    camera.world_transform,
                    camera.tag_names().take(i as int),
                    commands.buckets(),
                ),
            decreases camera.tags@.len() - i,
        {
            let ghost so_far = batches(*frame);
            let ghost upto = camera.tag_names().take(i + 1);
            proof {
                assert(upto.drop_last() =~= camera.tag_names().take(i as int));
                assert(upto.last() == camera.tags@[i as int]@);
            }
            match commands.get(camera.tags[i].as_str()) {
                Some(bucket) => {
                    frame.push(make_layer(camera.world_transform, bucket));
                    assert(batches(*frame) =~= so_far.push(
                        layer(camera.world_transform, bucket@),
                    ));
                },
                None => {},
            }
            assert(batches(*frame) =~= before + tagged_layers(
                camera.world_transform,
                upto,
                commands.buckets(),
            ));
            i += 1;
        }
        proof {
            assert(camera.tag_names().take(i as int) =~= camera.tag_names());
        }
    }
}

/// Builds the frame of a renderer with the given clear colour, cameras and
/// buckets.
pub fn compose(clear_color: Option<Color>, cameras: &Cameras, commands: &RenderCommands) -> (frame:
    Vec<Vec<Instruction>>)
    requires
        commands.wf(),
    ensures
        batches(frame) == frame_of(clear_color, cameras.pairs(), commands.buckets()),
{
    let mut frame: Vec<Vec<Instruction>> = Vec::new();
    match clear_color {
        Some(color) => {
            let mut batch: Vec<Instruction> = Vec::new();
            batch.push(Instruction::Clear(color));
            assert(batch@ =~= seq![Instruction::Clear(color)]);
            frame.push(batch);
        },
        None => {},
    }
    assert(batches(frame) =~= clearing(clear_color));
    let mut i: usize = 0;
    while i < cameras.len()
        invariant
            commands.wf(),
            i <= cameras.pairs().len(),
            batches(frame) == clearing(clear_color) + cameras_layers(
                cameras.pairs().take(i as int),
                commands.buckets(),
            ),
        decreases cameras.pairs().len() - i,
    {
        proof {
            let upto = cameras.pairs().take(i + 1);
            assert(upto.drop_last() =~= cameras.pairs().take(i as int));
            assert(upto.last() == cameras.pairs()[i as int]);
        }
        push_camera_layers(&mut frame, cameras.camera_at(i), commands);
        assert(batches(frame) =~= clearing(clear_color) + cameras_layers(
            cameras.pairs().take(i + 1),
            commands.buckets(),
        ));
        i += 1;
    }
    proof {
        assert(cameras.pairs().take(i as int) =~= cameras.pairs());
    }
    frame
}

} // verus!
