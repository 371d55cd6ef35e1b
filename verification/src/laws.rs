//! What holds of the compositor whatever it is asked to do, stated over the
//! models that the operations' contracts speak of.

use crate::affine::{image_of, ViewSize};
use crate::camera::Camera;
use crate::cameras::{configured, draws_before, lemma_drawing_order_unique, same_settings};
use crate::commands::{applied, flatten, lemma_assign, none_empty};
use crate::error::ErrorView;
use crate::frame::{camera_layers, cameras_layers, clearing, tagged_layers};
use crate::handle::is_handle_text;
use crate::instruction::{layer, Instruction};
use crate::registry::{adding_error, camera_error, removal_error, Registry};
use crate::renderer::RendererView;
use crate::resources::Holdings;
use crate::table::{distinct, lemma_put, lemma_without, lookup, present, without};
use crate::text::precedes;
use oxygengine_composite_renderer::composite_renderer::Command;
use oxygengine_composite_renderer::math::{Color, Mat2d, Vec2};
use vstd::prelude::*;

verus! {

/// A refresh of a renderer that was just made, for a surface first seen at
/// the size `initial`, draws a frame exactly if it is forced or observes
/// another size. The frame is the clear alone, and the renderer is as
/// it was made but for the size.
pub proof fn lemma_refresh_after_create<I, F>(
    clear_color: Option<Color>,
    initial: ViewSize,
    forced: bool,
    observed: ViewSize,
    after: RendererView<I, F>,
    frame: Option<Seq<Seq<Instruction>>>,
)
    requires
        RendererView::<I, F>::fresh(clear_color, initial).refreshes_to(
            after,
            forced,
            observed,
            frame,
        ),
    ensures
        frame is Some <==> forced || observed != initial,
        frame is Some ==> frame->0 == clearing(clear_color),
        after == RendererView::<I, F>::fresh(clear_color, observed),
{
    assert(after.cameras =~= Seq::empty());
    if frame is Some {
        assert(frame->0 =~= clearing(clear_color));
    }
}

/// The cameras of a renderer stand in ascending order: strictly so where
/// their orders differ, and in the order of their handles where not.
pub proof fn lemma_cameras_draw_in_order<I, F>(renderer: RendererView<I, F>, i: int, j: int)
    requires
        renderer.wf(),
        0 <= i < j < renderer.cameras.len(),
    ensures
        renderer.cameras[i].1.order <= renderer.cameras[j].1.order,
        renderer.cameras[i].1.order != renderer.cameras[j].1.order
            ==> renderer.cameras[i].1.order < renderer.cameras[j].1.order,
        renderer.cameras[i].1.order == renderer.cameras[j].1.order ==> precedes(
            renderer.cameras[i].0,
            renderer.cameras[j].0,
        ),
{
    assert(draws_before(renderer.cameras[i], renderer.cameras[j]));
}

/// The batches of the cameras are the batches of any first few of them,
/// followed by the batches of the others.
pub proof fn lemma_layers_split(
    cameras: Seq<(Seq<char>, Camera)>,
    buckets: Seq<(Seq<char>, Vec<Command<'static>>)>,
    k: int,
)
    requires
        0 <= k <= cameras.len(),
    ensures
        cameras_layers(cameras, buckets) == cameras_layers(cameras.take(k), buckets)
            + cameras_layers(cameras.skip(k), buckets),
    decreases cameras.len() - k,
{
    if k == cameras.len() {
        assert(cameras.take(k) =~= cameras);
        assert(cameras.skip(k) =~= Seq::empty());
        assert(cameras_layers(cameras, buckets) =~= cameras_layers(cameras, buckets)
            + Seq::<Seq<Instruction>>::empty());
    } else {
        let front = cameras.drop_last();
        lemma_layers_split(front, buckets, k);
        assert(front.take(k) =~= cameras.take(k));
        assert(cameras.skip(k).drop_last() =~= front.skip(k));
        assert(cameras.skip(k).last() == cameras.last());
        assert(cameras_layers(cameras, buckets) =~= cameras_layers(cameras.take(k), buckets)
            + cameras_layers(cameras.skip(k), buckets));
    }
}

/// In a frame, after the clear, every batch of a camera comes before every
/// batch of the cameras that draw after it.
pub proof fn lemma_frame_in_camera_order<I, F>(renderer: RendererView<I, F>, k: int)
    requires
        0 <= k <= renderer.cameras.len(),
    ensures
        renderer.frame() == clearing(renderer.clear_color) + cameras_layers(
            renderer.cameras.take(k),
            renderer.buckets,
        ) + cameras_layers(renderer.cameras.skip(k), renderer.buckets),
{
    lemma_layers_split(renderer.cameras, renderer.buckets, k);
    assert(renderer.frame() =~= clearing(renderer.clear_color) + cameras_layers(
        renderer.cameras.take(k),
        renderer.buckets,
    ) + cameras_layers(renderer.cameras.skip(k), renderer.buckets));
}

/// Two renderers that have the same handles with the same settings draw
/// their cameras in the same order, however each came to hold them.
pub proof fn lemma_same_cameras_same_order<I, F>(a: RendererView<I, F>, b: RendererView<I, F>)
    requires
        a.wf(),
        b.wf(),
        forall|handle: Seq<char>|
            configured(a.cameras, handle) == configured(b.cameras, handle),
    ensures
        same_settings(a.cameras, b.cameras),
{
    lemma_drawing_order_unique(a.cameras, b.cameras);
}

/// A camera without tags draws one batch, which holds the commands of
/// every bucket.
pub proof fn lemma_untagged_camera_draws_all(
    camera: Camera,
    buckets: Seq<(Seq<char>, Vec<Command<'static>>)>,
)
    requires
        camera.tags@.len() == 0,
    ensures
        camera_layers(camera, buckets) == seq![layer(camera.world_transform, flatten(buckets))],
{
}

/// A camera with tags draws exactly the buckets of those of its tags that
/// have one, one batch each, in the order of its tags.
pub proof fn lemma_tagged_camera_draws_named(
    transform: Mat2d,
    tags: Seq<Seq<char>>,
    buckets: Seq<(Seq<char>, Vec<Command<'static>>)>,
)
    ensures
        tagged_layers(transform, tags, buckets) == tags.filter(
            |tag: Seq<char>| present(buckets, tag),
        ).map_values(|tag: Seq<char>| layer(transform, lookup(buckets, tag)->0@)),
    decreases tags.len(),
{
    reveal(Seq::filter);
    let named = |tag: Seq<char>| present(buckets, tag);
    let drawn = |tag: Seq<char>| layer(transform, lookup(buckets, tag)->0@);
    if tags.len() > 0 {
        lemma_tagged_camera_draws_named(transform, tags.drop_last(), buckets);
        assert(tagged_layers(transform, tags, buckets) =~= tags.filter(named).map_values(drawn));
    } else {
        assert(tagged_layers(transform, tags, buckets) =~= tags.filter(named).map_values(drawn));
    }
}

/// Updates keep the invariant of the buckets.
pub proof fn lemma_applied_wf(
    buckets: Seq<(Seq<char>, Vec<Command<'static>>)>,
    updates: Seq<(String, Vec<Command<'static>>)>,
)
    requires
        distinct(buckets),
        none_empty(buckets),
    ensures
        distinct(applied(buckets, updates)),
        none_empty(applied(buckets, updates)),
    decreases updates.len(),
{
    if updates.len() > 0 {
        lemma_applied_wf(buckets, updates.drop_last());
        lemma_assign(
            applied(buckets, updates.drop_last()),
            updates.last().0@,
            updates.last().1,
        );
    }
}

/// After updates of which the last gives a tag no commands, the tag has no
/// bucket; after updates of which the last gives it some, it holds those.
pub proof fn lemma_last_update_decides(
    buckets: Seq<(Seq<char>, Vec<Command<'static>>)>,
    updates: Seq<(String, Vec<Command<'static>>)>,
)
    requires
        distinct(buckets),
        none_empty(buckets),
        updates.len() > 0,
    ensures
        updates.last().1@.len() == 0 ==> !present(applied(buckets, updates), updates.last().0@),
        updates.last().1@.len() > 0 ==> lookup(applied(buckets, updates), updates.last().0@)
            == Some(updates.last().1),
{
    lemma_applied_wf(buckets, updates.drop_last());
    lemma_assign(applied(buckets, updates.drop_last()), updates.last().0@, updates.last().1);
}

/// A resource that was registered comes back when its handle is removed,
/// and removing the handle once more finds nothing.
pub proof fn lemma_add_then_remove<R>(
    h: Holdings<R>,
    handle: Seq<char>,
    key: Seq<char>,
    resource: R,
)
    requires
        h.wf(),
    ensures
        h.add(handle, key, resource).taken(handle) == Some(resource),
        h.add(handle, key, resource).remove(handle).taken(handle) is None,
        !present(h.add(handle, key, resource).remove(handle).names, handle),
{
    lemma_put(h.names, handle, key);
    lemma_put(h.held, key, resource);
    let added = h.add(handle, key, resource);
    lemma_without(added.names, handle);
}

/// A resource that was registered with a renderer under a handle that reads
/// as one is returned when the handle is removed, and a second removal is
/// refused because nothing is held under the handle.
pub proof fn lemma_registered_resource_comes_back_once<R>(
    h: Holdings<R>,
    renderer: Seq<char>,
    handle: Seq<char>,
    key: Seq<char>,
    resource: R,
)
    requires
        h.wf(),
        is_handle_text(handle),
    ensures
        is_handle_text(handle) && h.add(handle, key, resource).taken(handle) == Some(resource),
        h.add(handle, key, resource).remove(handle).taken(handle) is None,
        removal_error(true, is_handle_text(handle), renderer, handle) == (
        ErrorView::ResourceNotFound { handle }),
{
    lemma_add_then_remove(h, handle, key, resource);
}

/// Replacing the settings of a camera leaves its answers to coordinate
/// queries as they were: they come from the cache, and the cache stays as
/// the last render left it until the next one.
pub proof fn lemma_set_camera_keeps_answers<I, F>(
    before: RendererView<I, F>,
    after: RendererView<I, F>,
    handle: Seq<char>,
    camera: Option<Camera>,
    point: Vec2,
)
    requires
        before.resets_camera(after, handle, camera),
    ensures
        image_of(lookup(after.cameras, handle)->0.world_transform, point) == image_of(
            lookup(before.cameras, handle)->0.world_transform,
            point,
        ),
        image_of(lookup(after.cameras, handle)->0.world_inverse_transform, point) == image_of(
            lookup(before.cameras, handle)->0.world_inverse_transform,
            point,
        ),
{
}

/// After a renderer was destroyed its handle stands for nothing and none
/// of its cameras is left, so that every operation that names it or one of
/// its cameras is refused for want of the renderer; every other handle
/// stands for what it stood for.
pub proof fn lemma_destroyed_renderer_is_gone<I, F>(
    before: Registry<I, F>,
    after: Registry<I, F>,
    id: Seq<char>,
)
    requires
        before.wf(),
        after.pairs() == without(before.pairs(), id),
    ensures
        !after.contains(id),
        forall|camera: Seq<char>| !after.has_camera(id, camera),
        forall|camera: Seq<char>|
            camera_error(after.contains(id), id, camera) == (ErrorView::RendererNotFound {
                renderer: id,
            }),
        forall|handle: Seq<char>, well_formed: bool|
            removal_error(after.contains(id), well_formed, id, handle) == (
            ErrorView::RendererNotFound { renderer: id }),
        adding_error(after.contains(id), id) == (ErrorView::RendererNotFound { renderer: id }),
        forall|other: Seq<char>|
            other != id ==> after.contains(other) == before.contains(other) && lookup(
                after.pairs(),
                other,
            ) == lookup(before.pairs(), other),
{
    lemma_without(before.pairs(), id);
}

} // verus!
