//! The registry of renderers, and the operations of the compositor.
//!
//! Every operation names the renderer that it is for by its handle, and is
//! refused with [`Error::RendererNotFound`] where the handle stands for
//! none. The operations that change something take the registry by `&mut`,
//! the queries by `&`: whoever shares a registry between callers gives out
//! exclusive access for the former and shared access for the latter.

use crate::affine::{image_of, ViewSize};
use crate::camera::Camera;
use crate::commands::RenderCommands;
use crate::error::{Error, ErrorView};
use crate::frame::clearing;
use crate::handle::{fresh, is_handle_text};
use crate::instruction::{batches, Instruction};
use crate::renderer::{maybe_batches, Renderer, RendererView};
use crate::table::{
    distinct, lemma_put, lemma_slot_is, lemma_without, lookup, present, put, slot, without, Table,
};
use oxygengine_composite_renderer::composite_renderer::Command;
use oxygengine_composite_renderer::math::{Color, Vec2};
use vstd::prelude::*;

verus! {

/// Whether `after` holds the same handles as `before` at the same places,
/// each with the same renderer but for the one under `id`.
pub open spec fn only_changed_at<I, F>(
    before: Seq<(Seq<char>, Renderer<I, F>)>,
    after: Seq<(Seq<char>, Renderer<I, F>)>,
    id: Seq<char>,
) -> bool {
    &&& after.len() == before.len()
    &&& forall|i: int|
        0 <= i < before.len() ==> (#[trigger] after[i]).0 == before[i].0 && (before[i].0 != id
            ==> after[i].1 == before[i].1)
    &&& forall|handle: Seq<char>| present(after, handle) == present(before, handle)
    &&& forall|handle: Seq<char>|
        handle != id ==> lookup(after, handle) == lookup(before, handle)
}

/// Whether every renderer of the entries meets its invariant.
pub open spec fn all_wf<I, F>(pairs: Seq<(Seq<char>, Renderer<I, F>)>) -> bool {
    forall|i: int| 0 <= i < pairs.len() ==> (#[trigger] pairs[i]).1.wf()
}

/// The error for a camera that was not found: the renderer is missing, or
/// else the camera is.
pub open spec fn camera_error(
    renderer_found: bool,
    renderer: Seq<char>,
    camera: Seq<char>,
) -> ErrorView {
    if renderer_found {
        ErrorView::CameraNotFound { renderer, camera }
    } else {
        ErrorView::RendererNotFound { renderer }
    }
}

/// The error for a resource that was not added: the renderer is missing,
/// or else the resource is none.
pub open spec fn adding_error(renderer_found: bool, renderer: Seq<char>) -> ErrorView {
    if renderer_found {
        ErrorView::InvalidResource
    } else {
        ErrorView::RendererNotFound { renderer }
    }
}

/// The error for a resource that was not returned: the renderer is
/// missing; else the text is no handle; else nothing is held under it.
pub open spec fn removal_error(
    renderer_found: bool,
    well_formed: bool,
    renderer: Seq<char>,
    handle: Seq<char>,
) -> ErrorView {
    if !renderer_found {
        ErrorView::RendererNotFound { renderer }
    } else if !well_formed {
        ErrorView::MalformedHandle { handle }
    } else {
        ErrorView::ResourceNotFound { handle }
    }
}

/// Replacing the renderer at a place by one that meets its invariant keeps
/// the registry's invariant and changes nothing under any other handle.
proof fn lemma_replaced<I, F>(
    before: Seq<(Seq<char>, Renderer<I, F>)>,
    at: int,
    renderer: Renderer<I, F>,
)
    requires
        distinct(before),
        all_wf(before),
        0 <= at < before.len(),
        renderer.wf(),
    ensures
        distinct(before.update(at, (before[at].0, renderer))),
        all_wf(before.update(at, (before[at].0, renderer))),
        only_changed_at(before, before.update(at, (before[at].0, renderer)), before[at].0),
        lookup(before.update(at, (before[at].0, renderer)), before[at].0) == Some(renderer),
        lookup(before, before[at].0) == Some(before[at].1),
{
    let after = before.update(at, (before[at].0, renderer));
    assert forall|i: int, j: int| 0 <= i < j < after.len() implies (#[trigger] after[i]).0 != (
    #[trigger] after[j]).0 by {
        assert(before[i].0 != before[j].0);
    }
    assert forall|i: int| 0 <= i < after.len() implies (#[trigger] after[i]).1.wf() by {
        if i != at {
            assert(before[i].1.wf());
        }
    }
    lemma_slot_is(after, before[at].0, at);
    lemma_slot_is(before, before[at].0, at);
    assert forall|handle: Seq<char>| present(after, handle) == present(before, handle) && (handle
        != before[at].0 ==> lookup(after, handle) == lookup(before, handle)) by {
        if present(before, handle) {
            let k = slot(before, handle);
            assert(after[k].0 == handle);
            lemma_slot_is(after, handle, k);
        } else if present(after, handle) {
            let k = slot(after, handle);
            assert(before[k].0 == handle);
        }
    }
}

/// The renderers of a process under their handles.
#[derive(Debug)]
pub struct Registry<I, F> {
    table: Table<Renderer<I, F>>,
}

impl<I, F> Registry<I, F> {
    /// The entries, each a handle and its renderer.
    pub closed spec fn pairs(&self) -> Seq<(Seq<char>, Renderer<I, F>)> {
        self.table.pairs()
    }

    /// The registry's invariant: no handle occurs twice, and every renderer
    /// meets its own invariant.
    pub open spec fn wf(&self) -> bool {
        &&& distinct(self.pairs())
        &&& all_wf(self.pairs())
    }

    /// Whether there is a renderer under the handle.
    pub open spec fn contains(&self, id: Seq<char>) -> bool {
        present(self.pairs(), id)
    }

    /// What the renderer under the handle holds.
    pub open spec fn at(&self, id: Seq<char>) -> RendererView<I, F> {
        lookup(self.pairs(), id)->0@
    }

    /// Whether the renderer under a handle has a camera under another.
    pub open spec fn has_camera(&self, id: Seq<char>, camera: Seq<char>) -> bool {
        self.contains(id) && present(self.at(id).cameras, camera)
    }

    /// The camera of a renderer.
    pub open spec fn camera(&self, id: Seq<char>, camera: Seq<char>) -> Camera {
        lookup(self.at(id).cameras, camera)->0
    }

    /// Whether `after` is this registry but for the renderer under `id`.
    pub open spec fn changes_only(&self, after: &Self, id: Seq<char>) -> bool {
        only_changed_at(self.pairs(), after.pairs(), id)
    }

    /// A registry without renderers.
    pub fn new() -> (r: Self)
        ensures
            r.wf(),
            r.pairs().len() == 0,
    {
        Registry { table: Table::new() }
    }

    /// The number of renderers.
    pub fn len(&self) -> (n: usize)
        ensures
            n == self.pairs().len(),
    {
        self.table.len()
    }

    /// The renderer under a handle, if there is one.
    pub fn get(&self, id: &str) -> (r: Option<&Renderer<I, F>>)
        requires
            self.wf(),
        ensures
            r is Some <==> self.contains(id@),
            r matches Some(renderer) ==> lookup(self.pairs(), id@) == Some(*renderer)
                && renderer.wf(),
    {
        match self.table.position(id) {
            Some(i) => {
                proof {
                    lemma_slot_is(self.pairs(), id@, i as int);
                }
                Some(self.table.value_at(i))
            },
            None => None,
        }
    }

    /// Puts a renderer under a handle, in place of the one that was there
    /// if there was one.
    pub fn insert(&mut self, handle: String, renderer: Renderer<I, F>)
        requires
            old(self).wf(),
            renderer.wf(),
        ensures
            final(self).wf(),
            final(self).pairs() == put(old(self).pairs(), handle@, renderer),
            lookup(final(self).pairs(), handle@) == Some(renderer),
            forall|other: Seq<char>|
                other != handle@ ==> lookup(final(self).pairs(), other) == lookup(
                    old(self).pairs(),
                    other,
                ),
    {
        proof {
            lemma_put(self.pairs(), handle@, renderer);
            let after = put(self.pairs(), handle@, renderer);
            assert forall|i: int| 0 <= i < after.len() implies (#[trigger] after[i]).1.wf() by {
                if i < self.pairs().len() && after[i] == self.pairs()[i] {
                    assert(self.pairs()[i].1.wf());
                }
            }
        }
        self.table.insert(handle, renderer);
    }

    /// Takes the renderer under a handle out, with all that it holds, and
    /// returns it.
    pub fn remove(&mut self, id: &str) -> (r: Option<Renderer<I, F>>)
        requires
            old(self).wf(),
        ensures
            final(self).wf(),
            final(self).pairs() == without(old(self).pairs(), id@),
            r == lookup(old(self).pairs(), id@),
            !final(self).contains(id@),
    {
        proof {
            lemma_without(self.pairs(), id@);
            let after = without(self.pairs(), id@);
            if present(self.pairs(), id@) {
                let at = slot(self.pairs(), id@);
                assert forall|i: int| 0 <= i < after.len() implies (#[trigger] after[i]).1.wf() by {
                    assert(after[i] == self.pairs()[if i < at {
                        i
                    } else {
                        i + 1
                    }]);
                }
            }
        }
        self.table.remove(id)
    }

    /// The place of the renderer under a handle, or the error for a handle
    /// without one.
    fn locate(&self, id: &str) -> (r: Result<usize, Error>)
        requires
            self.wf(),
        ensures
            r is Ok <==> self.contains(id@),
            r matches Ok(i) ==> i < self.pairs().len() && self.pairs()[i as int].0 == id@
                && lookup(self.pairs(), id@) == Some(self.pairs()[i as int].1),
            r matches Err(error) ==> error@ == (ErrorView::RendererNotFound { renderer: id@ }),
    {
        match self.table.position(id) {
            Some(i) => {
                proof {
                    lemma_slot_is(self.pairs(), id@, i as int);
                }
                Ok(i)
            },
            None => Err(Error::renderer_not_found(id)),
        }
    }
}

/// Makes a renderer for a surface of the size observed, draws its first
/// frame, registers it under the handle given, and returns the frame. A
/// renderer that was under the handle is replaced.
pub fn renderer_insert<I, F>(
    renderers: &mut Registry<I, F>,
    handle: String,
    clear_color: Option<Color>,
    observed: ViewSize,
) -> (frame: Vec<Vec<Instruction>>)
    requires
        old(renderers).wf(),
    ensures
        final(renderers).wf(),
        final(renderers).contains(handle@),
        final(renderers).at(handle@) == RendererView::<I, F>::fresh(clear_color, observed),
        forall|other: Seq<char>|
            other != handle@ ==> lookup(final(renderers).pairs(), other) == lookup(
                old(renderers).pairs(),
                other,
            ),
        batches(frame) == clearing(clear_color),
{
    let mut renderer = Renderer::new(clear_color);
    let frame = renderer.refresh(true, observed);
    proof {
        assert(renderer@.cameras =~= Seq::empty());
    }
    renderers.insert(handle, renderer);
    match frame {
        Some(drawn) => drawn,
        None => Vec::new(),
    }
}

/// Makes a renderer for a surface of the size observed, draws its first
/// frame, and returns the renderer's new handle with the frame.
pub fn renderer_create<I, F>(
    renderers: &mut Registry<I, F>,
    clear_color: Option<Color>,
    observed: ViewSize,
) -> (r: (String, Vec<Vec<Instruction>>))
    requires
        old(renderers).wf(),
    ensures
        final(renderers).wf(),
        is_handle_text(r.0@),
        final(renderers).contains(r.0@),
        final(renderers).at(r.0@) == RendererView::<I, F>::fresh(clear_color, observed),
        forall|other: Seq<char>|
            other != r.0@ ==> lookup(final(renderers).pairs(), other) == lookup(
                old(renderers).pairs(),
                other,
            ),
        batches(r.1) == clearing(clear_color),
{
    let handle = fresh();
    let given = handle.clone();
    let frame = renderer_insert(renderers, handle, clear_color, observed);
    (given, frame)
}

/// Destroys the renderer under a handle, with its cameras, buckets and
/// resources. Afterwards the handle stands for nothing.
pub fn renderer_destroy<I, F>(renderers: &mut Registry<I, F>, id: &str) -> (r: Result<(), Error>)
    requires
        old(renderers).wf(),
    ensures
        final(renderers).wf(),
        r is Ok <==> old(renderers).contains(id@),
        final(renderers).pairs() == without(old(renderers).pairs(), id@),
        !final(renderers).contains(id@),
        r matches Err(error) ==> error@ == (ErrorView::RendererNotFound { renderer: id@ }),
{
    match renderers.remove(id) {
        Some(_) => Ok(()),
        None => Err(Error::renderer_not_found(id)),
    }
}

/// Tells a renderer the size that its surface has now, and returns the
/// frame that it drew, if it drew one: it draws if `forced`, or if the size
/// is not the one that it observed last.
pub fn renderer_refresh<I, F>(
    renderers: &mut Registry<I, F>,
    id: &str,
    forced: bool,
    observed: ViewSize,
) -> (r: Result<Option<Vec<Vec<Instruction>>>, Error>)
    requires
        old(renderers).wf(),
    ensures
        final(renderers).wf(),
        r is Ok <==> old(renderers).contains(id@),
        match r {
            Ok(frame) => {
                &&& old(renderers).changes_only(final(renderers), id@)
                &&& old(renderers).at(id@).refreshes_to(
                    final(renderers).at(id@),
                    forced,
                    observed,
                    maybe_batches(frame),
                )
            },
            Err(error) => {
                &&& error@ == (ErrorView::RendererNotFound { renderer: id@ })
                &&& final(renderers).pairs() == old(renderers).pairs()
            },
        },
{
    let at = renderers.locate(id)?;
    let renderer = renderers.table.value_mut(at);
    let frame = renderer.refresh(forced, observed);
    proof {
        lemma_replaced(old(renderers).pairs(), at as int, *renderer);
    }
    Ok(frame)
}

/// Gives a renderer a camera, the default camera where none is given, and
/// returns the camera's new handle with the frame that was drawn.
pub fn camera_create<I, F>(
    renderers: &mut Registry<I, F>,
    renderer: &str,
    camera: Option<Camera>,
) -> (r: Result<(String, Vec<Vec<Instruction>>), Error>)
    requires
        old(renderers).wf(),
    ensures
        final(renderers).wf(),
        r is Ok <==> old(renderers).contains(renderer@),
        match r {
            Ok(made) => {
                &&& is_handle_text(made.0@)
                &&& old(renderers).changes_only(final(renderers), renderer@)
                &&& old(renderers).at(renderer@).gains_camera(
                    final(renderers).at(renderer@),
                    made.0@,
                    camera,
                    batches(made.1),
                )
            },
            Err(error) => {
                &&& error@ == (ErrorView::RendererNotFound { renderer: renderer@ })
                &&& final(renderers).pairs() == old(renderers).pairs()
            },
        },
{
    let at = renderers.locate(renderer)?;
    let found = renderers.table.value_mut(at);
    let made = found.create_camera(camera);
    proof {
        lemma_replaced(old(renderers).pairs(), at as int, *found);
    }
    Ok(made)
}

/// Replaces the settings of a camera of a renderer as a whole, by those of
/// the default camera where none is given. No frame is drawn, and the
/// camera's cache stays as the renderer's last render left it.
pub fn camera_set<I, F>(
    renderers: &mut Registry<I, F>,
    renderer_id: &str,
    id: &str,
    camera: Option<Camera>,
) -> (r: Result<(), Error>)
    requires
        old(renderers).wf(),
    ensures
        final(renderers).wf(),
        r is Ok <==> old(renderers).has_camera(renderer_id@, id@),
        match r {
            Ok(_) => {
                &&& old(renderers).changes_only(final(renderers), renderer_id@)
                &&& old(renderers).at(renderer_id@).resets_camera(
                    final(renderers).at(renderer_id@),
                    id@,
                    camera,
                )
            },
            Err(error) => {
                &&& error@ == camera_error(old(renderers).contains(renderer_id@), renderer_id@, id@)
                &&& final(renderers).pairs() == old(renderers).pairs()
            },
        },
{
    let at = renderers.locate(renderer_id)?;
    if renderers.table.value_at(at).camera(id).is_none() {
        return Err(Error::camera_not_found(renderer_id, id));
    }
    let found = renderers.table.value_mut(at);
    found.set_camera(id, camera);
    proof {
        lemma_replaced(old(renderers).pairs(), at as int, *found);
    }
    Ok(())
}

/// Destroys a camera of a renderer, and returns the frame that was drawn
/// without it.
pub fn camera_destroy<I, F>(renderers: &mut Registry<I, F>, renderer: &str, id: &str) -> (r:
    Result<Vec<Vec<Instruction>>, Error>)
    requires
        old(renderers).wf(),
    ensures
        final(renderers).wf(),
        r is Ok <==> old(renderers).has_camera(renderer@, id@),
        match r {
            Ok(frame) => {
                &&& old(renderers).changes_only(final(renderers), renderer@)
                &&& old(renderers).at(renderer@).loses_camera(
                    final(renderers).at(renderer@),
                    id@,
                    batches(frame),
                )
            },
            Err(error) => {
                &&& error@ == camera_error(old(renderers).contains(renderer@), renderer@, id@)
                &&& final(renderers).pairs() == old(renderers).pairs()
            },
        },
{
    let at = renderers.locate(renderer)?;
    if renderers.table.value_at(at).camera(id).is_none() {
        return Err(Error::camera_not_found(renderer, id));
    }
    let found = renderers.table.value_mut(at);
    let frame = found.destroy_camera(id);
    proof {
        lemma_replaced(old(renderers).pairs(), at as int, *found);
    }
    match frame {
        Some(drawn) => Ok(drawn),
        None => Err(Error::camera_not_found(renderer, id)),
    }
}

/// A camera of a renderer: its settings, and its cache as of the
/// renderer's last render.
pub fn camera_state<'a, I, F>(renderers: &'a Registry<I, F>, renderer_id: &str, id: &str) -> (r:
    Result<&'a Camera, Error>)
    requires
        renderers.wf(),
    ensures
        r is Ok <==> renderers.has_camera(renderer_id@, id@),
        match r {
            Ok(camera) => lookup(renderers.at(renderer_id@).cameras, id@) == Some(*camera),
            Err(error) => error@ == camera_error(
                renderers.contains(renderer_id@),
                renderer_id@,
                id@,
            ),
        },
{
    match renderers.get(renderer_id) {
        Some(renderer) => match renderer.camera(id) {
            Some(camera) => Ok(camera),
            None => Err(Error::camera_not_found(renderer_id, id)),
        },
        None => Err(Error::renderer_not_found(renderer_id)),
    }
}

/// The world point that a camera's cache puts under a point of the screen.
/// No frame is drawn: the answer is as of the renderer's last render.
pub fn camera_screen_to_world_space<I, F>(
    renderers: &Registry<I, F>,
    renderer_id: &str,
    id: &str,
    point: Vec2,
) -> (r: Result<Vec2, Error>)
    requires
        renderers.wf(),
    ensures
        r is Ok <==> renderers.has_camera(renderer_id@, id@),
        match r {
            Ok(world) => world == image_of(
                renderers.camera(renderer_id@, id@).world_inverse_transform,
                point,
            ),
            Err(error) => error@ == camera_error(
                renderers.contains(renderer_id@),
                renderer_id@,
                id@,
            ),
        },
{
    let camera = camera_state(renderers, renderer_id, id)?;
    Ok(camera.screen_to_world_space(point))
}

/// The screen point at which a camera's cache puts a point of the world.
/// No frame is drawn: the answer is as of the renderer's last render.
pub fn camera_world_to_screen_space<I, F>(
    renderers: &Registry<I, F>,
    renderer_id: &str,
    id: &str,
    point: Vec2,
) -> (r: Result<Vec2, Error>)
    requires
        renderers.wf(),
    ensures
        r is Ok <==> renderers.has_camera(renderer_id@, id@),
        match r {
            Ok(screen) => screen == image_of(
                renderers.camera(renderer_id@, id@).world_transform,
                point,
            ),
            Err(error) => error@ == camera_error(
                renderers.contains(renderer_id@),
                renderer_id@,
                id@,
            ),
        },
{
    let camera = camera_state(renderers, renderer_id, id)?;
    Ok(camera.world_to_screen_space(point))
}

/// Makes each update of a renderer's buckets in turn and returns the one
/// frame drawn for all of them. Where no updates are given, nothing is
/// changed or drawn.
pub fn render_commands<I, F>(
    renderers: &mut Registry<I, F>,
    renderer: &str,
    commands: Option<Vec<(String, Vec<Command<'static>>)>>,
) -> (r: Result<Option<Vec<Vec<Instruction>>>, Error>)
    requires
        old(renderers).wf(),
    ensures
        final(renderers).wf(),
        r is Ok <==> old(renderers).contains(renderer@),
        match r {
            Ok(None) => {
                &&& commands is None
                &&& final(renderers).pairs() == old(renderers).pairs()
            },
            Ok(Some(frame)) => {
                &&& commands is Some
                &&& old(renderers).changes_only(final(renderers), renderer@)
                &&& old(renderers).at(renderer@).takes_commands(
                    final(renderers).at(renderer@),
                    commands->0@,
                    batches(frame),
                )
            },
            Err(error) => {
                &&& error@ == (ErrorView::RendererNotFound { renderer: renderer@ })
                &&& final(renderers).pairs() == old(renderers).pairs()
            },
        },
{
    let at = renderers.locate(renderer)?;
    match commands {
        None => Ok(None),
        Some(updates) => {
            let found = renderers.table.value_mut(at);
            let frame = found.set_commands(updates);
            proof {
                lemma_replaced(old(renderers).pairs(), at as int, *found);
            }
            Ok(Some(frame))
        },
    }
}

/// The buckets of a renderer.
pub fn render_state<'a, I, F>(renderers: &'a Registry<I, F>, renderer: &str) -> (r: Result<
    &'a RenderCommands,
    Error,
>)
    requires
        renderers.wf(),
    ensures
        r is Ok <==> renderers.contains(renderer@),
        match r {
            Ok(commands) => {
                &&& commands.buckets() == renderers.at(renderer@).buckets
                &&& commands.wf()
            },
            Err(error) => error@ == (ErrorView::RendererNotFound { renderer: renderer@ }),
        },
{
    match renderers.get(renderer) {
        Some(found) => Ok(found.commands()),
        None => Err(Error::renderer_not_found(renderer)),
    }
}

/// Registers an image with a renderer under a key and returns the handle
/// by which it is addressed from then on. An image that is none is
/// refused.
pub fn add_image_resource<I, F>(
    renderers: &mut Registry<I, F>,
    renderer: &str,
    id: &str,
    resource: Option<I>,
) -> (r: Result<String, Error>)
    requires
        old(renderers).wf(),
    ensures
        final(renderers).wf(),
        r is Ok <==> resource is Some && old(renderers).contains(renderer@),
        match r {
            Ok(handle) => {
                &&& is_handle_text(handle@)
                &&& old(renderers).changes_only(final(renderers), renderer@)
                &&& final(renderers).at(renderer@) == (RendererView {
                    images: old(renderers).at(renderer@).images.add(handle@, id@, resource->0),
                    ..old(renderers).at(renderer@)
                })
            },
            Err(error) => {
                &&& error@ == adding_error(old(renderers).contains(renderer@), renderer@)
                &&& final(renderers).pairs() == old(renderers).pairs()
            },
        },
{
    let at = renderers.locate(renderer)?;
    if resource.is_none() {
        return Err(Error::InvalidResource);
    }
    let found = renderers.table.value_mut(at);
    let images = found.images_mut();
    let added = images.add(String::from_str(id), resource);
    proof {
        lemma_replaced(old(renderers).pairs(), at as int, *found);
    }
    added
}

/// Removes an image from a renderer and returns it to the caller. Text
/// that is not in the form of a handle is refused; a handle under which
/// the renderer holds no image is not found.
pub fn remove_image_resource<I, F>(
    renderers: &mut Registry<I, F>,
    renderer_id: &str,
    id: &str,
) -> (r: Result<I, Error>)
    requires
        old(renderers).wf(),
    ensures
        final(renderers).wf(),
        r is Ok <==> old(renderers).contains(renderer_id@) && is_handle_text(id@) && old(
            renderers
        ).at(renderer_id@).images.taken(id@) is Some,
        r matches Ok(resource) ==> old(renderers).at(renderer_id@).images.taken(id@) == Some(
            resource,
        ),
        r matches Err(error) ==> error@ == removal_error(
            old(renderers).contains(renderer_id@),
            is_handle_text(id@),
            renderer_id@,
            id@,
        ),
        old(renderers).contains(renderer_id@) ==> {
            &&& old(renderers).changes_only(final(renderers), renderer_id@)
            &&& final(renderers).at(renderer_id@) == (RendererView {
                images: if is_handle_text(id@) {
                    old(renderers).at(renderer_id@).images.remove(id@)
                } else {
                    old(renderers).at(renderer_id@).images
                },
                ..old(renderers).at(renderer_id@)
            })
        },
        !old(renderers).contains(renderer_id@) ==> final(renderers).pairs() == old(
            renderers
        ).pairs(),
{
    let at = renderers.locate(renderer_id)?;
    let found = renderers.table.value_mut(at);
    let images = found.images_mut();
    let removed = images.remove(id);
    proof {
        lemma_replaced(old(renderers).pairs(), at as int, *found);
    }
    removed
}

/// Registers a font face with a renderer under a key and returns the
/// handle by which it is addressed from then on. A font face that is none
/// is refused.
pub fn add_fontface_resource<I, F>(
    renderers: &mut Registry<I, F>,
    renderer: &str,
    id: &str,
    resource: Option<F>,
) -> (r: Result<String, Error>)
    requires
        old(renderers).wf(),
    ensures
        final(renderers).wf(),
        r is Ok <==> resource is Some && old(renderers).contains(renderer@),
        match r {
            Ok(handle) => {
                &&& is_handle_text(handle@)
                &&& old(renderers).changes_only(final(renderers), renderer@)
                &&& final(renderers).at(renderer@) == (RendererView {
                    fontfaces: old(renderers).at(renderer@).fontfaces.add(
                        handle@,
                        id@,
                        resource->0,
                    ),
                    ..old(renderers).at(renderer@)
                })
            },
            Err(error) => {
                &&& error@ == adding_error(old(renderers).contains(renderer@), renderer@)
                &&& final(renderers).pairs() == old(renderers).pairs()
            },
        },
{
    let at = renderers.locate(renderer)?;
    if resource.is_none() {
        return Err(Error::InvalidResource);
    }
    let found = renderers.table.value_mut(at);
    let fontfaces = found.fontfaces_mut();
    let added = fontfaces.add(String::from_str(id), resource);
    proof {
        lemma_replaced(old(renderers).pairs(), at as int, *found);
    }
    added
}

/// Removes a font face from a renderer and returns it to the caller. Text
/// that is not in the form of a handle is refused; a handle under which
/// the renderer holds no font face is not found.
pub fn remove_fontface_resource<I, F>(
    renderers: &mut Registry<I, F>,
    renderer_id: &str,
    id: &str,
) -> (r: Result<F, Error>)
    requires
        old(renderers).wf(),
    ensures
        final(renderers).wf(),
        r is Ok <==> old(renderers).contains(renderer_id@) && is_handle_text(id@) && old(
            renderers
        ).at(renderer_id@).fontfaces.taken(id@) is Some,
        r matches Ok(resource) ==> old(renderers).at(renderer_id@).fontfaces.taken(id@) == Some(
            resource,
        ),
        r matches Err(error) ==> error@ == removal_error(
            old(renderers).contains(renderer_id@),
            is_handle_text(id@),
            renderer_id@,
            id@,
        ),
        old(renderers).contains(renderer_id@) ==> {
            &&& old(renderers).changes_only(final(renderers), renderer_id@)
            &&& final(renderers).at(renderer_id@) == (RendererView {
                fontfaces: if is_handle_text(id@) {
                    old(renderers).at(renderer_id@).fontfaces.remove(id@)
                } else {
                    old(renderers).at(renderer_id@).fontfaces
                },
                ..old(renderers).at(renderer_id@)
            })
        },
        !old(renderers).contains(renderer_id@) ==> final(renderers).pairs() == old(
            renderers
        ).pairs(),
{
    let at = renderers.locate(renderer_id)?;
    let found = renderers.table.value_mut(at);
    let fontfaces = found.fontfaces_mut();
    let removed = fontfaces.remove(id);
    proof {
        lemma_replaced(old(renderers).pairs(), at as int, *found);
    }
    removed
}

} // verus!
