//! A renderer: the cameras, command buckets and resources that belong to
//! one drawing surface, and the frames drawn from them.
//!
//! The renderer does not hold the surface. It is told the size that the
//! surface has, and it returns what the surface is to draw: a frame, whose
//! batches are handed to the surface one by one, in order.

use crate::affine::ViewSize;
use crate::camera::Camera;
use crate::cameras::{
    ascending, caches_fit, configured, lemma_same_settings_configured, same_settings, Cameras,
};
use crate::commands::{applied, none_empty, RenderCommands};
use crate::frame::{compose, frame_of};
use crate::handle::{fresh, is_handle_text};
use crate::instruction::{batches, Instruction};
use crate::resources::{Holdings, Resources};
use crate::table::{distinct, lemma_without, lookup, present};
use oxygengine_composite_renderer::composite_renderer::Command;
use oxygengine_composite_renderer::math::Color;
use vstd::prelude::*;

verus! {

/// What a renderer holds.
pub struct RendererView<I, F> {
    /// The colour that a frame starts with, if any.
    pub clear_color: Option<Color>,
    /// The size of the surface as last observed.
    pub view_size: ViewSize,
    /// The cameras under their handles, in drawing order.
    pub cameras: Seq<(Seq<char>, Camera)>,
    /// The command buckets under their tags.
    pub buckets: Seq<(Seq<char>, Vec<Command<'static>>)>,
    /// The images held.
    pub images: Holdings<I>,
    /// The font faces held.
    pub fontfaces: Holdings<F>,
}

impl<I, F> RendererView<I, F> {
    /// The invariant of a renderer: no camera handle, tag, resource handle
    /// or resource key occurs twice, the cameras stand in drawing order, and
    /// no bucket is empty.
    pub open spec fn wf(self) -> bool {
        &&& distinct(self.cameras)
        &&& ascending(self.cameras)
        &&& distinct(self.buckets)
        &&& none_empty(self.buckets)
        &&& self.images.wf()
        &&& self.fontfaces.wf()
    }

    /// A renderer that was just made: nothing but a clear colour and the
    /// size of its surface.
    pub open spec fn fresh(clear_color: Option<Color>, view_size: ViewSize) -> RendererView<I, F> {
        RendererView {
            clear_color,
            view_size,
            cameras: Seq::empty(),
            buckets: Seq::empty(),
            images: Holdings { names: Seq::empty(), held: Seq::empty() },
            fontfaces: Holdings { names: Seq::empty(), held: Seq::empty() },
        }
    }

    /// The frame that the renderer draws from its cameras as they are.
    pub open spec fn frame(self) -> Seq<Seq<Instruction>> {
        frame_of(self.clear_color, self.cameras, self.buckets)
    }

    /// Whether `after` is this renderer but for its cameras.
    pub open spec fn same_but_cameras(self, after: RendererView<I, F>) -> bool {
        after == (RendererView { cameras: after.cameras, ..self })
    }

    /// Whether `after` is this renderer after a render that returned
    /// `frame`: no handle and no setting has changed, every camera's cache
    /// was filled, and the frame was drawn from the caches.
    pub open spec fn renders_to(
        self,
        after: RendererView<I, F>,
        frame: Seq<Seq<Instruction>>,
    ) -> bool {
        &&& self.same_but_cameras(after)
        &&& same_settings(self.cameras, after.cameras)
        &&& caches_fit(after.cameras)
        &&& frame == after.frame()
    }

    /// Whether `after` is this renderer after a refresh that observed the
    /// given size: the size was noted, and a frame was drawn exactly if the
    /// refresh was forced or the size was new.
    pub open spec fn refreshes_to(
        self,
        after: RendererView<I, F>,
        forced: bool,
        observed: ViewSize,
        frame: Option<Seq<Seq<Instruction>>>,
    ) -> bool {
        &&& frame is Some <==> forced || observed != self.view_size
        &&& after.view_size == observed
        &&& match frame {
            Some(drawn) => (RendererView { view_size: observed, ..self }).renders_to(after, drawn),
            None => after == self,
        }
    }

    /// Whether the camera under a handle has the settings given, or those
    /// of the default camera where none are given: order 0 and no tags.
    pub open spec fn camera_is(self, handle: Seq<char>, camera: Option<Camera>) -> bool {
        &&& configured(self.cameras, handle) is Some
        &&& camera matches Some(given) ==> configured(self.cameras, handle) == Some(
            given.settings(),
        )
        &&& camera is None ==> configured(self.cameras, handle)->0.order == 0 && configured(
            self.cameras,
            handle,
        )->0.tags@.len() == 0
    }

    /// Whether every camera but the one under a handle has in `after` the
    /// settings that it has here, and none has come or gone.
    pub open spec fn same_other_cameras(
        self,
        after: RendererView<I, F>,
        handle: Seq<char>,
    ) -> bool {
        forall|other: Seq<char>|
            other != handle ==> configured(after.cameras, other) == configured(
                self.cameras,
                other,
            )
    }

    /// Whether `after` is this renderer after a camera was put under a
    /// handle and a frame drawn.
    pub open spec fn gains_camera(
        self,
        after: RendererView<I, F>,
        handle: Seq<char>,
        camera: Option<Camera>,
        frame: Seq<Seq<Instruction>>,
    ) -> bool {
        &&& self.same_but_cameras(after)
        &&& after.camera_is(handle, camera)
        &&& self.same_other_cameras(after, handle)
        &&& caches_fit(after.cameras)
        &&& frame == after.frame()
    }

    /// Whether `after` is this renderer after the settings of the camera
    /// under a handle were replaced as a whole and no frame drawn: the
    /// camera has the settings given, and its cache is still the one that
    /// the last render left, whatever cache came with the camera given.
    pub open spec fn resets_camera(
        self,
        after: RendererView<I, F>,
        handle: Seq<char>,
        camera: Option<Camera>,
    ) -> bool {
        &&& self.same_but_cameras(after)
        &&& after.camera_is(handle, camera)
        &&& lookup(after.cameras, handle)->0.same_cache(&lookup(self.cameras, handle)->0)
        &&& forall|other: Seq<char>|
            other != handle ==> lookup(after.cameras, other) == lookup(self.cameras, other)
    }

    /// Whether `after` is this renderer after the camera under a handle was
    /// taken out and a frame drawn.
    pub open spec fn loses_camera(
        self,
        after: RendererView<I, F>,
        handle: Seq<char>,
        frame: Seq<Seq<Instruction>>,
    ) -> bool {
        &&& self.same_but_cameras(after)
        &&& !present(after.cameras, handle)
        &&& self.same_other_cameras(after, handle)
        &&& caches_fit(after.cameras)
        &&& frame == after.frame()
    }

    /// Whether `after` is this renderer after the updates of its buckets
    /// were made in turn and one frame drawn.
    pub open spec fn takes_commands(
        self,
        after: RendererView<I, F>,
        updates: Seq<(String, Vec<Command<'static>>)>,
        frame: Seq<Seq<Instruction>>,
    ) -> bool {
        (RendererView { buckets: applied(self.buckets, updates), ..self }).renders_to(
            after,
            frame,
        )
    }
}

/// The batches of a frame that may not have been drawn.
pub open spec fn maybe_batches(frame: Option<Vec<Vec<Instruction>>>) -> Option<
    Seq<Seq<Instruction>>,
> {
    match frame {
        Some(drawn) => Some(batches(drawn)),
        None => None,
    }
}

/// The cameras, command buckets and resources of one drawing surface.
#[derive(Debug)]
pub struct Renderer<I, F> {
    clear_color: Option<Color>,
    view_size: ViewSize,
    cameras: Cameras,
    commands: RenderCommands,
    images: Resources<I>,
    fontfaces: Resources<F>,
}

impl<I, F> View for Renderer<I, F> {
    type V = RendererView<I, F>;

    closed spec fn view(&self) -> RendererView<I, F> {
        RendererView {
            clear_color: self.clear_color,
            view_size: self.view_size,
            cameras: self.cameras.pairs(),
            buckets: self.commands.buckets(),
            images: self.images@,
            fontfaces: self.fontfaces@,
        }
    }
}

impl<I, F> Renderer<I, F> {
    /// The renderer's invariant.
    pub open spec fn wf(&self) -> bool {
        self@.wf()
    }

    /// A renderer for a surface whose size is yet to be observed: no
    /// cameras, no buckets, no resources.
    pub fn new(clear_color: Option<Color>) -> (r: Self)
        ensures
            r.wf(),
            r@ == RendererView::<I, F>::fresh(clear_color, ViewSize { width: 0, height: 0 }),
    {
        Renderer {
            clear_color,
            view_size: ViewSize { width: 0, height: 0 },
            cameras: Cameras::new(),
            commands: RenderCommands::new(),
            images: Resources::new(),
            fontfaces: Resources::new(),
        }
    }

    /// The colour that a frame starts with, if any.
    pub fn clear_color(&self) -> (r: Option<Color>)
        ensures
            r == self@.clear_color,
    {
        self.clear_color
    }

    /// The size of the surface as last observed.
    pub fn view_size(&self) -> (r: ViewSize)
        ensures
            r == self@.view_size,
    {
        self.view_size
    }

    /// The command buckets.
    pub fn commands(&self) -> (r: &RenderCommands)
        ensures
            r.buckets() == self@.buckets,
    {
        &self.commands
    }

    /// The cameras, in drawing order.
    pub fn cameras(&self) -> (r: &Cameras)
        ensures
            r.pairs() == self@.cameras,
    {
        &self.cameras
    }

    /// The images held.
    pub fn images(&self) -> (r: &Resources<I>)
        ensures
            r@ == self@.images,
    {
        &self.images
    }

    /// The font faces held.
    pub fn fontfaces(&self) -> (r: &Resources<F>)
        ensures
            r@ == self@.fontfaces,
    {
        &self.fontfaces
    }

    /// The images held, to register or remove one.
    pub fn images_mut(&mut self) -> (r: &mut Resources<I>)
        ensures
            r@ == old(self)@.images,
            final(self)@ == (RendererView { images: final(r)@, ..old(self)@ }),
    {
        &mut self.images
    }

    /// The font faces held, to register or remove one.
    pub fn fontfaces_mut(&mut self) -> (r: &mut Resources<F>)
        ensures
            r@ == old(self)@.fontfaces,
            final(self)@ == (RendererView { fontfaces: final(r)@, ..old(self)@ }),
    {
        &mut self.fontfaces
    }

    /// The frame that the cameras draw from their caches as they are.
    pub fn compose(&self) -> (frame: Vec<Vec<Instruction>>)
        requires
            self.wf(),
        ensures
            batches(frame) == self@.frame(),
    {
        compose(self.clear_color, &self.cameras, &self.commands)
    }

    /// Draws a frame: fills every camera's cache for the size of the
    /// surface as last observed, and returns the batches to draw.
    pub fn render(&mut self) -> (frame: Vec<Vec<Instruction>>)
        requires
            old(self).wf(),
        ensures
            final(self).wf(),
            old(self)@.renders_to(final(self)@, batches(frame)),
    {
        self.cameras.refresh_caches(self.view_size);
        self.compose()
    }

    /// Takes note of the size that the surface has now, and draws a frame
    /// if that size is new or if `forced`.
    pub fn refresh(&mut self, forced: bool, observed: ViewSize) -> (r: Option<
        Vec<Vec<Instruction>>,
    >)
        requires
            old(self).wf(),
        ensures
            final(self).wf(),
            old(self)@.refreshes_to(final(self)@, forced, observed, maybe_batches(r)),
    {
        let resized = observed != self.view_size;
        self.view_size = observed;
        if forced || resized {
            Some(self.render())
        } else {
            None
        }
    }

    /// The camera under a handle, if there is one.
    pub fn camera(&self, handle: &str) -> (r: Option<&Camera>)
        requires
            self.wf(),
        ensures
            r is Some <==> present(self@.cameras, handle@),
            r matches Some(camera) ==> lookup(self@.cameras, handle@) == Some(*camera),
    {
        self.cameras.get(handle)
    }

    /// Puts a camera under the handle given, the default camera where none
    /// is given, and draws a frame.
    pub fn insert_camera(&mut self, handle: String, camera: Option<Camera>) -> (frame: Vec<
        Vec<Instruction>,
    >)
        requires
            old(self).wf(),
        ensures
            final(self).wf(),
            old(self)@.gains_camera(final(self)@, handle@, camera, batches(frame)),
    {
        let camera = match camera {
            Some(given) => given,
            None => Camera::default(),
        };
        self.cameras.place(handle, camera);
        proof {
            assert(configured(self@.cameras, handle@) == Some(camera.settings()));
        }
        let ghost placed = self@.cameras;
        let frame = self.render();
        proof {
            lemma_same_settings_configured(placed, self@.cameras);
        }
        frame
    }

    /// Puts a camera under a new handle, the default camera where none is
    /// given, draws a frame, and returns the handle with the frame.
    pub fn create_camera(&mut self, camera: Option<Camera>) -> (r: (String, Vec<Vec<Instruction>>))
        requires
            old(self).wf(),
        ensures
            final(self).wf(),
            is_handle_text(r.0@),
            old(self)@.gains_camera(final(self)@, r.0@, camera, batches(r.1)),
    {
        let handle = fresh();
        let given = handle.clone();
        let frame = self.insert_camera(handle, camera);
        (given, frame)
    }

    /// Replaces the settings of the camera under a handle as a whole, by
    /// those of the default camera where none is given, and tells whether
    /// there was one. No frame is drawn, and the cache stays as the last
    /// render left it: coordinate queries answer as before until the next
    /// render.
    pub fn set_camera(&mut self, handle: &str, camera: Option<Camera>) -> (r: bool)
        requires
            old(self).wf(),
        ensures
            final(self).wf(),
            r == present(old(self)@.cameras, handle@),
            r ==> old(self)@.resets_camera(final(self)@, handle@, camera),
            !r ==> final(self)@ == old(self)@,
    {
        let (world_transform, world_inverse_transform) = match self.cameras.get(handle) {
            Some(found) => (found.world_transform, found.world_inverse_transform),
            None => {
                return false;
            },
        };
        let mut camera = match camera {
            Some(given) => given,
            None => Camera::default(),
        };
        camera.world_transform = world_transform;
        camera.world_inverse_transform = world_inverse_transform;
        self.cameras.place(String::from_str(handle), camera);
        true
    }

    /// Takes the camera under a handle out and draws a frame, if there is
    /// such a camera.
    pub fn destroy_camera(&mut self, handle: &str) -> (r: Option<Vec<Vec<Instruction>>>)
        requires
            old(self).wf(),
        ensures
            final(self).wf(),
            r is Some <==> present(old(self)@.cameras, handle@),
            match r {
                Some(frame) => old(self)@.loses_camera(final(self)@, handle@, batches(frame)),
                None => final(self)@ == old(self)@,
            },
    {
        proof {
            lemma_without(self@.cameras, handle@);
        }
        match self.cameras.remove(handle) {
            Some(_) => {
                let ghost rest = self@.cameras;
                let frame = self.render();
                proof {
                    lemma_same_settings_configured(rest, self@.cameras);
                    assert(!present(self@.cameras, handle@)) by {
                        assert(configured(self@.cameras, handle@) == configured(rest, handle@));
                    }
                }
                Some(frame)
            },
            None => None,
        }
    }

    /// Makes each update of the buckets in turn, then draws one frame for
    /// all of them.
    pub fn set_commands(&mut self, updates: Vec<(String, Vec<Command<'static>>)>) -> (frame: Vec<
        Vec<Instruction>,
    >)
        requires
            old(self).wf(),
        ensures
            final(self).wf(),
            old(self)@.takes_commands(final(self)@, updates@, batches(frame)),
    {
        self.commands.apply(updates);
        self.render()
    }
}

} // verus!
