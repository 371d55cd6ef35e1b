//! The errors that the compositor reports.

use vstd::prelude::*;

verus! {

/// The kind of access to the registry that a caller asked for.
#[derive(Clone, Copy, Debug, PartialEq, Eq, Structural)]
pub enum Access {
    /// Shared access, for queries.
    Read,
    /// Exclusive access, for changes.
    Write,
}

/// The broad kinds of failure.
#[derive(Clone, Copy, Debug, PartialEq, Eq, Structural)]
pub enum ErrorKind {
    /// A handle names no renderer, camera or resource.
    NotFound,
    /// Access to the registry could not be had.
    LockUnavailable,
    /// A resource that is no resource was offered.
    InvalidResource,
    /// A resource handle is not in the form of a handle.
    MalformedHandle,
    /// A payload does not have the expected shape.
    Decode,
}

/// A failed operation.
#[derive(Debug, PartialEq, Eq)]
pub enum Error {
    /// No renderer goes by this handle.
    RendererNotFound { renderer: String },
    /// The renderer has no camera by this handle.
    CameraNotFound { renderer: String, camera: String },
    /// The renderer holds no resource under this handle.
    ResourceNotFound { handle: String },
    /// The registry could not be had for this kind of access.
    LockUnavailable { access: Access },
    /// The resource offered is null or undefined.
    InvalidResource,
    /// The text is not in the form of a resource handle.
    MalformedHandle { handle: String },
    /// The payload could not be decoded.
    Decode { details: String },
}

/// An [`Error`] with its strings as character sequences.
pub enum ErrorView {
    /// No renderer goes by this handle.
    RendererNotFound { renderer: Seq<char> },
    /// The renderer has no camera by this handle.
    CameraNotFound { renderer: Seq<char>, camera: Seq<char> },
    /// The renderer holds no resource under this handle.
    ResourceNotFound { handle: Seq<char> },
    /// The registry could not be had for this kind of access.
    LockUnavailable { access: Access },
    /// The resource offered is null or undefined.
    InvalidResource,
    /// The text is not in the form of a resource handle.
    MalformedHandle { handle: Seq<char> },
    /// The payload could not be decoded.
    Decode { details: Seq<char> },
}

impl ErrorView {
    /// The kind of failure.
    pub open spec fn kind(self) -> ErrorKind {
        match self {
            ErrorView::RendererNotFound { .. } => ErrorKind::NotFound,
            ErrorView::CameraNotFound { .. } => ErrorKind::NotFound,
            ErrorView::ResourceNotFound { .. } => ErrorKind::NotFound,
            ErrorView::LockUnavailable { .. } => ErrorKind::LockUnavailable,
            ErrorView::InvalidResource => ErrorKind::InvalidResource,
            ErrorView::MalformedHandle { .. } => ErrorKind::MalformedHandle,
            ErrorView::Decode { .. } => ErrorKind::Decode,
        }
    }

    /// The message for the caller. One for a handle that was not found ends
    /// in that handle.
    pub open spec fn message(self) -> Seq<char> {
        match self {
            ErrorView::RendererNotFound { renderer } => "Renderer does not exists: "@ + renderer,
            ErrorView::CameraNotFound { renderer, camera } => "Renderer "@ + renderer
                + " does not have camera: "@ + camera,
            ErrorView::ResourceNotFound { handle } => "Resource does not exists: "@ + handle,
            ErrorView::LockUnavailable { access: Access::Read } =>
                "Could not acquire a read access to renderers"@,
            ErrorView::LockUnavailable { access: Access::Write } =>
                "Could not acquire a write access to renderers"@,
            ErrorView::InvalidResource => "Resource cannot be null!"@,
            ErrorView::MalformedHandle { handle } => handle,
            ErrorView::Decode { details } => details,
        }
    }
}

impl View for Error {
    type V = ErrorView;

    open spec fn view(&self) -> ErrorView {
        match self {
            Error::RendererNotFound { renderer } => ErrorView::RendererNotFound {
                renderer: renderer@,
            },
            Error::CameraNotFound { renderer, camera } => ErrorView::CameraNotFound {
                renderer: renderer@,
                camera: camera@,
            },
            Error::ResourceNotFound { handle } => ErrorView::ResourceNotFound { handle: handle@ },
            Error::LockUnavailable { access } => ErrorView::LockUnavailable { access: *access },
            Error::InvalidResource => ErrorView::InvalidResource,
            Error::MalformedHandle { handle } => ErrorView::MalformedHandle { handle: handle@ },
            Error::Decode { details } => ErrorView::Decode { details: details@ },
        }
    }
}

impl Error {
    /// The error for a renderer handle that names no renderer.
    pub fn renderer_not_found(renderer: &str) -> (r: Error)
        ensures
            r@ == (ErrorView::RendererNotFound { renderer: renderer@ }),
    {
        Error::RendererNotFound { renderer: String::from_str(renderer) }
    }

    /// The error for a camera handle that names no camera of a renderer.
    pub fn camera_not_found(renderer: &str, camera: &str) -> (r: Error)
        ensures
            r@ == (ErrorView::CameraNotFound { renderer: renderer@, camera: camera@ }),
    {
        Error::CameraNotFound {
            renderer: String::from_str(renderer),
            camera: String::from_str(camera),
        }
    }

    /// The error for a resource handle under which nothing is held.
    pub fn resource_not_found(handle: &str) -> (r: Error)
        ensures
            r@ == (ErrorView::ResourceNotFound { handle: handle@ }),
    {
        Error::ResourceNotFound { handle: String::from_str(handle) }
    }

    /// The error for text that is not in the form of a resource handle.
    pub fn malformed_handle(handle: &str) -> (r: Error)
        ensures
            r@ == (ErrorView::MalformedHandle { handle: handle@ }),
    {
        Error::MalformedHandle { handle: String::from_str(handle) }
    }

    /// The kind of failure.
    pub fn kind(&self) -> (r: ErrorKind)
        ensures
            r == self@.kind(),
    {
        match self {
            Error::RendererNotFound { .. } => ErrorKind::NotFound,
            Error::CameraNotFound { .. } => ErrorKind::NotFound,
            Error::ResourceNotFound { .. } => ErrorKind::NotFound,
            Error::LockUnavailable { .. } => ErrorKind::LockUnavailable,
            Error::InvalidResource => ErrorKind::InvalidResource,
            Error::MalformedHandle { .. } => ErrorKind::MalformedHandle,
            Error::Decode { .. } => ErrorKind::Decode,
        }
    }

    /// The message for the caller.
    pub fn message(&self) -> (r: String)
        ensures
            r@ == self@.message(),
    {
        match self {
            Error::RendererNotFound { renderer } => {
                let mut text = String::from_str("Renderer does not exists: ");
                text.append(renderer.as_str());
                text
            },
            Error::CameraNotFound { renderer, camera } => {
                let mut text = String::from_str("Renderer ");
                text.append(renderer.as_str());
                text.append(" does not have camera: ");
                text.append(camera.as_str());
                text
            },
            Error::ResourceNotFound { handle } => {
                let mut text = String::from_str("Resource does not exists: ");
                text.append(handle.as_str());
                text
            },
            Error::LockUnavailable { access: Access::Read } => String::from_str(
                "Could not acquire a read access to renderers",
            ),
            Error::LockUnavailable { access: Access::Write } => String::from_str(
                "Could not acquire a write access to renderers",
            ),
            Error::InvalidResource => String::from_str("Resource cannot be null!"),
            Error::MalformedHandle { handle } => handle.clone(),
            Error::Decode { details } => details.clone(),
        }
    }
}

} // verus!
