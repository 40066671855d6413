//! The course of a capture session: opening the camera, delivering frames, closing it.
//!
//! The session says what to ask of the platform next and takes the reply; it never talks to the
//! platform itself.

use vstd::prelude::*;

use crate::camera::{frame_view, jpeg_possible, AndroidCamera, CameraFrame, FrameView};
use crate::jpeg::side_fits;
use crate::yuv::{
    addressable, blue, green, picture, pixels_come_from_their_places, red, yuv420_to_rgba,
};

verus! {

/// How long the platform may take to open the camera or a session, in nanoseconds.
pub const OPEN_TIMEOUT_NS: i64 = 5_000_000_000;

/// Image format YUV_420_888.
pub const FORMAT_YUV: i32 = 0x23;

/// Request template for a preview.
pub const TEMPLATE_PREVIEW: i32 = 1;

/// Pause after an attempt that found no image, in milliseconds.
pub const EMPTY_PAUSE_MS: u64 = 10;

/// Pause after an image, in milliseconds.
pub const FRAME_PAUSE_MS: u64 = 33;

/// Number of planes of a colour image.
pub const COLOR_PLANES: i32 = 3;

/// A plane of an image: its bytes and the length of a row.
#[derive(Debug, PartialEq, Eq)]
pub struct Plane {
    pub data: Vec<u8>,
    pub row_stride: i32,
}

/// Why a session failed.
#[derive(Debug)]
pub enum SessionError {
    NoCameras,
    OpenTimedOut,
    DeviceMissing,
    SessionTimedOut,
    /// A request to the platform failed.
    Call(String),
}

impl SessionError {
    /// What the error says.
    pub open spec fn message(&self) -> Seq<char> {
        match self {
            SessionError::NoCameras => "No cameras found"@,
            SessionError::OpenTimedOut => "Camera open timed out"@,
            SessionError::DeviceMissing => "Camera device not available"@,
            SessionError::SessionTimedOut => "Session creation timed out"@,
            SessionError::Call(cause) => cause@,
        }
    }

    /// Spells the error out.
    pub fn text(&self) -> (r: String)
        ensures
            r@ == self.message(),
    {
        match self {
            SessionError::NoCameras => "No cameras found".to_owned(),
            SessionError::OpenTimedOut => "Camera open timed out".to_owned(),
            SessionError::DeviceMissing => "Camera device not available".to_owned(),
            SessionError::SessionTimedOut => "Session creation timed out".to_owned(),
            SessionError::Call(cause) => cause.clone(),
        }
    }
}

/// What to ask of the platform.
#[derive(Debug)]
pub enum Request {
    AttachThread,
    GetCameraManager,
    ListCameras,
    CountCameras,
    GetCamera { index: i32 },
    PrepareCallbacks,
    OpenCamera,
    GetTimeUnit,
    AwaitCamera { timeout_ns: i64 },
    TakeDevice,
    CreateReader { width: i32, height: i32, format: i32 },
    GetSurface,
    CollectSurfaces,
    PrepareSession,
    CreateSession,
    AwaitSession { timeout_ns: i64 },
    CreateRequest { template: i32 },
    AddTarget,
    BuildRequest,
    PrepareCapture,
    StartRepeating,
    CheckRunning,
    AcquireImage,
    GetPlanes,
    CountPlanes,
    /// Read the first plane, which holds the luma samples.
    ReadY,
    /// Read the second plane, now that the first one is there.
    ReadU { y: Plane },
    /// Read the third plane, now that the others are there.
    ReadV { y: Plane, u: Plane },
    /// Make the image the latest frame.
    StoreFrame { y: Plane, u: Plane, v: Plane },
    CloseImage,
    Sleep { ms: u64 },
    CloseCamera,
    CloseReader,
    Finish(Result<(), SessionError>),
}

/// What the platform replied.
#[derive(Debug)]
pub enum Reply {
    Done,
    Failed(String),
    /// A number of cameras or planes.
    Count(i32),
    /// Whether what was awaited came in time.
    InTime(bool),
    /// Whether the callback left a device.
    Device(bool),
    /// Whether the camera is to go on running.
    Running(bool),
    /// The running flag cannot be read any more.
    RunningUnknown,
    /// Whether there was an image.
    Image(bool),
    Plane(Plane),
}

/// A capture session: the size of its frames and the request that a reply is awaited to.
#[derive(Debug)]
pub struct CameraSession {
    pub width: u32,
    pub height: u32,
    pub request: Request,
}

/// The reply is one that the request can get.
pub open spec fn fits(request: Request, reply: Reply) -> bool {
    match request {
        Request::Finish(_) => false,
        Request::CountCameras | Request::CountPlanes => reply is Count || reply is Failed,
        Request::AwaitCamera { .. } | Request::AwaitSession { .. } => reply is InTime
            || reply is Failed,
        Request::TakeDevice => reply is Device || reply is Failed,
        Request::CheckRunning => reply is Running || reply is RunningUnknown,
        Request::AcquireImage => reply is Image || reply is Failed,
        Request::ReadY | Request::ReadU { .. } | Request::ReadV { .. } => reply is Plane
            || reply is Failed,
        Request::StoreFrame { .. } | Request::Sleep { .. } => reply is Done,
        _ => reply is Done || reply is Failed,
    }
}

/// The request that follows one without a result.
pub open spec fn successor(request: Request) -> Request {
    match request {
        Request::AttachThread => Request::GetCameraManager,
        Request::GetCameraManager => Request::ListCameras,
        Request::ListCameras => Request::CountCameras,
        Request::GetCamera { .. } => Request::PrepareCallbacks,
        Request::PrepareCallbacks => Request::OpenCamera,
        Request::OpenCamera => Request::GetTimeUnit,
        Request::GetTimeUnit => Request::AwaitCamera { timeout_ns: OPEN_TIMEOUT_NS },
        Request::CreateReader { .. } => Request::GetSurface,
        Request::GetSurface => Request::CollectSurfaces,
        Request::CollectSurfaces => Request::PrepareSession,
        Request::PrepareSession => Request::CreateSession,
        Request::CreateSession => Request::AwaitSession { timeout_ns: OPEN_TIMEOUT_NS },
        Request::CreateRequest { .. } => Request::AddTarget,
        Request::AddTarget => Request::BuildRequest,
        Request::BuildRequest => Request::PrepareCapture,
        Request::PrepareCapture => Request::StartRepeating,
        Request::StartRepeating => Request::CheckRunning,
        Request::GetPlanes => Request::CountPlanes,
        Request::StoreFrame { .. } => Request::CloseImage,
        Request::CloseImage => Request::Sleep { ms: FRAME_PAUSE_MS },
        Request::Sleep { .. } => Request::CheckRunning,
        Request::CloseCamera => Request::CloseReader,
        Request::CloseReader => Request::Finish(Ok(())),
        other => other,
    }
}

/// The request that follows a reply.
pub open spec fn next_request(session: CameraSession, reply: Reply) -> Request {
    match (session.request, reply) {
        (_, Reply::Failed(cause)) => Request::Finish(Err(SessionError::Call(cause))),
        (Request::CountCameras, Reply::Count(count)) => if count == 0 {
            Request::Finish(Err(SessionError::NoCameras))
        } else {
            Request::GetCamera { index: 0 }
        },
        (Request::AwaitCamera { .. }, Reply::InTime(in_time)) => if in_time {
            Request::TakeDevice
        } else {
            Request::Finish(Err(SessionError::OpenTimedOut))
        },
        (Request::TakeDevice, Reply::Device(present)) => if present {
            Request::CreateReader {
                width: session.width as i32,
                height: session.height as i32,
                format: FORMAT_YUV,
            }
        } else {
            Request::Finish(Err(SessionError::DeviceMissing))
        },
        (Request::AwaitSession { .. }, Reply::InTime(in_time)) => if in_time {
            Request::CreateRequest { template: TEMPLATE_PREVIEW }
        } else {
            Request::Finish(Err(SessionError::SessionTimedOut))
        },
        (Request::CheckRunning, Reply::Running(running)) => if running {
            Request::AcquireImage
        } else {
            Request::CloseCamera
        },
        (Request::CheckRunning, Reply::RunningUnknown) => Request::Finish(Ok(())),
        (Request::AcquireImage, Reply::Image(present)) => if present {
            Request::GetPlanes
        } else {
            Request::Sleep { ms: EMPTY_PAUSE_MS }
        },
        (Request::CountPlanes, Reply::Count(count)) => if count >= COLOR_PLANES {
            Request::ReadY
        } else {
            Request::CloseImage
        },
        (Request::ReadY, Reply::Plane(y)) => Request::ReadU { y },
        (Request::ReadU { y }, Reply::Plane(u)) => Request::ReadV { y, u },
        (Request::ReadV { y, u }, Reply::Plane(v)) => Request::StoreFrame { y, u, v },
        (request, _) => successor(request),
    }
}

/// The session after a reply.
pub open spec fn after(session: CameraSession, reply: Reply) -> CameraSession {
    CameraSession { request: next_request(session, reply), ..session }
}

impl CameraSession {
    /// A session that is about to begin.
    pub fn new(width: u32, height: u32) -> (r: CameraSession)
        ensures
            r == (CameraSession { width, height, request: Request::AttachThread }),
    {
        CameraSession { width, height, request: Request::AttachThread }
    }

    /// Moves on to the next request.
    pub fn step(&mut self, reply: Reply)
        requires
            fits(old(self).request, reply),
        ensures
            *final(self) == after(*old(self), reply),
    {
        let mut request: Request = Request::CheckRunning;
        std::mem::swap(&mut request, &mut self.request);
        self.request = match (request, reply) {
            (_, Reply::Failed(cause)) => Request::Finish(Err(SessionError::Call(cause))),
            (Request::CountCameras, Reply::Count(count)) => if count == 0 {
                Request::Finish(Err(SessionError::NoCameras))
            } else {
                Request::GetCamera { index: 0 }
            },
            (Request::AwaitCamera { .. }, Reply::InTime(in_time)) => if in_time {
                Request::TakeDevice
            } else {
                Request::Finish(Err(SessionError::OpenTimedOut))
            },
            (Request::TakeDevice, Reply::Device(present)) => if present {
                Request::CreateReader {
                    width: self.width as i32,
                    height: self.height as i32,
                    format: FORMAT_YUV,
                }
            } else {
                Request::Finish(Err(SessionError::DeviceMissing))
            },
            (Request::AwaitSession { .. }, Reply::InTime(in_time)) => if in_time {
                Request::CreateRequest { template: TEMPLATE_PREVIEW }
            } else {
                Request::Finish(Err(SessionError::SessionTimedOut))
            },
            (Request::CheckRunning, Reply::Running(running)) => if running {
                Request::AcquireImage
            } else {
                Request::CloseCamera
            },
            (Request::CheckRunning, _) => Request::Finish(Ok(())),
            (Request::AcquireImage, Reply::Image(present)) => if present {
                Request::GetPlanes
            } else {
                Request::Sleep { ms: EMPTY_PAUSE_MS }
            },
            (Request::CountPlanes, Reply::Count(count)) => if count >= COLOR_PLANES {
                Request::ReadY
            } else {
                Request::CloseImage
            },
            (Request::ReadY, Reply::Plane(y)) => Request::ReadU { y },
            (Request::ReadU { y }, Reply::Plane(u)) => Request::ReadV { y, u },
            (Request::ReadV { y, u }, Reply::Plane(v)) => Request::StoreFrame { y, u, v },
            (request, _) => after_done(request),
        };
    }
}

/// The request that follows one without a result.
fn after_done(request: Request) -> (r: Request)
    requires
        fits(request, Reply::Done),
    ensures
        r == successor(request),
{
    match request {
        Request::AttachThread => Request::GetCameraManager,
        Request::GetCameraManager => Request::ListCameras,
        Request::ListCameras => Request::CountCameras,
        Request::GetCamera { .. } => Request::PrepareCallbacks,
        Request::PrepareCallbacks => Request::OpenCamera,
        Request::OpenCamera => Request::GetTimeUnit,
        Request::GetTimeUnit => Request::AwaitCamera { timeout_ns: OPEN_TIMEOUT_NS },
        Request::CreateReader { .. } => Request::GetSurface,
        Request::GetSurface => Request::CollectSurfaces,
        Request::CollectSurfaces => Request::PrepareSession,
        Request::PrepareSession => Request::CreateSession,
        Request::CreateSession => Request::AwaitSession { timeout_ns: OPEN_TIMEOUT_NS },
        Request::CreateRequest { .. } => Request::AddTarget,
        Request::AddTarget => Request::BuildRequest,
        Request::BuildRequest => Request::PrepareCapture,
        Request::PrepareCapture => Request::StartRepeating,
        Request::StartRepeating => Request::CheckRunning,
        Request::GetPlanes => Request::CountPlanes,
        Request::StoreFrame { .. } => Request::CloseImage,
        Request::CloseImage => Request::Sleep { ms: FRAME_PAUSE_MS },
        Request::Sleep { .. } => Request::CheckRunning,
        Request::CloseCamera => Request::CloseReader,
        _ => Request::Finish(Ok(())),
    }
}

/// An acquired image is still open.
pub open spec fn holds_image(request: Request) -> bool {
    match request {
        Request::GetPlanes
        | Request::CountPlanes
        | Request::ReadY
        | Request::ReadU { .. }
        | Request::ReadV { .. }
        | Request::StoreFrame { .. }
        | Request::CloseImage => true,
        _ => false,
    }
}

/// How far the session has come on the way to its first image.
pub open spec fn stage(request: Request) -> nat {
    match request {
        Request::AttachThread => 0,
        Request::GetCameraManager => 1,
        Request::ListCameras => 2,
        Request::CountCameras => 3,
        Request::GetCamera { .. } => 4,
        Request::PrepareCallbacks => 5,
        Request::OpenCamera => 6,
        Request::GetTimeUnit => 7,
        Request::AwaitCamera { .. } => 8,
        Request::TakeDevice => 9,
        Request::CreateReader { .. } => 10,
        Request::GetSurface => 11,
        Request::CollectSurfaces => 12,
        Request::PrepareSession => 13,
        Request::CreateSession => 14,
        Request::AwaitSession { .. } => 15,
        Request::CreateRequest { .. } => 16,
        Request::AddTarget => 17,
        Request::BuildRequest => 18,
        Request::PrepareCapture => 19,
        Request::StartRepeating => 20,
        _ => STREAMING as nat,
    }
}

/// The stage of a session that delivers images.
pub const STREAMING: u32 = 21;

/// How many more requests there can be before the running flag is checked again or the session
/// is over.
pub open spec fn round_left(request: Request) -> nat {
    match request {
        Request::AcquireImage => 9,
        Request::GetPlanes => 8,
        Request::CountPlanes => 7,
        Request::ReadY => 6,
        Request::ReadU { .. } => 5,
        Request::ReadV { .. } => 4,
        Request::StoreFrame { .. } => 3,
        Request::CloseImage => 2,
        Request::Sleep { .. } => 1,
        Request::CloseCamera => 2,
        Request::CloseReader => 1,
        _ => 0,
    }
}

/// A request that fails ends the session with its error.
pub proof fn failure_ends_the_session(session: CameraSession, cause: String)
    requires
        fits(session.request, Reply::Failed(cause)),
    ensures
        after(session, Reply::Failed(cause)).request == Request::Finish(
            Err(SessionError::Call(cause)),
        ),
{
}

/// Setting up goes forward one stage with every reply, unless it fails for good.
pub proof fn setup_advances(session: CameraSession, reply: Reply)
    requires
        fits(session.request, reply),
        stage(session.request) < STREAMING,
    ensures
        ({
            let next = after(session, reply).request;
            ||| next matches Request::Finish(Err(_))
            ||| stage(next) == stage(session.request) + 1 && !(next is Finish)
        }),
        stage(session.request) == STREAMING - 1 && reply is Done ==> after(
            session,
            reply,
        ).request is CheckRunning,
{
}

/// Once it streams, a session never sets anything up again, and the running flag is checked anew
/// after a bounded number of requests, or the session is over.
pub proof fn rounds_end(session: CameraSession, reply: Reply)
    requires
        fits(session.request, reply),
        stage(session.request) == STREAMING,
    ensures
        stage(after(session, reply).request) == STREAMING,
        !(session.request is CheckRunning) ==> {
            let next = after(session, reply).request;
            ||| next is Finish
            ||| next is CheckRunning
            ||| 0 < round_left(next) < round_left(session.request)
        },
{
}

/// An image is acquired only after the camera was found running.
pub proof fn images_come_while_running(session: CameraSession, reply: Reply)
    requires
        fits(session.request, reply),
        after(session, reply).request is AcquireImage,
    ensures
        session.request is CheckRunning,
        reply == Reply::Running(true),
{
}

/// An image that was acquired is closed before the next one is asked for, unless a request fails.
pub proof fn images_are_closed(session: CameraSession, reply: Reply)
    requires
        fits(session.request, reply),
        holds_image(session.request),
    ensures
        ({
            let next = after(session, reply).request;
            ||| holds_image(next) && !(session.request is CloseImage)
            ||| next matches Request::Finish(Err(_)) && reply is Failed
            ||| session.request is CloseImage && next == (Request::Sleep { ms: FRAME_PAUSE_MS })
        }),
{
}

/// Nothing but an acquired image leads to one that is open.
pub proof fn open_images_were_acquired(session: CameraSession, reply: Reply)
    requires
        fits(session.request, reply),
        !holds_image(session.request),
        holds_image(after(session, reply).request),
    ensures
        session.request is AcquireImage,
        reply == Reply::Image(true),
{
}

/// An image of three planes or more is stored with the contents of the first three, in their order.
pub proof fn images_are_stored_as_read(
    session: CameraSession,
    count: i32,
    y: Plane,
    u: Plane,
    v: Plane,
)
    requires
        session.request is AcquireImage,
        count >= COLOR_PLANES,
    ensures
        ({
            let acquired = after(session, Reply::Image(true));
            let counted = after(after(acquired, Reply::Done), Reply::Count(count));
            let half_read = after(after(counted, Reply::Plane(y)), Reply::Plane(u));
            after(half_read, Reply::Plane(v)) == (CameraSession {
                request: Request::StoreFrame { y, u, v },
                ..session
            })
        }),
{
}

/// An image with fewer planes is closed without being stored.
pub proof fn images_with_fewer_planes_are_not_stored(session: CameraSession, count: i32)
    requires
        session.request is AcquireImage,
        count < COLOR_PLANES,
    ensures
        ({
            let acquired = after(session, Reply::Image(true));
            after(after(acquired, Reply::Done), Reply::Count(count)).request is CloseImage
        }),
{
}

/// A frame is stored only when its third plane was read, and with the planes read before.
pub proof fn stored_frames_were_read(session: CameraSession, reply: Reply)
    requires
        fits(session.request, reply),
        after(session, reply).request is StoreFrame,
    ensures
        ({
            &&& session.request matches Request::ReadV { y, u }
            &&& reply matches Reply::Plane(v)
            &&& after(session, reply).request == (Request::StoreFrame { y, u, v })
        }),
{
}

/// A session that is told to stop closes the camera and the reader and then ends well.
pub proof fn stopping_closes_everything(session: CameraSession)
    requires
        session.request is CheckRunning,
    ensures
        ({
            let closing = after(session, Reply::Running(false));
            let closed = after(closing, Reply::Done);
            &&& closing.request is CloseCamera
            &&& closed.request is CloseReader
            &&& after(closed, Reply::Done).request == Request::Finish(Ok(()))
        }),
{
}

/// A session ends well only after the reader was closed, or when the running flag cannot be read.
pub proof fn sessions_end_well_when_stopped(session: CameraSession, reply: Reply)
    requires
        fits(session.request, reply),
        after(session, reply).request == Request::Finish(Ok(())),
    ensures
        (session.request is CloseReader && reply is Done) || (session.request is CheckRunning
            && reply is RunningUnknown),
{
}

/// Builds the frame of an image from the contents of its planes.
pub fn session_frame(
    width: u32,
    height: u32,
    y_plane: &[u8],
    u_plane: &[u8],
    v_plane: &[u8],
    y_stride: u32,
    uv_stride: u32,
) -> (r: CameraFrame)
    requires
        addressable(width, height, y_stride, uv_stride),
    ensures
        r@ == (FrameView {
            width,
            height,
            rgba: picture(
                y_plane@,
                u_plane@,
                v_plane@,
                width as nat,
                height as nat,
                y_stride as int,
                uv_stride as int,
            ),
            is_placeholder: false,
        }),
{
    let rgba_data: Vec<u8> = yuv420_to_rgba(
        y_plane,
        u_plane,
        v_plane,
        width,
        height,
        y_stride,
        uv_stride,
    );
    CameraFrame { width, height, rgba_data, is_placeholder: false }
}

/// What an image of these planes shows.  Both chroma planes have the row length of the second one.
pub open spec fn image_view(width: u32, height: u32, y: Plane, u: Plane, v: Plane) -> FrameView {
    FrameView {
        width,
        height,
        rgba: picture(
            y.data@,
            u.data@,
            v.data@,
            width as nat,
            height as nat,
            (y.row_stride as u32) as int,
            (u.row_stride as u32) as int,
        ),
        is_placeholder: false,
    }
}

impl AndroidCamera {
    /// Makes an image the latest frame.
    pub fn store_image(&mut self, width: u32, height: u32, y: &Plane, u: &Plane, v: &Plane)
        requires
            addressable(width, height, y.row_stride as u32, u.row_stride as u32),
        ensures
            frame_view(final(self).latest_frame) == Some(image_view(width, height, *y, *u, *v)),
            final(self).running == old(self).running,
            final(self).config == old(self).config,
    {
        let frame: CameraFrame = session_frame(
            width,
            height,
            y.data.as_slice(),
            u.data.as_slice(),
            v.data.as_slice(),
            y.row_stride as u32,
            u.row_stride as u32,
        );
        self.store_frame(frame);
    }
}

/// Images can be encoded as JPEG, whatever their planes hold, when the format can record their
/// size.
pub proof fn images_can_be_encoded(width: u32, height: u32, y: Plane, u: Plane, v: Plane)
    requires
        addressable(width, height, y.row_stride as u32, u.row_stride as u32),
        side_fits(width),
        side_fits(height),
    ensures
        jpeg_possible(image_view(width, height, y, u, v)),
{
    assert(4 * width * height == width * height * 4) by (nonlinear_arith);
    assert(4 * width <= 4 * width * height) by (nonlinear_arith)
        requires
            height >= 1,
            width >= 0,
    ;
    assert(image_view(width, height, y, u, v).rgba.len() == width * height * 4);
}

/// As long as every reply is good, setting up goes on to the next stage.
pub proof fn good_replies_lead_on(session: CameraSession, reply: Reply)
    requires
        fits(session.request, reply),
        stage(session.request) < STREAMING,
        !(reply is Failed),
        reply != Reply::Count(0),
        reply != Reply::InTime(false),
        reply != Reply::Device(false),
    ensures
        stage(after(session, reply).request) == stage(session.request) + 1,
        !(after(session, reply).request is Finish),
{
}

/// A session fails only for its reason: there is no camera, something did not come in time, no
/// device was left, or a request failed.
pub proof fn sessions_fail_for_a_reason(session: CameraSession, reply: Reply, error: SessionError)
    requires
        fits(session.request, reply),
    ensures
        after(session, reply).request == Request::Finish(Err(error)) <==> match error {
            SessionError::NoCameras => session.request is CountCameras && reply == Reply::Count(0),
            SessionError::OpenTimedOut => session.request is AwaitCamera && reply == Reply::InTime(
                false,
            ),
            SessionError::DeviceMissing => session.request is TakeDevice && reply == Reply::Device(
                false,
            ),
            SessionError::SessionTimedOut => session.request is AwaitSession && reply
                == Reply::InTime(false),
            SessionError::Call(cause) => reply == Reply::Failed(cause),
        },
{
}

/// What a request asks for: the first camera, five seconds of patience, images of the size of the
/// session in the YUV format, a preview, and pauses of 10 or 33 milliseconds.
pub proof fn requests_ask_for_the_right_things(session: CameraSession, reply: Reply)
    requires
        fits(session.request, reply),
    ensures
        after(session, reply).width == session.width,
        after(session, reply).height == session.height,
        match after(session, reply).request {
            Request::GetCamera { index } => index == 0,
            Request::AwaitCamera { timeout_ns } => timeout_ns == 5_000_000_000,
            Request::AwaitSession { timeout_ns } => timeout_ns == 5_000_000_000,
            Request::CreateReader { width, height, format } => width == session.width as i32
                && height == session.height as i32 && format == 0x23,
            Request::CreateRequest { template } => template == 1,
            Request::Sleep { ms } => ms == if session.request is AcquireImage {
                10int
            } else {
                33
            },
            _ => true,
        },
{
}

/// The course of a session that streams, apart from reading planes: it asks whether to go on, takes
/// an image or waits for one, closes what it has stored, waits and asks again.
pub proof fn streaming_goes_round(session: CameraSession, reply: Reply)
    requires
        fits(session.request, reply),
        !(reply is Failed),
    ensures
        ({
            let next = after(session, reply).request;
            match session.request {
                Request::StartRepeating => next is CheckRunning,
                Request::CheckRunning => match reply {
                    Reply::Running(running) => if running {
                        next is AcquireImage
                    } else {
                        next is CloseCamera
                    },
                    _ => next == Request::Finish(Ok(())),
                },
                Request::AcquireImage => if reply == Reply::Image(true) {
                    next is GetPlanes
                } else {
                    next is Sleep
                },
                Request::GetPlanes => next is CountPlanes,
                Request::StoreFrame { .. } => next is CloseImage,
                Request::CloseImage => next is Sleep,
                Request::Sleep { .. } => next is CheckRunning,
                Request::CloseCamera => next is CloseReader,
                Request::CloseReader => next == Request::Finish(Ok(())),
                _ => true,
            }
        }),
{
}

/// An image shows what its planes hold: the pixel in row `row` and column `col` has the colours of
/// the luma sample of that place and of the chroma samples of half the row and half the column.
pub proof fn images_show_what_their_planes_hold(
    width: u32,
    height: u32,
    planes: (Plane, Plane, Plane),
    row: int,
    col: int,
    y: u8,
    u: u8,
    v: u8,
)
    requires
        0 <= row < height,
        0 <= col < width,
        ({
            let place = row * ((planes.0.row_stride as u32) as int) + col;
            y == if place < planes.0.data@.len() {
                planes.0.data@[place]
            } else {
                128
            }
        }),
        ({
            let place = (row / 2) * ((planes.1.row_stride as u32) as int) + col / 2;
            &&& u == if place < planes.1.data@.len() {
                planes.1.data@[place]
            } else {
                128
            }
            &&& v == if place < planes.2.data@.len() {
                planes.2.data@[place]
            } else {
                128
            }
        }),
    ensures
        ({
            let image = image_view(width, height, planes.0, planes.1, planes.2);
            let at = (row * width + col) * 4;
            &&& image.width == width && image.height == height && !image.is_placeholder
            &&& image.rgba.len() == width * height * 4
            &&& 0 <= at && at + 4 <= image.rgba.len()
            &&& image.rgba.subrange(at, at + 4) == seq![
                red(y, v),
                green(y, u, v),
                blue(y, u),
                255u8,
            ]
        }),
{
    pixels_come_from_their_places(
        planes.0.data@,
        planes.1.data@,
        planes.2.data@,
        width as nat,
        height as nat,
        (planes.0.row_stride as u32) as int,
        (planes.1.row_stride as u32) as int,
        row,
        col,
        y,
        u,
        v,
    );
}

/// A request that failed is reported as it was.
pub proof fn failed_requests_are_quoted(cause: String)
    ensures
        SessionError::Call(cause).message() == cause@,
{
}

} // verus!
