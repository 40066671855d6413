//! Camera frames and the state of the camera.

use vstd::prelude::*;

use crate::jpeg::{
    encode, holds_picture, jpeg_file, side_fits, size_complaint, to_rgb, without_alpha,
};
use crate::raster::{push_pixel, raster, raster_grows};
use crate::text::join;
use crate::yuv::{picture, picture_shows_every_pixel, pixel_at};

verus! {

/// A frame as it was captured, or one drawn in place of it.
pub struct CameraFrame {
    pub width: u32,
    pub height: u32,
    pub rgba_data: Vec<u8>,
    pub is_placeholder: bool,
}

/// What a frame shows.
#[verifier::ext_equal]
pub struct FrameView {
    pub width: u32,
    pub height: u32,
    pub rgba: Seq<u8>,
    pub is_placeholder: bool,
}

impl View for CameraFrame {
    type V = FrameView;

    open spec fn view(&self) -> FrameView {
        FrameView {
            width: self.width,
            height: self.height,
            rgba: self.rgba_data@,
            is_placeholder: self.is_placeholder,
        }
    }
}

impl Clone for CameraFrame {
    /// An equal frame.
    fn clone(&self) -> (r: Self)
        ensures
            r@ == self@,
    {
        let rgba_data: Vec<u8> = self.rgba_data.clone();
        assert(rgba_data@ =~= self.rgba_data@);
        CameraFrame {
            width: self.width,
            height: self.height,
            rgba_data,
            is_placeholder: self.is_placeholder,
        }
    }
}

/// Size and rate of the frames asked of the camera.
#[derive(Debug)]
pub struct CameraConfig {
    pub width: u32,
    pub height: u32,
    pub fps: u32,
}

impl Clone for CameraConfig {
    /// An equal configuration.
    fn clone(&self) -> (r: Self)
        ensures
            r == *self,
    {
        CameraConfig { width: self.width, height: self.height, fps: self.fps }
    }
}

impl Default for CameraConfig {
    /// 1280 by 720 at 30 frames per second.
    fn default() -> (r: Self)
        ensures
            r == (CameraConfig { width: 1280, height: 720, fps: 30 }),
    {
        CameraConfig { width: 1280, height: 720, fps: 30 }
    }
}

/// Why the camera or a frame of it cannot be had.
#[derive(Debug)]
pub enum CameraError {
    /// There is a camera on Android only.
    NotAndroid,
    /// The state of the camera cannot be locked.
    Lock(String),
    /// No frame has been captured yet.
    NoFrame,
    /// A frame holds fewer bytes than its size calls for.
    IncompleteFrame,
    /// A frame cannot be encoded.
    Encode(String),
}

impl CameraError {
    /// What the error says.
    pub open spec fn message(&self) -> Seq<char> {
        match self {
            CameraError::NotAndroid => "Camera only available on Android"@,
            CameraError::Lock(cause) => "Failed to lock running flag: "@ + cause@,
            CameraError::NoFrame => "No camera frame available"@,
            CameraError::IncompleteFrame => "Failed to create image from frame"@,
            CameraError::Encode(cause) => "JPEG encode failed: "@ + cause@,
        }
    }

    /// Spells the error out.
    pub fn text(&self) -> (r: String)
        ensures
            r@ == self.message(),
    {
        match self {
            CameraError::NotAndroid => "Camera only available on Android".to_owned(),
            CameraError::Lock(cause) => join("Failed to lock running flag: ", cause.as_str()),
            CameraError::NoFrame => "No camera frame available".to_owned(),
            CameraError::IncompleteFrame => "Failed to create image from frame".to_owned(),
            CameraError::Encode(cause) => join("JPEG encode failed: ", cause.as_str()),
        }
    }
}

/// What starting the camera comes to.
#[derive(Debug, PartialEq, Eq)]
pub enum CameraStart {
    /// It runs already.
    AlreadyRunning,
    /// A capture session for frames of this size is to be opened.
    Launch { width: u32, height: u32 },
}

/// State of the camera: the latest frame, whether capturing goes on, and the configuration.
pub struct AndroidCamera {
    pub latest_frame: Option<CameraFrame>,
    pub running: bool,
    pub config: CameraConfig,
}

/// The latest frame, as far as there is one.
pub open spec fn frame_view(frame: Option<CameraFrame>) -> Option<FrameView> {
    match frame {
        Some(frame) => Some(frame@),
        None => None,
    }
}

impl AndroidCamera {
    /// A camera that does not run and has captured nothing.
    pub fn new(config: CameraConfig) -> (r: Self)
        ensures
            r.latest_frame is None,
            !r.running,
            r.config == config,
    {
        AndroidCamera { latest_frame: None, running: false, config }
    }

    /// Opens the camera and starts the preview, where the platform has one.
    pub fn start(&mut self, on_android: bool) -> (r: Result<CameraStart, CameraError>)
        ensures
            !on_android ==> r == Err::<CameraStart, CameraError>(CameraError::NotAndroid)
                && *final(self) == *old(self),
            on_android ==> r == Ok::<CameraStart, CameraError>(old(self).start_outcome())
                && *final(self) == (AndroidCamera { running: true, ..*old(self) }),
    {
        if !on_android {
            return Err(CameraError::NotAndroid);
        }
        Ok(self.start_impl())
    }

    /// What starting comes to in this state.
    pub open spec fn start_outcome(&self) -> CameraStart {
        if self.running {
            CameraStart::AlreadyRunning
        } else {
            CameraStart::Launch { width: self.config.width, height: self.config.height }
        }
    }

    /// Marks the camera as running; a session is to be opened unless it was running before.
    pub fn start_impl(&mut self) -> (r: CameraStart)
        ensures
            r == old(self).start_outcome(),
            *final(self) == (AndroidCamera { running: true, ..*old(self) }),
    {
        if self.running {
            return CameraStart::AlreadyRunning;
        }
        self.running = true;
        CameraStart::Launch { width: self.config.width, height: self.config.height }
    }

    /// Stops the camera.
    pub fn stop(&mut self)
        ensures
            *final(self) == (AndroidCamera { running: false, ..*old(self) }),
    {
        self.running = false;
    }

    /// Replaces the latest frame.
    pub fn store_frame(&mut self, frame: CameraFrame)
        ensures
            *final(self) == (AndroidCamera { latest_frame: Some(frame), ..*old(self) }),
    {
        self.latest_frame = Some(frame);
    }

    /// The latest frame.
    pub fn latest_frame(&self) -> (r: Option<CameraFrame>)
        ensures
            frame_view(r) == frame_view(self.latest_frame),
    {
        match &self.latest_frame {
            Some(frame) => Some(frame.clone()),
            None => None,
        }
    }

    /// The latest frame, or an error while there is none.
    pub fn capture_frame(&self) -> (r: Result<CameraFrame, CameraError>)
        ensures
            match self.latest_frame {
                Some(frame) => r is Ok && r->Ok_0@ == frame@,
                None => r == Err::<CameraFrame, CameraError>(CameraError::NoFrame),
            },
    {
        match self.latest_frame() {
            Some(frame) => Ok(frame),
            None => Err(CameraError::NoFrame),
        }
    }
}

/// Starting again while the camera runs opens no second session; once it was stopped, the next
/// start opens one.
pub proof fn one_session_at_a_time(camera: AndroidCamera)
    ensures
        (AndroidCamera { running: true, ..camera }).start_outcome() is AlreadyRunning,
        (AndroidCamera { running: false, ..camera }).start_outcome() == (CameraStart::Launch {
            width: camera.config.width,
            height: camera.config.height,
        }),
{
}

/// The JPEG file of a frame that holds all its pixels.
pub open spec fn frame_jpeg(frame: FrameView, quality: u8) -> Seq<u8> {
    jpeg_file(
        without_alpha(frame.rgba, frame.width as nat * frame.height as nat),
        frame.width,
        frame.height,
        quality,
    )
}

/// The frame holds all its pixels and has a size that a JPEG file can record.
pub open spec fn jpeg_possible(frame: FrameView) -> bool {
    &&& holds_picture(frame.width, frame.height, frame.rgba.len())
    &&& side_fits(frame.width)
    &&& side_fits(frame.height)
}

/// Passes on what the encoder returned.
pub fn encoding_result(encoded: Result<Vec<u8>, String>) -> (r: Result<Vec<u8>, CameraError>)
    ensures
        match encoded {
            Ok(file) => r == Ok::<Vec<u8>, CameraError>(file),
            Err(cause) => r == Err::<Vec<u8>, CameraError>(CameraError::Encode(cause)),
        },
{
    match encoded {
        Ok(file) => Ok(file),
        Err(cause) => Err(CameraError::Encode(cause)),
    }
}

/// Encodes a frame as JPEG.
pub fn frame_to_jpeg(frame: &CameraFrame, quality: u8) -> (r: Result<Vec<u8>, CameraError>)
    ensures
        !holds_picture(frame.width, frame.height, frame@.rgba.len()) ==> r == Err::<
            Vec<u8>,
            CameraError,
        >(CameraError::IncompleteFrame),
        jpeg_possible(frame@) ==> r is Ok && r->Ok_0@ == frame_jpeg(frame@, quality),
        holds_picture(frame.width, frame.height, frame@.rgba.len()) && !jpeg_possible(frame@) ==> {
            &&& r matches Err(CameraError::Encode(cause))
            &&& cause@ == size_complaint(frame.width, frame.height)
        },
{
    let rgba: Vec<u8> = frame.rgba_data.clone();
    assert(rgba@ =~= frame.rgba_data@);
    match to_rgb(frame.width, frame.height, rgba) {
        None => Err(CameraError::IncompleteFrame),
        Some(rgb) => encoding_result(encode(frame.width, frame.height, rgb.as_slice(), quality)),
    }
}

impl AndroidCamera {
    /// The latest frame as JPEG, for sending it on.  There is none for a placeholder, nor for a
    /// frame that cannot be encoded.
    pub fn latest_frame_jpeg(&self, quality: u8) -> (r: Option<Vec<u8>>)
        ensures
            match frame_view(self.latest_frame) {
                Some(frame) => if !frame.is_placeholder && jpeg_possible(frame) {
                    r is Some && r->0@ == frame_jpeg(frame, quality)
                } else {
                    r is None
                },
                None => r is None,
            },
    {
        match self.latest_frame() {
            None => None,
            Some(frame) => {
                if frame.is_placeholder {
                    return None;
                }
                match frame_to_jpeg(&frame, quality) {
                    Ok(file) => Some(file),
                    Err(_) => None,
                }
            },
        }
    }
}

/// Four bytes of the placeholder: a horizontal and a vertical gradient, brightened by a pulse that
/// moves with the tick.
pub open spec fn placeholder_pixel(
    width: u32,
    height: u32,
    tick: u32,
    row: int,
    col: int,
) -> Seq<u8> {
    let pulse = (tick % 255 + (col + row) % 64) % 256;
    seq![
        at_most_255((col * 255) / (width as int) + pulse / 4),
        at_most_255((row * 255) / (height as int) + pulse / 5),
        at_most_255(96 + pulse / 3),
        255u8,
    ]
}

/// A byte, or the largest one.
pub open spec fn at_most_255(x: int) -> u8 {
    if x > 255 {
        255
    } else {
        x as u8
    }
}

/// The size of the frame and its gradients can be computed in 32 bits.
pub open spec fn placeholder_fits(width: u32, height: u32) -> bool {
    &&& width * height * 4 <= u32::MAX
    &&& width > 0 && height > 0 ==> (width - 1) * 255 <= u32::MAX && (height - 1) * 255 <= u32::MAX
}

/// Draws one pixel of the placeholder.
fn draw_placeholder(width: u32, height: u32, tick: u32, row: u32, col: u32) -> (r: (u8, u8, u8))
    requires
        placeholder_fits(width, height),
        row < height,
        col < width,
    ensures
        placeholder_pixel(width, height, tick, row as int, col as int) == seq![
            r.0,
            r.1,
            r.2,
            255u8,
        ],
{
    let stripe: u8 = (tick % 255) as u8;
    proof {
        let x = col as int;
        let y = row as int;
        assert(width <= width * height && height <= width * height) by (nonlinear_arith)
            requires
                width > 0,
                height > 0,
        ;
        assert((x * 255) / (width as int) < 255) by (nonlinear_arith)
            requires
                0 <= x < width,
        ;
        assert((y * 255) / (height as int) < 255) by (nonlinear_arith)
            requires
                0 <= y < height,
        ;
        assert(0 <= (x * 255) / (width as int) && 0 <= (y * 255) / (height as int)) by (nonlinear_arith)
            requires
                0 <= x < width,
                0 <= y < height,
        ;
    }
    let across: u8 = ((col * 255) / width) as u8;
    let down: u8 = ((row * 255) / height) as u8;
    let pulse: u8 = stripe.wrapping_add(((col + row) % 64) as u8);
    (
        across.saturating_add(pulse / 4),
        down.saturating_add(pulse / 5),
        96u8.saturating_add(pulse / 3),
    )
}

/// Draws a frame to show while the camera delivers none.
pub fn generate_placeholder_frame(width: u32, height: u32, tick: u32) -> (r: CameraFrame)
    requires
        placeholder_fits(width, height),
    ensures
        r@ == (FrameView {
            width,
            height,
            rgba: raster(
                width as nat,
                height as nat,
                |row: int, col: int| placeholder_pixel(width, height, tick, row, col),
            ),
            is_placeholder: true,
        }),
{
    let ghost pixels = |row: int, col: int| placeholder_pixel(width, height, tick, row, col);
    let ghost whole = raster(width as nat, height as nat, pixels);
    let mut rgba_data: Vec<u8> = Vec::with_capacity((width * height * 4) as usize);
    let mut row: u32 = 0;
    while row < height
        invariant
            row <= height,
            placeholder_fits(width, height),
            pixels == (|row: int, col: int| placeholder_pixel(width, height, tick, row, col)),
            whole == raster(width as nat, height as nat, pixels),
            rgba_data@.len() == row * width * 4,
            rgba_data@.len() <= whole.len(),
            rgba_data@ == whole.take(rgba_data@.len() as int),
        decreases height - row,
    {
        let mut col: u32 = 0;
        while col < width
            invariant
                row < height,
                col <= width,
                placeholder_fits(width, height),
                pixels == (|row: int, col: int| placeholder_pixel(width, height, tick, row, col)),
                whole == raster(width as nat, height as nat, pixels),
                rgba_data@.len() == (row * width + col) * 4,
                rgba_data@.len() <= whole.len(),
                rgba_data@ == whole.take(rgba_data@.len() as int),
            decreases width - col,
        {
            let (r, g, b) = draw_placeholder(width, height, tick, row, col);
            proof {
                assert(pixels(row as int, col as int) == seq![r, g, b, 255u8]);
                raster_grows(
                    width as nat,
                    height as nat,
                    pixels,
                    row as int,
                    col as int,
                    rgba_data@,
                );
            }
            push_pixel(&mut rgba_data, r, g, b);
            col = col + 1;
        }
        assert((row + 1) * width * 4 == (row * width + width) * 4) by (nonlinear_arith);
        row = row + 1;
    }
    assert(rgba_data@.len() == whole.len()) by {
        assert(height * width == width * height) by (nonlinear_arith);
    }
    assert(rgba_data@ =~= whole);
    CameraFrame { width, height, rgba_data, is_placeholder: true }
}

/// One pixel of a displayed picture.
#[derive(Debug, Clone, Copy, PartialEq, Eq)]
pub struct Rgba8Pixel {
    pub r: u8,
    pub g: u8,
    pub b: u8,
    pub a: u8,
}

/// Pixel number `i` of a frame, or a transparent one when the frame does not hold it whole.
pub open spec fn displayed_pixel(rgba: Seq<u8>, i: int) -> Rgba8Pixel {
    if 4 * i + 4 <= rgba.len() {
        Rgba8Pixel {
            r: rgba[4 * i],
            g: rgba[4 * i + 1],
            b: rgba[4 * i + 2],
            a: rgba[4 * i + 3],
        }
    } else {
        Rgba8Pixel { r: 0, g: 0, b: 0, a: 0 }
    }
}

/// The pixels to display for a frame.
pub fn rgba_frame_pixels(width: u32, height: u32, rgba_data: &[u8]) -> (r: Vec<Rgba8Pixel>)
    requires
        width * height <= usize::MAX,
    ensures
        r@ == Seq::new(width as nat * height as nat, |i: int| displayed_pixel(rgba_data@, i)),
{
    let count: usize = width as usize * height as usize;
    let ghost whole = Seq::new(count as nat, |i: int| displayed_pixel(rgba_data@, i));
    let mut pixels: Vec<Rgba8Pixel> = Vec::with_capacity(count);
    let mut i: usize = 0;
    while i < count
        invariant
            i <= count,
            whole == Seq::new(count as nat, |i: int| displayed_pixel(rgba_data@, i)),
            pixels@ == whole.take(i as int),
        decreases count - i,
    {
        let pixel: Rgba8Pixel = if i < rgba_data.len() / 4 {
            Rgba8Pixel {
                r: rgba_data[4 * i],
                g: rgba_data[4 * i + 1],
                b: rgba_data[4 * i + 2],
                a: rgba_data[4 * i + 3],
            }
        } else {
            Rgba8Pixel { r: 0, g: 0, b: 0, a: 0 }
        };
        pixels.push(pixel);
        i = i + 1;
        assert(pixels@ =~= whole.take(i as int));
    }
    assert(pixels@ =~= whole);
    pixels
}

/// What is displayed of a converted picture is each of its pixels, opaque.
pub proof fn converted_pictures_are_displayed(
    y_plane: Seq<u8>,
    u_plane: Seq<u8>,
    v_plane: Seq<u8>,
    width: nat,
    height: nat,
    y_stride: int,
    uv_stride: int,
    row: int,
    col: int,
)
    requires
        0 <= row < height,
        0 <= col < width,
    ensures
        ({
            let whole = picture(y_plane, u_plane, v_plane, width, height, y_stride, uv_stride);
            let shown = displayed_pixel(whole, row * width + col);
            &&& seq![shown.r, shown.g, shown.b, shown.a] == pixel_at(
                y_plane,
                u_plane,
                v_plane,
                y_stride,
                uv_stride,
                row,
                col,
            )
            &&& shown.a == 255
        }),
{
    picture_shows_every_pixel(
        y_plane,
        u_plane,
        v_plane,
        width,
        height,
        y_stride,
        uv_stride,
        row,
        col,
    );
    let whole = picture(y_plane, u_plane, v_plane, width, height, y_stride, uv_stride);
    lemma_displayed(whole, row * width + col);
}

/// A pixel that a frame holds is displayed with its four bytes.
proof fn lemma_displayed(rgba: Seq<u8>, i: int)
    requires
        0 <= i,
        i * 4 + 4 <= rgba.len(),
    ensures
        ({
            let shown = displayed_pixel(rgba, i);
            &&& seq![shown.r, shown.g, shown.b, shown.a] == rgba.subrange(i * 4, i * 4 + 4)
            &&& shown.a == rgba[i * 4 + 3]
        }),
{
    let shown = displayed_pixel(rgba, i);
    assert(seq![shown.r, shown.g, shown.b, shown.a] =~= rgba.subrange(i * 4, i * 4 + 4));
}

/// The views of a frame and of the latest frame leave nothing out.
pub proof fn frames_show_all_they_hold(frame: CameraFrame)
    ensures
        frame@.width == frame.width,
        frame@.height == frame.height,
        frame@.rgba == frame.rgba_data@,
        frame@.is_placeholder == frame.is_placeholder,
        frame_view(Some(frame)) == Some(frame@),
        frame_view(None) is None,
{
}

/// A JPEG file is made of red, green and blue of every pixel, with the size of the frame and the
/// quality that was asked for.
pub proof fn files_are_made_of_the_colours(frame: FrameView, quality: u8, rgb: Seq<u8>)
    requires
        rgb.len() == frame.width * frame.height * 3,
        forall|i: int|
            0 <= i < rgb.len() ==> #[trigger] rgb[i] == frame.rgba[(i - i % 3) / 3 * 4 + i % 3],
    ensures
        frame_jpeg(frame, quality) == jpeg_file(rgb, frame.width, frame.height, quality),
{
    let own = without_alpha(frame.rgba, frame.width as nat * frame.height as nat);
    assert forall|i: int| 0 <= i < rgb.len() implies rgb[i] == own[i] by {
        assert((i - i % 3) / 3 == i / 3);
    }
    assert(own =~= rgb);
}

/// A frame can be encoded exactly when it holds four bytes for each pixel and its sides are from 1
/// to 65535.
pub proof fn whole_frames_can_be_encoded(frame: FrameView)
    ensures
        jpeg_possible(frame) <==> {
            &&& 1 <= frame.width <= 65535
            &&& 1 <= frame.height <= 65535
            &&& frame.width * frame.height * 4 <= frame.rgba.len()
        },
{
    let w = frame.width as int;
    let h = frame.height as int;
    assert(4 * w * h == w * h * 4) by (nonlinear_arith);
}

/// A pixel of the placeholder: `across` and `down` say how far it lies to the right and to the
/// bottom, out of 255, and a pulse that moves with the tick brightens it by a quarter, a fifth and a
/// third.
pub proof fn placeholders_shade_and_pulse(
    width: u32,
    height: u32,
    tick: u32,
    row: int,
    col: int,
    across: int,
    down: int,
    pulse: int,
)
    requires
        0 <= row < height,
        0 <= col < width,
        across * width <= col * 255 < (across + 1) * width,
        down * height <= row * 255 < (down + 1) * height,
        0 <= pulse < 256,
        pulse == tick % 255 + (row + col) % 64 || pulse == tick % 255 + (row + col) % 64 - 256,
    ensures
        ({
            let pixel = placeholder_pixel(width, height, tick, row, col);
            &&& pixel.len() == 4
            &&& pixel[0] == if across + pulse / 4 > 255 {
                255
            } else {
                across + pulse / 4
            }
            &&& pixel[1] == if down + pulse / 5 > 255 {
                255
            } else {
                down + pulse / 5
            }
            &&& pixel[2] == 96 + pulse / 3
            &&& pixel[3] == 255
        }),
{
    let w = width as int;
    let h = height as int;
    assert((across + 1) * w == across * w + w) by (nonlinear_arith);
    assert((down + 1) * h == down * h + h) by (nonlinear_arith);
    vstd::arithmetic::div_mod::lemma_fundamental_div_mod_converse(
        col * 255,
        w,
        across,
        col * 255 - across * w,
    );
    vstd::arithmetic::div_mod::lemma_fundamental_div_mod_converse(
        row * 255,
        h,
        down,
        row * 255 - down * h,
    );
    assert(0 <= across <= 255) by (nonlinear_arith)
        requires
            across * w <= col * 255 < (across + 1) * w,
            0 <= col < w,
    ;
    assert(0 <= down <= 255) by (nonlinear_arith)
        requires
            down * h <= row * 255 < (down + 1) * h,
            0 <= row < h,
    ;
}

/// A frame displays each pixel that it holds by its four bytes, and the others transparent.
pub proof fn pixels_are_displayed_by_their_bytes(rgba: Seq<u8>, i: int)
    requires
        0 <= i,
    ensures
        ({
            let shown = displayed_pixel(rgba, i);
            let bytes = seq![shown.r, shown.g, shown.b, shown.a];
            &&& i * 4 + 4 <= rgba.len() ==> bytes == rgba.subrange(i * 4, i * 4 + 4)
            &&& i * 4 + 4 > rgba.len() ==> bytes == seq![0u8, 0u8, 0u8, 0u8]
        }),
{
    if i * 4 + 4 <= rgba.len() {
        lemma_displayed(rgba, i);
    }
}

/// An error that has a cause gives it as it was reported.
pub proof fn camera_errors_say_their_cause(cause: String)
    ensures
        CameraError::Lock(cause).message() == "Failed to lock running flag: "@ + cause@,
        CameraError::Encode(cause).message() == "JPEG encode failed: "@ + cause@,
{
}

} // verus!
