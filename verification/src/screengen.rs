use vstd::prelude::*;

use crate::error::FfError;
use crate::frame::{byte_at, is_rotated180, is_rotated270, is_rotated90, RgbaFrame};
use crate::helper::{lemma_info_of_probe, get_info, millisecond, probe_is_valid, spec_get_info, spec_millisecond, MediaProbe, VideoInfo};
use crate::rational::{
    lemma_rescale_q_defined_below, lemma_rescale_q_monotonic, lemma_rescale_q_rounds, lemma_rescale_q_nonnegative, rescale_q,
    spec_rescale_q,
};

verus! {

/// The size `(width, height)` of the decoded frame for a screenshot shown at the
/// requested display size, which falls back to the video's display size: the
/// display size, with width and height swapped when the rotation is 90 or 270.
pub open spec fn spec_frame_size(
    info: VideoInfo,
    display_width: Option<u32>,
    display_height: Option<u32>,
) -> (u32, u32) {
    let width = match display_width {
        Some(w) => w,
        None => info.display_width,
    };
    let height = match display_height {
        Some(h) => h,
        None => info.display_height,
    };
    if info.should_swap {
        (height, width)
    } else {
        (width, height)
    }
}

/// The size `(width, height)` to scale the decoded frame to, for a screenshot
/// of display size `display_width` by `display_height` (each falling back to
/// the video's display size).
pub fn frame_size(info: &VideoInfo, display_width: Option<u32>, display_height: Option<u32>) -> (r: (
    u32,
    u32,
))
    ensures
        r == spec_frame_size(*info, display_width, display_height),
        ({
            let width: u32 = match display_width {
                Some(w) => w,
                None => info.display_width,
            };
            let height: u32 = match display_height {
                Some(h) => h,
                None => info.display_height,
            };
            &&& info.should_swap ==> r.0 == height && r.1 == width
            &&& !info.should_swap ==> r.0 == width && r.1 == height
        }),
{
    let mut width = match display_width {
        Some(w) => w,
        None => info.display_width,
    };
    let mut height = match display_height {
        Some(h) => h,
        None => info.display_height,
    };
    if info.should_swap {
        let t = width;
        width = height;
        height = t;
    }
    (width, height)
}

/// How to take a screenshot of a video: which stream to decode, where to seek,
/// what size to scale the decoded frame to and how to turn it afterwards.
#[derive(Clone, Copy, Debug, PartialEq, Eq)]
pub struct ScreenshotPlan {
    /// The index of the video stream.
    pub stream_index: usize,
    /// The rotation of the video, degrees counterclockwise.
    pub rotation: i32,
    /// The width to scale the decoded frame to.
    pub width: u32,
    /// The height to scale the decoded frame to.
    pub height: u32,
    /// The earliest acceptable seek target, in the stream's time base.
    pub seek_min_ts: i64,
    /// The seek target, in the stream's time base.
    pub seek_ts: i64,
    /// The latest acceptable seek target, in the stream's time base.
    pub seek_max_ts: i64,
}

/// The plan for a screenshot at `ts` milliseconds.
pub open spec fn spec_plan_screenshot(
    input: MediaProbe,
    ts: i64,
    display_width: Option<u32>,
    display_height: Option<u32>,
) -> Result<ScreenshotPlan, FfError> {
    match spec_get_info(input) {
        Err(e) => Err(e),
        Ok(info) => {
            let video = input.video->0;
            let size = spec_frame_size(info, display_width, display_height);
            Ok(
                ScreenshotPlan {
                    stream_index: video.index,
                    rotation: info.rotation,
                    width: size.0,
                    height: size.1,
                    seek_min_ts: 0,
                    seek_ts: spec_rescale_q(ts, spec_millisecond(), video.time_base),
                    seek_max_ts: spec_rescale_q((ts + 1000) as i64, spec_millisecond(), video.time_base),
                },
            )
        },
    }
}

/// Plans a screenshot at `ts` milliseconds, shown at `display_width` by
/// `display_height` (each falling back to the video's display size): the video
/// information of the input, the frame size, and the seek window from the start
/// of the stream to one second after `ts`, in the stream's time base.
pub fn plan_screenshot(
    input: &MediaProbe,
    ts: i64,
    display_width: Option<u32>,
    display_height: Option<u32>,
) -> (r: Result<ScreenshotPlan, FfError>)
    requires
        probe_is_valid(*input),
        spec_get_info(*input) is Ok ==> ts <= i64::MAX - 1000,
    ensures
        r == spec_plan_screenshot(*input, ts, display_width, display_height),
        r is Err <==> spec_get_info(*input) is Err,
        input.video is None ==> r == Err::<ScreenshotPlan, FfError>(FfError::NoVideoStream),
        input.video is Some && input.video->0.decoder_size is Err ==> r == Err::<
            ScreenshotPlan,
            FfError,
        >(FfError::Ffmpeg(input.video->0.decoder_size->Err_0)),
        r matches Ok(plan) ==> ({
            let video = input.video->0;
            let size = video.decoder_size->Ok_0;
            let rotation: int = match video.display_rotation {
                Some(angle) => if angle < 0 {
                    angle + 360
                } else {
                    angle as int
                },
                None => 0,
            };
            let turned = rotation == 90 || rotation == 270;
            let upright_width: int = match display_width {
                Some(w) => w as int,
                None => if turned {
                    size.1 as int
                } else {
                    size.0 as int
                },
            };
            let upright_height: int = match display_height {
                Some(h) => h as int,
                None => if turned {
                    size.0 as int
                } else {
                    size.1 as int
                },
            };
            let b = video.time_base.den as int;
            let c = (video.time_base.num as int) * 1000;
            &&& plan.stream_index == video.index
            &&& plan.rotation == rotation
            &&& plan.width == (if turned { upright_height } else { upright_width })
            &&& plan.height == (if turned { upright_width } else { upright_height })
            &&& plan.seek_min_ts == 0
            &&& plan.seek_ts == spec_rescale_q(ts, spec_millisecond(), video.time_base)
            &&& plan.seek_max_ts == spec_rescale_q((ts + 1000) as i64, spec_millisecond(), video.time_base)
            &&& plan.seek_ts != i64::MIN && ts != i64::MIN ==> c > 0 && -c <= 2 * ((plan.seek_ts as int) * c - ts * b) <= c
            &&& plan.seek_max_ts != i64::MIN ==> c > 0 && -c <= 2 * ((plan.seek_max_ts as int) * c - (ts
                + 1000) * b) <= c
        }),
{
    proof {
        lemma_plan_of_probe(*input, ts, display_width, display_height);
    }
    let info = get_info(input)?;
    let (width, height) = frame_size(&info, display_width, display_height);
    let video = match &input.video {
        Some(video) => video,
        None => {
            return Err(FfError::NoVideoStream);
        },
    };
    let seek_ts = rescale_q(ts, millisecond(), video.time_base);
    let seek_max_ts = rescale_q(ts + 1000, millisecond(), video.time_base);
    Ok(
        ScreenshotPlan {
            stream_index: video.index,
            rotation: info.rotation,
            width,
            height,
            seek_min_ts: 0,
            seek_ts,
            seek_max_ts,
        },
    )
}

/// What asking the decoder for a frame gave.
#[derive(Clone, Copy, Debug, PartialEq, Eq)]
pub enum ReceiveOutcome {
    /// A frame; `empty` when it holds no picture.
    Frame { empty: bool },
    /// The decoder needs more input before it can give a frame (`EAGAIN`).
    Again,
    /// Any other `AVERROR` code with which the decoder declined.
    Failed(i32),
}

/// What happened since the last step of decoding.
#[derive(Clone, Copy, Debug, PartialEq, Eq)]
pub enum DecodeEvent {
    /// A packet of the stream with this index was read.
    Packet { stream_index: usize },
    /// The packet was handed to the decoder, or the decoder refused it with
    /// this `AVERROR` code.
    Sent(Result<(), i32>),
    /// The decoder was asked for a frame.
    Received(ReceiveOutcome),
    /// The input has no more packets.
    EndOfPackets,
}

/// What to do next while decoding the frame of a screenshot.
#[derive(Clone, Copy, Debug, PartialEq, Eq)]
pub enum DecodeAction {
    /// Read the next packet.
    ReadPacket,
    /// Hand the packet just read to the decoder.
    SendPacket,
    /// Ask the decoder for a frame.
    ReceiveFrame,
    /// Decoding is over: scale the last frame received.
    ScaleFrame,
    /// Give up with this error.
    Fail(FfError),
}

/// The next action of the decoding loop.
pub open spec fn spec_decode_step(plan: ScreenshotPlan, event: DecodeEvent) -> DecodeAction {
    match event {
        DecodeEvent::Packet { stream_index } => if stream_index == plan.stream_index {
            DecodeAction::SendPacket
        } else {
            DecodeAction::ReadPacket
        },
        DecodeEvent::Sent(Ok(())) => DecodeAction::ReceiveFrame,
        DecodeEvent::Sent(Err(code)) => DecodeAction::Fail(FfError::Ffmpeg(code)),
        DecodeEvent::Received(ReceiveOutcome::Frame { empty }) => if empty {
            DecodeAction::ReadPacket
        } else {
            DecodeAction::ScaleFrame
        },
        DecodeEvent::Received(ReceiveOutcome::Again) => DecodeAction::ReadPacket,
        DecodeEvent::Received(ReceiveOutcome::Failed(code)) => DecodeAction::Fail(FfError::Ffmpeg(code)),
        DecodeEvent::EndOfPackets => DecodeAction::ScaleFrame,
    }
}

/// One step of decoding the frame of a screenshot: packets of other streams
/// are skipped, packets of the video stream go to the decoder, the decoder is
/// asked for a frame after each, "try again" and empty frames lead to the next
/// packet, the first frame with a picture ends decoding, and any other error
/// of the decoder ends it with that error.
pub fn decode_step(plan: &ScreenshotPlan, event: DecodeEvent) -> (r: DecodeAction)
    ensures
        r == spec_decode_step(*plan, event),
        event matches DecodeEvent::Packet { stream_index } ==> r == (if stream_index
            == plan.stream_index {
            DecodeAction::SendPacket
        } else {
            DecodeAction::ReadPacket
        }),
        event == DecodeEvent::Sent(Ok(())) ==> r == DecodeAction::ReceiveFrame,
        event matches DecodeEvent::Sent(Err(code)) ==> r == DecodeAction::Fail(FfError::Ffmpeg(code)),
        event == DecodeEvent::Received(ReceiveOutcome::Frame { empty: true }) ==> r
            == DecodeAction::ReadPacket,
        event == DecodeEvent::Received(ReceiveOutcome::Frame { empty: false }) ==> r
            == DecodeAction::ScaleFrame,
        event == DecodeEvent::Received(ReceiveOutcome::Again) ==> r == DecodeAction::ReadPacket,
        event matches DecodeEvent::Received(ReceiveOutcome::Failed(code)) ==> r == DecodeAction::Fail(
            FfError::Ffmpeg(code),
        ),
        event == DecodeEvent::EndOfPackets ==> r == DecodeAction::ScaleFrame,
{
    match event {
        DecodeEvent::Packet { stream_index } => {
            if stream_index == plan.stream_index {
                DecodeAction::SendPacket
            } else {
                DecodeAction::ReadPacket
            }
        },
        DecodeEvent::Sent(sent) => match sent {
            Ok(()) => DecodeAction::ReceiveFrame,
            Err(code) => DecodeAction::Fail(FfError::Ffmpeg(code)),
        },
        DecodeEvent::Received(outcome) => match outcome {
            ReceiveOutcome::Frame { empty } => {
                if empty {
                    DecodeAction::ReadPacket
                } else {
                    DecodeAction::ScaleFrame
                }
            },
            ReceiveOutcome::Again => DecodeAction::ReadPacket,
            ReceiveOutcome::Failed(code) => DecodeAction::Fail(FfError::Ffmpeg(code)),
        },
        DecodeEvent::EndOfPackets => DecodeAction::ScaleFrame,
    }
}

/// Whether a `width` by `height` RGBA buffer `buf` is one that `image::RgbaImage::from_raw`
/// accepts: `4 * width` fits in a `usize` and `buf` holds the pixels.
pub open spec fn fits_image(buf: Seq<u8>, width: u32, height: u32) -> bool {
    4 * width <= usize::MAX && 4 * width * height <= buf.len()
}

/// What turning the scaled frame `buf` by the plan's rotation gives: `buf`
/// itself at 0 degrees; otherwise, when `buf` does not fit a `plan.width` by
/// `plan.height` image, `CannotCreateImage`; when it does, `buf` turned 270
/// degrees clockwise at 90, 180 degrees at 180, 90 degrees clockwise at 270,
/// and `UnsupportedRotation` at any other angle. The frame size comes back
/// with the pixels.
pub open spec fn is_finished(plan: ScreenshotPlan, buf: Seq<u8>, r: Result<(Vec<u8>, u32, u32), FfError>) -> bool {
    let w = plan.width;
    let h = plan.height;
    if plan.rotation == 0 {
        r matches Ok(out) && out.0@ == buf && out.1 == w && out.2 == h
    } else if !fits_image(buf, w, h) {
        r == Err::<(Vec<u8>, u32, u32), FfError>(FfError::CannotCreateImage)
    } else if plan.rotation == 90 {
        r matches Ok(out) && out.1 == w && out.2 == h && is_rotated270(out.0@, buf, w as int, h as int)
    } else if plan.rotation == 180 {
        r matches Ok(out) && out.1 == w && out.2 == h && is_rotated180(out.0@, buf, w as int, h as int)
    } else if plan.rotation == 270 {
        r matches Ok(out) && out.1 == w && out.2 == h && is_rotated90(out.0@, buf, w as int, h as int)
    } else {
        r == Err::<(Vec<u8>, u32, u32), FfError>(FfError::UnsupportedRotation(plan.rotation))
    }
}

/// What turning by 90 or 270 degrees needs: the turned image is `plan.height`
/// pixels wide, so `4 * plan.height` must fit in a `usize`.
pub open spec fn can_turn(plan: ScreenshotPlan, buf: Seq<u8>) -> bool {
    (plan.rotation == 90 || plan.rotation == 270) && fits_image(buf, plan.width, plan.height) ==> 4
        * plan.height <= usize::MAX
}

/// Turns the scaled frame `buf` (`plan.width` by `plan.height` RGBA pixels,
/// packed row after row) by the video's rotation, so that it shows upright:
/// unchanged at 0 degrees, turned 270 degrees clockwise at 90, 180 degrees at
/// 180 and 90 degrees clockwise at 270. Gives the pixels with the frame size
/// `(plan.width, plan.height)`.
pub fn finish_screenshot(plan: &ScreenshotPlan, buf: Vec<u8>) -> (r: Result<(Vec<u8>, u32, u32), FfError>)
    requires
        can_turn(*plan, buf@),
    ensures
        is_finished(*plan, buf@, r),
        plan.rotation == 0 ==> r == Ok::<(Vec<u8>, u32, u32), FfError>((buf, plan.width, plan.height)),
        plan.rotation != 0 && !(4 * plan.width <= usize::MAX && 4 * plan.width * plan.height
            <= buf@.len()) ==> r == Err::<(Vec<u8>, u32, u32), FfError>(FfError::CannotCreateImage),
        plan.rotation != 0 && plan.rotation != 90 && plan.rotation != 180 && plan.rotation != 270 && 4
            * plan.width <= usize::MAX && 4 * plan.width * plan.height <= buf@.len() ==> r == Err::<
            (Vec<u8>, u32, u32),
            FfError,
        >(FfError::UnsupportedRotation(plan.rotation)),
        r matches Ok(out) ==> out.1 == plan.width && out.2 == plan.height,
        // a video turned 90 degrees counterclockwise: the frame is turned back
        // 90 degrees counterclockwise, so that it stands `height` pixels wide
        plan.rotation == 90 && 4 * plan.width <= usize::MAX && 4 * plan.width * plan.height
            <= buf@.len() ==> r is Ok && r->Ok_0.0@.len() == 4 * plan.width * plan.height && (forall|
            x: int,
            y: int,
            c: int,
        |
            0 <= x < plan.height && 0 <= y < plan.width && 0 <= c < 4 ==> #[trigger] byte_at(
                r->Ok_0.0@,
                plan.height as int,
                x,
                y,
                c,
            ) == byte_at(buf@, plan.width as int, plan.width - 1 - y, x, c)),
        // a video upside down: the frame is turned 180 degrees
        plan.rotation == 180 && 4 * plan.width <= usize::MAX && 4 * plan.width * plan.height
            <= buf@.len() ==> r is Ok && r->Ok_0.0@.len() == buf@.len() && (forall|
            x: int,
            y: int,
            c: int,
        |
            0 <= x < plan.width && 0 <= y < plan.height && 0 <= c < 4 ==> #[trigger] byte_at(
                r->Ok_0.0@,
                plan.width as int,
                x,
                y,
                c,
            ) == byte_at(buf@, plan.width as int, plan.width - 1 - x, plan.height - 1 - y, c)),
        // a video turned 270 degrees counterclockwise: the frame is turned 90
        // degrees clockwise, so that it stands `height` pixels wide
        plan.rotation == 270 && 4 * plan.width <= usize::MAX && 4 * plan.width * plan.height
            <= buf@.len() ==> r is Ok && r->Ok_0.0@.len() == 4 * plan.width * plan.height && (forall|
            x: int,
            y: int,
            c: int,
        |
            0 <= x < plan.height && 0 <= y < plan.width && 0 <= c < 4 ==> #[trigger] byte_at(
                r->Ok_0.0@,
                plan.height as int,
                x,
                y,
                c,
            ) == byte_at(buf@, plan.width as int, y, plan.height - 1 - x, c)),
{
    let width = plan.width;
    let height = plan.height;
    if plan.rotation == 0 {
        return Ok((buf, width, height));
    }
    let ghost pixels = buf@;
    let mut image = match RgbaFrame::from_raw(width, height, buf) {
        Some(image) => image,
        None => {
            return Err(FfError::CannotCreateImage);
        },
    };
    if plan.rotation == 90 {
        image = image.rotate270();
    } else if plan.rotation == 180 {
        image.rotate180_in_place();
    } else if plan.rotation == 270 {
        image = image.rotate90();
    } else {
        return Err(FfError::UnsupportedRotation(plan.rotation));
    }
    Ok((image.into_raw(), width, height))
}

/// Byte `j` of row `y` of a buffer whose rows start `row_len` bytes apart.
pub open spec fn row_byte(bytes: Seq<u8>, row_len: int, y: int, j: int) -> u8 {
    bytes[y * row_len + j]
}

/// `out` holds the `width` by `height` RGBA image whose rows lie `stride` bytes
/// apart in `plane`, packed row after row: `4 * width * height` bytes, row `y`
/// of `out` being the first `4 * width` bytes of row `y` of `plane`.
pub open spec fn is_packed(out: Seq<u8>, plane: Seq<u8>, stride: int, width: int, height: int) -> bool {
    &&& out.len() == 4 * width * height
    &&& forall|y: int, j: int|
        0 <= y < height && 0 <= j < 4 * width ==> #[trigger] row_byte(out, 4 * width, y, j)
            == row_byte(plane, stride, y, j)
}

/// Packs the `width` by `height` RGBA image whose rows lie `stride` bytes apart
/// in `plane` (the rows of a decoded picture plane carry padding), row after
/// row without padding.
pub fn pack_plane(plane: &[u8], stride: usize, width: u32, height: u32) -> (r: Vec<u8>)
    requires
        4 * width <= stride,
        stride * height <= plane@.len(),
    ensures
        is_packed(r@, plane@, stride as int, width as int, height as int),
{
    let row_len: usize = 4 * width as usize;
    let plane_len = plane.len();
    let mut out: Vec<u8> = Vec::new();
    let mut y: u32 = 0;
    while y < height
        invariant
            y <= height,
            row_len == 4 * width,
            row_len <= stride,
            stride * height <= plane@.len(),
            plane_len == plane@.len(),
            out@.len() == y * row_len,
            forall|yy: int, j: int|
                0 <= yy < y && 0 <= j < row_len ==> #[trigger] row_byte(out@, row_len as int, yy, j)
                    == row_byte(plane@, stride as int, yy, j),
        decreases height - y,
    {
        assert(y * stride + stride <= stride * height) by (nonlinear_arith)
            requires
                y < height,
        ;
        let start: usize = y as usize * stride;
        let mut j: usize = 0;
        while j < row_len
            invariant
                y < height,
                j <= row_len,
                row_len == 4 * width,
                row_len <= stride,
                stride * height <= plane@.len(),
                plane_len == plane@.len(),
                start == y * stride,
                start + stride <= plane@.len(),
                out@.len() == y * row_len + j,
                forall|yy: int, jj: int|
                    0 <= yy < y && 0 <= jj < row_len ==> #[trigger] row_byte(out@, row_len as int, yy, jj)
                        == row_byte(plane@, stride as int, yy, jj),
                forall|jj: int|
                    0 <= jj < j ==> #[trigger] row_byte(out@, row_len as int, y as int, jj)
                        == plane@[start + jj],
            decreases row_len - j,
        {
            let ghost before = out@;
            out.push(plane[start + j]);
            proof {
                assert(row_byte(out@, row_len as int, y as int, j as int) == plane@[start + j]);
                assert forall|jj: int|
                    0 <= jj < j + 1 implies #[trigger] row_byte(out@, row_len as int, y as int, jj)
                    == plane@[start + jj] by {
                    if jj < j {
                        assert(row_byte(before, row_len as int, y as int, jj) == plane@[start + jj]);
                    }
                }
                assert forall|yy: int, jj: int|
                    0 <= yy < y && 0 <= jj < row_len implies #[trigger] row_byte(
                    out@,
                    row_len as int,
                    yy,
                    jj,
                ) == row_byte(plane@, stride as int, yy, jj) by {
                    assert(yy * row_len + jj < y * row_len) by (nonlinear_arith)
                        requires
                            0 <= yy < y,
                            0 <= jj < row_len,
                    ;
                    assert(row_byte(before, row_len as int, yy, jj) == row_byte(
                        plane@,
                        stride as int,
                        yy,
                        jj,
                    ));
                }
            }
            j = j + 1;
        }
        proof {
            assert forall|yy: int, jj: int|
                0 <= yy < y + 1 && 0 <= jj < row_len implies #[trigger] row_byte(
                out@,
                row_len as int,
                yy,
                jj,
            ) == row_byte(plane@, stride as int, yy, jj) by {
                if yy == y {
                    assert(row_byte(out@, row_len as int, y as int, jj) == plane@[start + jj]);
                }
            }
            assert(y * row_len + row_len == (y + 1) * row_len) by (nonlinear_arith);
        }
        y = y + 1;
    }
    proof {
        assert(height * row_len == 4 * width * height) by (nonlinear_arith)
            requires
                row_len == 4 * width,
        ;
    }
    out
}

/// What the screenshot of a decoded picture plane needs: its rows hold the
/// frame, and the packed frame can be turned (see `can_turn`).
pub open spec fn plane_holds_frame(plan: ScreenshotPlan, plane: Seq<u8>, stride: usize) -> bool {
    &&& 4 * plan.width <= stride
    &&& stride * plan.height <= plane.len()
    &&& (plan.rotation == 90 || plan.rotation == 270) ==> 4 * plan.height <= usize::MAX
}

/// The screenshot from the scaled picture plane: the `plan.width` by
/// `plan.height` image whose rows lie `stride` bytes apart in `plane`, packed
/// and turned upright (see `finish_screenshot`).
pub fn screenshot_from_plane(plan: &ScreenshotPlan, plane: &[u8], stride: usize) -> (r: Result<
    (Vec<u8>, u32, u32),
    FfError,
>)
    requires
        plane_holds_frame(*plan, plane@, stride),
    ensures
        exists|packed: Seq<u8>|
            is_packed(packed, plane@, stride as int, plan.width as int, plan.height as int)
                && #[trigger] is_finished(*plan, packed, r),
        r is Ok <==> (plan.rotation == 0 || plan.rotation == 90 || plan.rotation == 180
            || plan.rotation == 270),
{
    let buf = pack_plane(plane, stride, plan.width, plan.height);
    let ghost packed = buf@;
    assert(4 * plan.width * plan.height <= stride * plan.height) by (nonlinear_arith)
        requires
            4 * plan.width <= stride,
    ;
    let r = finish_screenshot(plan, buf);
    assert(is_finished(*plan, packed, r));
    r
}

/// Law: the plan of a screenshot reads the probe as it is: the video stream's
/// index; the rotation given by the display angle (`a + 360` for a negative
/// angle `a`, `a` otherwise, 0 without a display matrix); a frame size that,
/// turned by that rotation, is the requested display size (each side falling
/// back to the decoder's size, swapped at 90 and 270 degrees); and a seek
/// window from 0 to one second after `ts`, each end `ts` (or `ts + 1000`)
/// milliseconds rounded to the nearest tick of the stream's time base.
pub proof fn lemma_plan_of_probe(
    input: MediaProbe,
    ts: i64,
    display_width: Option<u32>,
    display_height: Option<u32>,
)
    requires
        probe_is_valid(input),
        spec_get_info(input) is Ok ==> ts <= i64::MAX - 1000,
    ensures
        input.video is None ==> spec_plan_screenshot(input, ts, display_width, display_height)
            == Err::<ScreenshotPlan, FfError>(FfError::NoVideoStream),
        input.video is Some && input.video->0.decoder_size is Err ==> spec_plan_screenshot(
            input,
            ts,
            display_width,
            display_height,
        ) == Err::<ScreenshotPlan, FfError>(FfError::Ffmpeg(input.video->0.decoder_size->Err_0)),
        spec_plan_screenshot(input, ts, display_width, display_height) matches Ok(plan) ==> ({
            let video = input.video->0;
            let size = video.decoder_size->Ok_0;
            let rotation: int = match video.display_rotation {
                Some(angle) => if angle < 0 {
                    angle + 360
                } else {
                    angle as int
                },
                None => 0,
            };
            let turned = rotation == 90 || rotation == 270;
            let upright_width: int = match display_width {
                Some(w) => w as int,
                None => if turned {
                    size.1 as int
                } else {
                    size.0 as int
                },
            };
            let upright_height: int = match display_height {
                Some(h) => h as int,
                None => if turned {
                    size.0 as int
                } else {
                    size.1 as int
                },
            };
            let b = video.time_base.den as int;
            let c = (video.time_base.num as int) * 1000;
            &&& plan.stream_index == video.index
            &&& plan.rotation == rotation
            &&& plan.width == (if turned { upright_height } else { upright_width })
            &&& plan.height == (if turned { upright_width } else { upright_height })
            &&& plan.seek_min_ts == 0
            &&& plan.seek_ts == spec_rescale_q(ts, spec_millisecond(), video.time_base)
            &&& plan.seek_max_ts == spec_rescale_q((ts + 1000) as i64, spec_millisecond(), video.time_base)
            &&& plan.seek_ts != i64::MIN && ts != i64::MIN ==> c > 0 && -c <= 2 * ((plan.seek_ts as int) * c - ts * b) <= c
            &&& plan.seek_max_ts != i64::MIN ==> c > 0 && -c <= 2 * ((plan.seek_max_ts as int) * c - (ts
                + 1000) * b) <= c
        }),
{
    lemma_info_of_probe(input);
    if spec_get_info(input) is Ok {
        let tb = input.video->0.time_base;
        lemma_rescale_q_rounds(ts, spec_millisecond(), tb);
        lemma_rescale_q_rounds((ts + 1000) as i64, spec_millisecond(), tb);
    }
}

/// Law: the decoding loop skips the packets of every other stream and sends
/// those of the planned stream to the decoder; after a packet is sent it asks
/// for a frame; a refused packet or a decoder error other than "try again"
/// ends decoding with that error; "try again" and empty frames lead to the
/// next packet; the first frame with a picture, or the end of the packets,
/// leads to scaling.
pub proof fn lemma_decode_policy(plan: ScreenshotPlan, event: DecodeEvent)
    ensures
        event matches DecodeEvent::Packet { stream_index } ==> spec_decode_step(plan, event) == (if stream_index
            == plan.stream_index {
            DecodeAction::SendPacket
        } else {
            DecodeAction::ReadPacket
        }),
        event == DecodeEvent::Sent(Ok(())) ==> spec_decode_step(plan, event) == DecodeAction::ReceiveFrame,
        event matches DecodeEvent::Sent(Err(code)) ==> spec_decode_step(plan, event) == DecodeAction::Fail(FfError::Ffmpeg(code)),
        event == DecodeEvent::Received(ReceiveOutcome::Frame { empty: true }) ==> spec_decode_step(plan, event)
            == DecodeAction::ReadPacket,
        event == DecodeEvent::Received(ReceiveOutcome::Frame { empty: false }) ==> spec_decode_step(plan, event)
            == DecodeAction::ScaleFrame,
        event == DecodeEvent::Received(ReceiveOutcome::Again) ==> spec_decode_step(plan, event) == DecodeAction::ReadPacket,
        event matches DecodeEvent::Received(ReceiveOutcome::Failed(code)) ==> spec_decode_step(plan, event) == DecodeAction::Fail(
            FfError::Ffmpeg(code),
        ),
        event == DecodeEvent::EndOfPackets ==> spec_decode_step(plan, event) == DecodeAction::ScaleFrame,
{
}

/// Law: without a requested size, a screenshot's frame is scaled to the size
/// of the decoded frames: the display size swapped back by the rotation is the
/// decoder's size.
pub proof fn lemma_default_frame_size_is_decoder_size(input: MediaProbe)
    requires
        spec_get_info(input) is Ok,
    ensures
        spec_frame_size(spec_get_info(input)->Ok_0, None, None) == (
            spec_get_info(input)->Ok_0.width,
            spec_get_info(input)->Ok_0.height,
        ),
{
}

/// Law: a screenshot comes out upright at the requested display size (each
/// side falling back to the video's display size): the frame is scaled to
/// `(width, height)`, and at 90 and 270 degrees turning it swaps the sides, so
/// the upright picture is `display_width` by `display_height`.
pub proof fn lemma_screenshot_display_size(
    input: MediaProbe,
    ts: i64,
    display_width: Option<u32>,
    display_height: Option<u32>,
)
    requires
        spec_plan_screenshot(input, ts, display_width, display_height) is Ok,
    ensures
        ({
            let info = spec_get_info(input)->Ok_0;
            let plan = spec_plan_screenshot(input, ts, display_width, display_height)->Ok_0;
            let turned = plan.rotation == 90 || plan.rotation == 270;
            let upright_width = if turned { plan.height } else { plan.width };
            let upright_height = if turned { plan.width } else { plan.height };
            &&& upright_width == match display_width {
                Some(w) => w,
                None => info.display_width,
            }
            &&& upright_height == match display_height {
                Some(h) => h,
                None => info.display_height,
            }
        }),
{
}

/// Law: for a timestamp `ts >= 0`, the seek window runs forward: it starts at
/// 0, and the target lies between the start and the end, whenever the end
/// (one second after `ts`) has a value in the stream's time base.
pub proof fn lemma_seek_window_ordered(
    input: MediaProbe,
    ts: i64,
    display_width: Option<u32>,
    display_height: Option<u32>,
)
    requires
        0 <= ts <= i64::MAX - 1000,
        spec_plan_screenshot(input, ts, display_width, display_height) is Ok,
        spec_plan_screenshot(input, ts, display_width, display_height)->Ok_0.seek_max_ts != i64::MIN,
    ensures
        ({
            let plan = spec_plan_screenshot(input, ts, display_width, display_height)->Ok_0;
            0 == plan.seek_min_ts <= plan.seek_ts <= plan.seek_max_ts
        }),
{
    let tb = input.video->0.time_base;
    let end = (ts + 1000) as i64;
    lemma_rescale_q_defined_below(ts, end, spec_millisecond(), tb);
    lemma_rescale_q_nonnegative(ts, spec_millisecond(), tb);
    lemma_rescale_q_monotonic(ts, end, spec_millisecond(), tb);
}

} // verus!
