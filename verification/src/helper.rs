use vstd::prelude::*;

use crate::error::FfError;
use crate::rational::{lemma_rounded_is_nearest, rescale_q, rescale_rounded, spec_rescale_q, Rational};

verus! {

/// What the library reads of a video stream of an opened input.
#[derive(Clone, Copy, Debug, PartialEq, Eq)]
pub struct VideoStreamProbe {
    /// The index of the stream in the input.
    pub index: usize,
    /// The time base of the stream's timestamps.
    pub time_base: Rational,
    /// The angle of the stream's display matrix, rounded to whole degrees
    /// (counterclockwise); `None` when the stream has no display matrix.
    pub display_rotation: Option<i32>,
    /// The frame size `(width, height)` of the stream's video decoder, or the
    /// `AVERROR` code with which opening the decoder failed.
    pub decoder_size: Result<(u32, u32), i32>,
}

/// What the library reads of an opened media input.
#[derive(Clone, Copy, Debug, PartialEq, Eq)]
pub struct MediaProbe {
    /// The duration of the input, in `AV_TIME_BASE` units (microseconds).
    pub duration: i64,
    /// The best video stream of the input, if it has one.
    pub video: Option<VideoStreamProbe>,
}

/// Information on the video of an input.
#[derive(Clone, Copy, Debug, PartialEq, Eq)]
pub struct VideoInfo {
    /// degrees, 0-360, counterclockwise
    pub rotation: i32,
    /// whether rotation is 90 or 270
    pub should_swap: bool,
    /// milliseconds
    pub duration: i64,
    /// raw width, before rotation is applied
    pub width: u32,
    /// raw height, before rotation is applied
    pub height: u32,
    /// display width, after rotation is applied
    pub display_width: u32,
    /// display height, after rotation is applied
    pub display_height: u32,
}

impl Default for VideoInfo {
    fn default() -> (r: Self)
        ensures
            r == (VideoInfo {
                rotation: 0,
                should_swap: false,
                duration: 0,
                width: 0,
                height: 0,
                display_width: 0,
                display_height: 0,
            }),
    {
        VideoInfo {
            rotation: 0,
            should_swap: false,
            duration: 0,
            width: 0,
            height: 0,
            display_width: 0,
            display_height: 0,
        }
    }
}

/// `AV_TIME_BASE_Q`, the microsecond time base.
pub open spec fn spec_av_time_base() -> Rational {
    Rational { num: 1, den: 1000000 }
}

/// The millisecond time base.
pub open spec fn spec_millisecond() -> Rational {
    Rational { num: 1, den: 1000 }
}

/// `AV_TIME_BASE_Q`, the microsecond time base.
pub fn av_time_base() -> (r: Rational)
    ensures
        r == spec_av_time_base(),
{
    Rational { num: 1, den: 1000000 }
}

/// The millisecond time base.
pub fn millisecond() -> (r: Rational)
    ensures
        r == spec_millisecond(),
{
    Rational { num: 1, den: 1000 }
}

/// The remainder of `a / m` as Rust's `%` computes it: it takes the sign of `a`.
pub open spec fn truncated_rem(a: int, m: int) -> int {
    if a >= 0 {
        a % m
    } else {
        -((-a) % m)
    }
}

/// An angle in degrees brought into `0..360` as `(angle + 360) % 360`.
pub open spec fn spec_normalize_rotation(angle: int) -> int {
    truncated_rem(angle + 360, 360)
}

/// Brings an angle in degrees into `0..360` as `(angle + 360) % 360` does.
pub fn normalize_rotation(angle: i32) -> (r: i32)
    requires
        angle <= i32::MAX - 360,
    ensures
        r == spec_normalize_rotation(angle as int),
        angle >= -360 ==> 0 <= r < 360,
        -360 <= angle < 0 ==> r == angle + 360,
        0 <= angle < 360 ==> r == angle,
{
    let s: i32 = angle + 360;
    if s >= 0 {
        s % 360
    } else {
        -((-s) % 360)
    }
}

/// The duration of the input in milliseconds.
pub open spec fn spec_get_duration(input: MediaProbe) -> i64 {
    spec_rescale_q(input.duration, spec_av_time_base(), spec_millisecond())
}

/// Converting microseconds to milliseconds rounds to the nearest millisecond.
proof fn lemma_duration_ms(d: i64)
    requires
        d != i64::MIN,
    ensures
        spec_rescale_q(d, spec_av_time_base(), spec_millisecond()) == rescale_rounded(
            d as int,
            1,
            1000,
        ),
        rescale_rounded(d as int, 1, 1000) == rescale_rounded(d as int, 1000, 1000000),
{
    let m: int = if d < 0 { -d } else { d as int };
    assert((m * 1000 + 500000) / 1000000 == (m + 500) / 1000) by (nonlinear_arith)
        requires
            m >= 0,
    ;
}

/// The duration of the input, in milliseconds: the input's `AV_TIME_BASE`
/// duration rescaled to milliseconds.
pub fn get_duration(input: &MediaProbe) -> (r: Result<i64, FfError>)
    ensures
        r == Ok::<i64, FfError>(spec_get_duration(*input)),
        input.duration != i64::MIN ==> r == Ok::<i64, FfError>(
            rescale_rounded(input.duration as int, 1, 1000) as i64,
        ),
        r is Ok,
        input.duration != i64::MIN ==> -1000 <= 2 * ((r->Ok_0 as int) * 1000 - input.duration) <= 1000,
{
    proof {
        if input.duration != i64::MIN {
            lemma_duration_ms(input.duration);
            lemma_rounded_is_nearest(input.duration as int, 1, 1000);
        }
    }
    Ok(rescale_q(input.duration, av_time_base(), millisecond()))
}


/// The angle that a video stream's display matrix gives, before it is brought
/// into `0..360`; 0 when there is no display matrix.
pub open spec fn raw_rotation(video: VideoStreamProbe) -> int {
    match video.display_rotation {
        Some(angle) => angle as int,
        None => 0,
    }
}

/// What the library requires of a probe: a display-matrix angle in
/// `-180..=180`, the range of `av_display_rotation_get`.
pub open spec fn probe_is_valid(input: MediaProbe) -> bool {
    match input.video {
        Some(video) => -180 <= raw_rotation(video) <= 180,
        None => true,
    }
}

/// The rotation of the video, in degrees counterclockwise.
pub open spec fn spec_get_rotation(input: MediaProbe) -> Result<i32, FfError> {
    match input.video {
        None => Err(FfError::NoVideoStream),
        Some(video) => Ok(spec_normalize_rotation(raw_rotation(video)) as i32),
    }
}

/// The rotation of the video in degrees (0-360), counterclockwise.
pub fn get_rotation(input: &MediaProbe) -> (r: Result<i32, FfError>)
    requires
        probe_is_valid(*input),
    ensures
        r == spec_get_rotation(*input),
        input.video is None <==> r == Err::<i32, FfError>(FfError::NoVideoStream),
        r matches Ok(rotation) ==> 0 <= rotation < 360,
        input.video matches Some(video) ==> r == Ok::<i32, FfError>(
            match video.display_rotation {
                Some(angle) => if angle < 0 {
                    (angle + 360) as i32
                } else {
                    angle
                },
                None => 0i32,
            },
        ),
{
    let video = match &input.video {
        Some(video) => video,
        None => {
            return Err(FfError::NoVideoStream);
        },
    };
    let mut rotation: i32 = 0;
    if let Some(angle) = video.display_rotation {
        rotation = angle;
    }
    Ok(normalize_rotation(rotation))
}

/// The video information of an input.
pub open spec fn spec_get_info(input: MediaProbe) -> Result<VideoInfo, FfError> {
    match input.video {
        None => Err(FfError::NoVideoStream),
        Some(video) => match video.decoder_size {
            Err(code) => Err(FfError::Ffmpeg(code)),
            Ok(size) => {
                let rotation = spec_normalize_rotation(raw_rotation(video)) as i32;
                let should_swap = rotation == 90 || rotation == 270;
                Ok(
                    VideoInfo {
                        rotation,
                        should_swap,
                        duration: spec_get_duration(input),
                        width: size.0,
                        height: size.1,
                        display_width: if should_swap { size.1 } else { size.0 },
                        display_height: if should_swap { size.0 } else { size.1 },
                    },
                )
            },
        },
    }
}

/// The video information of an input: duration (ms), rotation, raw size and
/// display size (the raw size with width and height swapped when the rotation
/// is 90 or 270 degrees).
pub fn get_info(input: &MediaProbe) -> (r: Result<VideoInfo, FfError>)
    requires
        probe_is_valid(*input),
    ensures
        r == spec_get_info(*input),
        r is Err <==> (input.video is None || input.video->0.decoder_size is Err),
        r matches Ok(info) ==> {
            &&& info.should_swap <==> (info.rotation == 90 || info.rotation == 270)
            &&& info.display_width * info.display_height == info.width * info.height
            &&& 0 <= info.rotation < 360
            &&& info.display_width == (if info.should_swap { info.height } else { info.width })
            &&& info.display_height == (if info.should_swap { info.width } else { info.height })
        },
        input.video is None ==> r == Err::<VideoInfo, FfError>(FfError::NoVideoStream),
        input.video is Some && input.video->0.decoder_size is Err ==> r == Err::<VideoInfo, FfError>(
            FfError::Ffmpeg(input.video->0.decoder_size->Err_0),
        ),
        r matches Ok(info) ==> {
            let video = input.video->0;
            &&& info.width == video.decoder_size->Ok_0.0
            &&& info.height == video.decoder_size->Ok_0.1
            &&& info.rotation == match video.display_rotation {
                Some(angle) => if angle < 0 {
                    angle + 360
                } else {
                    angle as int
                },
                None => 0,
            }
            &&& input.duration != i64::MIN ==> -1000 <= 2 * ((info.duration as int) * 1000
                - input.duration) <= 1000
        },
{
    let duration = get_duration(input)?;
    let rotation = get_rotation(input)?;
    let video = match &input.video {
        Some(video) => video,
        None => {
            return Err(FfError::NoVideoStream);
        },
    };
    let (width, height) = match video.decoder_size {
        Ok(size) => size,
        Err(code) => {
            return Err(FfError::Ffmpeg(code));
        },
    };
    let should_swap = match rotation {
        90 | 270 => true,
        _ => false,
    };
    let (display_width, display_height) = if should_swap {
        (height, width)
    } else {
        (width, height)
    };
    proof {
        assert(height * width == width * height) by (nonlinear_arith);
    }
    Ok(
        VideoInfo {
            duration,
            rotation,
            width,
            height,
            should_swap,
            display_width,
            display_height,
        },
    )
}


/// Law: the rotation of a video with a display angle `a` (in `-180..=180`) is
/// `a + 360` for a negative angle and `a` otherwise; without a display matrix
/// it is 0; without a video stream there is none.
pub proof fn lemma_rotation_of_display_angle(input: MediaProbe)
    requires
        probe_is_valid(input),
    ensures
        input.video is None ==> spec_get_rotation(input) == Err::<i32, FfError>(FfError::NoVideoStream),
        input.video matches Some(video) ==> spec_get_rotation(input) == Ok::<i32, FfError>(
            match video.display_rotation {
                Some(angle) => if angle < 0 {
                    (angle + 360) as i32
                } else {
                    angle
                },
                None => 0i32,
            },
        ),
{
}

/// Law: the information of a video holds the decoder's width and height as
/// read, the rotation given by the display angle (`a + 360` for a negative
/// angle `a`, `a` otherwise, 0 without a display matrix), the display size
/// with width and height swapped exactly at 90 and 270 degrees, and the
/// duration rounded to the nearest millisecond.
pub proof fn lemma_info_of_probe(input: MediaProbe)
    requires
        probe_is_valid(input),
    ensures
        input.video is None ==> spec_get_info(input) == Err::<VideoInfo, FfError>(FfError::NoVideoStream),
        input.video is Some && input.video->0.decoder_size is Err ==> spec_get_info(input) == Err::<
            VideoInfo,
            FfError,
        >(FfError::Ffmpeg(input.video->0.decoder_size->Err_0)),
        input.video is Some && input.video->0.decoder_size is Ok ==> {
            let video = input.video->0;
            let size = video.decoder_size->Ok_0;
            let rotation: int = match video.display_rotation {
                Some(angle) => if angle < 0 {
                    angle + 360
                } else {
                    angle as int
                },
                None => 0,
            };
            let swap = rotation == 90 || rotation == 270;
            spec_get_info(input) matches Ok(info) && info.width == size.0 && info.height == size.1
                && info.rotation == rotation && info.should_swap == swap && info.display_width == (
            if swap {
                size.1
            } else {
                size.0
            }) && info.display_height == (if swap {
                size.0
            } else {
                size.1
            }) && (input.duration != i64::MIN ==> -1000 <= 2 * ((info.duration as int) * 1000
                - input.duration) <= 1000)
        },
{
    if input.duration != i64::MIN {
        lemma_duration_ms(input.duration);
        lemma_rounded_is_nearest(input.duration as int, 1, 1000);
    }
}

} // verus!
